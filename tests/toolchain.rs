use wasi_wheels::toolchain::CpythonStep::{
    ConfigureBuildPython, ConfigureHost, CreateBuildDirs, FetchSource, MakeBuildPython, MakeHost,
    MakeInstall,
};
use wasi_wheels::toolchain::{package_dirs, ToolchainError};
use wasi_wheels::{wheel_path, PublishFlags, PythonVersion, SupportedProjects, WasiSdk, Workspace};

#[test]
fn wheel_path_names_snake_case_project() {
    assert_eq!(
        wheel_path(SupportedProjects::PydanticCore, PythonVersion::Py3_12, "/pkgs/pydantic_core-2.27.2", "2.27.2"),
        "/pkgs/pydantic_core-2.27.2/dist/pydantic_core-2.27.2-cp312-cp312-wasi_0_0_0_wasm32.whl"
    );
    assert_eq!(
        wheel_path(SupportedProjects::PydanticCore, PythonVersion::Py3_13, "p", "1.0"),
        "p/dist/pydantic_core-1.0-cp313-cp313-wasi_0_0_0_wasm32.whl"
    );
}

#[test]
fn cpython_directories() {
    assert_eq!(PythonVersion::Py3_12.cpython_dir("/r"), "/r/cpython-3.12.9-wasi-sdk-24.0");
    assert_eq!(PythonVersion::Py3_12.cross_prefix("/r"), "/r/cpython-3.12.9-wasi-sdk-24.0/builddir/wasi/install");
    assert_eq!(
        PythonVersion::Py3_13.cross_lib_dir("/r/"),
        "/r/cpython-3.13.2-wasi-sdk-24.0/cross-build/wasm32-wasip2/build/lib.wasi-wasm32-3.13"
    );
    assert_eq!(PythonVersion::Py3_13.wasi_sdk_path("/r"), "/r/wasi-sdk-24.0");
    assert_eq!(PythonVersion::Py3_13.to_str(), "3.13");
    assert_eq!(PythonVersion::all(), vec![PythonVersion::Py3_12, PythonVersion::Py3_13]);
    assert_eq!(
        PythonVersion::Py3_12.cpython_source_url(),
        "https://github.com/python/cpython/archive/refs/tags/v3.12.9.tar.gz"
    );
}

#[test]
fn sdk_archive_names() {
    let sdk = WasiSdk::V24;
    assert_eq!(sdk.archive_name("x86_64", "linux"), Ok("wasi-sdk-24.0-x86_64-linux".to_string()));
    assert_eq!(sdk.archive_name("aarch64", "macos"), Ok("wasi-sdk-24.0-arm64-macos".to_string()));
    assert_eq!(sdk.archive_name("riscv64", "linux"), Err(ToolchainError::UnsupportedArchitecture));
    assert_eq!(sdk.archive_name("x86_64", "freebsd"), Err(ToolchainError::UnsupportedOs));
    assert_eq!(
        sdk.download_url("wasi-sdk-24.0-x86_64-linux"),
        "https://github.com/WebAssembly/wasi-sdk/releases/download/wasi-sdk-24/wasi-sdk-24.0-x86_64-linux.tar.gz"
    );
    assert_eq!(sdk.dir(""), "wasi-sdk-24.0");
}

#[test]
fn run_info_describes_the_run() {
    let none = PublishFlags { repo: Some("o/r".to_string()), run_id: None };
    assert_eq!(none.run_info(), "No provided run information");
    let id_only = PublishFlags { repo: None, run_id: Some(0) };
    assert_eq!(id_only.run_info(), "Built with run 0");
    let both = PublishFlags { repo: Some("o/r".to_string()), run_id: Some(1234509876) };
    assert_eq!(both.run_info(), "Built with run https://github.com/o/r/actions/runs/1234509876");
}

#[test]
fn release_tag_and_package_dirs() {
    assert_eq!(SupportedProjects::PydanticCore.release_tag("2.27.2"), "pydantic-core/v2.27.2");
    assert_eq!(
        package_dirs("out", "pydantic-core", "2.27.2"),
        ("out/pydantic-core-2.27.2".to_string(), "out/pydantic_core-2.27.2".to_string())
    );
    let ws = Workspace { repo_dir: "/repo".to_string() };
    assert_eq!(ws.packages_dir(), "/repo/packages");
    assert_eq!(ws.index_dir(), "/repo/index");
}

#[test]
fn manifest_line_reads_back() {
    let line = wasi_wheels::publish::manifest_line("a-1.0.whl", b"hello");
    assert_eq!(
        line,
        "a-1.0.whl\t2cf24dba5fb0a30e26e83b2ac5b9e29e1b161e5c1fa7425e73043362938b9824\n"
    );
    let m = wasi_wheels::HashManifest::parse(&line);
    assert_eq!(
        m.get("a-1.0.whl"),
        Some("2cf24dba5fb0a30e26e83b2ac5b9e29e1b161e5c1fa7425e73043362938b9824".to_string())
    );
}

#[test]
fn cpython_steps_follow_what_is_present() {
    assert_eq!(PythonVersion::Py3_12.cpython_steps(true, true, true), vec![]);
    assert_eq!(PythonVersion::Py3_13.cpython_steps(false, true, false), vec![FetchSource]);
    assert_eq!(
        PythonVersion::Py3_12.cpython_steps(false, false, false),
        vec![FetchSource, CreateBuildDirs, ConfigureBuildPython, MakeBuildPython, ConfigureHost, MakeInstall]
    );
    assert_eq!(
        PythonVersion::Py3_13.cpython_steps(true, false, false),
        vec![ConfigureBuildPython, MakeBuildPython, ConfigureHost, MakeHost, MakeInstall]
    );
    assert_eq!(PythonVersion::Py3_13.cpython_steps(true, false, true), vec![ConfigureHost, MakeHost, MakeInstall]);
    assert_eq!(
        PythonVersion::Py3_12.wasi_library("/r"),
        "/r/cpython-3.12.9-wasi-sdk-24.0/builddir/wasi/libpython3.12.a"
    );
    assert_eq!(PythonVersion::Py3_13.native_build_dir("/r"), "/r/cpython-3.13.2-wasi-sdk-24.0/cross-build/build");
}
