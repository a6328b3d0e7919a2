//! Names and locations of the build toolchain: the supported Python versions,
//! the WASI SDK they build with, and the wheels they produce.
use vstd::prelude::*;

use crate::registry::{snake_case_of, to_snake_case};
use crate::text::{from_chars, join_path, join_path_str, push_str};

verus! {

/// The places the tooling works in, below the repository directory.
pub struct Workspace {
    /// The repository directory.
    pub repo_dir: String,
}

impl Workspace {
    /// Where source distributions are unpacked by default.
    pub fn packages_dir(&self) -> (r: String)
        ensures
            r@ == join_path(self.repo_dir@, "packages"@),
    {
        join_path_str(self.repo_dir.as_str(), "packages")
    }

    /// Where the package index is written by default.
    pub fn index_dir(&self) -> (r: String)
        ensures
            r@ == join_path(self.repo_dir@, "index"@),
    {
        join_path_str(self.repo_dir.as_str(), "index")
    }
}

/// The WASI SDK releases in use.
#[derive(Clone, Copy, Debug, PartialEq, Eq, Structural)]
pub enum WasiSdk {
    V24,
}

/// Why no WASI SDK archive fits the host.
#[derive(Clone, Copy, Debug, PartialEq, Eq, Structural)]
pub enum ToolchainError {
    UnsupportedArchitecture,
    UnsupportedOs,
}

impl WasiSdk {
    pub open spec fn spec_release(self) -> Seq<char> {
        match self {
            WasiSdk::V24 => "wasi-sdk-24"@,
        }
    }

    pub open spec fn spec_version(self) -> Seq<char> {
        match self {
            WasiSdk::V24 => "24.0"@,
        }
    }

    /// The release tag of the SDK.
    pub fn release(&self) -> (r: &'static str)
        ensures
            r@ == self.spec_release(),
    {
        match self {
            WasiSdk::V24 => "wasi-sdk-24",
        }
    }

    /// The SDK's version number.
    pub fn version(&self) -> (r: &'static str)
        ensures
            r@ == self.spec_version(),
    {
        match self {
            WasiSdk::V24 => "24.0",
        }
    }

    /// The directory the SDK is installed in.
    pub fn dir(self, repo_dir: &str) -> (r: String)
        ensures
            r@ == join_path(repo_dir@, "wasi-sdk-"@ + self.spec_version()),
    {
        let mut name: Vec<char> = Vec::new();
        push_str(&mut name, "wasi-sdk-");
        push_str(&mut name, self.version());
        let name = from_chars(&name);
        join_path_str(repo_dir, name.as_str())
    }

    /// The name of the SDK archive for the host architecture `arch` and
    /// operating system `os` (as Rust names them): `aarch64` is published as
    /// `arm64`; other architectures than these two, and operating systems
    /// other than Linux, macOS and Windows, are not supported.
    pub fn archive_name(self, arch: &str, os: &str) -> (r: Result<String, ToolchainError>)
        ensures
            arch@ != "x86_64"@ && arch@ != "aarch64"@ ==> r == Err::<String, ToolchainError>(
                ToolchainError::UnsupportedArchitecture,
            ),
            (arch@ == "x86_64"@ || arch@ == "aarch64"@) && os@ != "linux"@ && os@ != "macos"@
                && os@ != "windows"@ ==> r == Err::<String, ToolchainError>(
                ToolchainError::UnsupportedOs,
            ),
            arch@ == "x86_64"@ && (os@ == "linux"@ || os@ == "macos"@ || os@ == "windows"@) ==> (r
                matches Ok(n) && n@ == "wasi-sdk-"@ + self.spec_version() + "-"@ + "x86_64"@ + "-"@
                + os@),
            arch@ == "aarch64"@ && (os@ == "linux"@ || os@ == "macos"@ || os@ == "windows"@) ==> (r
                matches Ok(n) && n@ == "wasi-sdk-"@ + self.spec_version() + "-"@ + "arm64"@ + "-"@
                + os@),
    {
        proof {
            reveal_strlit("x86_64");
            reveal_strlit("aarch64");
            assert("x86_64"@.len() != "aarch64"@.len());
        }
        let host_arch = if str_eq(arch, "x86_64") {
            "x86_64"
        } else if str_eq(arch, "aarch64") {
            "arm64"
        } else {
            return Err(ToolchainError::UnsupportedArchitecture);
        };
        if !(str_eq(os, "linux") || str_eq(os, "macos") || str_eq(os, "windows")) {
            return Err(ToolchainError::UnsupportedOs);
        }
        let mut name: Vec<char> = Vec::new();
        push_str(&mut name, "wasi-sdk-");
        push_str(&mut name, self.version());
        push_str(&mut name, "-");
        push_str(&mut name, host_arch);
        push_str(&mut name, "-");
        push_str(&mut name, os);
        Ok(from_chars(&name))
    }

    /// Where the SDK archive `archive_name` is downloaded from.
    pub fn download_url(self, archive_name: &str) -> (r: String)
        ensures
            r@ == "https://github.com/WebAssembly/wasi-sdk/releases/download/"@ + self.spec_release()
                + "/"@ + archive_name@ + ".tar.gz"@,
    {
        let mut url: Vec<char> = Vec::new();
        push_str(&mut url, "https://github.com/WebAssembly/wasi-sdk/releases/download/");
        push_str(&mut url, self.release());
        push_str(&mut url, "/");
        push_str(&mut url, archive_name);
        push_str(&mut url, ".tar.gz");
        from_chars(&url)
    }
}

/// Whether two texts are equal.
pub fn str_eq(a: &str, b: &str) -> (r: bool)
    ensures
        r == (a@ == b@),
{
    let x = crate::text::to_chars(a);
    let y = crate::text::to_chars(b);
    if x.len() != y.len() {
        return false;
    }
    let mut i: usize = 0;
    while i < x.len()
        invariant
            x@ == a@,
            y@ == b@,
            x@.len() == y@.len(),
            i <= x@.len(),
            forall|k: int| 0 <= k < i ==> x@[k] == y@[k],
        decreases x@.len() - i,
    {
        if x[i] != y[i] {
            assert(x@[i as int] != y@[i as int]);
            return false;
        }
        i = i + 1;
    }
    assert(x@ =~= y@);
    true
}


/// The supported Python versions.
#[derive(Clone, Copy, Debug, PartialEq, Eq, Structural)]
pub enum PythonVersion {
    /// Python 3.12
    Py3_12,
    /// Python 3.13
    Py3_13,
}

impl PythonVersion {
    pub open spec fn spec_minor(self) -> Seq<char> {
        match self {
            PythonVersion::Py3_12 => "3.12"@,
            PythonVersion::Py3_13 => "3.13"@,
        }
    }

    pub open spec fn spec_patch(self) -> Seq<char> {
        match self {
            PythonVersion::Py3_12 => "3.12.9"@,
            PythonVersion::Py3_13 => "3.13.2"@,
        }
    }

    /// The interpreter tag's digits, the minor version without its dot.
    pub open spec fn spec_tag_digits(self) -> Seq<char> {
        match self {
            PythonVersion::Py3_12 => "312"@,
            PythonVersion::Py3_13 => "313"@,
        }
    }

    /// The subdirectory of the CPython tree that its WASI build uses.
    pub open spec fn spec_wasi_subdir(self) -> Seq<char> {
        match self {
            PythonVersion::Py3_12 => "builddir/wasi"@,
            PythonVersion::Py3_13 => "cross-build/wasm32-wasip2"@,
        }
    }

    /// All supported versions.
    pub fn all() -> (r: Vec<PythonVersion>)
        ensures
            r@ == seq![PythonVersion::Py3_12, PythonVersion::Py3_13],
    {
        let r = vec![PythonVersion::Py3_12, PythonVersion::Py3_13];
        assert(r@ =~= seq![PythonVersion::Py3_12, PythonVersion::Py3_13]);
        r
    }

    /// The version as `major.minor`.
    pub fn to_str(self) -> (r: &'static str)
        ensures
            r@ == self.spec_minor(),
    {
        match self {
            PythonVersion::Py3_12 => "3.12",
            PythonVersion::Py3_13 => "3.13",
        }
    }

    /// The exact release in use.
    pub fn current_patch_version(self) -> (r: &'static str)
        ensures
            r@ == self.spec_patch(),
    {
        match self {
            PythonVersion::Py3_12 => "3.12.9",
            PythonVersion::Py3_13 => "3.13.2",
        }
    }

    /// The interpreter tag's digits (`312` for 3.12).
    pub fn tag_digits(self) -> (r: &'static str)
        ensures
            r@ == self.spec_tag_digits(),
    {
        match self {
            PythonVersion::Py3_12 => "312",
            PythonVersion::Py3_13 => "313",
        }
    }

    /// The WASI SDK this version builds with.
    pub fn wasi_sdk_version(self) -> (r: WasiSdk)
        ensures
            r == WasiSdk::V24,
    {
        WasiSdk::V24
    }

    /// The directory of the WASI SDK this version builds with.
    pub fn wasi_sdk_path(self, repo_dir: &str) -> (r: String)
        ensures
            r@ == join_path(repo_dir@, "wasi-sdk-"@ + WasiSdk::V24.spec_version()),
    {
        self.wasi_sdk_version().dir(repo_dir)
    }

    pub open spec fn spec_cpython_dir(self, repo_dir: Seq<char>) -> Seq<char> {
        join_path(
            repo_dir,
            "cpython-"@ + self.spec_patch() + "-wasi-sdk-"@ + WasiSdk::V24.spec_version(),
        )
    }

    /// The directory CPython is set up in.
    pub fn cpython_dir(self, repo_dir: &str) -> (r: String)
        ensures
            r@ == self.spec_cpython_dir(repo_dir@),
    {
        let mut name: Vec<char> = Vec::new();
        push_str(&mut name, "cpython-");
        push_str(&mut name, self.current_patch_version());
        push_str(&mut name, "-wasi-sdk-");
        push_str(&mut name, self.wasi_sdk_version().version());
        let name = from_chars(&name);
        join_path_str(repo_dir, name.as_str())
    }

    pub open spec fn spec_wasi_dir(self, repo_dir: Seq<char>) -> Seq<char> {
        join_path(self.spec_cpython_dir(repo_dir), self.spec_wasi_subdir())
    }

    /// The directory of CPython's WASI build.
    pub fn wasi_dir(self, repo_dir: &str) -> (r: String)
        ensures
            r@ == self.spec_wasi_dir(repo_dir@),
    {
        let cpython = self.cpython_dir(repo_dir);
        let sub = match self {
            PythonVersion::Py3_12 => "builddir/wasi",
            PythonVersion::Py3_13 => "cross-build/wasm32-wasip2",
        };
        join_path_str(cpython.as_str(), sub)
    }

    /// The install prefix of the WASI build.
    pub fn cross_prefix(self, repo_dir: &str) -> (r: String)
        ensures
            r@ == join_path(self.spec_wasi_dir(repo_dir@), "install"@),
    {
        join_path_str(self.wasi_dir(repo_dir).as_str(), "install")
    }

    /// The directory holding the library files of the WASI build.
    pub fn cross_lib_dir(self, repo_dir: &str) -> (r: String)
        ensures
            r@ == join_path(
                self.spec_wasi_dir(repo_dir@),
                "build/lib.wasi-wasm32-"@ + self.spec_minor(),
            ),
    {
        let mut sub: Vec<char> = Vec::new();
        push_str(&mut sub, "build/lib.wasi-wasm32-");
        push_str(&mut sub, self.to_str());
        let sub = from_chars(&sub);
        join_path_str(self.wasi_dir(repo_dir).as_str(), sub.as_str())
    }

    /// Where the CPython source of this version is downloaded from.
    pub fn cpython_source_url(self) -> (r: String)
        ensures
            r@ == "https://github.com/python/cpython/archive/refs/tags/v"@ + self.spec_patch()
                + ".tar.gz"@,
    {
        let mut url: Vec<char> = Vec::new();
        push_str(&mut url, "https://github.com/python/cpython/archive/refs/tags/v");
        push_str(&mut url, self.current_patch_version());
        push_str(&mut url, ".tar.gz");
        from_chars(&url)
    }
}

/// The projects that wheels are built for.
#[derive(Clone, Copy, Debug, PartialEq, Eq, Structural)]
pub enum SupportedProjects {
    /// <https://pypi.org/project/pydantic-core/>
    PydanticCore,
}

impl SupportedProjects {
    pub open spec fn spec_name(self) -> Seq<char> {
        match self {
            SupportedProjects::PydanticCore => "pydantic-core"@,
        }
    }

    /// The project's registry name, in kebab-case.
    pub fn name(self) -> (r: &'static str)
        ensures
            r@ == self.spec_name(),
    {
        match self {
            SupportedProjects::PydanticCore => "pydantic-core",
        }
    }

    /// The tag of the release that publishes `version` of the project's wheels.
    pub fn release_tag(self, version: &str) -> (r: String)
        ensures
            r@ == self.spec_name() + "/v"@ + version@,
    {
        let mut tag: Vec<char> = Vec::new();
        push_str(&mut tag, self.name());
        push_str(&mut tag, "/v");
        push_str(&mut tag, version);
        from_chars(&tag)
    }
}

/// The platform tag of the wheels built here.
pub open spec fn platform_tag() -> Seq<char> {
    "wasi_0_0_0_wasm32"@
}

/// The path of the wheel that building `version` of `project` with
/// `python_version` produces in `package_dir`.
pub fn wheel_path(
    project: SupportedProjects,
    python_version: PythonVersion,
    package_dir: &str,
    version: &str,
) -> (r: String)
    ensures
        r@ == join_path(
            package_dir@,
            "dist/"@ + snake_case_of(project.spec_name()) + "-"@ + version@ + "-cp"@
                + python_version.spec_tag_digits() + "-cp"@ + python_version.spec_tag_digits()
                + "-"@ + platform_tag() + ".whl"@,
        ),
{
    let snake = to_snake_case(project.name());
    let mut rel: Vec<char> = Vec::new();
    push_str(&mut rel, "dist/");
    push_str(&mut rel, snake.as_str());
    push_str(&mut rel, "-");
    push_str(&mut rel, version);
    push_str(&mut rel, "-cp");
    push_str(&mut rel, python_version.tag_digits());
    push_str(&mut rel, "-cp");
    push_str(&mut rel, python_version.tag_digits());
    push_str(&mut rel, "-");
    push_str(&mut rel, "wasi_0_0_0_wasm32");
    push_str(&mut rel, ".whl");
    let rel = from_chars(&rel);
    join_path_str(package_dir, rel.as_str())
}

/// The directories that an unpacked source distribution of `version` of
/// `project` may already occupy in `output_dir`: under the project's name
/// as given, and under its snake_case form.
pub fn package_dirs(output_dir: &str, project: &str, version: &str) -> (r: (String, String))
    ensures
        r.0@ == join_path(output_dir@, project@ + "-"@ + version@),
        r.1@ == join_path(output_dir@, snake_case_of(project@) + "-"@ + version@),
{
    let mut plain: Vec<char> = Vec::new();
    push_str(&mut plain, project);
    push_str(&mut plain, "-");
    push_str(&mut plain, version);
    let plain = from_chars(&plain);
    let snake = to_snake_case(project);
    let mut snaked: Vec<char> = Vec::new();
    push_str(&mut snaked, snake.as_str());
    push_str(&mut snaked, "-");
    push_str(&mut snaked, version);
    let snaked = from_chars(&snaked);
    (join_path_str(output_dir, plain.as_str()), join_path_str(output_dir, snaked.as_str()))
}


/// One step of setting CPython up for WASI.
#[derive(Clone, Copy, Debug, PartialEq, Eq, Structural)]
pub enum CpythonStep {
    /// Download the source archive and move it to the CPython directory.
    FetchSource,
    /// Create the native and WASI build directories.
    CreateBuildDirs,
    /// Configure the native build of Python that the cross build runs.
    ConfigureBuildPython,
    /// Build the native Python.
    MakeBuildPython,
    /// Configure the WASI build.
    ConfigureHost,
    /// Build for WASI.
    MakeHost,
    /// Install the WASI build into its prefix.
    MakeInstall,
}

impl PythonVersion {
    /// The steps that remain to set CPython up, given whether its source
    /// tree, its WASI library and its native build Python are present: the
    /// source is fetched where it is missing; where the library is missing,
    /// the native Python is built first if it is missing too, then the WASI
    /// build is configured, built and installed. Python 3.12 is built with
    /// configure and make, later versions with CPython's own WASI script.
    pub open spec fn spec_cpython_steps(
        self,
        source_present: bool,
        library_present: bool,
        build_python_present: bool,
    ) -> Seq<CpythonStep> {
        let fetch = if source_present {
            seq![]
        } else {
            seq![CpythonStep::FetchSource]
        };
        let native = if build_python_present {
            seq![]
        } else {
            match self {
                PythonVersion::Py3_12 => seq![
                    CpythonStep::CreateBuildDirs,
                    CpythonStep::ConfigureBuildPython,
                    CpythonStep::MakeBuildPython,
                ],
                PythonVersion::Py3_13 => seq![
                    CpythonStep::ConfigureBuildPython,
                    CpythonStep::MakeBuildPython,
                ],
            }
        };
        let host = match self {
            PythonVersion::Py3_12 => seq![CpythonStep::ConfigureHost, CpythonStep::MakeInstall],
            PythonVersion::Py3_13 => seq![
                CpythonStep::ConfigureHost,
                CpythonStep::MakeHost,
                CpythonStep::MakeInstall,
            ],
        };
        if library_present {
            fetch
        } else {
            fetch + native + host
        }
    }

    /// The steps that remain to set CPython up.
    pub fn cpython_steps(
        self,
        source_present: bool,
        library_present: bool,
        build_python_present: bool,
    ) -> (r: Vec<CpythonStep>)
        ensures
            r@ == self.spec_cpython_steps(source_present, library_present, build_python_present),
    {
        let mut steps: Vec<CpythonStep> = Vec::new();
        if !source_present {
            steps.push(CpythonStep::FetchSource);
        }
        if !library_present {
            if !build_python_present {
                if self == PythonVersion::Py3_12 {
                    steps.push(CpythonStep::CreateBuildDirs);
                }
                steps.push(CpythonStep::ConfigureBuildPython);
                steps.push(CpythonStep::MakeBuildPython);
            }
            steps.push(CpythonStep::ConfigureHost);
            if self == PythonVersion::Py3_13 {
                steps.push(CpythonStep::MakeHost);
            }
            steps.push(CpythonStep::MakeInstall);
        }
        assert(steps@ =~= self.spec_cpython_steps(source_present, library_present, build_python_present));
        steps
    }

    /// The directory of the native build that the cross build runs.
    pub fn native_build_dir(self, repo_dir: &str) -> (r: String)
        ensures
            r@ == join_path(
                self.spec_cpython_dir(repo_dir@),
                match self {
                    PythonVersion::Py3_12 => "builddir/build"@,
                    PythonVersion::Py3_13 => "cross-build/build"@,
                },
            ),
    {
        let cpython = self.cpython_dir(repo_dir);
        let sub = match self {
            PythonVersion::Py3_12 => "builddir/build",
            PythonVersion::Py3_13 => "cross-build/build",
        };
        join_path_str(cpython.as_str(), sub)
    }

    /// The static library whose presence shows that the WASI build is done.
    pub fn wasi_library(self, repo_dir: &str) -> (r: String)
        ensures
            r@ == join_path(self.spec_wasi_dir(repo_dir@), "libpython"@ + self.spec_minor() + ".a"@),
    {
        let mut name: Vec<char> = Vec::new();
        push_str(&mut name, "libpython");
        push_str(&mut name, self.to_str());
        push_str(&mut name, ".a");
        let name = from_chars(&name);
        join_path_str(self.wasi_dir(repo_dir).as_str(), name.as_str())
    }
}

} // verus!
