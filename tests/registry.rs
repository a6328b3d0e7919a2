use wasi_wheels::archive::{resolve_unpack_path, top_level_dir, unpack_path};
use wasi_wheels::registry::{verify_integrity, version_from_filename};
use wasi_wheels::{Hashes, IndexError, Project, ProjectFile, Yanked};

const HELLO_SHA256: &str = "2cf24dba5fb0a30e26e83b2ac5b9e29e1b161e5c1fa7425e73043362938b9824";

fn file(filename: &str, yanked: Yanked) -> ProjectFile {
    ProjectFile {
        filename: filename.to_string(),
        hashes: Hashes { sha256: HELLO_SHA256.to_string() },
        url: format!("https://files.example/{filename}"),
        yanked,
    }
}

fn project(name: &str, versions: &[&str], files: Vec<ProjectFile>) -> Project {
    Project {
        name: name.to_string(),
        files,
        versions: versions.iter().map(|v| v.to_string()).collect(),
    }
}

fn sorted_versions(p: Project) -> Vec<String> {
    let mut v: Vec<String> = p.sdist_files().into_iter().map(|e| e.version).collect();
    v.sort();
    v
}

#[test]
fn resolve_sdist_returns_the_listed_file() {
    let p = project(
        "pydantic-core",
        &["2.27.2"],
        vec![file("pydantic_core-2.27.2.tar.gz", Yanked::Flag(false))],
    );
    let f = p.resolve_sdist("2.27.2").unwrap();
    assert_eq!(f.filename, "pydantic_core-2.27.2.tar.gz");
    assert_eq!(f.url, "https://files.example/pydantic_core-2.27.2.tar.gz");
}

#[test]
fn resolve_sdist_of_unknown_version_fails() {
    let p = project(
        "pydantic-core",
        &["2.27.2"],
        vec![file("pydantic_core-2.27.2.tar.gz", Yanked::Flag(false))],
    );
    assert_eq!(
        p.resolve_sdist("9.9.9").unwrap_err(),
        IndexError::VersionNotFound {
            project: "pydantic-core".to_string(),
            version: "9.9.9".to_string()
        }
    );
}

#[test]
fn one_eligible_file_per_version() {
    let p = project(
        "pydantic-core",
        &["2.27.1", "2.27.2", "2.28.0"],
        vec![
            file("pydantic_core-2.27.1.tar.gz", Yanked::NotYanked),
            file("pydantic_core-2.27.1-cp312-cp312-manylinux.whl", Yanked::NotYanked),
            file("pydantic_core-2.27.2.tar.gz", Yanked::Flag(false)),
            file("pydantic_core-2.28.0.tar.gz", Yanked::NotYanked),
        ],
    );
    assert_eq!(sorted_versions(p), vec!["2.27.1", "2.27.2", "2.28.0"]);
}

#[test]
fn yanked_files_are_never_eligible() {
    let p = project(
        "foo",
        &["1.0", "1.1", "1.2", "1.3"],
        vec![
            file("foo-1.0.tar.gz", Yanked::Flag(true)),
            file("foo-1.1.tar.gz", Yanked::Reason("broken build".to_string())),
            file("foo-1.2.tar.gz", Yanked::Reason(String::new())),
            file("foo-1.3.tar.gz", Yanked::Flag(false)),
        ],
    );
    assert_eq!(sorted_versions(p), vec!["1.3"]);
}

#[test]
fn snake_case_archive_name_resolves_through_fallback() {
    assert_eq!(
        version_from_filename("pydantic_core-2.27.2.tar.gz", "pydantic-core", "pydantic_core"),
        Some("2.27.2".to_string())
    );
    let p = project(
        "pydantic-core",
        &["2.27.2"],
        vec![file("pydantic_core-2.27.2.tar.gz", Yanked::NotYanked)],
    );
    assert_eq!(sorted_versions(p), vec!["2.27.2"]);
}

#[test]
fn canonical_name_is_tried_first() {
    assert_eq!(
        version_from_filename("Foo-Bar-1.0.tar.gz", "Foo-Bar", "foo_bar"),
        Some("1.0".to_string())
    );
    assert_eq!(version_from_filename("foo_bar-1.0.zip", "Foo-Bar", "foo_bar"), None);
    assert_eq!(version_from_filename("other-1.0.tar.gz", "Foo-Bar", "foo_bar"), None);
}

#[test]
fn empty_version_is_not_eligible() {
    let p = project("foo", &["1.0"], vec![file("foo-.tar.gz", Yanked::NotYanked)]);
    assert!(p.sdist_files().is_empty());
}

#[test]
fn later_file_of_a_version_wins() {
    let mut second = file("foo-1.0.tar.gz", Yanked::NotYanked);
    second.url = "https://mirror.example/foo-1.0.tar.gz".to_string();
    let p = project("foo", &["1.0"], vec![file("foo-1.0.tar.gz", Yanked::NotYanked), second]);
    let files = p.sdist_files();
    assert_eq!(files.len(), 1);
    assert_eq!(files[0].file.url, "https://mirror.example/foo-1.0.tar.gz");
}

#[test]
fn unsupported_format_is_refused() {
    let f = file("foo-1.0.zip", Yanked::NotYanked);
    assert_eq!(f.check_sdist_format(), Err(IndexError::UnsupportedFormat));
    assert_eq!(file("foo-1.0.tar.gz", Yanked::NotYanked).check_sdist_format(), Ok(()));
}

#[test]
fn matching_digest_returns_bytes_unchanged() {
    let bytes = b"hello".to_vec();
    assert_eq!(verify_integrity(bytes.clone(), HELLO_SHA256).unwrap(), bytes);
    let upper = HELLO_SHA256.to_uppercase();
    assert_eq!(verify_integrity(bytes.clone(), &upper).unwrap(), bytes);
    let f = file("foo-1.0.tar.gz", Yanked::NotYanked);
    assert_eq!(f.verify_download(bytes.clone()).unwrap(), bytes);
}

#[test]
fn mismatching_digest_is_an_integrity_error() {
    assert_eq!(verify_integrity(b"hello!".to_vec(), HELLO_SHA256), Err(IndexError::Integrity));
    let zeros = "00".repeat(32);
    assert_eq!(verify_integrity(b"hello".to_vec(), &zeros), Err(IndexError::Integrity));
}

#[test]
fn malformed_digest_is_a_registry_error() {
    assert_eq!(verify_integrity(b"hello".to_vec(), "xyz"), Err(IndexError::Registry));
    assert_eq!(verify_integrity(b"hello".to_vec(), "abc"), Err(IndexError::Registry));
    let h = Hashes { sha256: "zz".to_string() };
    assert_eq!(h.valid(b"hello"), Err(IndexError::Registry));
    let h = Hashes { sha256: HELLO_SHA256.to_string() };
    assert_eq!(h.valid(b"hello"), Ok(true));
}

#[test]
fn top_level_directory_of_entries() {
    assert_eq!(top_level_dir("foo-1.0/"), Some("foo-1.0".to_string()));
    assert_eq!(top_level_dir("foo-1.0/setup.py"), Some("foo-1.0".to_string()));
    assert_eq!(top_level_dir("foo-1.0/src/lib.rs"), Some("foo-1.0/src".to_string()));
    assert_eq!(top_level_dir("README"), Some("README".to_string()));
    assert_eq!(top_level_dir(""), None);
    assert_eq!(top_level_dir("/"), None);
}

#[test]
fn unpack_path_joins_top_level_directory() {
    assert_eq!(resolve_unpack_path("D", "foo-1.0/"), Ok("D/foo-1.0".to_string()));
    assert_eq!(resolve_unpack_path("D/", "foo-1.0/x.py"), Ok("D/foo-1.0".to_string()));
    assert_eq!(resolve_unpack_path("D", "setup.py"), Ok("D/setup.py".to_string()));
    assert_eq!(resolve_unpack_path("D", ""), Err(IndexError::InvalidArchive));
}

fn tarball(entries: &[(&str, bool)]) -> Vec<u8> {
    let enc = flate2::write::GzEncoder::new(Vec::new(), flate2::Compression::default());
    let mut builder = tar::Builder::new(enc);
    for (path, is_dir) in entries {
        let mut header = tar::Header::new_gnu();
        if *is_dir {
            header.set_entry_type(tar::EntryType::Directory);
            header.set_size(0);
            header.set_mode(0o755);
            header.set_cksum();
            builder.append_data(&mut header, path, std::io::empty()).unwrap();
        } else {
            let data = b"print('hi')\n";
            header.set_size(data.len() as u64);
            header.set_mode(0o644);
            header.set_cksum();
            builder.append_data(&mut header, path, &data[..]).unwrap();
        }
    }
    builder.into_inner().unwrap().finish().unwrap()
}

#[test]
fn unpack_path_reads_the_archive_first_entry() {
    let archive = tarball(&[("foo-1.0/", true), ("foo-1.0/setup.py", false)]);
    assert_eq!(unpack_path(&archive, "D"), Ok("D/foo-1.0".to_string()));
    let flat = tarball(&[("setup.py", false)]);
    assert_eq!(unpack_path(&flat, "D"), Ok("D/setup.py".to_string()));
}

#[test]
fn unreadable_archive_is_invalid() {
    assert_eq!(unpack_path(b"not a tarball", "D"), Err(IndexError::InvalidArchive));
    let empty = tarball(&[]);
    assert_eq!(unpack_path(&empty, "D"), Err(IndexError::InvalidArchive));
}

#[test]
fn digest_comparison_ignores_hex_case() {
    let digest: Vec<u8> = (0u8..32).collect();
    let lower = Hashes { sha256: hex_lower(&digest) };
    let upper = Hashes { sha256: hex_lower(&digest).to_uppercase() };
    assert_eq!(lower.matches_digest(&digest), Ok(true));
    assert_eq!(upper.matches_digest(&digest), Ok(true));
    assert_eq!(lower.matches_digest(&digest[1..]), Ok(false));
}

fn hex_lower(b: &[u8]) -> String {
    b.iter().map(|x| format!("{x:02x}")).collect()
}

#[test]
fn error_messages_name_the_missing_version() {
    let e = IndexError::VersionNotFound { project: "foo".to_string(), version: "1.0".to_string() };
    assert_eq!(e.message(), "no version 1.0 for project foo");
    assert_eq!(IndexError::Integrity.message(), "file doesn't match hash");
}

#[test]
fn listed_versions_are_recognised() {
    let p = project("foo", &["1.0", "1.1"], vec![]);
    assert!(p.lists_version("1.1"));
    assert!(!p.lists_version("1.2"));
    assert!(!p.lists_version(""));
}

#[test]
fn verified_archive_is_located_in_destination() {
    let archive = tarball(&[("pydantic_core-2.27.2/", true), ("pydantic_core-2.27.2/setup.py", false)]);
    let digest = hex::encode(<sha2::Sha256 as sha2::Digest>::digest(&archive));
    let mut f = file("pydantic_core-2.27.2.tar.gz", Yanked::NotYanked);
    f.hashes = Hashes { sha256: digest };
    let (bytes, target) = f.verify_and_locate(archive.clone(), "/tmp/out").unwrap();
    assert_eq!(bytes, archive);
    assert_eq!(target, "/tmp/out/pydantic_core-2.27.2");
    let tampered = tarball(&[("other-1.0/", true)]);
    assert_eq!(f.verify_and_locate(tampered, "/tmp/out"), Err(IndexError::Integrity));
}
