use wasi_wheels::catalog::{hash_manifest_asset, tag_package, wheel_files};
use wasi_wheels::{Asset, FetchedRelease, HashManifest, IndexError, Packages, Release, WheelFile};

const WHEEL: &str = "pydantic_core-2.27.2-cp312-cp312-wasi.whl";
const BASE: &str = "https://github.com/o/r/releases/download/pydantic-core/v2.27.2";

fn asset(name: &str) -> Asset {
    Asset { name: name.to_string(), browser_download_url: format!("{BASE}/{name}") }
}

fn release(tag: &str, assets: Vec<Asset>, manifest: Option<&str>) -> FetchedRelease {
    FetchedRelease {
        release: Release { tag_name: tag.to_string(), assets },
        hashes: match manifest {
            Some(text) => HashManifest::parse(text),
            None => HashManifest::new(),
        },
    }
}

fn listing(p: &Packages) -> Vec<(String, Vec<(String, String)>)> {
    p.package_names()
        .into_iter()
        .map(|name| {
            let mut files: Vec<(String, String)> =
                p.package_wheels(&name).into_iter().map(|w| (w.name, w.url)).collect();
            files.sort();
            (name, files)
        })
        .collect::<std::collections::BTreeMap<_, _>>()
        .into_iter()
        .collect()
}

#[test]
fn release_with_manifest_gives_hashed_wheel() {
    let r = release(
        "pydantic-core/v2.27.2",
        vec![asset(WHEEL), asset("hashes.txt")],
        Some(&format!("{WHEEL}\tabc123\n")),
    );
    let p = Packages::from_releases(&vec![r]).unwrap();
    let l = listing(&p);
    assert_eq!(l.len(), 1);
    assert_eq!(l[0].0, "pydantic-core");
    assert_eq!(l[0].1.len(), 1);
    assert_eq!(l[0].1[0].0, WHEEL);
    assert!(l[0].1[0].1.ends_with("#sha256=abc123"));
    assert_eq!(l[0].1[0].1, format!("{BASE}/{WHEEL}#sha256=abc123"));
}

#[test]
fn tag_without_separator_is_skipped() {
    let r = release("unrelated-tag-no-slash-v", vec![asset(WHEEL)], None);
    let p = Packages::from_releases(&vec![r]).unwrap();
    assert!(p.package_names().is_empty());
    assert_eq!(tag_package("unrelated-tag-no-slash-v"), None);
    assert_eq!(tag_package("pydantic-core/v2.27.2"), Some("pydantic-core".to_string()));
}

#[test]
fn wheel_without_manifest_entry_keeps_plain_url() {
    let r = release("foo/v1.0", vec![asset("foo-1.0-py3-none-any.whl")], None);
    let p = Packages::from_releases(&vec![r]).unwrap();
    let l = listing(&p);
    assert_eq!(l[0].1[0].1, format!("{BASE}/foo-1.0-py3-none-any.whl"));
}

#[test]
fn only_wheel_assets_are_listed() {
    let assets = vec![
        asset("a-1.0.WHL"),
        asset("notes.txt"),
        asset(".whl"),
        asset("hashes.txt"),
        asset("b-1.0.whl"),
        asset("c.tar.gz"),
    ];
    assert_eq!(hash_manifest_asset(&assets), Some(3));
    let files = wheel_files(&assets, &HashManifest::new()).unwrap();
    let names: Vec<String> = files.into_iter().map(|w| w.name).collect();
    assert_eq!(names, vec!["a-1.0.WHL", "b-1.0.whl"]);
    assert_eq!(hash_manifest_asset(&vec![asset("a.whl")]), None);
}

#[test]
fn manifest_fragment_replaces_existing_fragment() {
    let a = Asset {
        name: "x.whl".to_string(),
        browser_download_url: "https://example.com/x.whl#old".to_string(),
    };
    let files = wheel_files(&vec![a], &HashManifest::parse("x.whl\tff00\n")).unwrap();
    assert_eq!(files[0].url, "https://example.com/x.whl#sha256=ff00");
}

#[test]
fn unparsable_url_with_digest_is_an_error() {
    let a = Asset { name: "x.whl".to_string(), browser_download_url: "not a url".to_string() };
    let r = wheel_files(&vec![a], &HashManifest::parse("x.whl\tff00"));
    assert_eq!(r.unwrap_err(), IndexError::InvalidUrl);
}

#[test]
fn manifest_parsing_rules() {
    let m = HashManifest::parse("a.whl\t11\r\nmalformed line\nb.whl\t22\tx\na.whl\t33\nc.whl\t44");
    assert_eq!(m.get("a.whl"), Some("33".to_string()));
    assert_eq!(m.get("b.whl"), Some("22\tx".to_string()));
    assert_eq!(m.get("c.whl"), Some("44".to_string()));
    assert_eq!(m.get("malformed line"), None);
    let crlf = HashManifest::parse("d.whl\t55\r\n");
    assert_eq!(crlf.get("d.whl"), Some("55".to_string()));
    assert_eq!(HashManifest::new().get("a.whl"), None);
}

#[test]
fn merge_order_does_not_matter() {
    let a = || release("foo/v1.0", vec![asset("foo-1.0.whl")], Some("foo-1.0.whl\taa\n"));
    let b = || release("foo/v2.0", vec![asset("foo-2.0.whl")], None);
    let c = || release("bar/v0.1", vec![asset("bar-0.1.whl")], None);
    let ab = Packages::from_releases(&vec![a(), b(), c()]).unwrap();
    let ba = Packages::from_releases(&vec![c(), b(), a()]).unwrap();
    assert_eq!(listing(&ab), listing(&ba));
    assert_eq!(ab.render_index(), ba.render_index());
    assert_eq!(ab.render_package_files(), ba.render_package_files());
    assert_eq!(listing(&ab).len(), 2);
}

#[test]
fn later_wheel_of_same_name_replaces_earlier() {
    let mut p = Packages::new();
    p.extend("foo", vec![WheelFile { url: "u1".to_string(), name: "w.whl".to_string() }]);
    p.extend("foo", vec![WheelFile { url: "u2".to_string(), name: "w.whl".to_string() }]);
    p.extend("bar", vec![]);
    assert_eq!(
        listing(&p),
        vec![
            ("bar".to_string(), vec![]),
            ("foo".to_string(), vec![("w.whl".to_string(), "u2".to_string())])
        ]
    );
}

#[test]
fn root_document_lists_sorted_packages() {
    let mut p = Packages::new();
    p.extend("zeta", vec![]);
    p.extend("alpha", vec![]);
    assert_eq!(
        p.render_index(),
        "<!DOCTYPE html>\n<html>\n  <head>\n    <title>Simple index</title>\n  </head>\n  <body>\n    <a href=\"alpha/\">alpha</a><br />\n    <a href=\"zeta/\">zeta</a><br />\n  </body>\n</html>\n"
    );
}

#[test]
fn package_document_lists_sorted_wheels() {
    let mut p = Packages::new();
    p.extend(
        "foo",
        vec![
            WheelFile { url: "https://x/foo-2.whl#sha256=bb".to_string(), name: "foo-2.whl".to_string() },
            WheelFile { url: "https://x/foo-1.whl".to_string(), name: "foo-1.whl".to_string() },
        ],
    );
    let docs = p.render_package_files();
    assert_eq!(docs.len(), 1);
    assert_eq!(docs[0].0, "foo");
    assert_eq!(
        docs[0].1,
        "<!DOCTYPE html>\n<html>\n  <head>\n    <title>Links for foo</title>\n  </head>\n  <body>\n    <h1>Links for foo</h1>\n    <a href=\"https://x/foo-1.whl\">foo-1.whl</a><br />\n    <a href=\"https://x/foo-2.whl#sha256=bb\">foo-2.whl</a><br />\n  </body>\n</html>\n"
    );
}

#[test]
fn rendering_twice_gives_identical_output() {
    let p = Packages::from_releases(&vec![
        release("b/v1", vec![asset("b-1.whl")], None),
        release("a/v1", vec![asset("a-1.whl"), asset("a-0.whl")], None),
    ])
    .unwrap();
    assert_eq!(p.render_index(), p.render_index());
    assert_eq!(p.render_package_files(), p.render_package_files());
    let docs = p.render_package_files();
    assert_eq!(docs.iter().map(|d| d.0.as_str()).collect::<Vec<_>>(), vec!["a", "b"]);
    assert!(docs[0].1.find("a-0.whl").unwrap() < docs[0].1.find("a-1.whl").unwrap());
}

#[test]
fn empty_catalog_renders_empty_listing() {
    let p = Packages::new();
    assert!(p.render_package_files().is_empty());
    assert!(p.render_index().contains("<body>\n  </body>"));
}

#[test]
fn wheel_files_compare_by_name_and_url() {
    let a = WheelFile { url: "https://x/a.whl".to_string(), name: "a.whl".to_string() };
    let same = WheelFile { url: "https://x/a.whl".to_string(), name: "a.whl".to_string() };
    let other_url = WheelFile { url: "https://y/a.whl".to_string(), name: "a.whl".to_string() };
    assert!(a == same);
    assert!(a != other_url);
}
