//! The release aggregator: a catalog of wheel files per package, built from
//! the tagged releases of a repository and their hash manifests.
use vstd::prelude::*;

use crate::error::IndexError;
use crate::text::{
    string_views, append_chars, from_chars, last_index_of, rfind_char, split_once, split_once_chars, to_chars,
};

verus! {

/// The current line of `str::lines` over `text` once `cur` has been read:
/// lines end at `\n`, and a `\r` just before that `\n` is dropped; a last
/// line without `\n` is kept as it is, and an empty text after the last
/// `\n` gives no line.
pub open spec fn lines_from(text: Seq<char>, cur: Seq<char>) -> Seq<Seq<char>>
    decreases text.len(),
{
    if text.len() == 0 {
        if cur.len() == 0 {
            seq![]
        } else {
            seq![cur]
        }
    } else if text[0] == '\n' {
        seq![strip_cr(cur)] + lines_from(text.drop_first(), seq![])
    } else {
        lines_from(text.drop_first(), cur.push(text[0]))
    }
}

/// `line` without one trailing `\r`.
pub open spec fn strip_cr(line: Seq<char>) -> Seq<char> {
    if line.len() > 0 && line.last() == '\r' {
        line.drop_last()
    } else {
        line
    }
}

/// The lines of `text`, as `str::lines` gives them.
pub open spec fn lines_of(text: Seq<char>) -> Seq<Seq<char>> {
    lines_from(text, seq![])
}

/// The `(filename, digest)` pairs of a manifest's lines: each line split at
/// its first tab; lines without a tab are ignored.
pub open spec fn manifest_pairs(lines: Seq<Seq<char>>) -> Seq<(Seq<char>, Seq<char>)>
    decreases lines.len(),
{
    if lines.len() == 0 {
        seq![]
    } else {
        let prev = manifest_pairs(lines.drop_last());
        match split_once(lines.last(), seq!['\t']) {
            Some(parts) => prev.push(parts),
            None => prev,
        }
    }
}

/// The map of a sequence of pairs, a later pair replacing an earlier one
/// with the same key.
pub open spec fn pairs_map(pairs: Seq<(Seq<char>, Seq<char>)>) -> Map<Seq<char>, Seq<char>>
    decreases pairs.len(),
{
    if pairs.len() == 0 {
        Map::empty()
    } else {
        pairs_map(pairs.drop_last()).insert(pairs.last().0, pairs.last().1)
    }
}

/// The digests that a release publishes for its files, by filename.
pub struct HashManifest {
    entries: Vec<(String, String)>,
}

pub open spec fn entry_views(entries: Seq<(String, String)>) -> Seq<(Seq<char>, Seq<char>)> {
    entries.map_values(|e: (String, String)| (e.0@, e.1@))
}

impl View for HashManifest {
    type V = Map<Seq<char>, Seq<char>>;

    closed spec fn view(&self) -> Map<Seq<char>, Seq<char>> {
        pairs_map(entry_views(self.entries@))
    }
}

/// Splits `line` at its first tab and appends the pair to `entries`.
fn push_manifest_line(entries: &mut Vec<(String, String)>, line: &[char])
    ensures
        entry_views(final(entries)@) == match split_once(line@, seq!['\t']) {
            Some(parts) => entry_views(old(entries)@).push(parts),
            None => entry_views(old(entries)@),
        },
{
    let tab = vec!['\t'];
    assert(tab@ =~= seq!['\t']);
    match split_once_chars(line, &tab) {
        Some(parts) => {
            entries.push((from_chars(&parts.0), from_chars(&parts.1)));
            assert(entry_views(final(entries)@) =~= entry_views(old(entries)@).push((parts.0@, parts.1@)));
        },
        None => {},
    }
}

impl HashManifest {
    /// The empty manifest, for a release that publishes none.
    pub fn new() -> (r: HashManifest)
        ensures
            r@ == Map::<Seq<char>, Seq<char>>::empty(),
    {
        let r = HashManifest { entries: Vec::new() };
        assert(entry_views(r.entries@) =~= seq![]);
        r
    }

    /// Parses a manifest of `filename<TAB>hexdigest` lines; lines without a
    /// tab are ignored, and a later line for a filename wins.
    pub fn parse(text: &str) -> (r: HashManifest)
        ensures
            r@ == pairs_map(manifest_pairs(lines_of(text@))),
    {
        let t = to_chars(text);
        let mut entries: Vec<(String, String)> = Vec::new();
        let mut cur: Vec<char> = Vec::new();
        let ghost mut done: Seq<Seq<char>> = seq![];
        let mut i: usize = 0;
        assert(entry_views(entries@) =~= seq![]);
        assert(t@.subrange(0, t@.len() as int) =~= t@);
        assert(cur@ =~= seq![]);
        assert(done + lines_from(t@, cur@) =~= lines_from(t@, cur@));
        while i < t.len()
            invariant
                i <= t@.len(),
                t@ == text@,
                lines_of(text@) == done + lines_from(t@.subrange(i as int, t@.len() as int), cur@),
                entry_views(entries@) == manifest_pairs(done),
            decreases t@.len() - i,
        {
            let ghost rest = t@.subrange(i as int, t@.len() as int);
            assert(rest.drop_first() =~= t@.subrange(i + 1, t@.len() as int));
            let c = t[i];
            if c == '\n' {
                let ghost line = strip_cr(cur@);
                if cur.len() > 0 && cur[cur.len() - 1] == '\r' {
                    cur.pop();
                }
                assert(cur@ == line);
                push_manifest_line(&mut entries, &cur);
                proof {
                    assert(done.push(line).drop_last() =~= done);
                    assert(done + (seq![line] + lines_from(rest.drop_first(), seq![])) =~= done.push(line)
                        + lines_from(rest.drop_first(), seq![]));
                    done = done.push(line);
                }
                cur = Vec::new();
                assert(cur@ =~= seq![]);
            } else {
                cur.push(c);
            }
            i = i + 1;
        }
        assert(t@.subrange(t@.len() as int, t@.len() as int) =~= seq![]);
        if cur.len() > 0 {
            push_manifest_line(&mut entries, &cur);
            proof {
                assert(done.push(cur@).drop_last() =~= done);
                assert(done + seq![cur@] =~= done.push(cur@));
            }
        } else {
            assert(done + seq![] =~= done);
        }
        HashManifest { entries }
    }
}


impl HashManifest {
    /// The digest that the manifest gives for `filename`.
    pub fn get(&self, filename: &str) -> (r: Option<String>)
        ensures
            match r {
                Some(h) => self@.contains_key(filename@) && self@[filename@] == h@,
                None => !self@.contains_key(filename@),
            },
    {
        let ghost all = entry_views(self.entries@);
        let key = filename.to_owned();
        let mut e: usize = self.entries.len();
        assert(all.subrange(0, e as int) =~= all);
        while e > 0
            invariant
                e <= self.entries@.len(),
                key@ == filename@,
                all == entry_views(self.entries@),
                pairs_map(all).contains_key(filename@) == pairs_map(all.subrange(0, e as int)).contains_key(filename@),
                pairs_map(all).contains_key(filename@) ==> pairs_map(all)[filename@] == pairs_map(all.subrange(0, e as int))[filename@],
            decreases e,
        {
            assert(all.subrange(0, e as int).drop_last() =~= all.subrange(0, e - 1));
            assert(all.subrange(0, e as int).last() == all[e - 1]);
            assert(all[e - 1] == (self.entries@[e - 1].0@, self.entries@[e - 1].1@));
            let ghost prefix = all.subrange(0, e - 1);
            assert(pairs_map(all.subrange(0, e as int)) == pairs_map(prefix).insert(all[e - 1].0, all[e - 1].1));
            if self.entries[e - 1].0 == key {
                return Some(self.entries[e - 1].1.clone());
            }
            e = e - 1;
        }
        None
    }
}

/// A downloadable file attached to a release.
#[derive(Debug)]
pub struct Asset {
    /// The file's name.
    pub name: String,
    /// Where the file can be downloaded.
    pub browser_download_url: String,
}

/// A tagged release of the repository that hosts the wheels.
#[derive(Debug)]
pub struct Release {
    pub tag_name: String,
    pub assets: Vec<Asset>,
}

/// A wheel file listed in the index.
#[derive(Debug)]
pub struct WheelFile {
    /// URL that downloads the wheel, with `#sha256=<hex>` where its digest is known.
    pub url: String,
    /// The file name to render.
    pub name: String,
}

/// The package that a release's tag names: the text before the first `/v`
/// of a tag `{package}/v{version}`. `None` for a tag outside that convention.
pub open spec fn package_of_tag(tag: Seq<char>) -> Option<Seq<char>> {
    match split_once(tag, seq!['/', 'v']) {
        Some(parts) => Some(parts.0),
        None => None,
    }
}

/// The package that the release tag `tag` names.
pub fn tag_package(tag: &str) -> (r: Option<String>)
    ensures
        match r {
            Some(p) => package_of_tag(tag@) == Some(p@),
            None => package_of_tag(tag@) is None,
        },
{
    let t = to_chars(tag);
    let sep = vec!['/', 'v'];
    assert(sep@ =~= seq!['/', 'v']);
    match split_once_chars(&t, &sep) {
        Some(parts) => Some(from_chars(&parts.0)),
        None => None,
    }
}

/// The name of the hash manifest asset.
pub open spec fn manifest_name() -> Seq<char> {
    seq!['h', 'a', 's', 'h', 'e', 's', '.', 't', 'x', 't']
}

/// `c` is `lower` or `upper`.
pub open spec fn either_case(c: char, lower: char, upper: char) -> bool {
    c == lower || c == upper
}

/// The file name `name` has the extension `whl`, in any case: the text after
/// its last `.` is `whl`, and that `.` does not begin the name. (Asset names
/// are plain file names, without directories.)
pub open spec fn has_wheel_extension(name: Seq<char>) -> bool {
    let k = last_index_of(name, '.');
    &&& k > 0
    &&& name.len() == k + 4
    &&& either_case(name[k + 1], 'w', 'W')
    &&& either_case(name[k + 2], 'h', 'H')
    &&& either_case(name[k + 3], 'l', 'L')
}

/// Whether `name` is a wheel file name.
pub fn is_wheel_name(name: &str) -> (r: bool)
    ensures
        r == has_wheel_extension(name@),
{
    let s = to_chars(name);
    assert(s@.subrange(0, s@.len() as int) =~= s@);
    match rfind_char(&s, s.len(), '.') {
        Some(k) => {
            k > 0 && s.len() - k == 4 && (s[k + 1] == 'w' || s[k + 1] == 'W') && (s[k + 2] == 'h'
                || s[k + 2] == 'H') && (s[k + 3] == 'l' || s[k + 3] == 'L')
        },
        None => false,
    }
}

/// A URL with its fragment set, as the url crate serialises it; `None` where
/// the URL does not parse.
pub uninterp spec fn url_with_fragment(url: Seq<char>, fragment: Seq<char>) -> Option<Seq<char>>;

/// Relies on url's `Url::parse` and `Url::set_fragment`: `url` with its
/// fragment replaced by `fragment`, serialised; `None` where `url` does not
/// parse. The result depends on the two texts alone.
#[verifier::external_body]
fn set_url_fragment(url: &str, fragment: &str) -> (r: Option<String>)
    ensures
        match r {
            Some(u) => url_with_fragment(url@, fragment@) == Some(u@),
            None => url_with_fragment(url@, fragment@) is None,
        },
{
    let mut parsed = url::Url::parse(url).ok()?;
    parsed.set_fragment(Some(fragment));
    Some(parsed.into())
}

/// The fragment that carries a digest: `sha256=<hex>`.
pub open spec fn digest_fragment(hex: Seq<char>) -> Seq<char> {
    seq!['s', 'h', 'a', '2', '5', '6', '='] + hex
}

/// The URL under which a wheel asset is listed: its download URL, with the
/// digest fragment where the manifest has an entry for its name. `None`
/// where that URL cannot be parsed.
pub open spec fn wheel_url(asset_name: Seq<char>, url: Seq<char>, manifest: Map<Seq<char>, Seq<char>>) -> Option<Seq<char>> {
    if manifest.contains_key(asset_name) {
        url_with_fragment(url, digest_fragment(manifest[asset_name]))
    } else {
        Some(url)
    }
}

/// The wheel files, as `(name, url)`, of a release's assets: its `.whl`
/// assets in order; `None` where one of their URLs cannot be parsed.
pub open spec fn release_wheels(assets: Seq<Asset>, manifest: Map<Seq<char>, Seq<char>>) -> Option<
    Seq<(Seq<char>, Seq<char>)>,
>
    decreases assets.len(),
{
    if assets.len() == 0 {
        Some(seq![])
    } else {
        match release_wheels(assets.drop_last(), manifest) {
            None => None,
            Some(prev) => {
                let a = assets.last();
                if has_wheel_extension(a.name@) {
                    match wheel_url(a.name@, a.browser_download_url@, manifest) {
                        Some(u) => Some(prev.push((a.name@, u))),
                        None => None,
                    }
                } else {
                    Some(prev)
                }
            },
        }
    }
}

/// The views of wheel files, as `(name, url)`.
pub open spec fn wheel_views(ws: Seq<WheelFile>) -> Seq<(Seq<char>, Seq<char>)> {
    ws.map_values(|w: WheelFile| (w.name@, w.url@))
}

/// The index of the release's hash manifest asset (`hashes.txt`), if it has one.
pub fn hash_manifest_asset(assets: &Vec<Asset>) -> (r: Option<usize>)
    ensures
        match r {
            Some(k) => k < assets@.len() && assets@[k as int].name@ == manifest_name() && forall|j: int|
                0 <= j < k ==> assets@[j].name@ != manifest_name(),
            None => forall|j: int| 0 <= j < assets@.len() ==> assets@[j].name@ != manifest_name(),
        },
{
    let wanted = vec!['h', 'a', 's', 'h', 'e', 's', '.', 't', 'x', 't'];
    assert(wanted@ =~= manifest_name());
    let wanted = from_chars(&wanted);
    let mut k: usize = 0;
    while k < assets.len()
        invariant
            k <= assets@.len(),
            wanted@ == manifest_name(),
            forall|j: int| 0 <= j < k ==> assets@[j].name@ != manifest_name(),
        decreases assets@.len() - k,
    {
        if assets[k].name == wanted {
            return Some(k);
        }
        k = k + 1;
    }
    None
}

/// The wheel files of a release: each asset whose extension is `whl` (in any
/// case), in order, listed under its download URL with `#sha256=<hex>` set
/// where `hashes` has a digest for its name. Other assets, the manifest
/// among them, are left out. An error where a URL cannot be parsed.
pub fn wheel_files(assets: &Vec<Asset>, hashes: &HashManifest) -> (r: Result<Vec<WheelFile>, IndexError>)
    ensures
        match release_wheels(assets@, hashes@) {
            Some(ws) => r matches Ok(files) && wheel_views(files@) == ws,
            None => r matches Err(IndexError::InvalidUrl),
        },
{
    let mut out: Vec<WheelFile> = Vec::new();
    let mut i: usize = 0;
    assert(wheel_views(out@) =~= seq![]);
    while i < assets.len()
        invariant
            i <= assets@.len(),
            release_wheels(assets@.subrange(0, i as int), hashes@) == Some(wheel_views(out@)),
        decreases assets@.len() - i,
    {
        assert(assets@.subrange(0, i + 1).drop_last() =~= assets@.subrange(0, i as int));
        let a = &assets[i];
        if is_wheel_name(a.name.as_str()) {
            let url = match hashes.get(a.name.as_str()) {
                Some(hex) => {
                    let mut fragment = vec!['s', 'h', 'a', '2', '5', '6', '='];
                    let h = to_chars(hex.as_str());
                    append_chars(&mut fragment, &h);
                    assert(fragment@ =~= digest_fragment(hex@));
                    let fragment = from_chars(&fragment);
                    match set_url_fragment(a.browser_download_url.as_str(), fragment.as_str()) {
                        Some(u) => u,
                        None => {
                            proof { lemma_release_wheels_fails(assets@, (i + 1) as int, hashes@); }
                            assert(assets@.subrange(0, assets@.len() as int) =~= assets@);
                            return Err(IndexError::InvalidUrl);
                        },
                    }
                },
                None => a.browser_download_url.clone(),
            };
            let ghost before = wheel_views(out@);
            out.push(WheelFile { url, name: a.name.clone() });
            assert(wheel_views(out@) =~= before.push((a.name@, url@)));
        }
        i = i + 1;
    }
    assert(assets@.subrange(0, assets@.len() as int) =~= assets@);
    Ok(out)
}

/// Once the wheels of a prefix of the assets fail, those of any longer prefix fail too.
proof fn lemma_release_wheels_fails(assets: Seq<Asset>, n: int, manifest: Map<Seq<char>, Seq<char>>)
    requires
        0 <= n <= assets.len(),
        release_wheels(assets.subrange(0, n), manifest) is None,
    ensures
        release_wheels(assets, manifest) is None,
    decreases assets.len() - n,
{
    if n < assets.len() {
        assert(assets.subrange(0, n + 1).drop_last() =~= assets.subrange(0, n));
        lemma_release_wheels_fails(assets, n + 1, manifest);
    } else {
        assert(assets.subrange(0, n) =~= assets);
    }
}


/// Some wheel of `files` is named `name`.
pub open spec fn has_wheel(files: Seq<WheelFile>, name: Seq<char>) -> bool {
    exists|i: int| 0 <= i < files.len() && files[i].name@ == name
}

/// No two wheels of `files` have the same name.
pub open spec fn wheel_names_distinct(files: Seq<WheelFile>) -> bool {
    forall|i: int, j: int| 0 <= i < j < files.len() ==> files[i].name@ != files[j].name@
}

/// The wheels of `files` as a map from file name to URL.
pub open spec fn files_view(files: Seq<WheelFile>) -> Map<Seq<char>, Seq<char>> {
    Map::new(
        |k: Seq<char>| has_wheel(files, k),
        |k: Seq<char>| files[choose|i: int| 0 <= i < files.len() && files[i].name@ == k].url@,
    )
}

pub(crate) proof fn lemma_files_view_at(files: Seq<WheelFile>, i: int)
    requires
        wheel_names_distinct(files),
        0 <= i < files.len(),
    ensures
        files_view(files).contains_key(files[i].name@),
        files_view(files)[files[i].name@] == files[i].url@,
{
    let k = files[i].name@;
    assert(has_wheel(files, k));
    let j = choose|j: int| 0 <= j < files.len() && files[j].name@ == k;
    assert(j == i);
}

impl PartialEq for WheelFile {
    /// Two wheel files are equal where both their names and their URLs are.
    fn eq(&self, other: &WheelFile) -> (r: bool)
        ensures
            r == (self.name@ == other.name@ && self.url@ == other.url@),
    {
        self.name == other.name && self.url == other.url
    }
}

impl vstd::std_specs::cmp::PartialEqSpecImpl for WheelFile {
    open spec fn obeys_eq_spec() -> bool {
        true
    }

    open spec fn eq_spec(&self, other: &WheelFile) -> bool {
        self.name@ == other.name@ && self.url@ == other.url@
    }
}

impl Clone for WheelFile {
    fn clone(&self) -> (r: Self)
        ensures
            r == *self,
    {
        WheelFile { url: self.url.clone(), name: self.name.clone() }
    }
}

/// The index of the wheel of `files` named `name`, if any.
pub(crate) fn position_of_wheel(files: &Vec<WheelFile>, name: &String) -> (k: Option<usize>)
    ensures
        match k {
            Some(k) => k < files@.len() && files@[k as int].name@ == name@,
            None => forall|a: int| 0 <= a < files@.len() ==> files@[a].name@ != name@,
        },
{
    let mut k: usize = 0;
    while k < files.len()
        invariant
            k <= files@.len(),
            forall|a: int| 0 <= a < k ==> files@[a].name@ != name@,
        decreases files@.len() - k,
    {
        if files[k].name == *name {
            return Some(k);
        }
        k = k + 1;
    }
    None
}

/// Adds `w` to `files`, replacing the wheel of the same name.
fn upsert_wheel(files: &mut Vec<WheelFile>, w: WheelFile)
    requires
        wheel_names_distinct(old(files)@),
    ensures
        wheel_names_distinct(final(files)@),
        files_view(final(files)@) == files_view(old(files)@).insert(w.name@, w.url@),
{
    let ghost old_files = files@;
    let ghost (wn, wu) = (w.name@, w.url@);
    let k = match position_of_wheel(files, &w.name) {
        Some(k) => {
            files.set(k, w);
            k
        },
        None => {
            files.push(w);
            files.len() - 1
        },
    };
    let ghost new_files = files@;
    assert(new_files[k as int].name@ == wn && new_files[k as int].url@ == wu);
    assert forall|a: int| 0 <= a < new_files.len() && a != k implies new_files[a] == old_files[a]
        && new_files[a].name@ != wn by {}
    assert(wheel_names_distinct(new_files));
    assert forall|key: Seq<char>| #[trigger] files_view(new_files).contains_key(key)
        <==> files_view(old_files).insert(wn, wu).contains_key(key) by {
        if has_wheel(old_files, key) && key != wn {
            let a = choose|a: int| 0 <= a < old_files.len() && old_files[a].name@ == key;
            assert(new_files[a].name@ == key);
        }
        if has_wheel(new_files, key) && key != wn {
            let a = choose|a: int| 0 <= a < new_files.len() && new_files[a].name@ == key;
            assert(old_files[a].name@ == key);
        }
    }
    assert forall|key: Seq<char>| #[trigger] files_view(new_files).contains_key(key)
        implies files_view(new_files)[key] == files_view(old_files).insert(wn, wu)[key] by {
        let a = choose|a: int| 0 <= a < new_files.len() && new_files[a].name@ == key;
        lemma_files_view_at(new_files, a);
        if key != wn {
            lemma_files_view_at(old_files, a);
        }
    }
    assert(files_view(new_files) =~= files_view(old_files).insert(wn, wu));
}

/// `m` with the wheels `ws` added in turn, a later one replacing an earlier
/// one of the same name.
pub open spec fn merge_wheels(m: Map<Seq<char>, Seq<char>>, ws: Seq<(Seq<char>, Seq<char>)>) -> Map<
    Seq<char>,
    Seq<char>,
>
    decreases ws.len(),
{
    if ws.len() == 0 {
        m
    } else {
        merge_wheels(m, ws.drop_last()).insert(ws.last().0, ws.last().1)
    }
}

/// The wheel files listed for a package in a catalog view; none where it is absent.
pub open spec fn package_files(
    c: Map<Seq<char>, Map<Seq<char>, Seq<char>>>,
    package: Seq<char>,
) -> Map<Seq<char>, Seq<char>> {
    if c.contains_key(package) {
        c[package]
    } else {
        Map::empty()
    }
}

/// The catalog `c` with the wheels `ws` merged in under `package`; the
/// package is listed even where `ws` is empty.
pub open spec fn add_wheels(
    c: Map<Seq<char>, Map<Seq<char>, Seq<char>>>,
    package: Seq<char>,
    ws: Seq<(Seq<char>, Seq<char>)>,
) -> Map<Seq<char>, Map<Seq<char>, Seq<char>>> {
    c.insert(package, merge_wheels(package_files(c, package), ws))
}

/// Merges `ws` into `files`.
fn merge_into(files: &mut Vec<WheelFile>, ws: Vec<WheelFile>)
    requires
        wheel_names_distinct(old(files)@),
    ensures
        wheel_names_distinct(final(files)@),
        files_view(final(files)@) == merge_wheels(files_view(old(files)@), wheel_views(ws@)),
{
    let ghost start = files_view(files@);
    let ghost all = wheel_views(ws@);
    let mut i: usize = 0;
    while i < ws.len()
        invariant
            i <= ws@.len(),
            wheel_names_distinct(files@),
            all == wheel_views(ws@),
            files_view(files@) == merge_wheels(start, all.subrange(0, i as int)),
        decreases ws@.len() - i,
    {
        let w = ws[i].clone();
        assert(all.subrange(0, i + 1).drop_last() =~= all.subrange(0, i as int));
        assert(all[i as int] == (w.name@, w.url@));
        upsert_wheel(files, w);
        i = i + 1;
    }
    assert(all.subrange(0, ws@.len() as int) =~= all);
}


/// The wheel files listed for one package.
struct PackageEntry {
    name: String,
    files: Vec<WheelFile>,
}

/// The package catalog: for each package name, its wheel files by file name.
pub struct Packages {
    packages: Vec<PackageEntry>,
}

spec fn has_package(ps: Seq<PackageEntry>, name: Seq<char>) -> bool {
    exists|i: int| 0 <= i < ps.len() && ps[i].name@ == name
}

spec fn catalog_view(ps: Seq<PackageEntry>) -> Map<Seq<char>, Map<Seq<char>, Seq<char>>> {
    Map::new(
        |k: Seq<char>| has_package(ps, k),
        |k: Seq<char>| files_view(ps[choose|i: int| 0 <= i < ps.len() && ps[i].name@ == k].files@),
    )
}

spec fn entries_wf(ps: Seq<PackageEntry>) -> bool {
    &&& forall|i: int, j: int| 0 <= i < j < ps.len() ==> ps[i].name@ != ps[j].name@
    &&& forall|i: int| 0 <= i < ps.len() ==> wheel_names_distinct(#[trigger] ps[i].files@)
}

proof fn lemma_catalog_view_at(ps: Seq<PackageEntry>, i: int)
    requires
        entries_wf(ps),
        0 <= i < ps.len(),
    ensures
        catalog_view(ps).contains_key(ps[i].name@),
        catalog_view(ps)[ps[i].name@] == files_view(ps[i].files@),
{
    let k = ps[i].name@;
    assert(has_package(ps, k));
    let j = choose|j: int| 0 <= j < ps.len() && ps[j].name@ == k;
    assert(j == i);
}

impl View for Packages {
    type V = Map<Seq<char>, Map<Seq<char>, Seq<char>>>;

    closed spec fn view(&self) -> Map<Seq<char>, Map<Seq<char>, Seq<char>>> {
        catalog_view(self.packages@)
    }
}

impl Packages {
    /// Package names are unique, and so are file names within a package.
    pub closed spec fn wf(&self) -> bool {
        entries_wf(self.packages@)
    }

    /// The empty catalog.
    pub fn new() -> (r: Packages)
        ensures
            r.wf(),
            r@ == Map::<Seq<char>, Map<Seq<char>, Seq<char>>>::empty(),
    {
        let r = Packages { packages: Vec::new() };
        assert(r@ =~= Map::<Seq<char>, Map<Seq<char>, Seq<char>>>::empty());
        r
    }

    /// The index of the entry of `package`, if any.
    fn position_of(&self, package: &String) -> (k: Option<usize>)
        ensures
            match k {
                Some(k) => k < self.packages@.len() && self.packages@[k as int].name@ == package@,
                None => forall|a: int|
                    0 <= a < self.packages@.len() ==> self.packages@[a].name@ != package@,
            },
    {
        let mut k: usize = 0;
        while k < self.packages.len()
            invariant
                k <= self.packages@.len(),
                forall|a: int| 0 <= a < k ==> self.packages@[a].name@ != package@,
            decreases self.packages@.len() - k,
        {
            if self.packages[k].name == *package {
                return Some(k);
            }
            k = k + 1;
        }
        None
    }

    /// Adds the wheels of a release of `package`; a wheel replaces one of the
    /// same file name already listed for that package.
    pub fn extend(&mut self, package: &str, wheels: Vec<WheelFile>)
        requires
            old(self).wf(),
        ensures
            final(self).wf(),
            final(self)@ == add_wheels(old(self)@, package@, wheel_views(wheels@)),
    {
        let ghost old_ps = self.packages@;
        let name = package.to_owned();
        let k = match self.position_of(&name) {
            Some(k) => k,
            None => {
                self.packages.push(PackageEntry { name: name.clone(), files: Vec::new() });
                proof {
                    let ps = self.packages@;
                    assert forall|a: int| 0 <= a < old_ps.len() implies ps[a] == old_ps[a] by {}
                    assert(ps[ps.len() - 1].files@ =~= Seq::<WheelFile>::empty());
                    assert(files_view(ps[ps.len() - 1].files@) =~= Map::<Seq<char>, Seq<char>>::empty());
                }
                self.packages.len() - 1
            },
        };
        let ghost mid_ps = self.packages@;
        assert(entries_wf(mid_ps));
        proof { lemma_catalog_view_at(mid_ps, k as int); }
        assert(files_view(mid_ps[k as int].files@) == package_files(catalog_view(old_ps), package@)) by {
            if has_package(old_ps, package@) {
                let a = choose|a: int| 0 <= a < old_ps.len() && old_ps[a].name@ == package@;
                lemma_catalog_view_at(old_ps, a);
            }
        }
        let mut entry = self.packages.remove(k);
        merge_into(&mut entry.files, wheels);
        self.packages.insert(k, entry);
        proof {
            let ps = self.packages@;
            assert forall|a: int| 0 <= a < ps.len() && a != k implies ps[a] == mid_ps[a] by {}
            assert(entries_wf(ps));
            let target = add_wheels(catalog_view(old_ps), package@, wheel_views(wheels@));
            assert forall|key: Seq<char>| #[trigger] catalog_view(ps).contains_key(key)
                <==> target.contains_key(key) by {
                if has_package(ps, key) && key != package@ {
                    let a = choose|a: int| 0 <= a < ps.len() && ps[a].name@ == key;
                    assert(a < old_ps.len() && old_ps[a].name@ == key);
                }
                if has_package(old_ps, key) {
                    let a = choose|a: int| 0 <= a < old_ps.len() && old_ps[a].name@ == key;
                    assert(ps[a].name@ == key);
                }
                assert(ps[k as int].name@ == package@);
            }
            assert forall|key: Seq<char>| #[trigger] catalog_view(ps).contains_key(key)
                implies catalog_view(ps)[key] == target[key] by {
                let a = choose|a: int| 0 <= a < ps.len() && ps[a].name@ == key;
                lemma_catalog_view_at(ps, a);
                if key != package@ {
                    lemma_catalog_view_at(old_ps, a);
                }
            }
            assert(catalog_view(ps) =~= target);
        }
    }
}


/// A release together with the hash manifest it publishes (empty where it
/// publishes none).
pub struct FetchedRelease {
    pub release: Release,
    pub hashes: HashManifest,
}

/// The catalog `c` after the release `r`: unchanged where its tag names no
/// package, its wheels merged in under that package otherwise; `None` where
/// one of its wheel URLs cannot be parsed.
pub open spec fn add_release(
    c: Map<Seq<char>, Map<Seq<char>, Seq<char>>>,
    r: FetchedRelease,
) -> Option<Map<Seq<char>, Map<Seq<char>, Seq<char>>>> {
    match package_of_tag(r.release.tag_name@) {
        None => Some(c),
        Some(p) => match release_wheels(r.release.assets@, r.hashes@) {
            Some(ws) => Some(add_wheels(c, p, ws)),
            None => None,
        },
    }
}

/// The catalog of a sequence of releases, folded in order from the empty
/// catalog; `None` where one of them fails.
pub open spec fn catalog_of(rs: Seq<FetchedRelease>) -> Option<Map<Seq<char>, Map<Seq<char>, Seq<char>>>>
    decreases rs.len(),
{
    if rs.len() == 0 {
        Some(Map::empty())
    } else {
        match catalog_of(rs.drop_last()) {
            Some(c) => add_release(c, rs.last()),
            None => None,
        }
    }
}

proof fn lemma_catalog_of_fails(rs: Seq<FetchedRelease>, n: int)
    requires
        0 <= n <= rs.len(),
        catalog_of(rs.subrange(0, n)) is None,
    ensures
        catalog_of(rs) is None,
    decreases rs.len() - n,
{
    if n < rs.len() {
        assert(rs.subrange(0, n + 1).drop_last() =~= rs.subrange(0, n));
        lemma_catalog_of_fails(rs, n + 1);
    } else {
        assert(rs.subrange(0, n) =~= rs);
    }
}

impl Packages {
    /// Aggregates releases into a catalog: each release whose tag reads
    /// `{package}/v{version}` contributes its wheel files under `package`;
    /// releases with other tags are skipped. Fails where any release fails.
    pub fn from_releases(releases: &Vec<FetchedRelease>) -> (r: Result<Packages, IndexError>)
        ensures
            match catalog_of(releases@) {
                Some(c) => r matches Ok(p) && p.wf() && p@ == c,
                None => r matches Err(IndexError::InvalidUrl),
            },
    {
        let mut packages = Packages::new();
        let mut i: usize = 0;
        while i < releases.len()
            invariant
                i <= releases@.len(),
                packages.wf(),
                catalog_of(releases@.subrange(0, i as int)) == Some(packages@),
            decreases releases@.len() - i,
        {
            assert(releases@.subrange(0, i + 1).drop_last() =~= releases@.subrange(0, i as int));
            let fetched = &releases[i];
            match tag_package(fetched.release.tag_name.as_str()) {
                Some(package) => {
                    match wheel_files(&fetched.release.assets, &fetched.hashes) {
                        Ok(wheels) => {
                            packages.extend(package.as_str(), wheels);
                        },
                        Err(e) => {
                            proof { lemma_catalog_of_fails(releases@, i + 1); }
                            return Err(e);
                        },
                    }
                },
                None => {},
            }
            i = i + 1;
        }
        assert(releases@.subrange(0, releases@.len() as int) =~= releases@);
        Ok(packages)
    }
}

/// Two wheel maps give the same URL for every file name they share.
pub open spec fn wheels_agree(a: Map<Seq<char>, Seq<char>>, b: Map<Seq<char>, Seq<char>>) -> bool {
    forall|k: Seq<char>| a.contains_key(k) && b.contains_key(k) ==> a[k] == b[k]
}

/// Two releases do not conflict: where both name the same package and
/// their wheels can be listed, they give the same URL for every wheel file
/// name they share.
pub open spec fn releases_agree(a: FetchedRelease, b: FetchedRelease) -> bool {
    match (package_of_tag(a.release.tag_name@), package_of_tag(b.release.tag_name@)) {
        (Some(pa), Some(pb)) => match (
            release_wheels(a.release.assets@, a.hashes@),
            release_wheels(b.release.assets@, b.hashes@),
        ) {
            (Some(wa), Some(wb)) => pa == pb ==> wheels_agree(
                merge_wheels(Map::empty(), wa),
                merge_wheels(Map::empty(), wb),
            ),
            _ => true,
        },
        _ => true,
    }
}

proof fn lemma_merge_wheels_union(m: Map<Seq<char>, Seq<char>>, ws: Seq<(Seq<char>, Seq<char>)>)
    ensures
        merge_wheels(m, ws) == m.union_prefer_right(merge_wheels(Map::empty(), ws)),
    decreases ws.len(),
{
    if ws.len() > 0 {
        lemma_merge_wheels_union(m, ws.drop_last());
        assert(merge_wheels(m, ws) =~= m.union_prefer_right(merge_wheels(Map::empty(), ws)));
    } else {
        assert(m.union_prefer_right(Map::empty()) =~= m);
    }
}

/// Aggregating two releases gives the same catalog in either order, unless
/// they list the same wheel file of the same package under different URLs.
pub proof fn lemma_merge_order_independent(a: FetchedRelease, b: FetchedRelease)
    requires
        releases_agree(a, b),
    ensures
        catalog_of(seq![a, b]) == catalog_of(seq![b, a]),
{
    let e = Map::<Seq<char>, Map<Seq<char>, Seq<char>>>::empty();
    assert(seq![a, b].drop_last() =~= seq![a]);
    assert(seq![b, a].drop_last() =~= seq![b]);
    assert(seq![a].drop_last() =~= Seq::<FetchedRelease>::empty());
    assert(seq![b].drop_last() =~= Seq::<FetchedRelease>::empty());
    assert(catalog_of(Seq::<FetchedRelease>::empty()) == Some(e));
    assert(seq![a].last() == a);
    assert(seq![b].last() == b);
    assert(seq![a, b].last() == b);
    assert(seq![b, a].last() == a);
    assert(catalog_of(seq![a]) == add_release(e, a));
    assert(catalog_of(seq![b]) == add_release(e, b));
    match (add_release(e, a), add_release(e, b)) {
        (Some(ca), Some(cb)) => {
            match (package_of_tag(a.release.tag_name@), package_of_tag(b.release.tag_name@)) {
                (Some(pa), Some(pb)) => {
                    let wa = release_wheels(a.release.assets@, a.hashes@)->0;
                    let wb = release_wheels(b.release.assets@, b.hashes@)->0;
                    let ma = merge_wheels(Map::empty(), wa);
                    let mb = merge_wheels(Map::empty(), wb);
                    lemma_merge_wheels_union(Map::empty(), wa);
                    lemma_merge_wheels_union(Map::empty(), wb);
                    if pa == pb {
                        lemma_merge_wheels_union(ma, wb);
                        lemma_merge_wheels_union(mb, wa);
                        assert(ma.union_prefer_right(mb) =~= mb.union_prefer_right(ma));
                        assert(add_release(ca, b) == Some(e.insert(pa, ma.union_prefer_right(mb))));
                        assert(add_release(cb, a) == Some(e.insert(pa, mb.union_prefer_right(ma))));
                    } else {
                        assert(package_files(ca, pb) =~= Map::<Seq<char>, Seq<char>>::empty());
                        assert(package_files(cb, pa) =~= Map::<Seq<char>, Seq<char>>::empty());
                        assert(add_release(ca, b)->0 =~= add_release(cb, a)->0);
                    }
                },
                _ => {},
            }
        },
        _ => {},
    }
}


impl Packages {
    /// The names of the packages, each once, in no particular order.
    pub fn package_names(&self) -> (r: Vec<String>)
        requires
            self.wf(),
        ensures
            string_views(r@).no_duplicates(),
            string_views(r@).to_set() == self@.dom(),
    {
        let mut r: Vec<String> = Vec::new();
        let mut i: usize = 0;
        while i < self.packages.len()
            invariant
                i <= self.packages@.len(),
                entries_wf(self.packages@),
                r@.len() == i,
                forall|a: int| 0 <= a < i ==> (#[trigger] r@[a])@ == self.packages@[a].name@,
            decreases self.packages@.len() - i,
        {
            r.push(self.packages[i].name.clone());
            i = i + 1;
        }
        let ghost v = string_views(r@);
        assert forall|a: int, b: int| 0 <= a < v.len() && 0 <= b < v.len() && a != b implies v[a]
            != v[b] by {
            assert(v[a] == self.packages@[a].name@);
            assert(v[b] == self.packages@[b].name@);
        }
        assert forall|k: Seq<char>| v.to_set().contains(k) <==> self@.dom().contains(k) by {
            if v.contains(k) {
                let a = choose|a: int| 0 <= a < v.len() && v[a] == k;
                assert(self.packages@[a].name@ == k);
            }
            if has_package(self.packages@, k) {
                let a = choose|a: int| 0 <= a < self.packages@.len() && self.packages@[a].name@ == k;
                assert(v[a] == k);
            }
        }
        assert(v.to_set() =~= self@.dom());
        r
    }

    /// The wheel files listed for `package`, in no particular order.
    pub fn package_wheels(&self, package: &String) -> (r: Vec<WheelFile>)
        requires
            self.wf(),
            self@.contains_key(package@),
        ensures
            wheel_names_distinct(r@),
            files_view(r@) == self@[package@],
    {
        match self.position_of(package) {
            Some(k) => {
                proof { lemma_catalog_view_at(self.packages@, k as int); }
                let files = &self.packages[k].files;
                let mut r: Vec<WheelFile> = Vec::new();
                let mut i: usize = 0;
                while i < files.len()
                    invariant
                        i <= files@.len(),
                        r@ == files@.subrange(0, i as int),
                    decreases files@.len() - i,
                {
                    r.push(files[i].clone());
                    i = i + 1;
                }
                assert(r@ =~= files@);
                r
            },
            None => {
                proof {
                    let a = choose|a: int| 0 <= a < self.packages@.len() && self.packages@[a].name@ == package@;
                }
                Vec::new()
            },
        }
    }
}

/// The names of `files`, in their order.
pub fn wheel_names(files: &Vec<WheelFile>) -> (r: Vec<String>)
    ensures
        wheel_names_distinct(files@) ==> string_views(r@).no_duplicates(),
        string_views(r@).to_set() == files_view(files@).dom(),
{
    let mut r: Vec<String> = Vec::new();
    let mut i: usize = 0;
    while i < files.len()
        invariant
            i <= files@.len(),
            r@.len() == i,
            forall|a: int| 0 <= a < i ==> (#[trigger] r@[a])@ == files@[a].name@,
        decreases files@.len() - i,
    {
        r.push(files[i].name.clone());
        i = i + 1;
    }
    let ghost v = string_views(r@);
    assert(wheel_names_distinct(files@) ==> v.no_duplicates()) by {
        if wheel_names_distinct(files@) {
            assert forall|a: int, b: int| 0 <= a < v.len() && 0 <= b < v.len() && a != b implies v[a]
                != v[b] by {
                assert(v[a] == files@[a].name@);
                assert(v[b] == files@[b].name@);
            }
        }
    }
    assert forall|k: Seq<char>| v.to_set().contains(k) <==> files_view(files@).dom().contains(k) by {
        if v.contains(k) {
            let a = choose|a: int| 0 <= a < v.len() && v[a] == k;
            assert(files@[a].name@ == k);
        }
        if has_wheel(files@, k) {
            let a = choose|a: int| 0 <= a < files@.len() && files@[a].name@ == k;
            assert(v[a] == k);
        }
    }
    assert(v.to_set() =~= files_view(files@).dom());
    r
}

} // verus!
