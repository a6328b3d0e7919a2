//! The registry resolver: which uploaded files of a project are eligible source
//! distributions, under which version, and the checks made on a download.
use vstd::prelude::*;

use crate::archive::{first_entry_of, top_level_of, unpack_path};
use crate::error::IndexError;
use crate::text::{
    copy_range, ends_with, ends_with_chars, from_chars, is_first_occurrence, join_path, occurs_at,
    split_once, split_once_chars, to_chars,
};

verus! {

/// The snake_case form of a name, as heck computes it.
pub uninterp spec fn snake_case_of(s: Seq<char>) -> Seq<char>;

/// Relies on heck's `ToSnakeCase::to_snake_case` for `str`, whose result
/// depends on the text alone.
#[verifier::external_body]
pub(crate) fn to_snake_case(s: &str) -> (r: String)
    ensures
        r@ == snake_case_of(s@),
{
    heck::ToSnakeCase::to_snake_case(s)
}

/// The SHA-256 digest of a byte sequence.
pub uninterp spec fn sha256_of(b: Seq<u8>) -> Seq<u8>;

/// Relies on sha2's `Sha256::digest`: the 32-byte digest of the data.
#[verifier::external_body]
pub(crate) fn sha256_digest(b: &[u8]) -> (r: Vec<u8>)
    ensures
        r@ == sha256_of(b@),
        r@.len() == 32,
{
    <sha2::Sha256 as sha2::Digest>::digest(b).to_vec()
}

/// The value of a hexadecimal digit, either case.
pub open spec fn hex_value(c: char) -> int {
    if '0' <= c <= '9' {
        c as int - '0' as int
    } else if 'a' <= c <= 'f' {
        c as int - 'a' as int + 10
    } else {
        c as int - 'A' as int + 10
    }
}

/// `c` is a hex digit of either case.
pub open spec fn is_hex_digit(c: char) -> bool {
    ('0' <= c <= '9') || ('a' <= c <= 'f') || ('A' <= c <= 'F')
}

/// `s` is a well-formed hex text: an even number of hex digits.
pub open spec fn is_hex_text(s: Seq<char>) -> bool {
    s.len() % 2 == 0 && forall|i: int| 0 <= i < s.len() ==> is_hex_digit(#[trigger] s[i])
}

/// The bytes that the hex text `s` spells, two digits per byte.
pub open spec fn hex_bytes(s: Seq<char>) -> Seq<u8> {
    Seq::new(
        s.len() / 2,
        |i: int| (hex_value(s[2 * i]) * 16 + hex_value(s[2 * i + 1])) as u8,
    )
}

/// Relies on `hex::decode`: accepts an even number of hex digits of either
/// case and gives one byte per pair, high digit first; anything else is an error.
#[verifier::external_body]
fn hex_decode(s: &str) -> (r: Option<Vec<u8>>)
    ensures
        r is Some <==> is_hex_text(s@),
        r matches Some(b) ==> b@ == hex_bytes(s@),
{
    hex::decode(s).ok()
}

/// Whether a release of a file is withdrawn from the registry. The registry
/// sends either a flag or an explanation; both a true flag and any
/// explanation mean the file is unavailable.
#[derive(Debug)]
pub enum Yanked {
    NotYanked,
    Flag(bool),
    Reason(String),
}

impl Yanked {
    pub open spec fn spec_is_available(&self) -> bool {
        match self {
            Yanked::NotYanked => true,
            Yanked::Flag(y) => !*y,
            Yanked::Reason(_) => false,
        }
    }

    /// Whether the file is available: not yanked.
    pub fn is_available(&self) -> (r: bool)
        ensures
            r == self.spec_is_available(),
    {
        match self {
            Yanked::NotYanked => true,
            Yanked::Flag(y) => !*y,
            Yanked::Reason(_) => false,
        }
    }
}

/// Digests declared for a file.
#[derive(Debug)]
pub struct Hashes {
    /// Hex SHA-256 digest.
    pub sha256: String,
}

impl Hashes {
    /// Whether `bytes` have the declared digest; an error where the declared
    /// digest is not hex.
    pub fn valid(&self, bytes: &[u8]) -> (r: Result<bool, IndexError>)
        ensures
            match r {
                Ok(v) => is_hex_text(self.sha256@) && v == (hex_bytes(self.sha256@) == sha256_of(
                    bytes@,
                )),
                Err(e) => !is_hex_text(self.sha256@) && e is Registry,
            },
    {
        let actual = sha256_digest(bytes);
        self.matches_digest(&actual)
    }

    /// Whether `digest` is the declared digest (compared as bytes, so the
    /// case of the hex digits does not matter); an error where the declared
    /// digest is not hex.
    pub fn matches_digest(&self, digest: &[u8]) -> (r: Result<bool, IndexError>)
        ensures
            match r {
                Ok(v) => is_hex_text(self.sha256@) && v == (hex_bytes(self.sha256@) == digest@),
                Err(e) => !is_hex_text(self.sha256@) && e is Registry,
            },
    {
        match hex_decode(self.sha256.as_str()) {
            Some(expected) => Ok(bytes_equal(digest, &expected)),
            None => Err(IndexError::Registry),
        }
    }
}

/// Whether two byte sequences are equal.
fn bytes_equal(a: &[u8], b: &[u8]) -> (r: bool)
    ensures
        r == (a@ == b@),
{
    if a.len() != b.len() {
        return false;
    }
    let mut i: usize = 0;
    while i < a.len()
        invariant
            a@.len() == b@.len(),
            i <= a@.len(),
            forall|k: int| 0 <= k < i ==> a@[k] == b@[k],
        decreases a@.len() - i,
    {
        if a[i] != b[i] {
            return false;
        }
        i = i + 1;
    }
    assert(a@ =~= b@);
    true
}

/// The check made on downloaded content: the bytes come back unchanged where
/// their SHA-256 digest is the declared one (hex, either case), and an
/// integrity error where it is not.
pub fn verify_integrity(bytes: Vec<u8>, expected_sha256: &str) -> (r: Result<Vec<u8>, IndexError>)
    ensures
        !is_hex_text(expected_sha256@) ==> r matches Err(IndexError::Registry),
        is_hex_text(expected_sha256@) && hex_bytes(expected_sha256@) == sha256_of(bytes@) ==> r
            == Ok::<Vec<u8>, IndexError>(bytes),
        is_hex_text(expected_sha256@) && hex_bytes(expected_sha256@) != sha256_of(bytes@)
            ==> r matches Err(IndexError::Integrity),
{
    let hashes = Hashes { sha256: expected_sha256.to_owned() };
    match hashes.valid(&bytes) {
        Ok(true) => Ok(bytes),
        Ok(false) => Err(IndexError::Integrity),
        Err(e) => Err(e),
    }
}


/// The suffix of a source distribution archive.
pub open spec fn sdist_suffix() -> Seq<char> {
    seq!['.', 't', 'a', 'r', '.', 'g', 'z']
}

fn sdist_suffix_chars() -> (r: Vec<char>)
    ensures
        r@ == sdist_suffix(),
{
    let r = vec!['.', 't', 'a', 'r', '.', 'g', 'z'];
    assert(r@ =~= sdist_suffix());
    r
}

/// The version that the archive `filename` carries for the project `name`:
/// the suffix `.tar.gz` is taken off, then the text after the first
/// `"{name}-"` is the version; where `"{name}-"` does not occur, the same is
/// tried with the snake_case form `snake` of the name. `None` where the file
/// is no `.tar.gz` archive or neither form occurs.
pub open spec fn derived_version(filename: Seq<char>, name: Seq<char>, snake: Seq<char>) -> Option<
    Seq<char>,
> {
    if ends_with(filename, sdist_suffix()) {
        let stem = filename.subrange(0, filename.len() - sdist_suffix().len());
        match split_once(stem, name.push('-')) {
            Some(parts) => Some(parts.1),
            None => match split_once(stem, snake.push('-')) {
                Some(parts) => Some(parts.1),
                None => None,
            },
        }
    } else {
        None
    }
}

/// The version under which `filename` is an eligible source distribution
/// of the project `name` (whose snake_case form is `snake`), given whether
/// it is available: `None` where the file is yanked, is no `.tar.gz`
/// archive, or carries no non-empty version.
pub open spec fn eligible_version(
    filename: Seq<char>,
    available: bool,
    name: Seq<char>,
    snake: Seq<char>,
) -> Option<Seq<char>> {
    if available {
        match derived_version(filename, name, snake) {
            Some(v) => if v.len() > 0 {
                Some(v)
            } else {
                None
            },
            None => None,
        }
    } else {
        None
    }
}

/// The version of `filename` for project `name`, trying the name as it is
/// first and its snake_case form `snake_name` second.
pub fn version_from_filename(filename: &str, name: &str, snake_name: &str) -> (r: Option<String>)
    ensures
        match r {
            Some(v) => derived_version(filename@, name@, snake_name@) == Some(v@),
            None => derived_version(filename@, name@, snake_name@) is None,
        },
{
    let f = to_chars(filename);
    let suffix = sdist_suffix_chars();
    if !ends_with_chars(&f, &suffix) {
        return None;
    }
    let stem = copy_range(&f, 0, f.len() - suffix.len());
    let mut pattern = to_chars(name);
    pattern.push('-');
    match split_once_chars(&stem, &pattern) {
        Some(parts) => Some(from_chars(&parts.1)),
        None => {
            let mut snake_pattern = to_chars(snake_name);
            snake_pattern.push('-');
            match split_once_chars(&stem, &snake_pattern) {
                Some(parts) => Some(from_chars(&parts.1)),
                None => None,
            }
        },
    }
}

/// An archive named in the snake_case form of a project's name yields its
/// version through the fallback to that form, wherever `"{name}-"` itself
/// does not occur in the name of the archive.
pub proof fn lemma_snake_case_fallback(name: Seq<char>, snake: Seq<char>, version: Seq<char>)
    requires
        forall|i: int| !occurs_at(snake.push('-') + version, name.push('-'), i),
    ensures
        derived_version(snake.push('-') + version + sdist_suffix(), name, snake) == Some(version),
{
    let stem = snake.push('-') + version;
    let filename = stem + sdist_suffix();
    assert(filename.subrange(filename.len() - 7, filename.len() as int) =~= sdist_suffix());
    assert(filename.subrange(0, filename.len() - 7) =~= stem);
    let p = snake.push('-');
    assert(stem.subrange(0, p.len() as int) =~= p);
    assert(is_first_occurrence(stem, p, 0));
    let i = choose|i: int| is_first_occurrence(stem, p, i);
    assert(i == 0);
    assert(stem.subrange(p.len() as int, stem.len() as int) =~= version);
}

/// Information about a file that has been uploaded for a project.
#[derive(Debug)]
pub struct ProjectFile {
    /// Name of the file that can be downloaded.
    pub filename: String,
    /// Digests for validating the file contents.
    pub hashes: Hashes,
    /// Where the file is located.
    pub url: String,
    /// Whether the file has been yanked.
    pub yanked: Yanked,
}

impl ProjectFile {
    /// Where this file can be unpacked as a source distribution: an
    /// unsupported-format error unless its name ends in `.tar.gz`.
    pub fn check_sdist_format(&self) -> (r: Result<(), IndexError>)
        ensures
            r is Ok <==> ends_with(self.filename@, sdist_suffix()),
            r matches Err(e) ==> e is UnsupportedFormat,
    {
        let f = to_chars(self.filename.as_str());
        let suffix = sdist_suffix_chars();
        if ends_with_chars(&f, &suffix) {
            Ok(())
        } else {
            Err(IndexError::UnsupportedFormat)
        }
    }

    /// Checks bytes downloaded from `url` against the declared SHA-256 digest:
    /// the bytes come back unchanged where they match.
    pub fn verify_download(&self, bytes: Vec<u8>) -> (r: Result<Vec<u8>, IndexError>)
        ensures
            !is_hex_text(self.hashes.sha256@) ==> r matches Err(IndexError::Registry),
            is_hex_text(self.hashes.sha256@) && hex_bytes(self.hashes.sha256@) == sha256_of(bytes@)
                ==> r == Ok::<Vec<u8>, IndexError>(bytes),
            is_hex_text(self.hashes.sha256@) && hex_bytes(self.hashes.sha256@) != sha256_of(bytes@)
                ==> r matches Err(IndexError::Integrity),
    {
        verify_integrity(bytes, self.hashes.sha256.as_str())
    }

    /// Checks downloaded bytes of this source distribution and finds where
    /// they unpack in `dst`: the bytes and that directory where the digest
    /// matches and the archive names its top-level directory.
    pub fn verify_and_locate(&self, bytes: Vec<u8>, dst: &str) -> (r: Result<(Vec<u8>, String), IndexError>)
        ensures
            !is_hex_text(self.hashes.sha256@) ==> r matches Err(IndexError::Registry),
            is_hex_text(self.hashes.sha256@) && hex_bytes(self.hashes.sha256@) != sha256_of(bytes@)
                ==> r matches Err(IndexError::Integrity),
            is_hex_text(self.hashes.sha256@) && hex_bytes(self.hashes.sha256@) == sha256_of(bytes@)
                ==> match first_entry_of(bytes@) {
                Some(entry) => match top_level_of(entry) {
                    Some(t) => r matches Ok(found) && found.0 == bytes && found.1@ == join_path(
                        dst@,
                        t,
                    ),
                    None => r matches Err(IndexError::InvalidArchive),
                },
                None => r matches Err(IndexError::InvalidArchive),
            },
    {
        let bytes = self.verify_download(bytes)?;
        let target = unpack_path(&bytes, dst)?;
        Ok((bytes, target))
    }
}


impl Clone for Yanked {
    fn clone(&self) -> (r: Self)
        ensures
            r == *self,
    {
        match self {
            Yanked::NotYanked => Yanked::NotYanked,
            Yanked::Flag(y) => Yanked::Flag(*y),
            Yanked::Reason(s) => Yanked::Reason(s.clone()),
        }
    }
}

impl Clone for Hashes {
    fn clone(&self) -> (r: Self)
        ensures
            r == *self,
    {
        Hashes { sha256: self.sha256.clone() }
    }
}

impl Clone for ProjectFile {
    fn clone(&self) -> (r: Self)
        ensures
            r == *self,
    {
        ProjectFile {
            filename: self.filename.clone(),
            hashes: self.hashes.clone(),
            url: self.url.clone(),
            yanked: self.yanked.clone(),
        }
    }
}

/// An eligible source distribution and the version it carries.
#[derive(Debug)]
pub struct SdistFile {
    pub version: String,
    pub file: ProjectFile,
}

/// The eligible source distributions among `files`, by version: each
/// eligible file in turn, a later one replacing an earlier one of the same
/// version.
pub open spec fn sdist_map(files: Seq<ProjectFile>, name: Seq<char>, snake: Seq<char>) -> Map<
    Seq<char>,
    ProjectFile,
>
    decreases files.len(),
{
    if files.len() == 0 {
        Map::empty()
    } else {
        let prev = sdist_map(files.drop_last(), name, snake);
        let f = files.last();
        match eligible_version(f.filename@, f.yanked.spec_is_available(), name, snake) {
            Some(v) => prev.insert(v, f),
            None => prev,
        }
    }
}

proof fn lemma_sdist_map_finite(files: Seq<ProjectFile>, name: Seq<char>, snake: Seq<char>)
    ensures
        sdist_map(files, name, snake).dom().finite(),
    decreases files.len(),
{
    if files.len() > 0 {
        lemma_sdist_map_finite(files.drop_last(), name, snake);
    }
}

/// A yanked file never enters the eligible set, whatever version its name
/// carries: every file in it is available.
pub proof fn lemma_eligible_files_available(files: Seq<ProjectFile>, name: Seq<char>, snake: Seq<char>)
    ensures
        forall|v: Seq<char>| #[trigger]
            sdist_map(files, name, snake).contains_key(v) ==> sdist_map(
                files,
                name,
                snake,
            )[v].yanked.spec_is_available(),
    decreases files.len(),
{
    if files.len() > 0 {
        lemma_eligible_files_available(files.drop_last(), name, snake);
    }
}

/// The index of the entry of `r` with version `v`, if any.
fn position_of_version(r: &Vec<SdistFile>, v: &String) -> (k: Option<usize>)
    ensures
        match k {
            Some(k) => k < r@.len() && r@[k as int].version@ == v@,
            None => forall|a: int| 0 <= a < r@.len() ==> r@[a].version@ != v@,
        },
{
    let mut k: usize = 0;
    while k < r.len()
        invariant
            k <= r@.len(),
            forall|a: int| 0 <= a < k ==> r@[a].version@ != v@,
        decreases r@.len() - k,
    {
        if r[k].version == *v {
            return Some(k);
        }
        k = k + 1;
    }
    None
}

/// Registry information for a project.
#[derive(Debug)]
pub struct Project {
    /// Name of the project.
    pub name: String,
    /// Files available to download.
    pub files: Vec<ProjectFile>,
    /// The registry's authoritative list of versions.
    pub versions: Vec<String>,
}

impl Project {
    /// The eligible source distributions of the project as a map from
    /// version to file.
    pub open spec fn spec_sdists(&self) -> Map<Seq<char>, ProjectFile> {
        sdist_map(self.files@, self.name@, snake_case_of(self.name@))
    }

    /// The eligible source distributions, one entry per version, in no
    /// particular order: exactly the entries of `spec_sdists`. None is yanked.
    pub fn sdist_files(self) -> (r: Vec<SdistFile>)
        ensures
            forall|i: int, j: int|
                0 <= i < j < r@.len() ==> r@[i].version@ != r@[j].version@,
            forall|i: int|
                0 <= i < r@.len() ==> self.spec_sdists().contains_key(#[trigger] r@[i].version@)
                    && self.spec_sdists()[r@[i].version@] == r@[i].file,
            forall|v: Seq<char>| #[trigger]
                self.spec_sdists().contains_key(v) ==> exists|i: int|
                    0 <= i < r@.len() && r@[i].version@ == v,
            r@.len() == self.spec_sdists().dom().len(),
            forall|i: int| 0 <= i < r@.len() ==> (#[trigger] r@[i]).file.yanked.spec_is_available(),
    {
        let ghost name = self.name@;
        let ghost snake = snake_case_of(self.name@);
        let snake_name = to_snake_case(self.name.as_str());
        let mut r: Vec<SdistFile> = Vec::new();
        let mut i: usize = 0;
        while i < self.files.len()
            invariant
                i <= self.files@.len(),
                snake_name@ == snake,
                name == self.name@,
                forall|a: int, b: int|
                    0 <= a < b < r@.len() ==> r@[a].version@ != r@[b].version@,
                forall|a: int|
                    0 <= a < r@.len() ==> sdist_map(
                        self.files@.subrange(0, i as int),
                        name,
                        snake,
                    ).contains_key(#[trigger] r@[a].version@) && sdist_map(
                        self.files@.subrange(0, i as int),
                        name,
                        snake,
                    )[r@[a].version@] == r@[a].file,
                forall|v: Seq<char>| #[trigger]
                    sdist_map(self.files@.subrange(0, i as int), name, snake).contains_key(v)
                        ==> exists|a: int| 0 <= a < r@.len() && r@[a].version@ == v,
                r@.len() == sdist_map(self.files@.subrange(0, i as int), name, snake).dom().len(),
                forall|a: int| 0 <= a < r@.len() ==> (#[trigger] r@[a]).file.yanked.spec_is_available(),
            decreases self.files@.len() - i,
        {
            let ghost prev = sdist_map(self.files@.subrange(0, i as int), name, snake);
            proof {
                lemma_sdist_map_finite(self.files@.subrange(0, i as int), name, snake);
                assert(self.files@.subrange(0, i + 1).drop_last() =~= self.files@.subrange(
                    0,
                    i as int,
                ));
            }
            let file = &self.files[i];
            if file.yanked.is_available() {
                match version_from_filename(file.filename.as_str(), self.name.as_str(), snake_name.as_str()) {
                    Some(version) => {
                        if !version.as_str().is_empty() {
                            let ghost next = prev.insert(version@, *file);
                            assert(sdist_map(self.files@.subrange(0, i + 1), name, snake) == next);
                            let ghost vv = version@;
                            let ghost old_r = r@;
                            let ghost pos: int;
                            let entry = SdistFile { version, file: file.clone() };
                            match position_of_version(&r, &entry.version) {
                                Some(k) => {
                                    r.set(k, entry);
                                    proof { pos = k as int; }
                                    assert(next.dom() =~= prev.dom());
                                },
                                None => {
                                    assert(!prev.contains_key(vv));
                                    r.push(entry);
                                    proof { pos = r@.len() - 1; }
                                    assert(next.dom() =~= prev.dom().insert(vv));
                                },
                            }
                            assert(r@[pos].version@ == vv);
                            assert forall|v: Seq<char>| #[trigger] next.contains_key(v) implies exists|a: int|
                                0 <= a < r@.len() && r@[a].version@ == v by {
                                if v != vv {
                                    assert(prev.contains_key(v));
                                    let a = choose|a: int| 0 <= a < old_r.len() && old_r[a].version@ == v;
                                    assert(r@[a] == old_r[a]);
                                }
                            }
                        }
                    },
                    None => {},
                }
            }
            i = i + 1;
        }
        assert(self.files@.subrange(0, self.files@.len() as int) =~= self.files@);
        r
    }
}


/// The versions of a list of version strings.
pub open spec fn version_views(versions: Seq<String>) -> Seq<Seq<char>> {
    versions.map_values(|v: String| v@)
}

/// The version under which `f` is eligible for the project `name`.
pub open spec fn file_eligible_version(f: ProjectFile, name: Seq<char>) -> Option<Seq<char>> {
    eligible_version(f.filename@, f.yanked.spec_is_available(), name, snake_case_of(name))
}

/// The keys of the eligible set are the versions under which some file is eligible.
proof fn lemma_sdist_map_keys(files: Seq<ProjectFile>, name: Seq<char>, v: Seq<char>)
    ensures
        sdist_map(files, name, snake_case_of(name)).contains_key(v) <==> exists|i: int|
            0 <= i < files.len() && #[trigger] file_eligible_version(files[i], name) == Some(v),
    decreases files.len(),
{
    if files.len() > 0 {
        let init = files.drop_last();
        lemma_sdist_map_keys(init, name, v);
        let last = files.last();
        assert(file_eligible_version(last, name) == file_eligible_version(files[files.len() - 1], name));
        if exists|i: int| 0 <= i < files.len() && #[trigger] file_eligible_version(files[i], name) == Some(v) {
            let i = choose|i: int| 0 <= i < files.len() && #[trigger] file_eligible_version(files[i], name) == Some(v);
            if i < files.len() - 1 {
                assert(init[i] == files[i]);
            }
        }
        if exists|i: int| 0 <= i < init.len() && #[trigger] file_eligible_version(init[i], name) == Some(v) {
            let i = choose|i: int| 0 <= i < init.len() && #[trigger] file_eligible_version(init[i], name) == Some(v);
            assert(files[i] == init[i]);
        }
    }
}

/// For a project none of whose files is yanked, where each file that is an
/// eligible source distribution carries one of the listed versions and each
/// listed version is carried by one such file, the eligible set has one
/// entry for each listed version.
pub proof fn lemma_version_coverage(p: Project)
    requires
        version_views(p.versions@).no_duplicates(),
        forall|i: int| 0 <= i < p.files@.len() ==> (#[trigger] p.files@[i]).yanked.spec_is_available(),
        forall|i: int|
            0 <= i < p.files@.len() && (#[trigger] file_eligible_version(p.files@[i], p.name@)) is Some
                ==> version_views(p.versions@).contains(
                file_eligible_version(p.files@[i], p.name@)->0,
            ),
        forall|j: int|
            0 <= j < p.versions@.len() ==> exists|i: int|
                0 <= i < p.files@.len() && #[trigger] file_eligible_version(p.files@[i], p.name@)
                    == Some(#[trigger] p.versions@[j]@),
    ensures
        p.spec_sdists().dom() == version_views(p.versions@).to_set(),
        p.spec_sdists().dom().len() == p.versions@.len(),
{
    let vs = version_views(p.versions@);
    assert forall|v: Seq<char>| p.spec_sdists().dom().contains(v) <==> vs.to_set().contains(v) by {
        lemma_sdist_map_keys(p.files@, p.name@, v);
        if vs.contains(v) {
            let j = choose|j: int| 0 <= j < vs.len() && vs[j] == v;
            assert(p.versions@[j]@ == v);
        }
    }
    assert(p.spec_sdists().dom() =~= vs.to_set());
    vs.unique_seq_to_set();
}

impl Project {
    /// The eligible source distribution of `version`, if any.
    pub fn sdist(self, version: &str) -> (r: Option<ProjectFile>)
        ensures
            match r {
                Some(f) => self.spec_sdists().contains_key(version@) && self.spec_sdists()[version@]
                    == f,
                None => !self.spec_sdists().contains_key(version@),
            },
    {
        let mut files = self.sdist_files();
        let wanted = version.to_owned();
        match position_of_version(&files, &wanted) {
            Some(k) => {
                let entry = files.remove(k);
                Some(entry.file)
            },
            None => None,
        }
    }

    /// Resolves the source distribution of `version`: an error naming the
    /// project and the version where no eligible file carries it.
    pub fn resolve_sdist(self, version: &str) -> (r: Result<ProjectFile, IndexError>)
        ensures
            match r {
                Ok(f) => self.spec_sdists().contains_key(version@) && self.spec_sdists()[version@]
                    == f,
                Err(e) => !self.spec_sdists().contains_key(version@) && e == (IndexError::VersionNotFound {
                    project: self.name,
                    version: e->version,
                }) && e->version@ == version@,
            },
    {
        let name = self.name.clone();
        match self.sdist(version) {
            Some(f) => Ok(f),
            None => Err(IndexError::VersionNotFound { project: name, version: version.to_owned() }),
        }
    }
}


impl Project {
    /// Whether `version` is in the registry's list of versions. A resolved
    /// file whose version is not listed is an anomaly worth reporting, not an
    /// error: registries sometimes lag behind their files.
    pub fn lists_version(&self, version: &str) -> (r: bool)
        ensures
            r == version_views(self.versions@).contains(version@),
    {
        let wanted = version.to_owned();
        let mut i: usize = 0;
        while i < self.versions.len()
            invariant
                i <= self.versions@.len(),
                wanted@ == version@,
                forall|j: int| 0 <= j < i ==> self.versions@[j]@ != version@,
            decreases self.versions@.len() - i,
        {
            if self.versions[i] == wanted {
                assert(version_views(self.versions@)[i as int] == version@);
                return true;
            }
            i = i + 1;
        }
        assert forall|j: int| 0 <= j < version_views(self.versions@).len() implies version_views(
            self.versions@,
        )[j] != version@ by {
            assert(version_views(self.versions@)[j] == self.versions@[j]@);
        }
        false
    }
}

} // verus!
