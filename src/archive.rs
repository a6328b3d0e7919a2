//! The archive extractor's first pass: where an unpacked source archive lands.
use vstd::prelude::*;

use crate::error::IndexError;
use crate::text::{copy_range, from_chars, join_path, join_path_chars, last_index_of, rfind_char, to_chars};

verus! {

/// The path of the first entry of a gzip-compressed tarball, as tar reads it.
pub uninterp spec fn first_entry_of(b: Seq<u8>) -> Option<Seq<char>>;

/// Relies on tar's `Archive::entries` reading through flate2's
/// `bufread::GzDecoder`, and on `Entry::path`: the path of the archive's first
/// entry, `None` where the data cannot be decoded or holds no entry.
#[verifier::external_body]
fn first_entry_path(b: &[u8]) -> (r: Option<String>)
    ensures
        match r {
            Some(p) => first_entry_of(b@) == Some(p@),
            None => first_entry_of(b@) is None,
        },
{
    let mut archive = tar::Archive::new(flate2::bufread::GzDecoder::new(b));
    let entry = archive.entries().ok()?.next()?.ok()?;
    let path = entry.path().ok()?;
    Some(path.to_string_lossy().into_owned())
}

/// `s` without its trailing `/` characters.
pub open spec fn trim_trailing_slashes(s: Seq<char>) -> Seq<char>
    decreases s.len(),
{
    if s.len() > 0 && s.last() == '/' {
        trim_trailing_slashes(s.drop_last())
    } else {
        s
    }
}

/// The top-level directory that an archive whose first entry has the path
/// `entry` unpacks into: the entry's parent directory, or the entry itself
/// where its parent is empty (an entry such as `foo-1.0/`). `None` where the
/// path has no parent at all (it is empty or the root).
pub open spec fn top_level_of(entry: Seq<char>) -> Option<Seq<char>> {
    let t = trim_trailing_slashes(entry);
    if t.len() == 0 {
        None
    } else if last_index_of(t, '/') < 0 {
        Some(t)
    } else {
        let parent = trim_trailing_slashes(t.subrange(0, last_index_of(t, '/')));
        if parent.len() == 0 {
            Some(seq!['/'])
        } else {
            Some(parent)
        }
    }
}

/// The length of `s[..end]` without its trailing slashes.
fn trimmed_len(s: &[char], end: usize) -> (r: usize)
    requires
        end <= s@.len(),
    ensures
        r <= end,
        s@.subrange(0, r as int) == trim_trailing_slashes(s@.subrange(0, end as int)),
{
    let mut e = end;
    while e > 0 && s[e - 1] == '/'
        invariant
            e <= end <= s@.len(),
            trim_trailing_slashes(s@.subrange(0, e as int)) == trim_trailing_slashes(
                s@.subrange(0, end as int),
            ),
        decreases e,
    {
        assert(s@.subrange(0, e as int).drop_last() =~= s@.subrange(0, e - 1));
        e = e - 1;
    }
    e
}

/// The top-level directory named by the first entry's path `entry`.
pub fn top_level_dir(entry: &str) -> (r: Option<String>)
    ensures
        match r {
            Some(t) => top_level_of(entry@) == Some(t@),
            None => top_level_of(entry@) is None,
        },
{
    let s = to_chars(entry);
    assert(s@.subrange(0, s@.len() as int) =~= s@);
    let t = trimmed_len(&s, s.len());
    if t == 0 {
        return None;
    }
    let ghost ts = s@.subrange(0, t as int);
    match rfind_char(&s, t, '/') {
        None => Some(from_chars(&copy_range(&s, 0, t))),
        Some(k) => {
            assert(ts.subrange(0, k as int) =~= s@.subrange(0, k as int));
            let p = trimmed_len(&s, k);
            if p == 0 {
                let v = vec!['/'];
                assert(v@ =~= seq!['/']);
                Some(from_chars(&v))
            } else {
                Some(from_chars(&copy_range(&s, 0, p)))
            }
        },
    }
}

/// Where an archive whose first entry has the path `entry` lands when it is
/// unpacked into `dst`: `dst` joined with the archive's top-level directory,
/// or an invalid-archive error where the path names none.
pub fn resolve_unpack_path(dst: &str, entry: &str) -> (r: Result<String, IndexError>)
    ensures
        match top_level_of(entry@) {
            Some(t) => r matches Ok(p) && p@ == join_path(dst@, t),
            None => r matches Err(IndexError::InvalidArchive),
        },
{
    match top_level_dir(entry) {
        Some(t) => {
            let d = to_chars(dst);
            let tc = to_chars(t.as_str());
            Ok(from_chars(&join_path_chars(&d, &tc)))
        },
        None => Err(IndexError::InvalidArchive),
    }
}

/// Where the gzip-compressed tarball `archive` lands when it is unpacked into
/// `dst`, read from its first entry before anything is written: an
/// invalid-archive error where it cannot be read, is empty, or its first
/// entry names no top-level directory.
pub fn unpack_path(archive: &[u8], dst: &str) -> (r: Result<String, IndexError>)
    ensures
        match first_entry_of(archive@) {
            Some(entry) => match top_level_of(entry) {
                Some(t) => r matches Ok(p) && p@ == join_path(dst@, t),
                None => r matches Err(IndexError::InvalidArchive),
            },
            None => r matches Err(IndexError::InvalidArchive),
        },
{
    match first_entry_path(archive) {
        Some(entry) => resolve_unpack_path(dst, entry.as_str()),
        None => Err(IndexError::InvalidArchive),
    }
}

} // verus!
