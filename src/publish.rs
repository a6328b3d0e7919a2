//! What a published release says about itself: its tag and the note on the
//! run that built it.
use vstd::prelude::*;

use crate::catalog::{lines_from, lines_of, manifest_pairs, package_of_tag, pairs_map, strip_cr};
use crate::registry::{sha256_digest, sha256_of};
use crate::text::{from_chars, is_first_occurrence, occurs_at, push_str, split_once};

verus! {

/// The digit character of `d`.
pub open spec fn digit_char(d: nat) -> char {
    seq!['0', '1', '2', '3', '4', '5', '6', '7', '8', '9'][d as int]
}

/// The decimal numeral of `n`.
pub open spec fn decimal(n: nat) -> Seq<char>
    decreases n,
{
    if n < 10 {
        seq![digit_char(n)]
    } else {
        decimal(n / 10).push(digit_char(n % 10))
    }
}

/// Appends the decimal numeral of `n` to `out`.
pub fn push_decimal(out: &mut Vec<char>, n: usize)
    ensures
        final(out)@ == old(out)@ + decimal(n as nat),
    decreases n,
{
    let digits = vec!['0', '1', '2', '3', '4', '5', '6', '7', '8', '9'];
    assert(digits@ =~= seq!['0', '1', '2', '3', '4', '5', '6', '7', '8', '9']);
    if n >= 10 {
        push_decimal(out, n / 10);
    }
    out.push(digits[n % 10]);
    assert(final(out)@ =~= old(out)@ + decimal(n as nat));
}

/// Where a release was built in CI.
pub struct PublishFlags {
    /// The repository, as `<owner>/<repo>`.
    pub repo: Option<String>,
    /// The id of the CI run.
    pub run_id: Option<usize>,
}

impl PublishFlags {
    pub open spec fn spec_run_info(&self) -> Seq<char> {
        match (self.repo, self.run_id) {
            (_, None) => "No provided run information"@,
            (None, Some(id)) => "Built with run "@ + decimal(id as nat),
            (Some(repo), Some(id)) => "Built with run https://github.com/"@ + repo@
                + "/actions/runs/"@ + decimal(id as nat),
        }
    }

    /// The release note on the run that built the release.
    pub fn run_info(&self) -> (r: String)
        ensures
            r@ == self.spec_run_info(),
    {
        let mut out: Vec<char> = Vec::new();
        match (&self.repo, self.run_id) {
            (_, None) => push_str(&mut out, "No provided run information"),
            (None, Some(id)) => {
                push_str(&mut out, "Built with run ");
                push_decimal(&mut out, id);
            },
            (Some(repo), Some(id)) => {
                push_str(&mut out, "Built with run https://github.com/");
                push_str(&mut out, repo.as_str());
                push_str(&mut out, "/actions/runs/");
                push_decimal(&mut out, id);
            },
        }
        from_chars(&out)
    }
}

/// The tag `{package}/v{version}` of a release names `package` again, for
/// every package name in which `/v` does not occur.
pub proof fn lemma_release_tag_names_package(package: Seq<char>, version: Seq<char>)
    requires
        forall|i: int| !occurs_at(package, seq!['/', 'v'], i),
    ensures
        package_of_tag(package + seq!['/', 'v'] + version) == Some(package),
{
    let sep = seq!['/', 'v'];
    let tag = package + sep + version;
    let n = package.len() as int;
    assert(tag.subrange(n, n + 2) =~= sep);
    assert forall|j: int| 0 <= j < n implies !occurs_at(tag, sep, j) by {
        if occurs_at(tag, sep, j) {
            if j + 2 <= n {
                assert(package.subrange(j, j + 2) =~= tag.subrange(j, j + 2));
                assert(!occurs_at(package, sep, j));
            } else {
                assert(tag.subrange(j, j + 2)[1] == sep[1]);
                assert(tag[j + 1] == tag.subrange(j, j + 2)[1]);
                assert(tag[n] == (package + sep)[n]);
                assert(tag[n] == '/');
            }
        }
    }
    assert(is_first_occurrence(tag, sep, n));
    let i = choose|i: int| is_first_occurrence(tag, sep, i);
    assert(i == n);
    assert(tag.subrange(0, n) =~= package);
}


/// The lower-case hex digit of `d`.
pub open spec fn lower_hex_digit(d: int) -> char {
    seq!['0', '1', '2', '3', '4', '5', '6', '7', '8', '9', 'a', 'b', 'c', 'd', 'e', 'f'][d]
}

/// The lower-case hex text of `b`, two digits per byte, high digit first.
pub open spec fn lower_hex(b: Seq<u8>) -> Seq<char> {
    Seq::new(
        b.len() * 2,
        |i: int|
            if i % 2 == 0 {
                lower_hex_digit(b[i / 2] as int / 16)
            } else {
                lower_hex_digit(b[i / 2] as int % 16)
            },
    )
}

/// Relies on `hex::encode`: two lower-case hex digits for each byte, high
/// digit first.
#[verifier::external_body]
fn hex_encode(b: &[u8]) -> (r: String)
    ensures
        r@ == lower_hex(b@),
{
    hex::encode(b)
}

/// The line that a release's hash manifest holds for a wheel named
/// `filename` with contents `content`: the name, a tab, the lower-case hex
/// SHA-256 digest and a newline.
pub fn manifest_line(filename: &str, content: &[u8]) -> (r: String)
    ensures
        r@ == filename@ + seq!['\t'] + lower_hex(sha256_of(content@)) + seq!['\n'],
{
    let digest = sha256_digest(content);
    let hex = hex_encode(&digest);
    let mut out: Vec<char> = Vec::new();
    push_str(&mut out, filename);
    out.push('\t');
    push_str(&mut out, hex.as_str());
    out.push('\n');
    assert(out@ =~= filename@ + seq!['\t'] + lower_hex(sha256_of(content@)) + seq!['\n']);
    from_chars(&out)
}

/// Reading text without a line break adds it to the current line.
proof fn lemma_lines_from_plain(s: Seq<char>, rest: Seq<char>, cur: Seq<char>)
    requires
        forall|i: int| 0 <= i < s.len() ==> s[i] != '\n',
    ensures
        lines_from(s + rest, cur) == lines_from(rest, cur + s),
    decreases s.len(),
{
    if s.len() > 0 {
        assert((s + rest).drop_first() =~= s.drop_first() + rest);
        assert(cur.push(s[0]) + s.drop_first() =~= cur + s);
        lemma_lines_from_plain(s.drop_first(), rest, cur.push(s[0]));
    } else {
        assert(s + rest =~= rest);
        assert(cur + s =~= cur);
    }
}

/// A manifest line reads back as its file name and digest, for every file
/// name without tab, line break or carriage return.
pub proof fn lemma_manifest_line_round_trip(filename: Seq<char>, digest: Seq<u8>)
    requires
        forall|i: int|
            0 <= i < filename.len() ==> filename[i] != '\t' && filename[i] != '\n' && filename[i]
                != '\r',
    ensures
        pairs_map(manifest_pairs(lines_of(filename + seq!['\t'] + lower_hex(digest) + seq!['\n'])))
            == Map::<Seq<char>, Seq<char>>::empty().insert(filename, lower_hex(digest)),
{
    let hex = lower_hex(digest);
    let tab = seq!['\t'];
    let line = filename + tab + hex;
    assert forall|i: int| 0 <= i < hex.len() implies hex[i] != '\n' && hex[i] != '\t' && hex[i]
        != '\r' by {
        let d = if i % 2 == 0 { digest[i / 2] as int / 16 } else { digest[i / 2] as int % 16 };
        assert(0 <= d < 16);
    }
    assert forall|i: int| 0 <= i < line.len() implies line[i] != '\n' by {
        if i >= filename.len() + 1 {
            assert(line[i] == hex[i - filename.len() - 1]);
        }
    }
    let text = line + seq!['\n'];
    lemma_lines_from_plain(line, seq!['\n'], seq![]);
    assert(seq![] + line =~= line);
    let nl = seq!['\n'];
    assert(nl.drop_first() =~= Seq::<char>::empty());
    assert(lines_from(nl, line) == seq![strip_cr(line)] + lines_from(Seq::<char>::empty(), seq![]));
    assert(line.len() > 0 && line.last() != '\r') by {
        if hex.len() > 0 {
            assert(line.last() == hex[hex.len() - 1]);
        } else {
            assert(line.last() == '\t');
        }
    }
    assert(lines_of(text) =~= seq![line]);
    let n = filename.len() as int;
    assert(line.subrange(n, n + 1) =~= tab);
    assert forall|j: int| 0 <= j < n implies !occurs_at(line, tab, j) by {
        assert(line.subrange(j, j + 1)[0] == line[j]);
    }
    assert(is_first_occurrence(line, tab, n));
    let k = choose|k: int| is_first_occurrence(line, tab, k);
    assert(k == n);
    assert(line.subrange(0, n) =~= filename);
    assert(line.subrange(n + 1, line.len() as int) =~= hex);
    assert(split_once(line, tab) == Some((filename, hex)));
    let lines = seq![line];
    assert(lines.drop_last() =~= Seq::<Seq<char>>::empty());
    assert(lines.last() == line);
    assert(manifest_pairs(Seq::<Seq<char>>::empty()) == Seq::<(Seq<char>, Seq<char>)>::empty());
    assert(manifest_pairs(lines) =~= seq![(filename, hex)]);
    let pairs = seq![(filename, hex)];
    assert(pairs.drop_last() =~= Seq::<(Seq<char>, Seq<char>)>::empty());
    assert(pairs.last() == (filename, hex));
    assert(pairs_map(Seq::<(Seq<char>, Seq<char>)>::empty()) == Map::<Seq<char>, Seq<char>>::empty());
    assert(pairs_map(pairs) == pairs_map(pairs.drop_last()).insert(filename, hex));
    assert(pairs_map(pairs) =~= Map::<Seq<char>, Seq<char>>::empty().insert(filename, hex));
}

} // verus!
