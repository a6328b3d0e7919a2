//! The index renderer: the root listing of packages and one listing of wheel
//! files per package, in an order fixed by the catalog's contents alone.
use vstd::prelude::*;

use crate::catalog::{files_view, position_of_wheel, wheel_names, Packages, WheelFile};
use crate::text::{append_chars, from_chars, push_str, string_views, to_chars};

verus! {

broadcast use {vstd::seq_lib::to_multiset_contains, vstd::seq_lib::to_multiset_len};

/// `a` sorts strictly before `b`: the characters are compared by code point,
/// left to right, and a proper prefix sorts first.
pub open spec fn text_lt(a: Seq<char>, b: Seq<char>) -> bool
    decreases a.len(),
{
    if a.len() == 0 {
        b.len() > 0
    } else if b.len() == 0 {
        false
    } else if a[0] != b[0] {
        a[0] < b[0]
    } else {
        text_lt(a.drop_first(), b.drop_first())
    }
}

proof fn lemma_text_lt_asymmetric(a: Seq<char>, b: Seq<char>)
    ensures
        !(text_lt(a, b) && text_lt(b, a)),
    decreases a.len(),
{
    if a.len() > 0 && b.len() > 0 && a[0] == b[0] {
        lemma_text_lt_asymmetric(a.drop_first(), b.drop_first());
    }
}

proof fn lemma_text_lt_total(a: Seq<char>, b: Seq<char>)
    requires
        a != b,
    ensures
        text_lt(a, b) || text_lt(b, a),
    decreases a.len(),
{
    if a.len() > 0 && b.len() > 0 {
        if a[0] == b[0] {
            if a.drop_first() == b.drop_first() {
                assert(a =~= seq![a[0]] + a.drop_first());
                assert(b =~= seq![b[0]] + b.drop_first());
            }
            lemma_text_lt_total(a.drop_first(), b.drop_first());
        }
    } else if a.len() == 0 && b.len() == 0 {
        assert(a =~= b);
    }
}

/// Relies on itertools' `Itertools::sorted`, which sorts with `String`'s
/// `Ord`: the same strings, in ascending order. That order compares the
/// UTF-8 bytes lexicographically, which orders the characters by code point.
#[verifier::external_body]
fn sorted_strings(v: Vec<String>) -> (r: Vec<String>)
    ensures
        string_views(r@).to_multiset() == string_views(v@).to_multiset(),
        forall|i: int, j: int| 0 <= i < j < r@.len() ==> !text_lt(r@[j]@, r@[i]@),
{
    itertools::Itertools::sorted(v.into_iter()).collect()
}

/// Each element sorts strictly before every later one.
pub open spec fn strictly_sorted(s: Seq<Seq<char>>) -> bool {
    forall|i: int, j: int| 0 <= i < j < s.len() ==> text_lt(s[i], s[j])
}

/// The elements of the finite set `keys`, in ascending order.
pub open spec fn sorted_keys(keys: Set<Seq<char>>) -> Seq<Seq<char>> {
    choose|s: Seq<Seq<char>>| strictly_sorted(s) && s.to_set() == keys
}

/// Two strictly ascending sequences with the same elements are equal.
proof fn lemma_sorted_unique(s1: Seq<Seq<char>>, s2: Seq<Seq<char>>)
    requires
        strictly_sorted(s1),
        strictly_sorted(s2),
        s1.to_set() == s2.to_set(),
    ensures
        s1 == s2,
    decreases s1.len(),
{
    if s1.len() == 0 {
        if s2.len() > 0 {
            assert(s2.to_set().contains(s2[0]));
        }
        assert(s1 =~= s2);
    } else {
        assert(s1.to_set().contains(s1[0]));
        assert(s2.len() > 0) by {
            if s2.len() == 0 {
                assert(s2.to_set() =~= Set::empty());
            }
        }
        assert(s2.to_set().contains(s2[0]));
        let k = choose|k: int| 0 <= k < s2.len() && s2[k] == s1[0];
        let m = choose|m: int| 0 <= m < s1.len() && s1[m] == s2[0];
        if k > 0 && m > 0 {
            lemma_text_lt_asymmetric(s1[0], s2[0]);
        }
        if k > 0 && m == 0 {
            lemma_text_lt_asymmetric(s2[0], s2[k]);
        }
        assert(s1[0] == s2[0]);
        let t1 = s1.drop_first();
        let t2 = s2.drop_first();
        assert forall|x: Seq<char>| t1.to_set().contains(x) <==> t2.to_set().contains(x) by {
            if t1.to_set().contains(x) {
                let a = choose|a: int| 0 <= a < t1.len() && t1[a] == x;
                assert(s1[a + 1] == x);
                lemma_text_lt_asymmetric(s1[0], x);
                assert(s2.to_set().contains(x));
                let b = choose|b: int| 0 <= b < s2.len() && s2[b] == x;
                assert(b != 0);
                assert(t2[b - 1] == x);
            }
            if t2.to_set().contains(x) {
                let a = choose|a: int| 0 <= a < t2.len() && t2[a] == x;
                assert(s2[a + 1] == x);
                lemma_text_lt_asymmetric(s2[0], x);
                assert(s1.to_set().contains(x));
                let b = choose|b: int| 0 <= b < s1.len() && s1[b] == x;
                assert(b != 0);
                assert(t1[b - 1] == x);
            }
        }
        assert(t1.to_set() =~= t2.to_set());
        lemma_sorted_unique(t1, t2);
        assert(s1 =~= seq![s1[0]] + t1);
        assert(s2 =~= seq![s2[0]] + t2);
    }
}

/// A sorting of distinct strings that make up `keys` is `sorted_keys(keys)`.
proof fn lemma_sorted_is_canonical(input: Seq<Seq<char>>, out: Seq<Seq<char>>, keys: Set<Seq<char>>)
    requires
        input.no_duplicates(),
        input.to_set() == keys,
        out.to_multiset() == input.to_multiset(),
        forall|i: int, j: int| 0 <= i < j < out.len() ==> !text_lt(out[j], out[i]),
    ensures
        out == sorted_keys(keys),
        out.to_set() == keys,
        out.len() == input.len(),
{
    input.lemma_multiset_has_no_duplicates();
    out.lemma_multiset_has_no_duplicates_conv();
    assert forall|x: Seq<char>| out.to_set().contains(x) <==> keys.contains(x) by {
        assert(out.contains(x) <==> out.to_multiset().count(x) > 0);
        assert(input.contains(x) <==> input.to_multiset().count(x) > 0);
    }
    assert(out.to_set() =~= keys);
    assert forall|i: int, j: int| 0 <= i < j < out.len() implies text_lt(out[i], out[j]) by {
        lemma_text_lt_total(out[i], out[j]);
    }
    vstd::seq_lib::to_multiset_len(out);
    vstd::seq_lib::to_multiset_len(input);
    let s = sorted_keys(keys);
    assert(strictly_sorted(s) && s.to_set() == keys);
    lemma_sorted_unique(out, s);
}


/// The link of the root document to a package's own document.
pub open spec fn package_link(package: Seq<char>) -> Seq<char> {
    "    <a href=\""@ + package + "/\">"@ + package + "</a><br />\n"@
}

/// The links to the packages `names`, in order.
pub open spec fn package_links(names: Seq<Seq<char>>) -> Seq<char>
    decreases names.len(),
{
    if names.len() == 0 {
        seq![]
    } else {
        package_links(names.drop_last()) + package_link(names.last())
    }
}

/// The end of every document.
pub open spec fn document_tail() -> Seq<char> {
    "  </body>\n</html>\n"@
}

/// The start of the root document.
pub open spec fn index_head() -> Seq<char> {
    "<!DOCTYPE html>\n<html>\n  <head>\n    <title>Simple index</title>\n  </head>\n  <body>\n"@
}

/// The root document of a catalog: a link to each package, by name in
/// ascending order.
pub open spec fn index_document(c: Map<Seq<char>, Map<Seq<char>, Seq<char>>>) -> Seq<char> {
    index_head() + package_links(sorted_keys(c.dom())) + document_tail()
}

/// The link of a package document to one wheel file.
pub open spec fn wheel_link(name: Seq<char>, url: Seq<char>) -> Seq<char> {
    "    <a href=\""@ + url + "\">"@ + name + "</a><br />\n"@
}

/// The links to the wheel files `names` of `files`, in order.
pub open spec fn wheel_links(names: Seq<Seq<char>>, files: Map<Seq<char>, Seq<char>>) -> Seq<char>
    decreases names.len(),
{
    if names.len() == 0 {
        seq![]
    } else {
        wheel_links(names.drop_last(), files) + wheel_link(names.last(), files[names.last()])
    }
}

/// The start of a package document.
pub open spec fn package_head(package: Seq<char>) -> Seq<char> {
    "<!DOCTYPE html>\n<html>\n  <head>\n    <title>Links for "@ + package
        + "</title>\n  </head>\n  <body>\n    <h1>Links for "@ + package + "</h1>\n"@
}

/// The document of one package: a link to each of its wheel files, under its
/// URL and by file name in ascending order.
pub open spec fn package_document(package: Seq<char>, files: Map<Seq<char>, Seq<char>>) -> Seq<char> {
    package_head(package) + wheel_links(sorted_keys(files.dom()), files) + document_tail()
}

/// Sorts `names`, which are distinct and make up `keys`, into `sorted_keys(keys)`.
fn sort_keys(names: Vec<String>, Ghost(keys): Ghost<Set<Seq<char>>>) -> (r: Vec<String>)
    requires
        string_views(names@).no_duplicates(),
        string_views(names@).to_set() == keys,
    ensures
        string_views(r@) == sorted_keys(keys),
        string_views(r@).to_set() == keys,
{
    let ghost input = string_views(names@);
    let r = sorted_strings(names);
    proof {
        let out = string_views(r@);
        assert forall|i: int, j: int| 0 <= i < j < out.len() implies !text_lt(out[j], out[i]) by {
            assert(out[j] == r@[j]@ && out[i] == r@[i]@);
        }
        lemma_sorted_is_canonical(input, out, keys);
    }
    r
}

impl Packages {
    /// Renders the root document: a link to each package's directory, by
    /// package name in ascending order. It depends on the catalog's contents
    /// alone.
    pub fn render_index(&self) -> (r: String)
        requires
            self.wf(),
        ensures
            r@ == index_document(self@),
    {
        let names = sort_keys(self.package_names(), Ghost(self@.dom()));
        let ghost sorted = string_views(names@);
        let mut out: Vec<char> = Vec::new();
        push_str(&mut out, "<!DOCTYPE html>\n<html>\n  <head>\n    <title>Simple index</title>\n  </head>\n  <body>\n");
        let mut i: usize = 0;
        while i < names.len()
            invariant
                i <= names@.len(),
                sorted == string_views(names@),
                out@ == index_head() + package_links(sorted.subrange(0, i as int)),
            decreases names@.len() - i,
        {
            assert(sorted.subrange(0, i + 1).drop_last() =~= sorted.subrange(0, i as int));
            let p = names[i].as_str();
            push_str(&mut out, "    <a href=\"");
            push_str(&mut out, p);
            push_str(&mut out, "/\">");
            push_str(&mut out, p);
            push_str(&mut out, "</a><br />\n");
            i = i + 1;
            assert(out@ =~= index_head() + package_links(sorted.subrange(0, i as int)));
        }
        push_str(&mut out, "  </body>\n</html>\n");
        assert(sorted.subrange(0, sorted.len() as int) =~= sorted);
        from_chars(&out)
    }

    /// Renders the document of each package, as `(package, document)`, by
    /// package name in ascending order. Each depends on the catalog's
    /// contents alone.
    pub fn render_package_files(&self) -> (r: Vec<(String, String)>)
        requires
            self.wf(),
        ensures
            r@.len() == sorted_keys(self@.dom()).len(),
            forall|i: int|
                0 <= i < r@.len() ==> (#[trigger] r@[i]).0@ == sorted_keys(self@.dom())[i]
                    && r@[i].1@ == package_document(r@[i].0@, self@[r@[i].0@]),
    {
        let names = sort_keys(self.package_names(), Ghost(self@.dom()));
        let ghost sorted = string_views(names@);
        let mut r: Vec<(String, String)> = Vec::new();
        let mut i: usize = 0;
        while i < names.len()
            invariant
                self.wf(),
                i <= names@.len(),
                sorted == string_views(names@),
                sorted == sorted_keys(self@.dom()),
                sorted.to_set() == self@.dom(),
                r@.len() == i,
                forall|a: int|
                    0 <= a < i ==> (#[trigger] r@[a]).0@ == sorted[a] && r@[a].1@
                        == package_document(r@[a].0@, self@[r@[a].0@]),
            decreases names@.len() - i,
        {
            assert(sorted.to_set().contains(sorted[i as int]));
            let files = self.package_wheels(&names[i]);
            let doc = render_package(names[i].as_str(), &files);
            r.push((names[i].clone(), doc));
            i = i + 1;
        }
        r
    }
}

/// The document of `package`, whose wheel files are `files`.
fn render_package(package: &str, files: &Vec<WheelFile>) -> (r: String)
    requires
        crate::catalog::wheel_names_distinct(files@),
    ensures
        r@ == package_document(package@, files_view(files@)),
{
    let ghost fv = files_view(files@);
    let names = sort_keys(wheel_names(files), Ghost(fv.dom()));
    let ghost sorted = string_views(names@);
    let mut out: Vec<char> = Vec::new();
    push_str(&mut out, "<!DOCTYPE html>\n<html>\n  <head>\n    <title>Links for ");
    push_str(&mut out, package);
    push_str(&mut out, "</title>\n  </head>\n  <body>\n    <h1>Links for ");
    push_str(&mut out, package);
    push_str(&mut out, "</h1>\n");
    assert(out@ =~= package_head(package@));
    let mut i: usize = 0;
    while i < names.len()
        invariant
            i <= names@.len(),
            crate::catalog::wheel_names_distinct(files@),
            fv == files_view(files@),
            sorted == string_views(names@),
            sorted == sorted_keys(fv.dom()),
            sorted.to_set() == fv.dom(),
            out@ == package_head(package@) + wheel_links(sorted.subrange(0, i as int), fv),
        decreases names@.len() - i,
    {
        assert(sorted.subrange(0, i + 1).drop_last() =~= sorted.subrange(0, i as int));
        assert(sorted.to_set().contains(sorted[i as int]));
        match position_of_wheel(files, &names[i]) {
            Some(k) => {
                proof { crate::catalog::lemma_files_view_at(files@, k as int); }
                push_str(&mut out, "    <a href=\"");
                push_str(&mut out, files[k].url.as_str());
                push_str(&mut out, "\">");
                push_str(&mut out, names[i].as_str());
                push_str(&mut out, "</a><br />\n");
            },
            None => {
                proof {
                    let a = choose|a: int| 0 <= a < files@.len() && files@[a].name@ == sorted[i as int];
                }
            },
        }
        i = i + 1;
        assert(out@ =~= package_head(package@) + wheel_links(sorted.subrange(0, i as int), fv));
    }
    push_str(&mut out, "  </body>\n</html>\n");
    assert(sorted.subrange(0, sorted.len() as int) =~= sorted);
    from_chars(&out)
}

/// Rendering is a function of the catalog's contents: catalogs with the same
/// contents, whatever order their releases came in, have the same root
/// document and the same document for each package, so rendering twice
/// gives the same bytes.
pub proof fn lemma_render_deterministic(a: Packages, b: Packages)
    requires
        a.wf(),
        b.wf(),
        a@ == b@,
    ensures
        index_document(a@) == index_document(b@),
        forall|p: Seq<char>| #[trigger] a@.contains_key(p) ==> package_document(p, a@[p]) == package_document(p, b@[p]),
{
}

} // verus!
