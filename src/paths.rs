//! Paths, held as text, and the include search directories built from them.

use vstd::prelude::*;

verus! {

/// The final component of a path without its extension, as `Path::file_stem` gives it.
pub uninterp spec fn stem_of(p: Seq<char>) -> Option<Seq<char>>;

/// The final component of a path, as `Path::file_name` gives it.
pub uninterp spec fn file_name_of(p: Seq<char>) -> Option<Seq<char>>;

/// The path that `PathBuf::pop` leaves: the parent, or the path itself where it has none.
pub uninterp spec fn parent_of(p: Seq<char>) -> Seq<char>;

/// A path followed by one more component, as `Path::join` builds it.
pub uninterp spec fn joined(dir: Seq<char>, name: Seq<char>) -> Seq<char>;

/// Relies on Path::file_stem: the file name without its extension, if the path names a file.
#[verifier::external_body]
pub(crate) fn file_stem(p: &str) -> (r: Option<String>)
    ensures
        r matches Some(s) ==> stem_of(p@) == Some(s@),
        r is None ==> stem_of(p@) is None,
{
    std::path::Path::new(p).file_stem().map(|s| s.to_string_lossy().into_owned())
}

/// Relies on Path::file_name: the final component, if the path has one.
#[verifier::external_body]
pub(crate) fn file_name(p: &str) -> (r: Option<String>)
    ensures
        r matches Some(s) ==> file_name_of(p@) == Some(s@),
        r is None ==> file_name_of(p@) is None,
{
    std::path::Path::new(p).file_name().map(|s| s.to_string_lossy().into_owned())
}

/// Relies on PathBuf::pop: drops the final component where there is a parent.
#[verifier::external_body]
pub(crate) fn parent_dir(p: &str) -> (r: String)
    ensures
        r@ == parent_of(p@),
{
    let mut b = std::path::PathBuf::from(p);
    b.pop();
    b.to_string_lossy().into_owned()
}

/// Relies on Path::join: the path with one more component appended.
#[verifier::external_body]
pub(crate) fn join_path(dir: &str, name: &str) -> (r: String)
    ensures
        r@ == joined(dir@, name@),
{
    std::path::Path::new(dir).join(name).to_string_lossy().into_owned()
}

/// Lexicographic order of texts by character code.
pub open spec fn text_less(a: Seq<char>, b: Seq<char>) -> bool
    decreases a.len(),
{
    if a.len() == 0 {
        b.len() > 0
    } else if b.len() == 0 {
        false
    } else if a[0] != b[0] {
        a[0] < b[0]
    } else {
        text_less(a.drop_first(), b.drop_first())
    }
}

/// Each text strictly before the next: sorted, with no text twice.
pub open spec fn strictly_sorted(s: Seq<Seq<char>>) -> bool {
    forall|k: int, l: int| 0 <= k < l < s.len() ==> text_less(#[trigger] s[k], #[trigger] s[l])
}

pub open spec fn views_of(v: Seq<String>) -> Seq<Seq<char>> {
    v.map_values(|s: String| s@)
}

/// The include search directories for a set of staged include files: the
/// directory of each, sorted, each once.
pub open spec fn is_include_directory_list(r: Seq<Seq<char>>, files: Seq<Seq<char>>) -> bool {
    &&& strictly_sorted(r)
    &&& forall|d: Seq<char>| r.contains(d) <==> exists|i: int| 0 <= i < files.len()
        && d == parent_of(#[trigger] files[i])
}

pub proof fn lemma_text_less_irreflexive(a: Seq<char>)
    ensures
        !text_less(a, a),
    decreases a.len(),
{
    if a.len() > 0 {
        lemma_text_less_irreflexive(a.drop_first());
    }
}

pub proof fn lemma_text_less_total(a: Seq<char>, b: Seq<char>)
    ensures
        a == b || text_less(a, b) || text_less(b, a),
    decreases a.len(),
{
    if a.len() > 0 && b.len() > 0 && a[0] == b[0] {
        lemma_text_less_total(a.drop_first(), b.drop_first());
        if a.drop_first() == b.drop_first() {
            assert(a == seq![a[0]] + a.drop_first());
            assert(b == seq![b[0]] + b.drop_first());
        }
    } else if a.len() == 0 && b.len() == 0 {
        assert(a == b);
    }
}

pub proof fn lemma_text_less_transitive(a: Seq<char>, b: Seq<char>, c: Seq<char>)
    requires
        text_less(a, b),
        text_less(b, c),
    ensures
        text_less(a, c),
    decreases a.len(),
{
    if a.len() > 0 && b.len() > 0 && c.len() > 0 && a[0] == b[0] && b[0] == c[0] {
        lemma_text_less_transitive(a.drop_first(), b.drop_first(), c.drop_first());
    }
}

/// Compares two texts in `text_less` order: less, equal, or greater.
pub fn compare_text(a: &str, b: &str) -> (r: i8)
    ensures
        r < 0 <==> text_less(a@, b@),
        r == 0 <==> a@ == b@,
        r > 0 <==> text_less(b@, a@),
{
    proof {
        lemma_text_less_irreflexive(a@);
        lemma_text_less_total(a@, b@);
    }
    let n = a.unicode_len();
    let m = b.unicode_len();
    let mut i: usize = 0;
    assert(a@.subrange(0, n as int) == a@);
    assert(b@.subrange(0, m as int) == b@);
    while i < n && i < m
        invariant
            i <= n,
            i <= m,
            n == a@.len(),
            m == b@.len(),
            a@.subrange(0, i as int) == b@.subrange(0, i as int),
            text_less(a@, b@) == text_less(a@.subrange(i as int, n as int), b@.subrange(i as int, m as int)),
            text_less(b@, a@) == text_less(b@.subrange(i as int, m as int), a@.subrange(i as int, n as int)),
        decreases n - i,
    {
        let x = a.get_char(i);
        let y = b.get_char(i);
        let ghost sa = a@.subrange(i as int, n as int);
        let ghost sb = b@.subrange(i as int, m as int);
        assert(sa[0] == x && sb[0] == y);
        if x != y {
            assert(a@[i as int] != b@[i as int]);
            if x < y {
                return -1;
            } else {
                return 1;
            }
        }
        assert(sa.drop_first() == a@.subrange(i + 1, n as int));
        assert(sb.drop_first() == b@.subrange(i + 1, m as int));
        assert(a@.subrange(0, i + 1) == a@.subrange(0, i as int).push(x));
        assert(b@.subrange(0, i + 1) == b@.subrange(0, i as int).push(y));
        i = i + 1;
    }
    let ghost sa = a@.subrange(i as int, n as int);
    let ghost sb = b@.subrange(i as int, m as int);
    if n == m {
        assert(a@ == a@.subrange(0, i as int));
        assert(b@ == b@.subrange(0, i as int));
        0
    } else if i == n {
        assert(sa.len() == 0 && sb.len() > 0);
        -1
    } else {
        assert(sb.len() == 0 && sa.len() > 0);
        1
    }
}

/// Inserts `x` into a strictly sorted list, unless it is already there.
fn insert_sorted(v: &mut Vec<String>, x: String)
    requires
        strictly_sorted(views_of(old(v)@)),
    ensures
        strictly_sorted(views_of(final(v)@)),
        forall|d: Seq<char>| views_of(final(v)@).contains(d) <==> (views_of(old(v)@).contains(d) || d == x@),
{
    let ghost old_v = views_of(v@);
    let mut k: usize = 0;
    let mut at_greater = false;
    while k < v.len() && !at_greater
        invariant
            k <= v@.len(),
            v@ == old(v)@,
            old_v == views_of(v@),
            strictly_sorted(old_v),
            forall|j: int| 0 <= j < k ==> text_less(#[trigger] old_v[j], x@),
            at_greater ==> k < old_v.len() && text_less(x@, old_v[k as int]),
        decreases v@.len() - k + (if at_greater { 0int } else { 1int }),
    {
        let c = compare_text(v[k].as_str(), x.as_str());
        assert(old_v[k as int] == v@[k as int]@);
        if c == 0 {
            assert(old_v.contains(x@));
            return;
        }
        if c > 0 {
            at_greater = true;
        } else {
            k = k + 1;
        }
    }
    v.insert(k, x);
    let ghost nv = views_of(v@);
    assert(nv =~= old_v.subrange(0, k as int).push(x@) + old_v.subrange(k as int, old_v.len() as int));
    assert forall|a: int, b: int| 0 <= a < b < nv.len() implies text_less(#[trigger] nv[a], #[trigger] nv[b]) by {
        if b < k {
            assert(nv[a] == old_v[a] && nv[b] == old_v[b]);
        } else if a > k {
            assert(nv[a] == old_v[a - 1] && nv[b] == old_v[b - 1]);
        } else if b == k {
            assert(nv[a] == old_v[a]);
        } else {
            assert(nv[b] == old_v[b - 1]);
            if b > k + 1 {
                lemma_text_less_transitive(x@, old_v[k as int], old_v[b - 1]);
            }
            if a < k {
                assert(nv[a] == old_v[a]);
                lemma_text_less_transitive(nv[a], x@, nv[b]);
            }
        }
    }
    assert forall|d: Seq<char>| nv.contains(d) <==> (old_v.contains(d) || d == x@) by {
        if nv.contains(d) {
            let j = choose|j: int| 0 <= j < nv.len() && nv[j] == d;
            if j < k {
                assert(old_v[j] == d);
            } else if j > k {
                assert(old_v[j - 1] == d);
            }
        }
        if old_v.contains(d) {
            let j = choose|j: int| 0 <= j < old_v.len() && old_v[j] == d;
            if j < k {
                assert(nv[j] == d);
            } else {
                assert(nv[j + 1] == d);
            }
        }
        if d == x@ {
            assert(nv[k as int] == d);
        }
    }
}

/// The directories of the include files, sorted and each given once.
pub fn include_directories(files: &Vec<String>) -> (r: Vec<String>)
    ensures
        is_include_directory_list(views_of(r@), views_of(files@)),
{
    let ghost fs = views_of(files@);
    let mut r: Vec<String> = Vec::new();
    let mut i: usize = 0;
    assert(views_of(r@) =~= Seq::<Seq<char>>::empty());
    while i < files.len()
        invariant
            i <= files@.len(),
            fs == views_of(files@),
            strictly_sorted(views_of(r@)),
            forall|d: Seq<char>| views_of(r@).contains(d) <==> exists|j: int| 0 <= j < i
                && d == parent_of(#[trigger] fs[j]),
        decreases files@.len() - i,
    {
        let dir = parent_dir(files[i].as_str());
        assert(fs[i as int] == files@[i as int]@);
        let ghost prev = views_of(r@);
        insert_sorted(&mut r, dir);
        assert forall|d: Seq<char>| views_of(r@).contains(d) <==> exists|j: int| 0 <= j < i + 1
            && d == parent_of(#[trigger] fs[j]) by {
            if views_of(r@).contains(d) && !prev.contains(d) {
                assert(d == parent_of(fs[i as int]));
            }
            if exists|j: int| 0 <= j < i + 1 && d == parent_of(#[trigger] fs[j]) {
                let j = choose|j: int| 0 <= j < i + 1 && d == parent_of(#[trigger] fs[j]);
                if j < i {
                    assert(prev.contains(d));
                }
            }
        }
        i = i + 1;
    }
    r
}

} // verus!
