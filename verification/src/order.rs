//! The order of paths: component by component, each component compared by
//! code points, a proper prefix coming first.
use vstd::prelude::*;

verus! {

/// Whether text `a` comes strictly before text `b`: compared code point by
/// code point, a proper prefix first.
pub open spec fn text_lt(a: Seq<char>, b: Seq<char>) -> bool
    decreases a.len(),
{
    if a.len() == 0 {
        b.len() > 0
    } else if b.len() == 0 {
        false
    } else if a[0] != b[0] {
        (a[0] as int) < (b[0] as int)
    } else {
        text_lt(a.drop_first(), b.drop_first())
    }
}

/// Whether path `a` comes strictly before path `b`: compared component by
/// component, a proper prefix first.
pub open spec fn path_lt(a: Seq<Seq<char>>, b: Seq<Seq<char>>) -> bool
    decreases a.len(),
{
    if a.len() == 0 {
        b.len() > 0
    } else if b.len() == 0 {
        false
    } else if a[0] != b[0] {
        text_lt(a[0], b[0])
    } else {
        path_lt(a.drop_first(), b.drop_first())
    }
}

/// Whether path `a` comes before path `b` or is equal to it.
pub open spec fn path_le(a: Seq<Seq<char>>, b: Seq<Seq<char>>) -> bool {
    a == b || path_lt(a, b)
}

/// The paths are in order.
pub open spec fn paths_sorted(ps: Seq<Vec<String>>) -> bool {
    forall|i: int, j: int|
        0 <= i < j < ps.len() ==> path_le((#[trigger] ps[i]).deep_view(), (#[trigger] ps[j]).deep_view())
}

/// No two of the paths are the same path.
pub open spec fn distinct_paths(ps: Seq<Vec<String>>) -> bool {
    forall|i: int, j: int|
        0 <= i < ps.len() && 0 <= j < ps.len() && i != j ==> (#[trigger] ps[i]).deep_view()
            != (#[trigger] ps[j]).deep_view()
}

/// The paths are in strictly ascending order.
pub open spec fn paths_ascending(ps: Seq<Vec<String>>) -> bool {
    forall|i: int, j: int|
        0 <= i < j < ps.len() ==> path_lt((#[trigger] ps[i]).deep_view(), (#[trigger] ps[j]).deep_view())
}

proof fn lemma_count_two<A>(s: Seq<A>, i: int, j: int)
    requires
        0 <= i < j < s.len(),
        s[i] == s[j],
    ensures
        s.to_multiset().count(s[i]) >= 2,
{
    broadcast use vstd::multiset::group_multiset_axioms;

    let v = s[i];
    let t = s.remove(j);
    assert(t[i] == v);
    assert(t.contains(v));
    vstd::seq_lib::to_multiset_contains(t, v);
    vstd::seq_lib::to_multiset_remove(s, j);
    assert(t.to_multiset().count(v) > 0);
    vstd::seq_lib::to_multiset_contains(s, v);
    assert(s.contains(v)) by {
        assert(s[i] == v);
    }
}

/// Sorting paths of which no two are the same gives them in strictly
/// ascending order.
pub proof fn lemma_sorted_distinct_ascending(r: Seq<Vec<String>>, orig: Seq<Vec<String>>)
    requires
        paths_sorted(r),
        r.to_multiset() == orig.to_multiset(),
        distinct_paths(orig),
    ensures
        paths_ascending(r),
{
    broadcast use vstd::seq_lib::group_to_multiset_ensures;

    assert(orig.no_duplicates()) by {
        assert forall|a: int, b: int|
            0 <= a < orig.len() && 0 <= b < orig.len() && a != b implies orig[a] != orig[b] by {
            assert(orig[a].deep_view() != orig[b].deep_view());
        }
    }
    orig.lemma_multiset_has_no_duplicates();
    assert forall|i: int, j: int| 0 <= i < j < r.len() implies path_lt(
        (#[trigger] r[i]).deep_view(),
        (#[trigger] r[j]).deep_view(),
    ) by {
        assert(path_le(r[i].deep_view(), r[j].deep_view()));
        if r[i].deep_view() == r[j].deep_view() {
            assert(r.contains(r[i]));
            assert(r.contains(r[j]));
            vstd::seq_lib::to_multiset_contains(r, r[i]);
            vstd::seq_lib::to_multiset_contains(r, r[j]);
            vstd::seq_lib::to_multiset_contains(orig, r[i]);
            vstd::seq_lib::to_multiset_contains(orig, r[j]);
            assert(orig.contains(r[i]));
            assert(orig.contains(r[j]));
            let p = choose|p: int| 0 <= p < orig.len() && orig[p] == r[i];
            let q = choose|q: int| 0 <= q < orig.len() && orig[q] == r[j];
            if p != q {
                assert(orig[p].deep_view() != orig[q].deep_view());
            }
            assert(r[i] == r[j]);
            lemma_count_two(r, i, j);
            assert(orig.to_multiset().contains(r[i]));
        }
    }
}

/// No text comes before itself.
pub proof fn lemma_text_lt_irrefl(a: Seq<char>)
    ensures
        !text_lt(a, a),
    decreases a.len(),
{
    if a.len() > 0 {
        lemma_text_lt_irrefl(a.drop_first());
    }
}

/// The order of texts is transitive.
pub proof fn lemma_text_lt_trans(a: Seq<char>, b: Seq<char>, c: Seq<char>)
    requires
        text_lt(a, b),
        text_lt(b, c),
    ensures
        text_lt(a, c),
    decreases a.len(),
{
    if a.len() > 0 && b.len() > 0 && c.len() > 0 && a[0] == b[0] && b[0] == c[0] {
        lemma_text_lt_trans(a.drop_first(), b.drop_first(), c.drop_first());
    }
}

/// Of two different texts, one comes before the other.
pub proof fn lemma_text_lt_total(a: Seq<char>, b: Seq<char>)
    requires
        a != b,
    ensures
        text_lt(a, b) || text_lt(b, a),
    decreases a.len(),
{
    if a.len() == 0 && b.len() == 0 {
        assert(a =~= b);
    }
    if a.len() > 0 && b.len() > 0 && a[0] != b[0] {
        assert((a[0] as int) != (b[0] as int));
    }
    if a.len() > 0 && b.len() > 0 && a[0] == b[0] {
        if a.drop_first() == b.drop_first() {
            assert(a =~= seq![a[0]] + a.drop_first());
            assert(b =~= seq![b[0]] + b.drop_first());
        }
        lemma_text_lt_total(a.drop_first(), b.drop_first());
    }
}

/// Two texts never each come before the other.
pub proof fn lemma_text_lt_asym(a: Seq<char>, b: Seq<char>)
    requires
        text_lt(a, b),
    ensures
        !text_lt(b, a),
    decreases a.len(),
{
    if a.len() > 0 && b.len() > 0 && a[0] == b[0] {
        lemma_text_lt_asym(a.drop_first(), b.drop_first());
    }
}

/// No path comes before itself.
pub proof fn lemma_path_lt_irrefl(a: Seq<Seq<char>>)
    ensures
        !path_lt(a, a),
    decreases a.len(),
{
    if a.len() > 0 {
        lemma_path_lt_irrefl(a.drop_first());
    }
}

/// The order of paths is transitive.
pub proof fn lemma_path_lt_trans(a: Seq<Seq<char>>, b: Seq<Seq<char>>, c: Seq<Seq<char>>)
    requires
        path_lt(a, b),
        path_lt(b, c),
    ensures
        path_lt(a, c),
    decreases a.len(),
{
    if a.len() > 0 && b.len() > 0 && c.len() > 0 {
        if a[0] == b[0] && b[0] == c[0] {
            lemma_path_lt_trans(a.drop_first(), b.drop_first(), c.drop_first());
        } else if a[0] != b[0] && b[0] != c[0] {
            lemma_text_lt_trans(a[0], b[0], c[0]);
            if a[0] == c[0] {
                lemma_text_lt_irrefl(a[0]);
            }
        }
    }
}

/// Of two different paths, one comes before the other.
pub proof fn lemma_path_lt_total(a: Seq<Seq<char>>, b: Seq<Seq<char>>)
    requires
        a != b,
    ensures
        path_lt(a, b) || path_lt(b, a),
    decreases a.len(),
{
    if a.len() == 0 && b.len() == 0 {
        assert(a =~= b);
    }
    if a.len() > 0 && b.len() > 0 {
        if a[0] == b[0] {
            if a.drop_first() == b.drop_first() {
                assert(a =~= seq![a[0]] + a.drop_first());
                assert(b =~= seq![b[0]] + b.drop_first());
            }
            lemma_path_lt_total(a.drop_first(), b.drop_first());
        } else {
            lemma_text_lt_total(a[0], b[0]);
        }
    }
}

/// Two paths never each come before the other.
pub proof fn lemma_path_lt_asym(a: Seq<Seq<char>>, b: Seq<Seq<char>>)
    requires
        path_lt(a, b),
    ensures
        !path_lt(b, a),
    decreases a.len(),
{
    if a.len() > 0 && b.len() > 0 {
        if a[0] == b[0] {
            lemma_path_lt_asym(a.drop_first(), b.drop_first());
        } else {
            lemma_text_lt_asym(a[0], b[0]);
        }
    }
}

/// Whether text `a` comes strictly before text `b`.
pub fn chars_lt(a: &Vec<char>, b: &Vec<char>) -> (r: bool)
    ensures
        r == text_lt(a@, b@),
{
    let mut i: usize = 0;
    assert(a@.skip(0) == a@ && b@.skip(0) == b@);
    while i < a.len() && i < b.len() && a[i] == b[i]
        invariant
            i <= a.len(),
            i <= b.len(),
            text_lt(a@, b@) == text_lt(a@.skip(i as int), b@.skip(i as int)),
        decreases a.len() - i,
    {
        assert(a@.skip(i as int).drop_first() == a@.skip(i + 1));
        assert(b@.skip(i as int).drop_first() == b@.skip(i + 1));
        i = i + 1;
    }
    if i == a.len() {
        i < b.len()
    } else if i == b.len() {
        false
    } else {
        assert(a@.skip(i as int)[0] == a@[i as int]);
        assert(b@.skip(i as int)[0] == b@[i as int]);
        a[i] < b[i]
    }
}

/// Whether path `a` comes strictly before path `b`.
pub fn components_lt(a: &Vec<String>, b: &Vec<String>) -> (r: bool)
    ensures
        r == path_lt(a.deep_view(), b.deep_view()),
{
    let ghost da = a.deep_view();
    let ghost db = b.deep_view();
    let mut i: usize = 0;
    assert(da.skip(0) == da && db.skip(0) == db);
    while i < a.len() && i < b.len() && a[i].eq(&b[i])
        invariant
            i <= a.len(),
            i <= b.len(),
            da == a.deep_view(),
            db == b.deep_view(),
            path_lt(da, db) == path_lt(da.skip(i as int), db.skip(i as int)),
        decreases a.len() - i,
    {
        assert(da.skip(i as int).drop_first() == da.skip(i + 1));
        assert(db.skip(i as int).drop_first() == db.skip(i + 1));
        assert(da.skip(i as int)[0] == db.skip(i as int)[0]);
        i = i + 1;
    }
    if i == a.len() {
        i < b.len()
    } else if i == b.len() {
        false
    } else {
        assert(da.skip(i as int)[0] == a@[i as int]@);
        assert(db.skip(i as int)[0] == b@[i as int]@);
        let ca = crate::text::chars_of(a[i].as_str());
        let cb = crate::text::chars_of(b[i].as_str());
        chars_lt(&ca, &cb)
    }
}

/// The paths in order, each kept as often as it occurs.
pub fn sort_paths(paths: Vec<Vec<String>>) -> (r: Vec<Vec<String>>)
    ensures
        paths_sorted(r@),
        r@.to_multiset() == paths@.to_multiset(),
{
    broadcast use vstd::seq_lib::to_multiset_build, vstd::seq_lib::to_multiset_insert;

    let ghost orig = paths@;
    let mut rest = paths;
    let mut out: Vec<Vec<String>> = Vec::new();
    let n = rest.len();
    let mut k: usize = 0;
    assert(orig.take(0) =~= Seq::<Vec<String>>::empty());
    while k < n
        invariant
            k <= n == orig.len(),
            rest@ == orig.skip(k as int),
            paths_sorted(out@),
            out@.to_multiset() == orig.take(k as int).to_multiset(),
        decreases n - k,
    {
        let x = rest.remove(0);
        assert(x == orig[k as int]);
        assert(rest@ =~= orig.skip(k + 1));
        let mut p: usize = 0;
        while p < out.len() && !components_lt(&x, &out[p])
            invariant
                p <= out.len(),
                forall|q: int| 0 <= q < p ==> !path_lt(x.deep_view(), (#[trigger] out@[q]).deep_view()),
            decreases out.len() - p,
        {
            p = p + 1;
        }
        let ghost before = out@;
        proof {
            let dx = x.deep_view();
            assert forall|q: int| 0 <= q < p implies path_le(
                (#[trigger] before[q]).deep_view(),
                dx,
            ) by {
                if before[q].deep_view() != dx {
                    lemma_path_lt_total(before[q].deep_view(), dx);
                }
            }
            if p < before.len() {
                assert forall|q: int| p <= q < before.len() implies path_lt(
                    dx,
                    (#[trigger] before[q]).deep_view(),
                ) by {
                    if q > p {
                        assert(path_le(before[p as int].deep_view(), before[q].deep_view()));
                        if before[p as int].deep_view() != before[q].deep_view() {
                            lemma_path_lt_trans(dx, before[p as int].deep_view(), before[q].deep_view());
                        }
                    }
                }
            }
        }
        out.insert(p, x);
        proof {
            let dx = x.deep_view();
            assert(out@ == before.insert(p as int, x));
            assert forall|i: int, j: int| 0 <= i < j < out@.len() implies path_le(
                (#[trigger] out@[i]).deep_view(),
                (#[trigger] out@[j]).deep_view(),
            ) by {
                if j < p {
                    assert(out@[i] == before[i] && out@[j] == before[j]);
                } else if j == p {
                    assert(out@[i] == before[i]);
                } else if i > p {
                    assert(out@[i] == before[i - 1] && out@[j] == before[j - 1]);
                } else if i == p {
                    assert(out@[j] == before[j - 1]);
                } else {
                    assert(out@[i] == before[i] && out@[j] == before[j - 1]);
                }
            }
            assert(orig.take(k + 1) =~= orig.take(k as int).push(x));
            vstd::seq_lib::to_multiset_insert(before, p as int, x);
            vstd::seq_lib::to_multiset_build(orig.take(k as int), x);
        }
        k = k + 1;
    }
    assert(orig.take(n as int) =~= orig);
    out
}

} // verus!
