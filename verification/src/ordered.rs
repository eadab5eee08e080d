//! Lexicographic order on texts and ordered sets of texts.
//!
//! Rust orders `String` values by their UTF-8 bytes, which is the same as the
//! lexicographic order of their Unicode scalar values; `lex_lt` states it.

use vstd::prelude::*;

verus! {

/// Strict lexicographic order on character sequences.
pub open spec fn lex_lt(a: Seq<char>, b: Seq<char>) -> bool
    decreases a.len(),
{
    if a.len() == 0 {
        b.len() > 0
    } else if b.len() == 0 {
        false
    } else if a[0] != b[0] {
        a[0] < b[0]
    } else {
        lex_lt(a.drop_first(), b.drop_first())
    }
}

pub proof fn lemma_lex_irreflexive(a: Seq<char>)
    ensures
        !lex_lt(a, a),
    decreases a.len(),
{
    if a.len() > 0 {
        lemma_lex_irreflexive(a.drop_first());
    }
}

pub proof fn lemma_lex_transitive(a: Seq<char>, b: Seq<char>, c: Seq<char>)
    requires
        lex_lt(a, b),
        lex_lt(b, c),
    ensures
        lex_lt(a, c),
    decreases a.len(),
{
    if a.len() > 0 && b.len() > 0 && c.len() > 0 {
        if a[0] == b[0] && b[0] == c[0] {
            lemma_lex_transitive(a.drop_first(), b.drop_first(), c.drop_first());
        }
    }
}

pub proof fn lemma_lex_total(a: Seq<char>, b: Seq<char>)
    ensures
        a == b || lex_lt(a, b) || lex_lt(b, a),
    decreases a.len(),
{
    if a.len() > 0 && b.len() > 0 && a[0] == b[0] {
        lemma_lex_total(a.drop_first(), b.drop_first());
        if a.drop_first() == b.drop_first() {
            assert(a =~= seq![a[0]] + a.drop_first());
            assert(b =~= seq![b[0]] + b.drop_first());
        }
    } else if a.len() == 0 && b.len() == 0 {
        assert(a =~= b);
    }
}

pub proof fn lemma_lex_asymmetric(a: Seq<char>, b: Seq<char>)
    requires
        lex_lt(a, b),
    ensures
        !lex_lt(b, a),
{
    if lex_lt(b, a) {
        lemma_lex_transitive(a, b, a);
        lemma_lex_irreflexive(a);
    }
}

/// Views of a sequence of owned texts.
pub open spec fn string_views(v: Seq<String>) -> Seq<Seq<char>> {
    v.map_values(|s: String| s@)
}

/// Every element precedes every later element: sorted without duplicates.
pub open spec fn strictly_sorted(s: Seq<Seq<char>>) -> bool {
    forall|i: int, j: int| 0 <= i < j < s.len() ==> lex_lt(#[trigger] s[i], #[trigger] s[j])
}

/// The ascending sequence of a finite set of texts.
pub open spec fn sorted_of(s: Set<Seq<char>>) -> Seq<Seq<char>> {
    choose|q: Seq<Seq<char>>| strictly_sorted(q) && q.to_set() == s
}

/// The least element of a sorted sequence is its first one.
proof fn lemma_sorted_first_is_least(q: Seq<Seq<char>>, x: Seq<char>)
    requires
        strictly_sorted(q),
        q.len() > 0,
        q.contains(x),
    ensures
        x == q[0] || lex_lt(q[0], x),
{
    let k = choose|k: int| 0 <= k < q.len() && q[k] == x;
    if k > 0 {
        assert(lex_lt(q[0], q[k]));
    }
}

pub proof fn lemma_sorted_unique(p: Seq<Seq<char>>, q: Seq<Seq<char>>)
    requires
        strictly_sorted(p),
        strictly_sorted(q),
        p.to_set() == q.to_set(),
    ensures
        p == q,
    decreases p.len(),
{
    if p.len() == 0 {
        if q.len() > 0 {
            assert(q.to_set().contains(q[0]));
        }
        assert(p =~= q);
    } else {
        assert(p.to_set().contains(p[0]));
        assert(q.len() > 0);
        assert(q.to_set().contains(q[0]));
        assert(p.contains(q[0]));
        assert(q.contains(p[0]));
        lemma_sorted_first_is_least(p, q[0]);
        lemma_sorted_first_is_least(q, p[0]);
        if p[0] != q[0] {
            lemma_lex_asymmetric(p[0], q[0]);
        }
        let p1 = p.drop_first();
        let q1 = q.drop_first();
        assert forall|x: Seq<char>| p1.to_set().contains(x) implies q1.to_set().contains(x) by {
            let k = choose|k: int| 0 <= k < p1.len() && p1[k] == x;
            assert(p[k + 1] == x);
            assert(lex_lt(p[0], p[k + 1]));
            lemma_lex_irreflexive(x);
            assert(q.to_set().contains(x));
            let m = choose|m: int| 0 <= m < q.len() && q[m] == x;
            assert(m != 0);
            assert(q1[m - 1] == x);
        }
        assert forall|x: Seq<char>| q1.to_set().contains(x) implies p1.to_set().contains(x) by {
            let k = choose|k: int| 0 <= k < q1.len() && q1[k] == x;
            assert(q[k + 1] == x);
            assert(lex_lt(q[0], q[k + 1]));
            lemma_lex_irreflexive(x);
            assert(p.to_set().contains(x));
            let m = choose|m: int| 0 <= m < p.len() && p[m] == x;
            assert(m != 0);
            assert(p1[m - 1] == x);
        }
        assert(p1.to_set() =~= q1.to_set());
        lemma_sorted_unique(p1, q1);
        assert(p =~= seq![p[0]] + p1);
        assert(q =~= seq![q[0]] + q1);
    }
}

/// A strictly sorted sequence equals the ascending sequence of its elements.
pub proof fn lemma_sorted_is_sorted_of(q: Seq<Seq<char>>)
    requires
        strictly_sorted(q),
    ensures
        sorted_of(q.to_set()) == q,
{
    let s = q.to_set();
    assert(strictly_sorted(q) && q.to_set() == s);
    let p = sorted_of(s);
    lemma_sorted_unique(p, q);
}

pub proof fn lemma_push_to_set<A>(s: Seq<A>, x: A)
    ensures
        s.push(x).to_set() == s.to_set().insert(x),
{
    let t = s.push(x);
    assert forall|y: A| t.to_set().contains(y) implies s.to_set().insert(x).contains(y) by {
        let k = choose|k: int| 0 <= k < t.len() && t[k] == y;
        if k < s.len() {
            assert(s[k] == y);
        }
    }
    assert forall|y: A| s.to_set().insert(x).contains(y) implies t.to_set().contains(y) by {
        if y == x {
            assert(t[s.len() as int] == y);
        } else {
            let k = choose|k: int| 0 <= k < s.len() && s[k] == y;
            assert(t[k] == y);
        }
    }
    assert(t.to_set() =~= s.to_set().insert(x));
}

/// `x` placed into a sorted sequence at its position, unless it is already there.
pub open spec fn insert_sorted(q: Seq<Seq<char>>, x: Seq<char>) -> Seq<Seq<char>>
    decreases q.len(),
{
    if q.len() == 0 {
        seq![x]
    } else if lex_lt(x, q[0]) {
        seq![x] + q
    } else if x == q[0] {
        q
    } else {
        seq![q[0]] + insert_sorted(q.drop_first(), x)
    }
}

proof fn lemma_insert_sorted(q: Seq<Seq<char>>, x: Seq<char>)
    requires
        strictly_sorted(q),
    ensures
        strictly_sorted(insert_sorted(q, x)),
        insert_sorted(q, x).to_set() == q.to_set().insert(x),
    decreases q.len(),
{
    let r = insert_sorted(q, x);
    if q.len() == 0 {
        assert(r.to_set() =~= q.to_set().insert(x)) by {
            assert(r[0] == x);
        }
    } else if lex_lt(x, q[0]) {
        assert forall|a: int, b: int| 0 <= a < b < r.len() implies lex_lt(#[trigger] r[a], #[trigger] r[b]) by {
            if a == 0 {
                assert(r[b] == q[b - 1]);
                if b - 1 > 0 {
                    assert(lex_lt(q[0], q[b - 1]));
                    lemma_lex_transitive(x, q[0], q[b - 1]);
                }
            } else {
                assert(r[a] == q[a - 1]);
                assert(r[b] == q[b - 1]);
            }
        }
        assert(r.to_set() =~= q.to_set().insert(x)) by {
            assert forall|y: Seq<char>| r.to_set().contains(y) implies q.to_set().insert(x).contains(y) by {
                let k = choose|k: int| 0 <= k < r.len() && r[k] == y;
                if k > 0 {
                    assert(q[k - 1] == y);
                }
            }
            assert forall|y: Seq<char>| q.to_set().insert(x).contains(y) implies r.to_set().contains(y) by {
                if y == x {
                    assert(r[0] == y);
                } else {
                    let k = choose|k: int| 0 <= k < q.len() && q[k] == y;
                    assert(r[k + 1] == y);
                }
            }
        }
    } else if x == q[0] {
        assert(q.to_set().insert(x) =~= q.to_set()) by {
            assert(q.to_set().contains(q[0]));
        }
    } else {
        let q1 = q.drop_first();
        assert forall|a: int, b: int| 0 <= a < b < q1.len() implies lex_lt(#[trigger] q1[a], #[trigger] q1[b]) by {
            assert(q1[a] == q[a + 1]);
            assert(q1[b] == q[b + 1]);
        }
        lemma_insert_sorted(q1, x);
        let r1 = insert_sorted(q1, x);
        lemma_lex_total(x, q[0]);
        assert(lex_lt(q[0], x));
        assert forall|y: Seq<char>| r1.to_set().contains(y) implies lex_lt(q[0], y) by {
            assert(q1.to_set().insert(x).contains(y));
            if y != x {
                let k = choose|k: int| 0 <= k < q1.len() && q1[k] == y;
                assert(q[k + 1] == y);
            }
        }
        assert forall|a: int, b: int| 0 <= a < b < r.len() implies lex_lt(#[trigger] r[a], #[trigger] r[b]) by {
            if a == 0 {
                assert(r[b] == r1[b - 1]);
                assert(r1.to_set().contains(r1[b - 1]));
            } else {
                assert(r[a] == r1[a - 1]);
                assert(r[b] == r1[b - 1]);
            }
        }
        assert(r.to_set() =~= q.to_set().insert(x)) by {
            assert forall|y: Seq<char>| r.to_set().contains(y) implies q.to_set().insert(x).contains(y) by {
                let k = choose|k: int| 0 <= k < r.len() && r[k] == y;
                if k > 0 {
                    assert(r1[k - 1] == y);
                    assert(r1.to_set().contains(y));
                    assert(q1.to_set().insert(x).contains(y));
                    if y != x {
                        let m = choose|m: int| 0 <= m < q1.len() && q1[m] == y;
                        assert(q[m + 1] == y);
                    }
                }
            }
            assert forall|y: Seq<char>| q.to_set().insert(x).contains(y) implies r.to_set().contains(y) by {
                if y == q[0] {
                    assert(r[0] == y);
                } else {
                    if y != x {
                        let k = choose|k: int| 0 <= k < q.len() && q[k] == y;
                        assert(q1[k - 1] == y);
                    }
                    assert(q1.to_set().insert(x).contains(y));
                    assert(r1.to_set().contains(y));
                    let m = choose|m: int| 0 <= m < r1.len() && r1[m] == y;
                    assert(r[m + 1] == y);
                }
            }
        }
    }
}

/// The texts of a sequence, sorted by inserting them one by one.
pub open spec fn sort_texts(t: Seq<Seq<char>>) -> Seq<Seq<char>>
    decreases t.len(),
{
    if t.len() == 0 {
        Seq::empty()
    } else {
        insert_sorted(sort_texts(t.drop_last()), t.last())
    }
}

/// The ascending sequence of the texts of `t` exists: it is strictly sorted and holds exactly
/// the texts of `t`.
pub proof fn lemma_sorted_of_seq(t: Seq<Seq<char>>)
    ensures
        strictly_sorted(sorted_of(t.to_set())),
        sorted_of(t.to_set()).to_set() == t.to_set(),
    decreases t.len(),
{
    lemma_sort_texts(t);
    let w = sort_texts(t);
    assert(strictly_sorted(w) && w.to_set() == t.to_set());
}

proof fn lemma_sort_texts(t: Seq<Seq<char>>)
    ensures
        strictly_sorted(sort_texts(t)),
        sort_texts(t).to_set() == t.to_set(),
    decreases t.len(),
{
    if t.len() == 0 {
        assert(t.to_set() =~= Set::<Seq<char>>::empty());
        assert(sort_texts(t).to_set() =~= Set::<Seq<char>>::empty());
    } else {
        let t0 = t.drop_last();
        lemma_sort_texts(t0);
        lemma_insert_sorted(sort_texts(t0), t.last());
        lemma_push_to_set(t0, t.last());
        assert(t0.push(t.last()) =~= t);
    }
}

/// Byte-by-byte equality of two byte strings.
pub fn bytes_eq(a: &Vec<u8>, b: &Vec<u8>) -> (r: bool)
    ensures
        r == (a@ == b@),
{
    if a.len() != b.len() {
        return false;
    }
    let mut i: usize = 0;
    while i < a.len()
        invariant
            a@.len() == b@.len(),
            i <= a@.len(),
            forall|j: int| 0 <= j < i ==> a@[j] == b@[j],
        decreases a@.len() - i,
    {
        if a[i] != b[i] {
            return false;
        }
        i = i + 1;
    }
    assert(a@ =~= b@);
    true
}

/// Character-by-character equality of two texts.
pub fn str_eq(a: &str, b: &str) -> (r: bool)
    ensures
        r == (a@ == b@),
{
    let n = a.unicode_len();
    let m = b.unicode_len();
    if n != m {
        return false;
    }
    let mut i: usize = 0;
    while i < n
        invariant
            n == a@.len(),
            m == b@.len(),
            n == m,
            i <= n,
            forall|j: int| 0 <= j < i ==> a@[j] == b@[j],
        decreases n - i,
    {
        if a.get_char(i) != b.get_char(i) {
            return false;
        }
        i = i + 1;
    }
    assert(a@ =~= b@);
    true
}

/// Strict lexicographic comparison of two texts.
pub fn str_lt(a: &str, b: &str) -> (r: bool)
    ensures
        r == lex_lt(a@, b@),
{
    let n = a.unicode_len();
    let m = b.unicode_len();
    let mut i: usize = 0;
    assert(a@.skip(0) =~= a@);
    assert(b@.skip(0) =~= b@);
    while i < n && i < m
        invariant
            n == a@.len(),
            m == b@.len(),
            i <= n,
            i <= m,
            lex_lt(a@, b@) == lex_lt(a@.skip(i as int), b@.skip(i as int)),
        decreases n - i,
    {
        let x = a.get_char(i);
        let y = b.get_char(i);
        assert(a@.skip(i as int)[0] == x);
        assert(b@.skip(i as int)[0] == y);
        if x != y {
            return x < y;
        }
        assert(a@.skip(i as int).drop_first() =~= a@.skip(i + 1));
        assert(b@.skip(i as int).drop_first() =~= b@.skip(i + 1));
        i = i + 1;
    }
    assert(a@.skip(i as int).len() == n - i);
    assert(b@.skip(i as int).len() == m - i);
    i == n && i < m
}

/// Whether one of the texts equals `x`.
pub fn contains_str(v: &Vec<String>, x: &str) -> (r: bool)
    ensures
        r == string_views(v@).contains(x@),
{
    let mut i: usize = 0;
    while i < v.len()
        invariant
            i <= v.len(),
            forall|j: int| 0 <= j < i ==> v@[j]@ != x@,
        decreases v.len() - i,
    {
        if str_eq(v[i].as_str(), x) {
            assert(string_views(v@)[i as int] == x@);
            return true;
        }
        i = i + 1;
    }
    proof {
        if string_views(v@).contains(x@) {
            let k = choose|k: int| 0 <= k < string_views(v@).len() && string_views(v@)[k] == x@;
            assert(v@[k]@ == x@);
        }
    }
    false
}

/// An owned copy of a text.
pub fn copy_str(s: &str) -> (r: String)
    ensures
        r@ == s@,
{
    String::from_str(s)
}

/// An element-wise copy of a list of texts.
pub fn copy_strings(v: &Vec<String>) -> (r: Vec<String>)
    ensures
        r@ == v@,
{
    let mut r: Vec<String> = Vec::new();
    let mut i: usize = 0;
    while i < v.len()
        invariant
            i <= v.len(),
            r@ == v@.take(i as int),
        decreases v.len() - i,
    {
        r.push(v[i].clone());
        assert(v@.take(i + 1) =~= v@.take(i as int).push(v@[i as int]));
        i = i + 1;
    }
    assert(v@.take(v.len() as int) =~= v@);
    r
}

/// Insert `x` into a strictly sorted list of texts unless it is already present.
pub fn sorted_insert(v: &mut Vec<String>, x: String)
    requires
        strictly_sorted(string_views(old(v)@)),
    ensures
        strictly_sorted(string_views(final(v)@)),
        string_views(final(v)@).to_set() == string_views(old(v)@).to_set().insert(x@),
{
    let ghost old_views = string_views(v@);
    let mut i: usize = 0;
    while i < v.len()
        invariant
            i <= v.len(),
            v@ == old(v)@,
            old_views == string_views(v@),
            strictly_sorted(old_views),
            forall|j: int| 0 <= j < i ==> lex_lt(#[trigger] old_views[j], x@),
        ensures
            i <= v.len(),
            v@ == old(v)@,
            forall|j: int| 0 <= j < i ==> lex_lt(#[trigger] old_views[j], x@),
            i < v.len() ==> !lex_lt(old_views[i as int], x@),
        decreases v.len() - i,
    {
        if !str_lt(v[i].as_str(), x.as_str()) {
            break;
        }
        i = i + 1;
    }
    if i < v.len() && str_eq(v[i].as_str(), x.as_str()) {
        proof {
            assert(old_views.to_set().insert(x@) =~= old_views.to_set()) by {
                assert(old_views[i as int] == x@);
            }
        }
        return;
    }
    proof {
        if i < v.len() {
            lemma_lex_total(old_views[i as int], x@);
        }
    }
    v.insert(i, x);
    proof {
        let nv = string_views(v@);
        assert(nv =~= old_views.insert(i as int, x@));
        assert forall|a: int, b: int| 0 <= a < b < nv.len() implies lex_lt(nv[a], nv[b]) by {
            if b < i {
            } else if a < i && b == i {
            } else if a < i && b > i {
                assert(nv[b] == old_views[b - 1]);
                if b - 1 > a {
                    assert(lex_lt(old_views[a], old_views[b - 1]));
                } else {
                }
            } else if a == i {
                assert(nv[b] == old_views[b - 1]);
                if b - 1 > i {
                    assert(lex_lt(old_views[i as int], old_views[b - 1]));
                    lemma_lex_transitive(x@, old_views[i as int], old_views[b - 1]);
                }
            } else {
                assert(nv[a] == old_views[a - 1]);
                assert(nv[b] == old_views[b - 1]);
            }
        }
        assert(nv.to_set() =~= old_views.to_set().insert(x@)) by {
            assert forall|y: Seq<char>| nv.to_set().contains(y) implies old_views.to_set().insert(
                x@,
            ).contains(y) by {
                let k = choose|k: int| 0 <= k < nv.len() && nv[k] == y;
                if k < i {
                    assert(old_views[k] == y);
                } else if k > i {
                    assert(old_views[k - 1] == y);
                }
            }
            assert forall|y: Seq<char>| old_views.to_set().insert(x@).contains(y) implies nv.to_set().contains(
                y,
            ) by {
                if y == x@ {
                    assert(nv[i as int] == y);
                } else {
                    let k = choose|k: int| 0 <= k < old_views.len() && old_views[k] == y;
                    if k < i {
                        assert(nv[k] == y);
                    } else {
                        assert(nv[k + 1] == y);
                    }
                }
            }
        }
    }
}

/// The ascending duplicate-free list of the texts in `v`, as a set of strings is collected.
pub fn canonical_set(v: &Vec<String>) -> (r: Vec<String>)
    ensures
        strictly_sorted(string_views(r@)),
        string_views(r@).to_set() == string_views(v@).to_set(),
        string_views(r@) == sorted_of(string_views(v@).to_set()),
{
    let mut r: Vec<String> = Vec::new();
    let mut i: usize = 0;
    while i < v.len()
        invariant
            i <= v.len(),
            strictly_sorted(string_views(r@)),
            string_views(r@).to_set() == string_views(v@.take(i as int)).to_set(),
        decreases v.len() - i,
    {
        sorted_insert(&mut r, v[i].clone());
        assert(string_views(v@.take(i + 1)) =~= string_views(v@.take(i as int)).push(v@[i as int]@));
        proof {
            lemma_push_to_set(string_views(v@.take(i as int)), v@[i as int]@);
        }
        i = i + 1;
    }
    assert(v@.take(v.len() as int) =~= v@);
    proof {
        lemma_sorted_is_sorted_of(string_views(r@));
    }
    r
}

} // verus!
