//! Orders used to sort query results: text order by code point, and a
//! verified insertion sort for any type with a total preorder.

use vstd::prelude::*;
use vstd::multiset::Multiset;

verus! {

broadcast use vstd::seq_lib::group_to_multiset_ensures;

/// Text order by code point, as SQLite's binary collation compares UTF-8.
pub open spec fn text_le(a: Seq<char>, b: Seq<char>) -> bool
    decreases a.len(),
{
    if a.len() == 0 {
        true
    } else if b.len() == 0 {
        false
    } else if a[0] != b[0] {
        (a[0] as int) < (b[0] as int)
    } else {
        text_le(a.skip(1), b.skip(1))
    }
}

pub proof fn lemma_text_le_total(a: Seq<char>, b: Seq<char>)
    ensures
        text_le(a, b) || text_le(b, a),
    decreases a.len(),
{
    if a.len() > 0 && b.len() > 0 && a[0] == b[0] {
        lemma_text_le_total(a.skip(1), b.skip(1));
    }
}

pub proof fn lemma_text_le_trans(a: Seq<char>, b: Seq<char>, c: Seq<char>)
    requires
        text_le(a, b),
        text_le(b, c),
    ensures
        text_le(a, c),
    decreases a.len(),
{
    if a.len() > 0 && b.len() > 0 && c.len() > 0 && a[0] == b[0] && b[0] == c[0] {
        lemma_text_le_trans(a.skip(1), b.skip(1), c.skip(1));
    }
}

pub proof fn lemma_text_le_antisym(a: Seq<char>, b: Seq<char>)
    requires
        text_le(a, b),
        text_le(b, a),
    ensures
        a == b,
    decreases a.len(),
{
    if a.len() > 0 && b.len() > 0 {
        lemma_text_le_antisym(a.skip(1), b.skip(1));
        assert(a =~= seq![a[0]] + a.skip(1));
        assert(b =~= seq![b[0]] + b.skip(1));
    }
}

pub proof fn lemma_text_le_refl(a: Seq<char>)
    ensures
        text_le(a, a),
    decreases a.len(),
{
    if a.len() > 0 {
        lemma_text_le_refl(a.skip(1));
    }
}

/// `text_le` on character vectors.
pub fn text_le_exec(a: &Vec<char>, b: &Vec<char>) -> (r: bool)
    ensures
        r == text_le(a@, b@),
{
    let mut i: usize = 0;
    assert(a@.skip(0) =~= a@);
    assert(b@.skip(0) =~= b@);
    while i < a.len() && i < b.len() && a[i] == b[i]
        invariant
            i <= a.len(),
            i <= b.len(),
            text_le(a@, b@) == text_le(a@.skip(i as int), b@.skip(i as int)),
        decreases a.len() - i,
    {
        assert(a@.skip(i as int).skip(1) =~= a@.skip(i + 1));
        assert(b@.skip(i as int).skip(1) =~= b@.skip(i + 1));
        i = i + 1;
    }
    if i == a.len() {
        true
    } else if i == b.len() {
        false
    } else {
        a[i] < b[i]
    }
}

/// A total preorder: `precedes` says that `self` may come first.
pub trait Ranked: Sized {
    spec fn precedes(&self, other: &Self) -> bool;

    proof fn lemma_total(a: &Self, b: &Self)
        ensures
            a.precedes(b) || b.precedes(a),
    ;

    proof fn lemma_trans(a: &Self, b: &Self, c: &Self)
        requires
            a.precedes(b),
            b.precedes(c),
        ensures
            a.precedes(c),
    ;

    fn precedes_exec(&self, other: &Self) -> (r: bool)
        ensures
            r == self.precedes(other),
    ;
}

/// Every element may come before every later one.
pub open spec fn is_sorted<T: Ranked>(s: Seq<T>) -> bool {
    forall|i: int, j: int| #![trigger s[i], s[j]] 0 <= i < j < s.len() ==> s[i].precedes(&s[j])
}

proof fn lemma_insert_multiset<T>(s: Seq<T>, pos: int, x: T)
    requires
        0 <= pos <= s.len(),
    ensures
        s.insert(pos, x).to_multiset() =~= s.to_multiset().insert(x),
{
    let s2 = s.insert(pos, x);
    assert(s2.remove(pos) =~= s);
    assert(s2[pos] == x);
    assert(s.to_multiset() =~= s2.to_multiset().remove(x));
    assert(s2.contains(x));
    assert(s2.to_multiset().count(x) > 0);
}

/// Sorts by insertion; the result is ordered and holds the same elements.
pub fn sort_ranked<T: Ranked>(v: Vec<T>) -> (r: Vec<T>)
    ensures
        is_sorted(r@),
        r@.to_multiset() =~= v@.to_multiset(),
{
    let ghost all = v@;
    let mut input = v;
    let mut out: Vec<T> = Vec::new();
    assert(out@.to_multiset() =~= Multiset::empty());
    while input.len() > 0
        invariant
            is_sorted(out@),
            out@.to_multiset().add(input@.to_multiset()) =~= all.to_multiset(),
        decreases input.len(),
    {
        let ghost before_input = input@;
        let x = input.pop().unwrap();
        assert(before_input =~= input@.push(x));
        let mut pos: usize = 0;
        while pos < out.len() && out[pos].precedes_exec(&x)
            invariant
                pos <= out.len(),
                forall|k: int| 0 <= k < pos ==> (#[trigger] out@[k]).precedes(&x),
            decreases out.len() - pos,
        {
            pos = pos + 1;
        }
        let ghost before = out@;
        proof {
            lemma_insert_multiset(before, pos as int, x);
        }
        out.insert(pos, x);
        assert(out@ =~= before.insert(pos as int, x));
        proof {
            if pos < before.len() {
                T::lemma_total(&before[pos as int], &x);
                assert(x.precedes(&before[pos as int]));
            }
            assert forall|i: int, j: int| #![trigger out@[i], out@[j]] 0 <= i < j < out@.len() implies out@[i].precedes(
                &out@[j],
            ) by {
                if j < pos {
                    assert(out@[i] == before[i] && out@[j] == before[j]);
                } else if j == pos {
                    assert(out@[i] == before[i]);
                } else if i == pos {
                    assert(out@[j] == before[j - 1]);
                    if j - 1 > pos {
                        assert(before[pos as int].precedes(&before[j - 1]));
                        T::lemma_trans(&x, &before[pos as int], &before[j - 1]);
                    }
                } else if i < pos {
                    assert(out@[i] == before[i] && out@[j] == before[j - 1]);
                    assert(x.precedes(&before[pos as int]));
                    if j - 1 > pos {
                        assert(before[pos as int].precedes(&before[j - 1]));
                        T::lemma_trans(&x, &before[pos as int], &before[j - 1]);
                    }
                    T::lemma_trans(&before[i], &x, &before[j - 1]);
                } else {
                    assert(out@[i] == before[i - 1] && out@[j] == before[j - 1]);
                }
            }
        }
    }
    assert(input@.to_multiset() =~= Multiset::empty());
    out
}

/// Sequences with the same elements keep the same elements under a map.
pub proof fn lemma_map_multiset<A, B>(a: Seq<A>, b: Seq<A>, f: spec_fn(A) -> B)
    requires
        a.to_multiset() == b.to_multiset(),
    ensures
        a.map_values(f).to_multiset() == b.map_values(f).to_multiset(),
    decreases a.len(),
{
    broadcast use vstd::multiset::group_multiset_axioms;

    if a.len() == 0 {
        assert(b.to_multiset().len() == 0);
        assert(a.map_values(f) =~= b.map_values(f));
    } else {
        let x = a.last();
        let a0 = a.drop_last();
        assert(a0.push(x) =~= a);
        assert(a.contains(x)) by {
            assert(a[a.len() - 1] == x);
        }
        assert(b.to_multiset().count(x) > 0);
        let k = choose|k: int| 0 <= k < b.len() && b[k] == x;
        let b0 = b.remove(k);
        assert(b0.to_multiset() =~= a0.to_multiset());
        lemma_map_multiset(a0, b0, f);
        assert(a.map_values(f) =~= a0.map_values(f).push(f(x)));
        assert(b0.map_values(f) =~= b.map_values(f).remove(k));
        let bm = b.map_values(f);
        assert(bm[k] == f(x));
        assert(bm.remove(k).to_multiset() =~= bm.to_multiset().remove(f(x)));
        assert(bm.to_multiset().count(f(x)) > 0) by {
            assert(bm.contains(f(x)));
        }
        assert(a.map_values(f).to_multiset() =~= bm.to_multiset());
    }
}

/// Filtering a sequence that grew by one element.
pub proof fn lemma_filter_push<A>(s: Seq<A>, x: A, pred: spec_fn(A) -> bool)
    ensures
        s.push(x).filter(pred) == (if pred(x) {
            s.filter(pred).push(x)
        } else {
            s.filter(pred)
        }),
{
    reveal(Seq::filter);
    assert(s.push(x).drop_last() =~= s);
}

/// Equality of two character vectors.
pub fn vec_eq(a: &Vec<char>, b: &Vec<char>) -> (r: bool)
    ensures
        r == (a@ == b@),
{
    if a.len() != b.len() {
        return false;
    }
    let mut i: usize = 0;
    while i < a.len()
        invariant
            a.len() == b.len(),
            i <= a.len(),
            forall|j: int| 0 <= j < i ==> a@[j] == b@[j],
        decreases a.len() - i,
    {
        if a[i] != b[i] {
            return false;
        }
        i = i + 1;
    }
    assert(a@ =~= b@);
    true
}

} // verus!
