//! Orders on strings and a sort that puts indices in a strict total order.
use vstd::prelude::*;

verus! {

/// `a` sorts before `b` as Rust orders `str`: by the first differing character's code
/// point (UTF-8 keeps that order byte by byte), a proper prefix first.
pub open spec fn seq_lt(a: Seq<char>, b: Seq<char>) -> bool
    decreases a.len(),
{
    if a.len() == 0 {
        b.len() > 0
    } else if b.len() == 0 {
        false
    } else if a[0] != b[0] {
        (a[0] as int) < (b[0] as int)
    } else {
        seq_lt(a.drop_first(), b.drop_first())
    }
}

pub proof fn lemma_seq_lt_irreflexive(a: Seq<char>)
    ensures
        !seq_lt(a, a),
    decreases a.len(),
{
    if a.len() > 0 {
        lemma_seq_lt_irreflexive(a.drop_first());
    }
}

pub proof fn lemma_seq_lt_transitive(a: Seq<char>, b: Seq<char>, c: Seq<char>)
    requires
        seq_lt(a, b),
        seq_lt(b, c),
    ensures
        seq_lt(a, c),
    decreases a.len(),
{
    if a.len() > 0 && b.len() > 0 && c.len() > 0 && a[0] == b[0] && b[0] == c[0] {
        lemma_seq_lt_transitive(a.drop_first(), b.drop_first(), c.drop_first());
    }
}

pub proof fn lemma_seq_lt_total(a: Seq<char>, b: Seq<char>)
    ensures
        seq_lt(a, b) || seq_lt(b, a) || a == b,
    decreases a.len(),
{
    if a.len() > 0 && b.len() > 0 {
        if a[0] == b[0] {
            lemma_seq_lt_total(a.drop_first(), b.drop_first());
            if a.drop_first() == b.drop_first() {
                assert(a =~= seq![a[0]] + a.drop_first());
                assert(b =~= seq![b[0]] + b.drop_first());
            }
        } else {
            assert((a[0] as int) != (b[0] as int));
        }
    } else if a.len() == 0 && b.len() == 0 {
        assert(a =~= b);
    }
}

proof fn lemma_seq_lt_skip(a: Seq<char>, b: Seq<char>, i: int)
    requires
        0 <= i <= a.len(),
        i <= b.len(),
        forall|j: int| 0 <= j < i ==> a[j] == b[j],
    ensures
        seq_lt(a, b) == seq_lt(a.subrange(i, a.len() as int), b.subrange(i, b.len() as int)),
    decreases i,
{
    if i > 0 {
        lemma_seq_lt_skip(a.drop_first(), b.drop_first(), i - 1);
        assert(a.drop_first().subrange(i - 1, a.len() - 1) =~= a.subrange(i, a.len() as int));
        assert(b.drop_first().subrange(i - 1, b.len() - 1) =~= b.subrange(i, b.len() as int));
    } else {
        assert(a.subrange(0, a.len() as int) =~= a);
        assert(b.subrange(0, b.len() as int) =~= b);
    }
}

/// Whether `a` sorts before `b` ([`seq_lt`]).
pub fn chars_less(a: &[char], b: &[char]) -> (r: bool)
    ensures
        r == seq_lt(a@, b@),
{
    let mut i: usize = 0;
    while i < a.len() && i < b.len() && a[i] == b[i]
        invariant
            i <= a.len(),
            i <= b.len(),
            forall|j: int| 0 <= j < i ==> a@[j] == b@[j],
        decreases a.len() - i,
    {
        i = i + 1;
    }
    proof {
        lemma_seq_lt_skip(a@, b@, i as int);
    }
    let ghost sa = a@.subrange(i as int, a@.len() as int);
    let ghost sb = b@.subrange(i as int, b@.len() as int);
    if i < a.len() && i < b.len() {
        assert(sa[0] == a@[i as int] && sb[0] == b@[i as int]);
        a[i] < b[i]
    } else {
        i == a.len() && i < b.len()
    }
}

/// A strict total order on the indices `0..size()` of some data.
pub trait IndexOrder {
    spec fn size(&self) -> nat;

    spec fn before(&self, i: int, j: int) -> bool;

    proof fn lemma_irreflexive(&self, i: int)
        requires
            0 <= i < self.size(),
        ensures
            !self.before(i, i),
    ;

    proof fn lemma_transitive(&self, i: int, j: int, k: int)
        requires
            0 <= i < self.size(),
            0 <= j < self.size(),
            0 <= k < self.size(),
            self.before(i, j),
            self.before(j, k),
        ensures
            self.before(i, k),
    ;

    proof fn lemma_total(&self, i: int, j: int)
        requires
            0 <= i < self.size(),
            0 <= j < self.size(),
            i != j,
        ensures
            self.before(i, j) || self.before(j, i),
    ;

    fn less(&self, i: usize, j: usize) -> (r: bool)
        requires
            i < self.size(),
            j < self.size(),
        ensures
            r == self.before(i as int, j as int),
    ;
}

/// `order` lists each index below `n` once, each before the next.
pub open spec fn sorted_permutation<O: IndexOrder>(o: &O, order: Seq<usize>, n: nat) -> bool {
    &&& order.len() == n
    &&& forall|k: int| 0 <= k < n ==> order[k] < n
    &&& forall|a: int, b: int| 0 <= a < b < n ==> o.before(order[a] as int, order[b] as int)
    &&& forall|x: int| 0 <= x < n ==> #[trigger] appears_in(order, x)
}

/// `x` is one of the entries of `order`.
pub open spec fn appears_in(order: Seq<usize>, x: int) -> bool {
    exists|k: int| 0 <= k < order.len() && order[k] == x
}

/// Distinct entries follow from a strict order.
pub proof fn lemma_sorted_distinct<O: IndexOrder>(o: &O, order: Seq<usize>, n: nat)
    requires
        sorted_permutation(o, order, n),
        n <= o.size(),
    ensures
        forall|a: int, b: int| 0 <= a < n && 0 <= b < n && a != b ==> order[a] != order[b],
{
    assert forall|a: int, b: int| 0 <= a < n && 0 <= b < n && a != b implies order[a] != order[b] by {
        if order[a] == order[b] {
            o.lemma_irreflexive(order[a] as int);
            if a < b {
                assert(o.before(order[a] as int, order[b] as int));
            } else {
                assert(o.before(order[b] as int, order[a] as int));
            }
        }
    }
}

/// The indices `0..n` sorted by the order (insertion sort).
pub fn sort_indices<O: IndexOrder>(o: &O, n: usize) -> (order: Vec<usize>)
    requires
        n <= o.size(),
    ensures
        sorted_permutation(o, order@, n as nat),
{
    let mut r: Vec<usize> = Vec::new();
    let mut i: usize = 0;
    while i < n
        invariant
            i <= n,
            n <= o.size(),
            r@.len() == i,
            forall|k: int| 0 <= k < i ==> r@[k] < i,
            forall|a: int, b: int| 0 <= a < b < i ==> o.before(r@[a] as int, r@[b] as int),
            forall|x: int| 0 <= x < i ==> #[trigger] appears_in(r@, x),
        decreases n - i,
    {
        let mut p: usize = 0;
        while p < r.len() && o.less(r[p], i)
            invariant
                p <= r@.len(),
                r@.len() == i,
                i < n,
                n <= o.size(),
                forall|k: int| 0 <= k < i ==> r@[k] < i,
                forall|q: int| 0 <= q < p ==> o.before(r@[q] as int, i as int),
            decreases r@.len() - p,
        {
            p = p + 1;
        }
        let ghost old_r = r@;
        proof {
            if p < old_r.len() {
                o.lemma_total(old_r[p as int] as int, i as int);
                assert forall|q: int| p <= q < old_r.len() implies o.before(i as int, old_r[q] as int) by {
                    if q > p {
                        o.lemma_transitive(i as int, old_r[p as int] as int, old_r[q] as int);
                    }
                }
            }
        }
        r.insert(p, i);
        proof {
            assert(r@ == old_r.insert(p as int, i));
            assert forall|a: int, b: int| 0 <= a < b < i + 1 implies o.before(r@[a] as int, r@[b] as int) by {
                if b < p {
                } else if b == p {
                    assert(r@[b] == i);
                    assert(r@[a] == old_r[a]);
                } else if a < p {
                    assert(r@[b] == old_r[b - 1]);
                    assert(o.before(old_r[a] as int, i as int));
                    if a < b - 1 {
                    }
                    if old_r[a] != old_r[b - 1] || a != b - 1 {
                        o.lemma_transitive(old_r[a] as int, i as int, old_r[b - 1] as int);
                    }
                } else if a == p {
                    assert(r@[a] == i);
                    assert(r@[b] == old_r[b - 1]);
                } else {
                    assert(r@[a] == old_r[a - 1]);
                    assert(r@[b] == old_r[b - 1]);
                }
            }
            assert forall|x: int| 0 <= x < i + 1 implies #[trigger] appears_in(r@, x) by {
                if x == i {
                    assert(r@[p as int] == x);
                } else {
                    assert(appears_in(old_r, x));
                    let k0 = choose|k: int| 0 <= k < old_r.len() && old_r[k] == x;
                    if k0 < p {
                        assert(r@[k0] == x);
                    } else {
                        assert(r@[k0 + 1] == x);
                    }
                }
            }
        }
        i = i + 1;
    }
    r
}

} // verus!
