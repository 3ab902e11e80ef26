//! Unordered collections of values.
use vstd::prelude::*;
use vstd::laws_eq::obeys_concrete_eq;
use vstd::seq_lib::{lemma_multiset_commutative, group_to_multiset_ensures};
use vstd::std_specs::cmp::PartialEqSpec;
use vstd::std_specs::iter::IteratorSpec;

verus! {

/// Hasher builder whose hashers do not depend on a random seed.
#[derive(Default, Clone, Copy)]
pub struct DeterministicHasherBuilder;

/// Multiset (bag) of values, stored in insertion order.
#[derive(Clone)]
pub struct Bag<T> {
    data: Vec<T>,
}

impl<T> View for Bag<T> {
    type V = Seq<T>;

    closed spec fn view(&self) -> Seq<T> {
        self.data@
    }
}

impl<T> Bag<T> {
    /// Creates an empty multiset.
    pub fn new() -> (r: Self)
        ensures
            r@ == Seq::<T>::empty(),
    {
        Bag { data: Vec::new() }
    }

    /// Creates an empty multiset with room for `cap` values.
    pub fn with_capacity(cap: usize) -> (r: Self)
        ensures
            r@ == Seq::<T>::empty(),
    {
        Bag { data: Vec::with_capacity(cap) }
    }

    /// Number of values, counted with multiplicity.
    pub fn len(&self) -> (r: usize)
        ensures
            r == self@.len(),
    {
        self.data.len()
    }

    /// Checks if there is no value.
    pub fn is_empty(&self) -> (r: bool)
        ensures
            r == (self@.len() == 0),
    {
        self.data.len() == 0
    }

    /// The values, in insertion order.
    pub fn as_slice(&self) -> (r: &[T])
        ensures
            r@ == self@,
    {
        self.data.as_slice()
    }

    /// Iterator over the values, in insertion order.
    pub fn iter(&self) -> (r: core::slice::Iter<'_, T>)
        ensures
            r.remaining() == self@.as_ref(),
    {
        broadcast use vstd::std_specs::slice::axiom_spec_slice_iter;
        self.data.as_slice().iter()
    }

    /// Multiset containing only `value`.
    pub fn singleton(value: T) -> (r: Self)
        ensures
            r@ == seq![value],
    {
        let mut result = Self::new();
        result.insert(value);
        result
    }

    /// Adds a value.
    pub fn insert(&mut self, value: T)
        ensures
            final(self)@ == old(self)@.push(value),
    {
        self.data.push(value);
    }
}

impl<T: PartialEq> Bag<T> {
    /// Checks if `value` is in the multiset.
    pub fn contains(&self, value: &T) -> (r: bool)
        ensures
            obeys_concrete_eq::<T>() ==> r == self@.contains(*value),
    {
        let mut i: usize = 0;
        while i < self.data.len()
            invariant
                i <= self.data@.len(),
                obeys_concrete_eq::<T>() ==> forall|j: int| 0 <= j < i ==> self.data@[j] != *value,
            decreases self.data@.len() - i,
        {
            if self.data[i] == *value {
                proof {
                    reveal(obeys_concrete_eq);
                }
                return true;
            }
            proof {
                reveal(obeys_concrete_eq);
            }
            i = i + 1;
        }
        false
    }

    /// Adds `value` unless it is already present; returns whether it was added.
    pub fn insert_unique(&mut self, value: T) -> (r: bool)
        ensures
            obeys_concrete_eq::<T>() ==> r == !old(self)@.contains(value),
            r ==> final(self)@ == old(self)@.push(value),
            !r ==> final(self)@ == old(self)@,
    {
        if self.contains(&value) {
            false
        } else {
            self.insert(value);
            true
        }
    }

    /// Checks if both multisets hold the same values, with the same
    /// multiplicities, in any order.
    pub fn eq(&self, other: &Bag<T>) -> (r: bool)
        ensures
            obeys_concrete_eq::<T>() ==> r == (self@.to_multiset() == other@.to_multiset()),
    {
        compare_unordered(self.data.as_slice(), other.data.as_slice())
    }
}

/// The multiset of the values `b[i]` whose flag `free[i]` is set.
pub open spec fn free_values<T>(b: Seq<T>, free: Seq<bool>) -> vstd::multiset::Multiset<T>
    decreases b.len(),
{
    if b.len() == 0 || free.len() == 0 {
        vstd::multiset::Multiset::empty()
    } else {
        let rest = free_values(b.drop_last(), free.drop_last());
        if free.last() {
            rest.insert(b.last())
        } else {
            rest
        }
    }
}

proof fn lemma_free_values_all<T>(b: Seq<T>, free: Seq<bool>)
    requires
        free.len() == b.len(),
        forall|i: int| 0 <= i < free.len() ==> free[i],
    ensures
        free_values(b, free) == b.to_multiset(),
    decreases b.len(),
{
    broadcast use group_to_multiset_ensures;
    if b.len() > 0 {
        lemma_free_values_all(b.drop_last(), free.drop_last());
        assert(b.drop_last().push(b.last()) =~= b);
    }
}

proof fn lemma_free_values_take<T>(b: Seq<T>, free: Seq<bool>, i: int)
    requires
        free.len() == b.len(),
        0 <= i < b.len(),
        free[i],
    ensures
        free_values(b, free.update(i, false)) == free_values(b, free).remove(b[i]),
        free_values(b, free).count(b[i]) > 0,
    decreases b.len(),
{
    broadcast use vstd::multiset::group_multiset_axioms;
    let f2 = free.update(i, false);
    if i == b.len() - 1 {
        assert(f2.drop_last() =~= free.drop_last());
        assert(free_values(b, free).count(b[i]) > 0);
        assert(free_values(b, free).remove(b[i]) =~= free_values(b.drop_last(), free.drop_last()));
    } else {
        lemma_free_values_take(b.drop_last(), free.drop_last(), i);
        assert(f2.drop_last() =~= free.drop_last().update(i, false));
        let r1 = free_values(b.drop_last(), free.drop_last());
        if free.last() {
            assert(free_values(b, f2) =~= r1.remove(b[i]).insert(b.last()));
            assert(r1.remove(b[i]).insert(b.last()) =~= r1.insert(b.last()).remove(b[i]));
        } else {
            assert(free_values(b, f2) =~= r1.remove(b[i]));
        }
    }
}

proof fn lemma_free_values_absent<T>(b: Seq<T>, free: Seq<bool>, x: T)
    requires
        free.len() == b.len(),
        forall|i: int| 0 <= i < b.len() && free[i] ==> b[i] != x,
    ensures
        free_values(b, free).count(x) == 0,
    decreases b.len(),
{
    broadcast use vstd::multiset::group_multiset_axioms;
    if b.len() > 0 {
        lemma_free_values_absent(b.drop_last(), free.drop_last(), x);
    }
}

proof fn lemma_free_values_len<T>(b: Seq<T>, free: Seq<bool>)
    ensures
        free_values(b, free).len() <= b.len(),
    decreases b.len(),
{
    broadcast use vstd::multiset::group_multiset_axioms;
    if b.len() > 0 && free.len() > 0 {
        lemma_free_values_len(b.drop_last(), free.drop_last());
    }
}

/// The first index `i` such that `free[i]` is set and `b[i]` equals `x`.
fn find_free_match<T: PartialEq>(x: &T, b: &[T], free: &Vec<bool>) -> (r: Option<usize>)
    requires
        free@.len() == b@.len(),
    ensures
        r matches Some(i) ==> i < b@.len() && free@[i as int] && (obeys_concrete_eq::<T>() ==> b@[i as int] == *x),
        r is None ==> (obeys_concrete_eq::<T>() ==> forall|j: int| 0 <= j < b@.len() && free@[j] ==> b@[j] != *x),
{
    let mut i: usize = 0;
    while i < b.len()
        invariant
            free@.len() == b@.len(),
            i <= b@.len(),
            obeys_concrete_eq::<T>() ==> forall|j: int| 0 <= j < i && free@[j] ==> b@[j] != *x,
        decreases b@.len() - i,
    {
        if free[i] && b[i] == *x {
            proof {
                reveal(obeys_concrete_eq);
            }
            return Some(i);
        }
        proof {
            reveal(obeys_concrete_eq);
        }
        i = i + 1;
    }
    None
}

/// Checks that `a` and `b` hold the same values with the same multiplicities,
/// by matching each value of `a` with the first unmatched equal value of `b`.
pub fn compare_unordered<T: PartialEq>(a: &[T], b: &[T]) -> (r: bool)
    ensures
        obeys_concrete_eq::<T>() ==> r == (a@.to_multiset() == b@.to_multiset()),
{
    broadcast use group_to_multiset_ensures;
    broadcast use vstd::multiset::group_multiset_axioms;
    if a.len() != b.len() {
        proof {
            assert(a@.to_multiset().len() != b@.to_multiset().len());
        }
        return false;
    }
    let n = a.len();
    let mut free: Vec<bool> = Vec::new();
    let mut i: usize = 0;
    while i < n
        invariant
            i <= n,
            free@.len() == i,
            forall|j: int| 0 <= j < i ==> free@[j],
        decreases n - i,
    {
        free.push(true);
        i = i + 1;
    }
    proof {
        lemma_free_values_all(b@, free@);
        assert(a@.subrange(0, 0).to_multiset() =~= vstd::multiset::Multiset::empty());
    }
    let mut k: usize = 0;
    while k < n
        invariant
            n == a@.len(),
            n == b@.len(),
            free@.len() == n,
            k <= n,
            obeys_concrete_eq::<T>() ==> b@.to_multiset() == a@.subrange(0, k as int).to_multiset().add(free_values(b@, free@)),
        decreases n - k,
    {
        let found = find_free_match(&a[k], b, &free);
        if found.is_none() {
            proof {
                if obeys_concrete_eq::<T>() {
                    let x = a@[k as int];
                    lemma_free_values_absent(b@, free@, x);
                    let pre = a@.subrange(0, k as int);
                    let post = a@.subrange(k as int, n as int);
                    assert(pre + post =~= a@);
                    lemma_multiset_commutative(pre, post);
                    assert(post.len() > 0);
                    assert(post[0] == x);
                    assert(post.contains(x));
                    vstd::seq_lib::to_multiset_contains(post, x);
                    assert(post.to_multiset().count(x) > 0);
                    assert(a@.to_multiset().count(x) > b@.to_multiset().count(x));
                }
            }
            return false;
        }
        let i = found.unwrap();
        let ghost old_free = free@;
        proof {
            lemma_free_values_take(b@, old_free, i as int);
        }
        free.set(i, false);
        proof {
            assert(free@ =~= old_free.update(i as int, false));
            assert(a@.subrange(0, k + 1) =~= a@.subrange(0, k as int).push(a@[k as int]));
            if obeys_concrete_eq::<T>() {
                let pre = a@.subrange(0, k as int);
                let x = a@[k as int];
                let fv = free_values(b@, old_free);
                vstd::seq_lib::to_multiset_build(pre, x);
                assert(pre.to_multiset().insert(x).add(fv.remove(x)) =~= pre.to_multiset().add(fv));
            }
        }
        k = k + 1;
    }
    proof {
        assert(a@.subrange(0, n as int) =~= a@);
        if obeys_concrete_eq::<T>() {
            vstd::seq_lib::to_multiset_len(a@);
            vstd::seq_lib::to_multiset_len(b@);
            vstd::multiset::lemma_multiset_empty_len(free_values(b@, free@));
            assert(free_values(b@, free@) =~= vstd::multiset::Multiset::empty());
            assert(b@.to_multiset() =~= a@.to_multiset());
        }
    }
    true
}

} // verus!
