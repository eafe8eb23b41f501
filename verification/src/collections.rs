//! Ordered collections keyed by small enumerations.
//!
//! An enumeration with `n` variants is numbered `0..n` in declaration order;
//! a set stores one flag per variant and a map one optional value per
//! variant.  Iteration therefore visits members in declaration order, which
//! is the order the derived `Ord` of such an enumeration gives.

use vstd::prelude::*;

verus! {

/// An enumeration whose variants are numbered `0..variant_count()` in
/// declaration order.
pub trait Ranked: Sized + Copy {
    /// Position of the variant in declaration order.
    spec fn rank(self) -> nat;

    /// Number of variants.
    spec fn variant_count() -> nat;

    /// The variant at a position.
    spec fn of_rank(r: nat) -> Self;

    /// Position of the variant in declaration order.
    fn rank_exec(self) -> (r: usize)
        ensures
            r == self.rank(),
    ;

    /// Number of variants.
    fn count() -> (r: usize)
        ensures
            r == Self::variant_count(),
    ;

    /// The variant at a position.
    fn from_rank(r: usize) -> (x: Self)
        requires
            r < Self::variant_count(),
        ensures
            x == Self::of_rank(r as nat),
    ;

    /// Positions are in range and identify the variant.
    proof fn lemma_rank(x: Self)
        ensures
            x.rank() < Self::variant_count(),
            Self::variant_count() <= 16,
            Self::of_rank(x.rank()) == x,
    ;

    /// There are at most sixteen variants.
    proof fn lemma_count()
        ensures
            Self::variant_count() <= 16,
    ;

    /// Every position in range names a variant at that position.
    proof fn lemma_of_rank(r: nat)
        requires
            r < Self::variant_count(),
        ensures
            Self::of_rank(r).rank() == r,
    ;
}

/// Members of a flag vector among the first `k` positions, in position order.
pub open spec fn flagged<T: Ranked>(flags: Seq<bool>, k: nat) -> Seq<T>
    decreases k,
{
    if k == 0 {
        Seq::empty()
    } else if flags[k - 1] {
        flagged::<T>(flags, (k - 1) as nat).push(T::of_rank((k - 1) as nat))
    } else {
        flagged::<T>(flags, (k - 1) as nat)
    }
}

/// Elements of `s` have strictly increasing positions.
pub open spec fn strictly_ranked<T: Ranked>(s: Seq<T>) -> bool {
    forall|i: int, j: int| 0 <= i < j < s.len() ==> s[i].rank() < s[j].rank()
}

proof fn lemma_flagged<T: Ranked>(flags: Seq<bool>, k: nat)
    requires
        k <= flags.len(),
        k <= T::variant_count(),
    ensures
        strictly_ranked(flagged::<T>(flags, k)),
        forall|i: int|
            0 <= i < flagged::<T>(flags, k).len() ==> #[trigger] flagged::<T>(flags, k)[i].rank()
                < k,
        forall|x: T|
            x.rank() < k ==> (flagged::<T>(flags, k).contains(x) <==> flags[x.rank() as int]),
        forall|x: T| x.rank() >= k ==> !flagged::<T>(flags, k).contains(x),
    decreases k,
{
    if k > 0 {
        lemma_flagged::<T>(flags, (k - 1) as nat);
        T::lemma_of_rank((k - 1) as nat);
        let prev = flagged::<T>(flags, (k - 1) as nat);
        let cur = flagged::<T>(flags, k);
        assert forall|x: T| x.rank() < k implies (cur.contains(x) <==> flags[x.rank() as int]) by {
            T::lemma_rank(x);
            if x.rank() == k - 1 {
                if flags[k - 1] {
                    assert(cur[cur.len() - 1] == x);
                } else {
                    assert(!prev.contains(x));
                }
            } else {
                if flags[k - 1] {
                    if cur.contains(x) {
                        let i = choose|i: int| 0 <= i < cur.len() && cur[i] == x;
                        if i < prev.len() {
                            assert(prev.contains(x));
                        }
                    }
                    if prev.contains(x) {
                        let i = choose|i: int| 0 <= i < prev.len() && prev[i] == x;
                        assert(cur[i] == x);
                    }
                }
            }
        }
        assert forall|x: T| x.rank() >= k implies !cur.contains(x) by {
            if cur.contains(x) {
                let i = choose|i: int| 0 <= i < cur.len() && cur[i] == x;
                if i < prev.len() {
                    assert(prev.contains(x));
                }
            }
        }
    }
}


/// Number of variants among the first `k` satisfying `p`.
pub open spec fn count_where<T: Ranked>(p: spec_fn(T) -> bool, k: nat) -> nat
    decreases k,
{
    if k == 0 {
        0
    } else {
        count_where(p, (k - 1) as nat) + if p(T::of_rank((k - 1) as nat)) {
            1nat
        } else {
            0nat
        }
    }
}

/// Counting agrees for predicates that agree.
pub proof fn lemma_count_where_ext<T: Ranked>(p: spec_fn(T) -> bool, q: spec_fn(T) -> bool, k: nat)
    requires
        forall|x: T| #[trigger] p(x) == q(x),
    ensures
        count_where(p, k) == count_where(q, k),
    decreases k,
{
    if k > 0 {
        lemma_count_where_ext(p, q, (k - 1) as nat);
        assert(p(T::of_rank((k - 1) as nat)) == q(T::of_rank((k - 1) as nat)));
    }
}

proof fn lemma_flagged_len<T: Ranked>(flags: Seq<bool>, p: spec_fn(T) -> bool, k: nat)
    requires
        k <= flags.len(),
        k <= T::variant_count(),
        forall|i: int| 0 <= i < k ==> flags[i] == p(#[trigger] T::of_rank(i as nat)),
    ensures
        flagged::<T>(flags, k).len() == count_where(p, k),
    decreases k,
{
    if k > 0 {
        lemma_flagged_len::<T>(flags, p, (k - 1) as nat);
        assert(flags[k - 1] == p(T::of_rank((k - 1) as nat)));
    }
}

// ---------------------------------------------------------------------------
// EnumSet
// ---------------------------------------------------------------------------

/// A set of enumeration variants.
#[derive(Debug, Clone, Copy, PartialEq, Eq, Hash)]
pub struct EnumSet<T: Ranked> {
    slots: [Option<T>; 16],
}

impl<T: Ranked> EnumSet<T> {
    /// Whether `x` is a member.
    pub closed spec fn has(self, x: T) -> bool {
        self.slots@[x.rank() as int] is Some
    }

    closed spec fn flags(self) -> Seq<bool> {
        self.slots@.map_values(|o: Option<T>| o is Some)
    }

    /// Members in declaration order.
    pub closed spec fn members(self) -> Seq<T> {
        flagged::<T>(self.flags(), T::variant_count())
    }

    /// Members and membership agree, and members are in declaration order.
    pub proof fn lemma_members(self)
        ensures
            strictly_ranked(self.members()),
            forall|x: T| self.members().contains(x) <==> #[trigger] self.has(x),
            self.members().len() <= T::variant_count(),
    {
        T::lemma_count();
        lemma_flagged::<T>(self.flags(), T::variant_count());
        assert forall|x: T| self.members().contains(x) <==> #[trigger] self.has(x) by {
            T::lemma_rank(x);
        }
        assert forall|i: int| 0 <= i < self.members().len() implies #[trigger] self.members()[i].rank()
            < T::variant_count() by {}
        lemma_strict_len::<T>(self.members());
    }

    /// The number of members is the number of variants in the set.
    pub proof fn lemma_len_count(self)
        ensures
            self.members().len() == count_where(|x: T| self.has(x), T::variant_count()),
    {
        T::lemma_count();
        let p = |x: T| self.has(x);
        assert forall|i: int| 0 <= i < T::variant_count() implies self.flags()[i] == p(
            #[trigger] T::of_rank(i as nat),
        ) by {
            T::lemma_of_rank(i as nat);
        }
        lemma_flagged_len::<T>(self.flags(), p, T::variant_count());
    }

    /// The empty set.
    pub fn new() -> (r: Self)
        ensures
            forall|x: T| !#[trigger] r.has(x),
            r.members() == Seq::<T>::empty(),
    {
        proof {
            T::lemma_count();
        }
        let r = EnumSet { slots: [None; 16] };
        proof {
            assert forall|x: T| !#[trigger] r.has(x) by {
                T::lemma_rank(x);
            }
            lemma_flagged::<T>(r.flags(), T::variant_count());
            if r.members().len() > 0 {
                let x = r.members()[0];
                T::lemma_rank(x);
                assert(r.members().contains(x));
            }
        }
        r
    }

    /// Remove every member.
    pub fn clear(&mut self)
        ensures
            forall|x: T| !#[trigger] final(self).has(x),
            final(self).members() == Seq::<T>::empty(),
    {
        *self = EnumSet::new();
    }

    /// Insert a member; returns whether it was absent before.
    pub fn insert(&mut self, x: T) -> (added: bool)
        ensures
            added == !old(self).has(x),
            forall|y: T| #[trigger] final(self).has(y) == (old(self).has(y) || y == x),
    {
        proof {
            T::lemma_count();
            T::lemma_rank(x);
        }
        let r = x.rank_exec();
        let added = self.slots[r].is_none();
        self.slots[r] = Some(x);
        proof {
            assert forall|y: T| #[trigger] self.has(y) == (old(self).has(y) || y == x) by {
                T::lemma_rank(y);
                if y.rank() == x.rank() {
                    assert(T::of_rank(y.rank()) == T::of_rank(x.rank()));
                }
            }
        }
        added
    }

    /// Whether `x` is a member.
    pub fn contains(&self, x: &T) -> (r: bool)
        ensures
            r == self.has(*x),
    {
        proof {
            T::lemma_count();
            T::lemma_rank(*x);
        }
        self.slots[x.rank_exec()].is_some()
    }

    /// Members in declaration order.
    pub fn to_vec(&self) -> (r: Vec<T>)
        ensures
            r@ == self.members(),
    {
        proof {
            T::lemma_count();
        }
        let n = T::count();
        let mut out: Vec<T> = Vec::new();
        let mut i: usize = 0;
        while i < n
            invariant
                i <= n,
                n == T::variant_count(),
                n <= 16,
                out@ == flagged::<T>(self.flags(), i as nat),
            decreases n - i,
        {
            if self.slots[i].is_some() {
                out.push(T::from_rank(i));
            }
            i = i + 1;
        }
        out
    }

    /// Number of members.
    pub fn len(&self) -> (r: usize)
        ensures
            r == self.members().len(),
    {
        proof {
            self.lemma_members();
        }
        self.to_vec().len()
    }

    /// Whether there are no members.
    pub fn is_empty(&self) -> (r: bool)
        ensures
            r == (self.members().len() == 0),
            r == (forall|x: T| !#[trigger] self.has(x)),
    {
        proof {
            self.lemma_members();
        }
        let r = self.len() == 0;
        proof {
            if !r {
                let x = self.members()[0];
                assert(self.members().contains(x));
                assert(self.has(x));
            } else {
                assert forall|x: T| !#[trigger] self.has(x) by {
                    if self.has(x) {
                        assert(self.members().contains(x));
                    }
                }
            }
        }
        r
    }

    /// Whether every member of `self` is a member of `other`.
    pub fn is_subset(&self, other: &Self) -> (r: bool)
        ensures
            r == (forall|x: T| #[trigger] self.has(x) ==> other.has(x)),
    {
        proof {
            T::lemma_count();
        }
        let n = T::count();
        let mut i: usize = 0;
        while i < n
            invariant
                i <= n,
                n == T::variant_count(),
                n <= 16,
                forall|j: int| 0 <= j < i ==> self.slots@[j] is Some ==> other.slots@[j] is Some,
            decreases n - i,
        {
            if self.slots[i].is_some() && other.slots[i].is_none() {
                proof {
                    T::lemma_of_rank(i as nat);
                    let x = T::of_rank(i as nat);
                    assert(self.has(x) && !other.has(x));
                }
                return false;
            }
            i = i + 1;
        }
        proof {
            assert forall|x: T| #[trigger] self.has(x) implies other.has(x) by {
                T::lemma_rank(x);
            }
        }
        true
    }

    /// The set of the given elements.
    pub fn from_slice(items: &[T]) -> (r: Self)
        ensures
            forall|x: T| #[trigger] r.has(x) == items@.contains(x),
    {
        let mut s = Self::new();
        let mut i: usize = 0;
        while i < items.len()
            invariant
                i <= items@.len(),
                forall|x: T| #[trigger] s.has(x) == items@.take(i as int).contains(x),
            decreases items@.len() - i,
        {
            s.insert(items[i]);
            i = i + 1;
            proof {
                assert forall|x: T| #[trigger] s.has(x) == items@.take(i as int).contains(x) by {
                    let t = items@.take(i as int);
                    if x == items@[i - 1] {
                        assert(t[i - 1] == x);
                    }
                    if t.contains(x) {
                        let k = choose|k: int| 0 <= k < t.len() && t[k] == x;
                        if k < i - 1 {
                            assert(items@.take(i - 1)[k] == x);
                        }
                    }
                    if items@.take(i - 1).contains(x) {
                        let t2 = items@.take(i - 1);
                        let k = choose|k: int| 0 <= k < t2.len() && t2[k] == x;
                        assert(t[k] == x);
                    }
                }
            }
        }
        assert(items@.take(items@.len() as int) =~= items@);
        s
    }
}

proof fn lemma_strict_len<T: Ranked>(s: Seq<T>)
    requires
        strictly_ranked(s),
        forall|i: int| 0 <= i < s.len() ==> #[trigger] s[i].rank() < T::variant_count(),
    ensures
        s.len() <= T::variant_count(),
    decreases s.len(),
{
    if s.len() > 0 {
        let t = s.drop_last();
        assert forall|i: int| 0 <= i < t.len() implies #[trigger] t[i].rank() < s.last().rank() by {
            assert(t[i] == s[i]);
        }
        lemma_strict_below::<T>(t, s.last().rank());
    }
}

proof fn lemma_strict_below<T: Ranked>(s: Seq<T>, bound: nat)
    requires
        strictly_ranked(s),
        forall|i: int| 0 <= i < s.len() ==> #[trigger] s[i].rank() < bound,
    ensures
        s.len() <= bound,
    decreases s.len(),
{
    if s.len() > 0 {
        let t = s.drop_last();
        assert forall|i: int| 0 <= i < t.len() implies #[trigger] t[i].rank() < s.last().rank() by {
            assert(t[i] == s[i]);
        }
        lemma_strict_below::<T>(t, s.last().rank());
    }
}

// ---------------------------------------------------------------------------
// EnumMap
// ---------------------------------------------------------------------------

/// Entries of a slot vector among the first `k` positions, in position order.
pub open spec fn filled<K: Ranked, V>(slots: Seq<Option<V>>, k: nat) -> Seq<(K, V)>
    decreases k,
{
    if k == 0 {
        Seq::empty()
    } else if slots[k - 1] is Some {
        filled::<K, V>(slots, (k - 1) as nat).push((K::of_rank((k - 1) as nat), slots[k - 1]->0))
    } else {
        filled::<K, V>(slots, (k - 1) as nat)
    }
}

/// Sum of the values of an entry sequence.
pub open spec fn value_sum<K>(s: Seq<(K, u64)>) -> nat
    decreases s.len(),
{
    if s.len() == 0 {
        0
    } else {
        value_sum(s.drop_last()) + (s.last().1 as nat)
    }
}

/// A map from enumeration variants to values.
#[derive(Debug, Clone, Copy, PartialEq, Eq, Hash)]
pub struct EnumMap<K: Ranked, V: Copy> {
    slots: [Option<(K, V)>; 16],
}

impl<K: Ranked, V: Copy> EnumMap<K, V> {
    /// The value stored for `k`, if any.
    pub closed spec fn lookup(self, k: K) -> Option<V> {
        match self.slots@[k.rank() as int] {
            Some(p) => Some(p.1),
            None => None,
        }
    }

    closed spec fn values(self) -> Seq<Option<V>> {
        self.slots@.map_values(
            |o: Option<(K, V)>|
                match o {
                    Some(p) => Some(p.1),
                    None => None,
                },
        )
    }

    /// Entries in declaration order of the keys.
    pub closed spec fn entries(self) -> Seq<(K, V)> {
        filled::<K, V>(self.values(), K::variant_count())
    }

    /// The empty map.
    pub fn new() -> (r: Self)
        ensures
            forall|k: K| #[trigger] r.lookup(k) is None,
            r.entries() == Seq::<(K, V)>::empty(),
    {
        proof {
            K::lemma_count();
        }
        let r = EnumMap { slots: [None; 16] };
        proof {
            assert forall|k: K| #[trigger] r.lookup(k) is None by {
                K::lemma_rank(k);
            }
            lemma_filled_empty::<K, V>(r.values(), K::variant_count());
        }
        r
    }

    /// Store a value for a key, replacing any previous one.
    pub fn insert(&mut self, k: K, v: V)
        ensures
            forall|j: K|
                #[trigger] final(self).lookup(j) == if j == k {
                    Some(v)
                } else {
                    old(self).lookup(j)
                },
    {
        proof {
            K::lemma_count();
            K::lemma_rank(k);
        }
        let r = k.rank_exec();
        self.slots[r] = Some((k, v));
        proof {
            assert forall|j: K|
                #[trigger] self.lookup(j) == if j == k {
                    Some(v)
                } else {
                    old(self).lookup(j)
                } by {
                K::lemma_rank(j);
                if j.rank() == k.rank() {
                    assert(K::of_rank(j.rank()) == K::of_rank(k.rank()));
                }
            }
        }
    }

    /// The value stored for `k`, if any.
    pub fn get(&self, k: &K) -> (r: Option<V>)
        ensures
            r == self.lookup(*k),
    {
        proof {
            K::lemma_count();
            K::lemma_rank(*k);
        }
        match self.slots[k.rank_exec()] {
            Some(p) => Some(p.1),
            None => None,
        }
    }

    /// Entries in declaration order of the keys.
    pub fn to_vec(&self) -> (r: Vec<(K, V)>)
        ensures
            r@ == self.entries(),
    {
        proof {
            K::lemma_count();
        }
        let n = K::count();
        let mut out: Vec<(K, V)> = Vec::new();
        let mut i: usize = 0;
        while i < n
            invariant
                i <= n,
                n == K::variant_count(),
                n <= 16,
                out@ == filled::<K, V>(self.values(), i as nat),
            decreases n - i,
        {
            match self.slots[i] {
                Some(p) => out.push((K::from_rank(i), p.1)),
                None => {},
            }
            i = i + 1;
        }
        out
    }

    /// Number of entries.
    pub fn len(&self) -> (r: usize)
        ensures
            r == self.entries().len(),
    {
        self.to_vec().len()
    }
}

proof fn lemma_filled_empty<K: Ranked, V>(slots: Seq<Option<V>>, k: nat)
    requires
        k <= slots.len(),
        forall|j: int| 0 <= j < k ==> slots[j] is None,
    ensures
        filled::<K, V>(slots, k) == Seq::<(K, V)>::empty(),
    decreases k,
{
    if k > 0 {
        lemma_filled_empty::<K, V>(slots, (k - 1) as nat);
    }
}

impl<K: Ranked> EnumMap<K, u64> {
    /// Sum of all values (saturating at `u64::MAX`).
    pub fn value_total(&self) -> (r: u64)
        ensures
            r == if value_sum(self.entries()) > u64::MAX {
                u64::MAX as nat
            } else {
                value_sum(self.entries())
            },
    {
        let v = self.to_vec();
        let mut total: u64 = 0;
        let mut over = false;
        let mut i: usize = 0;
        while i < v.len()
            invariant
                i <= v@.len(),
                v@ == self.entries(),
                over ==> value_sum(v@.take(i as int)) > u64::MAX,
                !over ==> total == value_sum(v@.take(i as int)),
            decreases v@.len() - i,
        {
            let ghost t = v@.take(i as int);
            assert(v@.take(i + 1).drop_last() =~= t);
            if !over {
                match total.checked_add(v[i].1) {
                    Some(s) => total = s,
                    None => over = true,
                }
            }
            proof {
                lemma_value_sum_mono(v@.take(i + 1), v@.take(i + 1).drop_last());
            }
            i = i + 1;
        }
        assert(v@.take(i as int) =~= v@);
        if over {
            u64::MAX
        } else {
            total
        }
    }
}

proof fn lemma_value_sum_mono<K>(s: Seq<(K, u64)>, t: Seq<(K, u64)>)
    requires
        s.len() > 0,
        t == s.drop_last(),
    ensures
        value_sum(s) >= value_sum(t),
{
}

} // verus!
