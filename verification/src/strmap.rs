//! Maps and sets keyed by strings, kept in lexicographic order of their
//! characters (the order `String`'s `Ord` gives), so that iteration is
//! deterministic and independent of insertion order.

use vstd::prelude::*;

verus! {

/// Three-way lexicographic comparison of character sequences: `-1`, `0` or `1`.
pub open spec fn str_order(a: Seq<char>, b: Seq<char>) -> int
    decreases a.len(),
{
    if a.len() == 0 {
        if b.len() == 0 {
            0
        } else {
            -1
        }
    } else if b.len() == 0 {
        1
    } else if a[0] < b[0] {
        -1
    } else if a[0] > b[0] {
        1
    } else {
        str_order(a.drop_first(), b.drop_first())
    }
}

/// Strict lexicographic order.
pub open spec fn str_lt(a: Seq<char>, b: Seq<char>) -> bool {
    str_order(a, b) < 0
}

/// Comparison is zero exactly on equal sequences.
pub proof fn lemma_order_eq(a: Seq<char>, b: Seq<char>)
    ensures
        (str_order(a, b) == 0) == (a == b),
        -1 <= str_order(a, b) <= 1,
    decreases a.len(),
{
    if a.len() == 0 && b.len() == 0 {
        assert(a =~= b);
    }
    if a.len() > 0 && b.len() > 0 {
        lemma_order_eq(a.drop_first(), b.drop_first());
        if a[0] == b[0] {
            if a.drop_first() == b.drop_first() {
                assert(a =~= seq![a[0]] + a.drop_first());
                assert(b =~= seq![b[0]] + b.drop_first());
            }
            if a == b {
                assert(a.drop_first() =~= b.drop_first());
            }
        }
    }
}

/// Comparison is antisymmetric.
pub proof fn lemma_order_antisym(a: Seq<char>, b: Seq<char>)
    ensures
        str_order(a, b) == -str_order(b, a),
    decreases a.len(),
{
    if a.len() > 0 && b.len() > 0 {
        lemma_order_antisym(a.drop_first(), b.drop_first());
    }
}

/// The strict order is transitive.
pub proof fn lemma_lt_trans(a: Seq<char>, b: Seq<char>, c: Seq<char>)
    requires
        str_lt(a, b),
        str_lt(b, c),
    ensures
        str_lt(a, c),
    decreases a.len(),
{
    if a.len() > 0 && b.len() > 0 && c.len() > 0 {
        if a[0] == b[0] && b[0] == c[0] {
            lemma_lt_trans(a.drop_first(), b.drop_first(), c.drop_first());
        }
    }
}

/// Keys of an entry sequence are strictly increasing.
pub open spec fn sorted_keys<V>(s: Seq<(String, V)>) -> bool {
    forall|i: int, j: int| 0 <= i < j < s.len() ==> str_lt(#[trigger] s[i].0@, #[trigger] s[j].0@)
}

/// Whether some entry has key `k`.
pub open spec fn has_key<V>(s: Seq<(String, V)>, k: Seq<char>) -> bool {
    exists|i: int| 0 <= i < s.len() && (#[trigger] s[i]).0@ == k
}

/// Value stored under `k`, if any.
pub open spec fn lookup_in<V>(s: Seq<(String, V)>, k: Seq<char>) -> Option<V> {
    if has_key(s, k) {
        Some(s[choose|i: int| 0 <= i < s.len() && (#[trigger] s[i]).0@ == k].1)
    } else {
        None
    }
}

/// Sorted keys are distinct, so the lookup finds the entry at any index
/// holding the key.
pub proof fn lemma_lookup_at<V>(s: Seq<(String, V)>, i: int)
    requires
        sorted_keys(s),
        0 <= i < s.len(),
    ensures
        lookup_in(s, s[i].0@) == Some(s[i].1),
{
    let k = s[i].0@;
    assert(s[i].0@ == k);
    assert(has_key(s, k));
    lemma_order_eq(k, k);
    assert forall|j: int| 0 <= j < s.len() && (#[trigger] s[j]).0@ == k implies j == i by {
        if j < i {
            assert(str_lt(s[j].0@, s[i].0@));
        } else if j > i {
            assert(str_lt(s[i].0@, s[j].0@));
        }
    }
}

/// Compare two strings lexicographically by characters.
pub fn compare_str(a: &str, b: &str) -> (r: i8)
    ensures
        r as int == str_order(a@, b@),
{
    let la = a.unicode_len();
    let lb = b.unicode_len();
    let mut i: usize = 0;
    assert(a@.skip(0) =~= a@);
    assert(b@.skip(0) =~= b@);
    while i < la && i < lb
        invariant
            la == a@.len(),
            lb == b@.len(),
            i <= la,
            i <= lb,
            str_order(a@, b@) == str_order(a@.skip(i as int), b@.skip(i as int)),
        decreases la - i,
    {
        let ca = a.get_char(i);
        let cb = b.get_char(i);
        assert(a@.skip(i as int)[0] == ca);
        assert(b@.skip(i as int)[0] == cb);
        if ca < cb {
            return -1;
        }
        if ca > cb {
            return 1;
        }
        assert(a@.skip(i as int).drop_first() =~= a@.skip(i + 1));
        assert(b@.skip(i as int).drop_first() =~= b@.skip(i + 1));
        i = i + 1;
    }
    if i == la && i == lb {
        0
    } else if i == la {
        -1
    } else {
        1
    }
}

/// Whether two strings are equal.
pub fn str_eq(a: &str, b: &str) -> (r: bool)
    ensures
        r == (a@ == b@),
{
    proof {
        lemma_order_eq(a@, b@);
    }
    compare_str(a, b) == 0
}

// ---------------------------------------------------------------------------
// StrMap
// ---------------------------------------------------------------------------

/// A map from strings to values, iterated in key order.
#[derive(Debug, PartialEq, Eq)]
pub struct StrMap<V> {
    items: Vec<(String, V)>,
}

impl<V> StrMap<V> {
    #[verifier::type_invariant]
    closed spec fn inv(self) -> bool {
        sorted_keys(self.items@)
    }

    /// Entries in key order.
    pub closed spec fn entries(self) -> Seq<(String, V)> {
        self.items@
    }

    /// Value stored under `k`, if any.
    pub open spec fn lookup(self, k: Seq<char>) -> Option<V> {
        lookup_in(self.entries(), k)
    }

    /// Whether `k` is a key.
    pub open spec fn contains_spec(self, k: Seq<char>) -> bool {
        has_key(self.entries(), k)
    }

    /// The empty map.
    pub fn new() -> (r: Self)
        ensures
            r.entries().len() == 0,
            forall|k: Seq<char>| !#[trigger] r.contains_spec(k),
    {
        StrMap { items: Vec::new() }
    }

    /// Entries in key order.
    pub fn as_slice(&self) -> (r: &[(String, V)])
        ensures
            r@ == self.entries(),
            sorted_keys(r@),
    {
        proof {
            use_type_invariant(self);
        }
        self.items.as_slice()
    }

    /// Number of entries.
    pub fn len(&self) -> (r: usize)
        ensures
            r == self.entries().len(),
    {
        self.items.len()
    }

    /// Whether there are no entries.
    pub fn is_empty(&self) -> (r: bool)
        ensures
            r == (self.entries().len() == 0),
    {
        self.items.len() == 0
    }

    /// Position of `k`, if present.
    fn find(&self, k: &str) -> (r: Option<usize>)
        ensures
            match r {
                Some(i) => i < self.entries().len() && self.entries()[i as int].0@ == k@,
                None => !self.contains_spec(k@),
            },
    {
        let mut i: usize = 0;
        while i < self.items.len()
            invariant
                i <= self.items@.len(),
                forall|j: int| 0 <= j < i ==> (#[trigger] self.items@[j]).0@ != k@,
            decreases self.items@.len() - i,
        {
            if str_eq(self.items[i].0.as_str(), k) {
                return Some(i);
            }
            i = i + 1;
        }
        None
    }

    /// Whether `k` is a key.
    pub fn contains_key(&self, k: &str) -> (r: bool)
        ensures
            r == self.contains_spec(k@),
    {
        self.find(k).is_some()
    }

    /// The value under `k`, if any.
    pub fn get(&self, k: &str) -> (r: Option<&V>)
        ensures
            match r {
                Some(v) => self.lookup(k@) == Some(*v),
                None => self.lookup(k@) is None,
            },
    {
        proof {
            use_type_invariant(self);
        }
        match self.find(k) {
            Some(i) => {
                proof {
                    lemma_lookup_at(self.items@, i as int);
                }
                Some(&self.items[i].1)
            },
            None => None,
        }
    }

    /// Store a value under a key, replacing any previous value.
    pub fn insert(&mut self, k: String, v: V)
        ensures
            forall|q: Seq<char>|
                #[trigger] final(self).lookup(q) == if q == k@ {
                    Some(v)
                } else {
                    old(self).lookup(q)
                },
            forall|q: Seq<char>|
                #[trigger] final(self).contains_spec(q) == (q == k@ || old(self).contains_spec(q)),
    {
        proof {
            use_type_invariant(&*self);
        }
        let mut items: Vec<(String, V)> = Vec::new();
        std::mem::swap(&mut items, &mut self.items);
        let ghost old_items = items@;
        let mut i: usize = 0;
        while i < items.len()
            invariant
                i <= items@.len(),
                items@ == old_items,
                sorted_keys(old_items),
                forall|j: int| 0 <= j < i ==> str_lt((#[trigger] old_items[j]).0@, k@),
            ensures
                i <= items@.len(),
                items@ == old_items,
                forall|j: int| 0 <= j < i ==> str_lt((#[trigger] old_items[j]).0@, k@),
                i < items@.len() ==> str_order(old_items[i as int].0@, k@) >= 0,
            decreases items@.len() - i,
        {
            let c = compare_str(items[i].0.as_str(), k.as_str());
            if c >= 0 {
                break;
            }
            i = i + 1;
        }
        let ghost n = old_items.len();
        if i < items.len() && str_eq(items[i].0.as_str(), k.as_str()) {
            items.set(i, (k, v));
            proof {
                let s = items@;
                assert forall|a: int, b: int| 0 <= a < b < s.len() implies str_lt(
                    #[trigger] s[a].0@,
                    #[trigger] s[b].0@,
                ) by {
                    assert(str_lt(old_items[a].0@, old_items[b].0@));
                }
                lemma_insert_lookup_replace(old_items, s, i as int, k@, v);
            }
        } else {
            proof {
                if i < n {
                    lemma_order_eq(old_items[i as int].0@, k@);
                    lemma_order_antisym(old_items[i as int].0@, k@);
                    assert(str_lt(k@, old_items[i as int].0@));
                }
            }
            items.insert(i, (k, v));
            proof {
                lemma_insert_sorted(old_items, items@, i as int);
                lemma_insert_lookup_new(old_items, items@, i as int);
            }
        }
        self.items = items;
    }
}

proof fn lemma_insert_lookup_replace<V>(
    old_items: Seq<(String, V)>,
    s: Seq<(String, V)>,
    i: int,
    k: Seq<char>,
    v: V,
)
    requires
        sorted_keys(old_items),
        sorted_keys(s),
        0 <= i < old_items.len(),
        old_items[i].0@ == k,
        s == old_items.update(i, s[i]),
        s[i].0@ == k,
        s[i].1 == v,
    ensures
        forall|q: Seq<char>|
            #[trigger] lookup_in(s, q) == if q == k {
                Some(v)
            } else {
                lookup_in(old_items, q)
            },
        forall|q: Seq<char>| #[trigger] has_key(s, q) == (q == k || has_key(old_items, q)),
{
    assert forall|q: Seq<char>|
        #[trigger] lookup_in(s, q) == if q == k {
            Some(v)
        } else {
            lookup_in(old_items, q)
        } by {
        if q == k {
            lemma_lookup_at(s, i);
        } else {
            if has_key(old_items, q) {
                let j = choose|j: int| 0 <= j < old_items.len() && (#[trigger] old_items[j]).0@ == q;
                assert(j != i);
                assert(s[j] == old_items[j]);
                lemma_lookup_at(s, j);
                lemma_lookup_at(old_items, j);
            }
            if has_key(s, q) {
                let j = choose|j: int| 0 <= j < s.len() && (#[trigger] s[j]).0@ == q;
                assert(j != i);
                assert(old_items[j] == s[j]);
            }
        }
    }
    assert forall|q: Seq<char>| #[trigger] has_key(s, q) == (q == k || has_key(old_items, q)) by {
        if q == k {
            assert(s[i].0@ == q);
        }
        if has_key(old_items, q) && q != k {
            let j = choose|j: int| 0 <= j < old_items.len() && (#[trigger] old_items[j]).0@ == q;
            assert(s[j] == old_items[j]);
        }
        if has_key(s, q) && q != k {
            let j = choose|j: int| 0 <= j < s.len() && (#[trigger] s[j]).0@ == q;
            assert(old_items[j] == s[j]);
        }
    }
}

proof fn lemma_insert_sorted<V>(old_items: Seq<(String, V)>, s: Seq<(String, V)>, i: int)
    requires
        sorted_keys(old_items),
        0 <= i <= old_items.len(),
        s.len() == old_items.len() + 1,
        forall|j: int| 0 <= j < i ==> s[j] == old_items[j],
        forall|j: int| i < j < s.len() ==> s[j] == old_items[j - 1],
        forall|j: int| 0 <= j < i ==> str_lt((#[trigger] old_items[j]).0@, s[i].0@),
        i < old_items.len() ==> str_lt(s[i].0@, old_items[i].0@),
    ensures
        sorted_keys(s),
{
    assert forall|a: int, b: int| 0 <= a < b < s.len() implies str_lt(
        #[trigger] s[a].0@,
        #[trigger] s[b].0@,
    ) by {
        if b < i {
            assert(str_lt(old_items[a].0@, old_items[b].0@));
        } else if b == i {
        } else if a > i {
            assert(str_lt(old_items[a - 1].0@, old_items[b - 1].0@));
        } else if a == i {
            if b - 1 > i {
                assert(str_lt(old_items[i].0@, old_items[b - 1].0@));
                lemma_lt_trans(s[i].0@, old_items[i].0@, old_items[b - 1].0@);
            }
        } else {
            assert(str_lt(old_items[a].0@, s[i].0@));
            if b - 1 > i {
                assert(str_lt(old_items[i].0@, old_items[b - 1].0@));
                lemma_lt_trans(s[i].0@, old_items[i].0@, old_items[b - 1].0@);
            }
            lemma_lt_trans(old_items[a].0@, s[i].0@, s[b].0@);
        }
    }
}

proof fn lemma_insert_lookup_new<V>(old_items: Seq<(String, V)>, s: Seq<(String, V)>, i: int)
    requires
        sorted_keys(old_items),
        sorted_keys(s),
        0 <= i <= old_items.len(),
        s.len() == old_items.len() + 1,
        forall|j: int| 0 <= j < i ==> s[j] == old_items[j],
        forall|j: int| i < j < s.len() ==> s[j] == old_items[j - 1],
    ensures
        forall|q: Seq<char>|
            #[trigger] lookup_in(s, q) == if q == s[i].0@ {
                Some(s[i].1)
            } else {
                lookup_in(old_items, q)
            },
        forall|q: Seq<char>| #[trigger] has_key(s, q) == (q == s[i].0@ || has_key(old_items, q)),
{
    let k = s[i].0@;
    assert forall|q: Seq<char>| #[trigger] has_key(s, q) == (q == k || has_key(old_items, q)) by {
        if q == k {
            assert(s[i].0@ == q);
        }
        if has_key(old_items, q) {
            let j = choose|j: int| 0 <= j < old_items.len() && (#[trigger] old_items[j]).0@ == q;
            if j < i {
                assert(s[j] == old_items[j]);
            } else {
                assert(s[j + 1] == old_items[j]);
            }
        }
        if has_key(s, q) && q != k {
            let j = choose|j: int| 0 <= j < s.len() && (#[trigger] s[j]).0@ == q;
            if j < i {
                assert(old_items[j] == s[j]);
            } else {
                assert(old_items[j - 1] == s[j]);
            }
        }
    }
    assert forall|q: Seq<char>|
        #[trigger] lookup_in(s, q) == if q == k {
            Some(s[i].1)
        } else {
            lookup_in(old_items, q)
        } by {
        if q == k {
            lemma_lookup_at(s, i);
        } else if has_key(old_items, q) {
            let j = choose|j: int| 0 <= j < old_items.len() && (#[trigger] old_items[j]).0@ == q;
            lemma_lookup_at(old_items, j);
            if j < i {
                assert(s[j] == old_items[j]);
                lemma_lookup_at(s, j);
            } else {
                assert(s[j + 1] == old_items[j]);
                lemma_lookup_at(s, j + 1);
            }
        } else {
            assert(!has_key(s, q));
        }
    }
}

impl<V: Clone> Clone for StrMap<V> {
    fn clone(&self) -> (r: Self)
        ensures
            r.entries().len() == self.entries().len(),
            forall|i: int|
                0 <= i < self.entries().len() ==> (#[trigger] r.entries()[i]).0 == self.entries()[i].0
                    && cloned(self.entries()[i].1, r.entries()[i].1),
    {
        proof {
            use_type_invariant(self);
        }
        let mut items: Vec<(String, V)> = Vec::new();
        let mut i: usize = 0;
        while i < self.items.len()
            invariant
                i <= self.items@.len(),
                sorted_keys(self.items@),
                items@.len() == i,
                forall|j: int|
                    0 <= j < i ==> (#[trigger] items@[j]).0 == self.items@[j].0 && cloned(
                        self.items@[j].1,
                        items@[j].1,
                    ),
            decreases self.items@.len() - i,
        {
            items.push((self.items[i].0.clone(), self.items[i].1.clone()));
            i = i + 1;
        }
        proof {
            assert forall|a: int, b: int| 0 <= a < b < items@.len() implies str_lt(
                #[trigger] items@[a].0@,
                #[trigger] items@[b].0@,
            ) by {
                assert(str_lt(self.items@[a].0@, self.items@[b].0@));
            }
        }
        StrMap { items }
    }
}

impl<V: Copy> StrMap<V> {
    /// A copy with exactly the same entries.
    pub fn duplicate(&self) -> (r: Self)
        ensures
            r.entries() == self.entries(),
    {
        proof {
            use_type_invariant(self);
        }
        let mut items: Vec<(String, V)> = Vec::new();
        let mut i: usize = 0;
        while i < self.items.len()
            invariant
                i <= self.items@.len(),
                items@ == self.items@.take(i as int),
            decreases self.items@.len() - i,
        {
            items.push((self.items[i].0.clone(), self.items[i].1));
            i = i + 1;
            assert(items@ =~= self.items@.take(i as int));
        }
        assert(items@ =~= self.items@);
        StrMap { items }
    }
}

/// `e` is one of the first `i` entries of `s`, with a value above `bound`.
spec fn kept_from(s: Seq<(String, u64)>, i: int, e: (String, u64), bound: u64) -> bool {
    exists|k: int| 0 <= k < i && #[trigger] s[k] == e && s[k].1 > bound
}

impl StrMap<u64> {
    /// Add one to the count under `k`, starting from zero when absent.
    pub fn increment(&mut self, k: String)
        requires
            old(self).lookup(k@) matches Some(c) ==> c < u64::MAX,
        ensures
            forall|q: Seq<char>|
                #[trigger] final(self).lookup(q) == if q == k@ {
                    Some(
                        (match old(self).lookup(k@) {
                            Some(c) => c + 1,
                            None => 1,
                        }) as u64,
                    )
                } else {
                    old(self).lookup(q)
                },
    {
        let next: u64 = match self.get(k.as_str()) {
            Some(c) => *c + 1,
            None => 1,
        };
        self.insert(k, next);
    }

    /// Keep only the entries whose value is strictly greater than `bound`.
    pub fn retain_above(&mut self, bound: u64)
        ensures
            forall|q: Seq<char>|
                #[trigger] final(self).lookup(q) == match old(self).lookup(q) {
                    Some(e) => if e > bound {
                        Some(e)
                    } else {
                        None
                    },
                    None => None,
                },
    {
        proof {
            use_type_invariant(&*self);
        }
        let mut items: Vec<(String, u64)> = Vec::new();
        std::mem::swap(&mut items, &mut self.items);
        let ghost old_items = items@;
        let mut out: Vec<(String, u64)> = Vec::new();
        let mut i: usize = 0;
        while i < items.len()
            invariant
                i <= items@.len(),
                items@ == old_items,
                sorted_keys(old_items),
                sorted_keys(out@),
                forall|j: int| 0 <= j < out@.len() ==> kept_from(old_items, i as int, #[trigger] out@[j], bound),
                forall|k: int|
                    0 <= k < i && (#[trigger] old_items[k]).1 > bound ==> lookup_in(
                        out@,
                        old_items[k].0@,
                    ) == Some(old_items[k].1),
            decreases items@.len() - i,
        {
            let (key, value) = (items[i].0.clone(), items[i].1);
            if value > bound {
                let ghost prev = out@;
                out.push((key, value));
                proof {
                    let s = out@;
                    assert forall|a: int, b: int| 0 <= a < b < s.len() implies str_lt(
                        #[trigger] s[a].0@,
                        #[trigger] s[b].0@,
                    ) by {
                        if b < prev.len() {
                            assert(s[a] == prev[a] && s[b] == prev[b]);
                        } else {
                            assert(s[a] == prev[a]);
                            assert(kept_from(old_items, i as int, prev[a], bound));
                            let k = choose|k: int|
                                0 <= k < i && old_items[k] == prev[a] && old_items[k].1 > bound;
                            assert(str_lt(old_items[k].0@, old_items[i as int].0@));
                        }
                    }
                    assert forall|j: int| 0 <= j < s.len() implies kept_from(old_items, i + 1, #[trigger] s[j], bound) by {
                        if j < prev.len() {
                            assert(s[j] == prev[j]);
                            assert(kept_from(old_items, i as int, prev[j], bound));
                            let k = choose|k: int|
                                0 <= k < i && old_items[k] == prev[j] && old_items[k].1 > bound;
                            assert(old_items[k] == s[j]);
                        } else {
                            assert(old_items[i as int] == s[j]);
                        }
                    }
                    lemma_lookup_at(s, s.len() - 1);
                    assert forall|k: int|
                        0 <= k < i + 1 && (#[trigger] old_items[k]).1 > bound implies lookup_in(
                        s,
                        old_items[k].0@,
                    ) == Some(old_items[k].1) by {
                        if k < i {
                            let q = old_items[k].0@;
                            assert(has_key(prev, q));
                            let j = choose|j: int| 0 <= j < prev.len() && (#[trigger] prev[j]).0@ == q;
                            lemma_lookup_at(prev, j);
                            assert(s[j] == prev[j]);
                            lemma_lookup_at(s, j);
                        }
                    }
                }
            } else {
                proof {
                    let s = out@;
                    assert forall|j: int| 0 <= j < s.len() implies kept_from(old_items, i + 1, #[trigger] s[j], bound) by {
                        assert(kept_from(old_items, i as int, s[j], bound));
                        let k = choose|k: int|
                            0 <= k < i && old_items[k] == s[j] && old_items[k].1 > bound;
                        assert(old_items[k] == s[j]);
                    }
                }
            }
            i = i + 1;
        }
        proof {
            let s = out@;
            assert forall|q: Seq<char>|
                #[trigger] lookup_in(s, q) == match lookup_in(old_items, q) {
                    Some(e) => if e > bound {
                        Some(e)
                    } else {
                        None
                    },
                    None => None,
                } by {
                if has_key(old_items, q) {
                    let k = choose|k: int| 0 <= k < old_items.len() && (#[trigger] old_items[k]).0@ == q;
                    lemma_lookup_at(old_items, k);
                    if old_items[k].1 <= bound && has_key(s, q) {
                        let j = choose|j: int| 0 <= j < s.len() && (#[trigger] s[j]).0@ == q;
                        assert(kept_from(old_items, i as int, s[j], bound));
                        let k2 = choose|k2: int|
                            0 <= k2 < i && old_items[k2] == s[j] && old_items[k2].1 > bound;
                        if k2 < k {
                            assert(str_lt(old_items[k2].0@, old_items[k].0@));
                            lemma_order_eq(q, q);
                        } else if k2 > k {
                            assert(str_lt(old_items[k].0@, old_items[k2].0@));
                            lemma_order_eq(q, q);
                        }
                    }
                } else if has_key(s, q) {
                    let j = choose|j: int| 0 <= j < s.len() && (#[trigger] s[j]).0@ == q;
                    assert(kept_from(old_items, i as int, s[j], bound));
                    let k2 = choose|k2: int|
                        0 <= k2 < i && old_items[k2] == s[j] && old_items[k2].1 > bound;
                    assert(old_items[k2].0@ == q);
                }
            }
        }
        self.items = out;
    }
}

// ---------------------------------------------------------------------------
// StrSet
// ---------------------------------------------------------------------------

/// A set of strings, iterated in lexicographic order.
#[derive(Debug, Clone, PartialEq, Eq)]
pub struct StrSet {
    map: StrMap<()>,
}

impl StrSet {
    /// Members in order.
    pub closed spec fn members(self) -> Seq<Seq<char>> {
        self.map.entries().map_values(|e: (String, ())| e.0@)
    }

    /// Whether `k` is a member.
    pub closed spec fn has(self, k: Seq<char>) -> bool {
        self.map.contains_spec(k)
    }

    /// The empty set.
    pub fn new() -> (r: Self)
        ensures
            r.members().len() == 0,
            forall|k: Seq<char>| !#[trigger] r.has(k),
    {
        StrSet { map: StrMap::new() }
    }

    /// Insert a member.
    pub fn insert(&mut self, k: String)
        ensures
            forall|q: Seq<char>| #[trigger] final(self).has(q) == (q == k@ || old(self).has(q)),
    {
        self.map.insert(k, ());
    }

    /// Whether `k` is a member.
    pub fn contains(&self, k: &str) -> (r: bool)
        ensures
            r == self.has(k@),
    {
        self.map.contains_key(k)
    }

    /// Number of members.
    pub fn len(&self) -> (r: usize)
        ensures
            r == self.members().len(),
    {
        self.map.len()
    }

    /// Whether the set has no members.
    pub fn is_empty(&self) -> (r: bool)
        ensures
            r == (self.members().len() == 0),
            r == (forall|k: Seq<char>| !#[trigger] self.has(k)),
    {
        let r = self.map.is_empty();
        proof {
            if !r {
                let e = self.map.entries()[0];
                assert(self.map.entries()[0].0@ == e.0@);
                assert(self.has(e.0@));
            }
        }
        r
    }

    /// Members in lexicographic order.
    pub fn to_vec(&self) -> (r: Vec<String>)
        ensures
            r@.len() == self.members().len(),
            forall|j: int| 0 <= j < r@.len() ==> (#[trigger] r@[j])@ == self.members()[j],
            forall|k: Seq<char>| #[trigger] self.has(k) == self.members().contains(k),
    {
        let items = self.map.as_slice();
        let mut out: Vec<String> = Vec::new();
        let mut i: usize = 0;
        while i < items.len()
            invariant
                i <= items@.len(),
                items@ == self.map.entries(),
                out@.len() == i,
                forall|j: int| 0 <= j < i ==> (#[trigger] out@[j])@ == items@[j].0@,
            decreases items@.len() - i,
        {
            out.push(items[i].0.clone());
            i = i + 1;
        }
        proof {
            assert forall|k: Seq<char>| #[trigger] self.has(k) == self.members().contains(k) by {
                if self.has(k) {
                    let j = choose|j: int| 0 <= j < items@.len() && (#[trigger] items@[j]).0@ == k;
                    assert(self.members()[j] == k);
                }
                if self.members().contains(k) {
                    let j = choose|j: int| 0 <= j < self.members().len() && self.members()[j] == k;
                    assert(items@[j].0@ == k);
                }
            }
        }
        out
    }

    /// The set of the given strings.
    pub fn from_strs(items: &[&str]) -> (r: Self)
        ensures
            forall|k: Seq<char>|
                #[trigger] r.has(k) == exists|i: int| 0 <= i < items@.len() && items@[i]@ == k,
    {
        let mut s = StrSet::new();
        let mut i: usize = 0;
        while i < items.len()
            invariant
                i <= items@.len(),
                forall|k: Seq<char>|
                    #[trigger] s.has(k) == exists|j: int| 0 <= j < i && items@[j]@ == k,
            decreases items@.len() - i,
        {
            s.insert(String::from_str(items[i]));
            i = i + 1;
            proof {
                assert forall|k: Seq<char>|
                    #[trigger] s.has(k) == exists|j: int| 0 <= j < i && items@[j]@ == k by {
                    if k == items@[i - 1]@ {
                        assert(items@[i - 1]@ == k);
                    }
                }
            }
        }
        s
    }
}

} // verus!
