use vstd::prelude::*;
use crate::address::Address;
use crate::sum::{sum_values, all_nonnegative, lemma_sum_insert};

verus! {

/// A key of a ledger table: compared and copied by its view.
pub trait LedgerKey: Sized + View {
    fn same_key(&self, other: &Self) -> (r: bool)
        ensures
            r == (self@ == other@),
    ;

    fn copy_key(&self) -> (r: Self)
        ensures
            r@ == self@,
    ;
}

impl LedgerKey for Address {
    fn same_key(&self, other: &Self) -> (r: bool) {
        self.same_as(other)
    }

    fn copy_key(&self) -> (r: Self) {
        self.clone()
    }
}

impl LedgerKey for (Address, Address) {
    fn same_key(&self, other: &Self) -> (r: bool) {
        self.0.same_as(&other.0) && self.1.same_as(&other.1)
    }

    fn copy_key(&self) -> (r: Self) {
        (self.0.clone(), self.1.clone())
    }
}

/// The map that a list of entries stands for: later entries take precedence.
pub open spec fn entries_map<K: View>(s: Seq<(K, i128)>) -> Map<K::V, int>
    decreases s.len(),
{
    if s.len() == 0 {
        Map::empty()
    } else {
        entries_map(s.drop_last()).insert(s.last().0@, s.last().1 as int)
    }
}

/// No key occurs twice in the list.
pub open spec fn distinct_keys<K: View>(s: Seq<(K, i128)>) -> bool {
    forall|i: int, j: int| 0 <= i < j < s.len() ==> s[i].0@ != s[j].0@
}

/// Every amount in the list is at least zero.
pub open spec fn nonnegative_amounts<K>(s: Seq<(K, i128)>) -> bool {
    forall|i: int| 0 <= i < s.len() ==> s[i].1 >= 0
}

/// The sum of the amounts of the list.
pub open spec fn amounts_sum<K>(s: Seq<(K, i128)>) -> int
    decreases s.len(),
{
    if s.len() == 0 {
        0
    } else {
        amounts_sum(s.drop_last()) + s.last().1
    }
}

/// The amount a map holds at a key, zero where it holds none.
pub open spec fn amount_at<K>(m: Map<K, int>, k: K) -> int {
    if m.contains_key(k) {
        m[k]
    } else {
        0
    }
}

pub proof fn lemma_entries_finite<K: View>(s: Seq<(K, i128)>)
    ensures
        entries_map(s).dom().finite(),
    decreases s.len(),
{
    if s.len() != 0 {
        lemma_entries_finite(s.drop_last());
    }
}

pub proof fn lemma_entries_absent<K: View>(s: Seq<(K, i128)>, k: K::V)
    requires
        forall|i: int| 0 <= i < s.len() ==> s[i].0@ != k,
    ensures
        !entries_map(s).contains_key(k),
    decreases s.len(),
{
    if s.len() != 0 {
        lemma_entries_absent(s.drop_last(), k);
    }
}

pub proof fn lemma_entries_at<K: View>(s: Seq<(K, i128)>, i: int)
    requires
        distinct_keys(s),
        0 <= i < s.len(),
    ensures
        entries_map(s).contains_key(s[i].0@),
        entries_map(s)[s[i].0@] == s[i].1,
    decreases s.len(),
{
    if i < s.len() - 1 {
        lemma_entries_at(s.drop_last(), i);
    }
}

pub proof fn lemma_entries_update<K: View>(s: Seq<(K, i128)>, i: int, e: (K, i128))
    requires
        distinct_keys(s),
        0 <= i < s.len(),
        e.0@ == s[i].0@,
    ensures
        entries_map(s.update(i, e)) == entries_map(s).insert(e.0@, e.1 as int),
    decreases s.len(),
{
    let u = s.update(i, e);
    if i == s.len() - 1 {
        assert(u.drop_last() =~= s.drop_last());
        assert(entries_map(u) =~= entries_map(s).insert(e.0@, e.1 as int));
    } else {
        assert(u.drop_last() =~= s.drop_last().update(i, e));
        lemma_entries_update(s.drop_last(), i, e);
        assert(s.last().0@ != e.0@);
        assert(entries_map(u) =~= entries_map(s).insert(e.0@, e.1 as int));
    }
}

pub proof fn lemma_entries_nonnegative<K: View>(s: Seq<(K, i128)>)
    requires
        nonnegative_amounts(s),
    ensures
        all_nonnegative(entries_map(s)),
    decreases s.len(),
{
    if s.len() != 0 {
        lemma_entries_nonnegative(s.drop_last());
    }
}

pub proof fn lemma_entries_sum<K: View>(s: Seq<(K, i128)>)
    requires
        distinct_keys(s),
    ensures
        sum_values(entries_map(s)) == amounts_sum(s),
    decreases s.len(),
{
    if s.len() != 0 {
        let d = s.drop_last();
        lemma_entries_sum(d);
        lemma_entries_finite(d);
        lemma_entries_absent(d, s.last().0@);
        lemma_sum_insert(entries_map(d), s.last().0@, s.last().1 as int);
    }
}

/// A table of non-negative amounts keyed by `K`, such as balances or allowances.
pub struct Ledger<K> {
    entries: Vec<(K, i128)>,
}

impl<K: View> View for Ledger<K> {
    type V = Map<K::V, int>;

    closed spec fn view(&self) -> Map<K::V, int> {
        entries_map(self.entries@)
    }
}

impl<K: LedgerKey> Ledger<K> {
    /// The table holds each key at most once and no negative amount.
    pub closed spec fn wf(&self) -> bool {
        &&& distinct_keys(self.entries@)
        &&& nonnegative_amounts(self.entries@)
    }

    pub proof fn lemma_wf(&self)
        requires
            self.wf(),
        ensures
            self@.dom().finite(),
            all_nonnegative(self@),
    {
        lemma_entries_finite(self.entries@);
        lemma_entries_nonnegative(self.entries@);
    }

    /// An empty table.
    pub fn new() -> (l: Ledger<K>)
        ensures
            l.wf(),
            l@ == Map::<K::V, int>::empty(),
    {
        Ledger { entries: Vec::new() }
    }

    /// A table holding the given entries, if no key occurs twice and no
    /// amount is negative.
    pub fn from_entries(entries: Vec<(K, i128)>) -> (r: Option<Ledger<K>>)
        ensures
            r is Some <==> (distinct_keys(entries@) && nonnegative_amounts(entries@)),
            r matches Some(l) ==> l.wf() && l@ == entries_map(entries@),
    {
        let n = entries.len();
        let mut i: usize = 0;
        while i < n
            invariant
                n == entries@.len(),
                i <= n,
                forall|a: int, b: int| 0 <= a < b < n && a < i ==> entries@[a].0@ != entries@[b].0@,
                forall|a: int| 0 <= a < i ==> entries@[a].1 >= 0,
            decreases n - i,
        {
            if entries[i].1 < 0 {
                return None;
            }
            let mut j: usize = i + 1;
            while j < n
                invariant
                    n == entries@.len(),
                    i < n,
                    i < j <= n,
                    forall|b: int| i < b < j ==> entries@[i as int].0@ != entries@[b].0@,
                decreases n - j,
            {
                if entries[i].0.same_key(&entries[j].0) {
                    return None;
                }
                j = j + 1;
            }
            i = i + 1;
        }
        Some(Ledger { entries })
    }

    fn find(&self, k: &K) -> (r: Option<usize>)
        ensures
            match r {
                Some(i) => i < self.entries@.len() && self.entries@[i as int].0@ == k@,
                None => forall|i: int| 0 <= i < self.entries@.len() ==> self.entries@[i].0@ != k@,
            },
    {
        let n = self.entries.len();
        let mut i: usize = 0;
        while i < n
            invariant
                n == self.entries@.len(),
                i <= n,
                forall|j: int| 0 <= j < i ==> self.entries@[j].0@ != k@,
            decreases n - i,
        {
            if self.entries[i].0.same_key(k) {
                return Some(i);
            }
            i = i + 1;
        }
        None
    }

    /// The amount held at `k`, zero if the table holds none.
    pub fn get(&self, k: &K) -> (v: i128)
        requires
            self.wf(),
        ensures
            v == amount_at(self@, k@),
    {
        match self.find(k) {
            Some(i) => {
                proof {
                    lemma_entries_at(self.entries@, i as int);
                }
                self.entries[i].1
            },
            None => {
                proof {
                    lemma_entries_absent(self.entries@, k@);
                }
                0
            },
        }
    }

    /// Records the amount `v` at `k`.
    pub fn set(&mut self, k: &K, v: i128)
        requires
            old(self).wf(),
            v >= 0,
        ensures
            final(self).wf(),
            final(self)@ == old(self)@.insert(k@, v as int),
    {
        let kc = k.copy_key();
        match self.find(k) {
            Some(i) => {
                proof {
                    lemma_entries_update(self.entries@, i as int, (kc, v));
                }
                self.entries.set(i, (kc, v));
            },
            None => {
                let ghost s = self.entries@;
                self.entries.push((kc, v));
                assert(self.entries@.drop_last() =~= s);
            },
        }
    }

    /// The sum of all amounts, or `None` where it exceeds `i128::MAX`.
    pub fn total(&self) -> (r: Option<i128>)
        requires
            self.wf(),
        ensures
            match r {
                Some(t) => t == sum_values(self@),
                None => sum_values(self@) > i128::MAX,
            },
    {
        let n = self.entries.len();
        let mut acc: i128 = 0;
        let mut i: usize = 0;
        while i < n
            invariant
                n == self.entries@.len(),
                i <= n,
                nonnegative_amounts(self.entries@),
                distinct_keys(self.entries@),
                acc == amounts_sum(self.entries@.take(i as int)),
            decreases n - i,
        {
            let v = self.entries[i].1;
            proof {
                assert(self.entries@.take(i + 1).drop_last() =~= self.entries@.take(i as int));
            }
            if acc > i128::MAX - v {
                proof {
                    lemma_prefix_sum_le(self.entries@, i + 1);
                    lemma_entries_sum(self.entries@);
                }
                return None;
            }
            acc = acc + v;
            i = i + 1;
        }
        proof {
            assert(self.entries@.take(n as int) =~= self.entries@);
            lemma_entries_sum(self.entries@);
        }
        Some(acc)
    }
}

/// With non-negative amounts, the sum of a prefix is at most the sum of the whole.
pub proof fn lemma_prefix_sum_le<K>(s: Seq<(K, i128)>, n: int)
    requires
        nonnegative_amounts(s),
        0 <= n <= s.len(),
    ensures
        amounts_sum(s.take(n)) <= amounts_sum(s),
    decreases s.len(),
{
    if n < s.len() {
        assert(s.drop_last().take(n) =~= s.take(n));
        lemma_prefix_sum_le(s.drop_last(), n);
    } else {
        assert(s.take(n) =~= s);
    }
}

} // verus!
