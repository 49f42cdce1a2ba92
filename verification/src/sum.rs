use vstd::prelude::*;

verus! {

/// The sum of the values of a finite map.
pub open spec fn sum_values<K>(m: Map<K, int>) -> int
    decreases m.dom().len(),
    when m.dom().finite()
{
    if m.dom().len() == 0 {
        0
    } else {
        let k = m.dom().choose();
        m[k] + sum_values(m.remove(k))
    }
}

/// Every value of the map is at least zero.
pub open spec fn all_nonnegative<K>(m: Map<K, int>) -> bool {
    forall|k: K| #[trigger] m.contains_key(k) ==> m[k] >= 0
}

/// Taking any one key out of a finite map lowers its sum by that key's value.
pub proof fn lemma_sum_remove<K>(m: Map<K, int>, k: K)
    requires
        m.dom().finite(),
        m.contains_key(k),
    ensures
        sum_values(m) == m[k] + sum_values(m.remove(k)),
    decreases m.dom().len(),
{
    let c = m.dom().choose();
    if c != k {
        let mc = m.remove(c);
        let mk = m.remove(k);
        lemma_sum_remove(mc, k);
        lemma_sum_remove(mk, c);
        assert(mc.remove(k) =~= mk.remove(c));
    }
}

/// Writing a value at a key changes the sum by the difference to what was there.
pub proof fn lemma_sum_insert<K>(m: Map<K, int>, k: K, v: int)
    requires
        m.dom().finite(),
    ensures
        m.insert(k, v).dom().finite(),
        sum_values(m.insert(k, v)) == sum_values(m) - (if m.contains_key(k) { m[k] } else { 0 }) + v,
{
    let mi = m.insert(k, v);
    lemma_sum_remove(mi, k);
    if m.contains_key(k) {
        lemma_sum_remove(m, k);
        assert(mi.remove(k) =~= m.remove(k));
    } else {
        assert(mi.remove(k) =~= m);
    }
}

/// The sum of a finite map whose values are all non-negative is at least zero
/// and at least each of its values.
pub proof fn lemma_sum_bounds<K>(m: Map<K, int>, k: K)
    requires
        m.dom().finite(),
        all_nonnegative(m),
    ensures
        sum_values(m) >= 0,
        m.contains_key(k) ==> m[k] <= sum_values(m),
    decreases m.dom().len(),
{
    if m.dom().len() != 0 {
        let c = m.dom().choose();
        lemma_sum_bounds(m.remove(c), k);
        if m.contains_key(k) {
            lemma_sum_remove(m, k);
            lemma_sum_bounds(m.remove(k), k);
        }
    }
}

/// Two distinct keys of a finite map with non-negative values hold together
/// no more than the sum of the map.
pub proof fn lemma_sum_two<K>(m: Map<K, int>, a: K, b: K)
    requires
        m.dom().finite(),
        all_nonnegative(m),
        m.contains_key(a),
        m.contains_key(b),
        a != b,
    ensures
        m[a] + m[b] <= sum_values(m),
{
    lemma_sum_remove(m, a);
    lemma_sum_bounds(m.remove(a), b);
}

} // verus!
