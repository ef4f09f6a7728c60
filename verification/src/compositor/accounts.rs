//! Sums of byte counts over maps and sequences, and how they change with one
//! entry.
use vstd::prelude::*;

verus! {

/// The sum of a finite map's values.
pub open spec fn map_total(m: Map<u16, nat>) -> nat
    decreases m.dom().len(),
    when m.dom().finite()
{
    if m.dom().len() == 0 {
        0
    } else {
        let key = m.dom().choose();
        m[key] + map_total(m.remove(key))
    }
}

/// Any entry may be taken out of the sum first.
pub proof fn lemma_map_total_remove(m: Map<u16, nat>, key: u16)
    requires
        m.dom().finite(),
        m.contains_key(key),
    ensures
        map_total(m) == m[key] + map_total(m.remove(key)),
    decreases m.dom().len(),
{
    let first = m.dom().choose();
    assert(m.dom().contains(key));
    assert(m.dom().len() > 0) by {
        if m.dom().len() == 0 {
            assert(m.dom() =~= Set::empty());
        }
    }
    if first != key {
        let rest = m.remove(first);
        assert(m.dom().contains(first));
        assert(rest.dom() =~= m.dom().remove(first));
        assert(m.remove(key).dom() =~= m.dom().remove(key));
        lemma_map_total_remove(rest, key);
        lemma_map_total_remove(m.remove(key), first);
        assert(rest.remove(key) =~= m.remove(key).remove(first));
    }
}

/// Writing an entry replaces what the key counted for.
pub proof fn lemma_map_total_insert(m: Map<u16, nat>, key: u16, value: nat)
    requires
        m.dom().finite(),
    ensures
        map_total(m.insert(key, value)) == map_total(m.remove(key)) + value,
{
    assert(m.insert(key, value).dom() =~= m.dom().insert(key));
    lemma_map_total_remove(m.insert(key, value), key);
    assert(m.insert(key, value).remove(key) =~= m.remove(key));
}

/// Removing a key that is not there changes nothing.
pub proof fn lemma_map_total_absent(m: Map<u16, nat>, key: u16)
    requires
        !m.contains_key(key),
    ensures
        m.remove(key) == m,
{
    assert(m.remove(key) =~= m);
}

/// The sum of a sequence's values.
pub open spec fn seq_total(s: Seq<nat>) -> nat
    decreases s.len(),
{
    if s.len() == 0 {
        0
    } else {
        seq_total(s.drop_last()) + s.last()
    }
}

pub proof fn lemma_seq_total_push(s: Seq<nat>, value: nat)
    ensures
        seq_total(s.push(value)) == seq_total(s) + value,
{
    assert(s.push(value).drop_last() =~= s);
}

/// Writing an element replaces what it counted for.
pub proof fn lemma_seq_total_update(s: Seq<nat>, i: int, value: nat)
    requires
        0 <= i < s.len(),
    ensures
        seq_total(s.update(i, value)) == seq_total(s) - s[i] + value,
        s[i] <= seq_total(s),
    decreases s.len(),
{
    if i == s.len() - 1 {
        assert(s.update(i, value).drop_last() =~= s.drop_last());
    } else {
        assert(s.update(i, value).drop_last() =~= s.drop_last().update(i, value));
        lemma_seq_total_update(s.drop_last(), i, value);
    }
}

/// The sum of a prefix is at most the whole.
pub proof fn lemma_seq_total_take(s: Seq<nat>, n: int)
    requires
        0 <= n <= s.len(),
    ensures
        seq_total(s.take(n)) <= seq_total(s),
        n < s.len() ==> seq_total(s.take(n + 1)) == seq_total(s.take(n)) + s[n],
    decreases s.len(),
{
    if n < s.len() {
        assert(s.take(n + 1).drop_last() =~= s.take(n));
        assert(s.drop_last().take(n) =~= s.take(n));
        lemma_seq_total_take(s.drop_last(), n);
    } else {
        assert(s.take(n) =~= s);
    }
}

} // verus!
