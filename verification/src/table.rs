//! Association tables backing the ledger's mappings.
//!
//! Each mapping of the fund (account balances, claim watermarks, allowances)
//! is a vector of entries with pairwise-distinct keys. An absent key stands
//! for the mapping's default value, so every lookup is total: unassigned
//! accounts implicitly hold zero.

use vstd::prelude::*;

verus! {

/// No two entries share a key.
pub open spec fn distinct_keys<V>(s: Seq<(u128, V)>) -> bool {
    forall|i: int, j: int| 0 <= i < j < s.len() ==> s[i].0 != s[j].0
}

/// The value stored under `key`, or `dflt` when the key is absent.
pub open spec fn table_get<V>(s: Seq<(u128, V)>, key: u128, dflt: V) -> V
    decreases s.len(),
{
    if s.len() == 0 {
        dflt
    } else if s.last().0 == key {
        s.last().1
    } else {
        table_get(s.drop_last(), key, dflt)
    }
}

/// The sum of all stored values.
pub open spec fn table_sum(s: Seq<(u128, u128)>) -> int
    decreases s.len(),
{
    if s.len() == 0 {
        0
    } else {
        table_sum(s.drop_last()) + s.last().1
    }
}

/// Dropping the last entry keeps the keys distinct.
pub proof fn lemma_distinct_drop_last<V>(s: Seq<(u128, V)>)
    requires
        distinct_keys(s),
        s.len() > 0,
    ensures
        distinct_keys(s.drop_last()),
{
    assert forall|i: int, j: int|
        0 <= i < j < s.drop_last().len() implies s.drop_last()[i].0 != s.drop_last()[j].0 by {
        assert(s.drop_last()[i] == s[i]);
        assert(s.drop_last()[j] == s[j]);
    }
}

/// With distinct keys, the lookup of an entry's key yields that entry's value.
pub proof fn lemma_table_get_at<V>(s: Seq<(u128, V)>, i: int, dflt: V)
    requires
        distinct_keys(s),
        0 <= i < s.len(),
    ensures
        table_get(s, s[i].0, dflt) == s[i].1,
    decreases s.len(),
{
    if i == s.len() - 1 {
        assert(s.last() == s[i]);
    } else {
        assert(s.last().0 != s[i].0);
        lemma_distinct_drop_last(s);
        lemma_table_get_at(s.drop_last(), i, dflt);
        assert(s.drop_last()[i] == s[i]);
    }
}

/// The lookup of a key that no entry holds yields the default.
pub proof fn lemma_table_get_absent<V>(s: Seq<(u128, V)>, key: u128, dflt: V)
    requires
        forall|i: int| 0 <= i < s.len() ==> s[i].0 != key,
    ensures
        table_get(s, key, dflt) == dflt,
    decreases s.len(),
{
    if s.len() > 0 {
        lemma_table_get_absent(s.drop_last(), key, dflt);
    }
}

/// Overwriting entry `i` changes only the lookup of that entry's key.
pub proof fn lemma_table_get_update<V>(s: Seq<(u128, V)>, i: int, val: V, q: u128, dflt: V)
    requires
        distinct_keys(s),
        0 <= i < s.len(),
    ensures
        table_get(s.update(i, (s[i].0, val)), q, dflt) == (if q == s[i].0 {
            val
        } else {
            table_get(s, q, dflt)
        }),
    decreases s.len(),
{
    let t = s.update(i, (s[i].0, val));
    if i == s.len() - 1 {
        assert(t.last() == (s[i].0, val));
        assert(t.drop_last() =~= s.drop_last());
        if q != s[i].0 {
            assert(s.last().0 == s[i].0);
        }
    } else {
        assert(t.last() == s.last());
        assert(t.drop_last() =~= s.drop_last().update(i, (s[i].0, val)));
        lemma_distinct_drop_last(s);
        assert(s.drop_last()[i] == s[i]);
        lemma_table_get_update(s.drop_last(), i, val, q, dflt);
        assert(s.last().0 != s[i].0);
    }
}

/// Appending an entry changes only the lookup of the appended key.
pub proof fn lemma_table_get_push<V>(s: Seq<(u128, V)>, key: u128, val: V, q: u128, dflt: V)
    ensures
        table_get(s.push((key, val)), q, dflt) == (if q == key {
            val
        } else {
            table_get(s, q, dflt)
        }),
{
    let t = s.push((key, val));
    assert(t.last() == (key, val));
    assert(t.drop_last() =~= s);
}

/// The table's sum is never negative.
pub proof fn lemma_table_sum_nonneg(s: Seq<(u128, u128)>)
    ensures
        table_sum(s) >= 0,
    decreases s.len(),
{
    if s.len() > 0 {
        lemma_table_sum_nonneg(s.drop_last());
    }
}

/// Overwriting entry `i` moves the sum by the difference of the values.
pub proof fn lemma_table_sum_update(s: Seq<(u128, u128)>, i: int, val: u128)
    requires
        0 <= i < s.len(),
    ensures
        table_sum(s.update(i, (s[i].0, val))) == table_sum(s) - s[i].1 + val,
    decreases s.len(),
{
    let t = s.update(i, (s[i].0, val));
    if i == s.len() - 1 {
        assert(t.last() == (s[i].0, val));
        assert(t.drop_last() =~= s.drop_last());
    } else {
        assert(t.last() == s.last());
        assert(t.drop_last() =~= s.drop_last().update(i, (s[i].0, val)));
        assert(s.drop_last()[i] == s[i]);
        lemma_table_sum_update(s.drop_last(), i, val);
    }
}

/// Appending an entry adds its value to the sum.
pub proof fn lemma_table_sum_push(s: Seq<(u128, u128)>, key: u128, val: u128)
    ensures
        table_sum(s.push((key, val))) == table_sum(s) + val,
{
    let t = s.push((key, val));
    assert(t.last() == (key, val));
    assert(t.drop_last() =~= s);
}

/// No lookup exceeds the table's sum.
pub proof fn lemma_table_get_le_sum(s: Seq<(u128, u128)>, key: u128)
    ensures
        table_get(s, key, 0u128) <= table_sum(s),
    decreases s.len(),
{
    if s.len() > 0 {
        lemma_table_sum_nonneg(s.drop_last());
        lemma_table_get_le_sum(s.drop_last(), key);
    }
}

/// Two lookups of different keys together do not exceed the table's sum.
pub proof fn lemma_table_two_get_le_sum(s: Seq<(u128, u128)>, k1: u128, k2: u128)
    requires
        k1 != k2,
    ensures
        table_get(s, k1, 0u128) + table_get(s, k2, 0u128) <= table_sum(s),
    decreases s.len(),
{
    if s.len() > 0 {
        lemma_table_two_get_le_sum(s.drop_last(), k1, k2);
        if s.last().0 == k1 {
            lemma_table_get_le_sum(s.drop_last(), k2);
        } else if s.last().0 == k2 {
            lemma_table_get_le_sum(s.drop_last(), k1);
        }
    }
}

/// Storing `val` under `key` moves the sum by the difference between `val`
/// and the key's previous value. The precondition is the shape that
/// `vec_table_set` establishes.
pub proof fn lemma_table_sum_after_set(
    pre: Seq<(u128, u128)>,
    post: Seq<(u128, u128)>,
    key: u128,
    val: u128,
)
    requires
        distinct_keys(pre),
        (exists|i: int|
            0 <= i < pre.len() && pre[i].0 == key && post == pre.update(i, (key, val))) || ((
        forall|i: int| 0 <= i < pre.len() ==> pre[i].0 != key) && post == pre.push((key, val))),
    ensures
        table_sum(post) == table_sum(pre) - table_get(pre, key, 0u128) + val,
{
    if exists|i: int| 0 <= i < pre.len() && pre[i].0 == key && post == pre.update(i, (key, val)) {
        let i = choose|i: int|
            0 <= i < pre.len() && pre[i].0 == key && post == pre.update(i, (key, val));
        lemma_table_get_at(pre, i, 0u128);
        lemma_table_sum_update(pre, i, val);
        assert(pre.update(i, (pre[i].0, val)) =~= pre.update(i, (key, val)));
    } else {
        lemma_table_get_absent(pre, key, 0u128);
        lemma_table_sum_push(pre, key, val);
    }
}

/// No two allowance entries share the (owner, spender) pair.
pub open spec fn distinct_pairs(s: Seq<(u128, u128, u128)>) -> bool {
    forall|i: int, j: int|
        0 <= i < j < s.len() ==> !(s[i].0 == s[j].0 && s[i].1 == s[j].1)
}

/// The allowance stored for (owner, spender), or zero when unset.
pub open spec fn pair_get(s: Seq<(u128, u128, u128)>, owner: u128, spender: u128) -> u128
    decreases s.len(),
{
    if s.len() == 0 {
        0u128
    } else if s.last().0 == owner && s.last().1 == spender {
        s.last().2
    } else {
        pair_get(s.drop_last(), owner, spender)
    }
}

/// Overwriting entry `i` changes only the lookup of that entry's pair.
pub proof fn lemma_pair_get_update(
    s: Seq<(u128, u128, u128)>,
    i: int,
    val: u128,
    qo: u128,
    qs: u128,
)
    requires
        distinct_pairs(s),
        0 <= i < s.len(),
    ensures
        pair_get(s.update(i, (s[i].0, s[i].1, val)), qo, qs) == (if qo == s[i].0 && qs == s[i].1 {
            val
        } else {
            pair_get(s, qo, qs)
        }),
    decreases s.len(),
{
    let t = s.update(i, (s[i].0, s[i].1, val));
    if i == s.len() - 1 {
        assert(t.last() == (s[i].0, s[i].1, val));
        assert(t.drop_last() =~= s.drop_last());
        if !(qo == s[i].0 && qs == s[i].1) {
            assert(s.last().0 == s[i].0 && s.last().1 == s[i].1);
        }
    } else {
        assert(t.last() == s.last());
        assert(t.drop_last() =~= s.drop_last().update(i, (s[i].0, s[i].1, val)));
        assert forall|k: int, l: int|
            0 <= k < l < s.drop_last().len() implies !(s.drop_last()[k].0 == s.drop_last()[l].0
            && s.drop_last()[k].1 == s.drop_last()[l].1) by {
            assert(s.drop_last()[k] == s[k]);
            assert(s.drop_last()[l] == s[l]);
        }
        assert(s.drop_last()[i] == s[i]);
        lemma_pair_get_update(s.drop_last(), i, val, qo, qs);
        assert(!(s.last().0 == s[i].0 && s.last().1 == s[i].1));
    }
}

/// Appending an entry changes only the lookup of the appended pair.
pub proof fn lemma_pair_get_push(
    s: Seq<(u128, u128, u128)>,
    owner: u128,
    spender: u128,
    val: u128,
    qo: u128,
    qs: u128,
)
    ensures
        pair_get(s.push((owner, spender, val)), qo, qs) == (if qo == owner && qs == spender {
            val
        } else {
            pair_get(s, qo, qs)
        }),
{
    let t = s.push((owner, spender, val));
    assert(t.last() == (owner, spender, val));
    assert(t.drop_last() =~= s);
}

/// Looks an (owner, spender) pair up in an allowance vector.
#[verifier::loop_isolation(false)]
pub fn vec_pair_get(v: &Vec<(u128, u128, u128)>, owner: u128, spender: u128) -> (r: u128)
    ensures
        r == pair_get(v@, owner, spender),
{
    let mut i: usize = v.len();
    proof {
        assert(v@.subrange(0, i as int) =~= v@);
    }
    while i > 0
        invariant
            i <= v@.len(),
            pair_get(v@, owner, spender) == pair_get(v@.subrange(0, i as int), owner, spender),
        decreases i,
    {
        i = i - 1;
        let e = v[i];
        proof {
            let sub = v@.subrange(0, i + 1);
            assert(sub.last() == v@[i as int]);
            assert(sub.drop_last() =~= v@.subrange(0, i as int));
        }
        if e.0 == owner && e.1 == spender {
            return e.2;
        }
    }
    0
}

/// Stores `val` under (owner, spender), overwriting the pair's entry or
/// appending a new one. Only the lookup of that pair changes.
#[verifier::loop_isolation(false)]
pub fn vec_pair_set(v: &mut Vec<(u128, u128, u128)>, owner: u128, spender: u128, val: u128)
    requires
        distinct_pairs(old(v)@),
    ensures
        distinct_pairs(final(v)@),
        pair_get(final(v)@, owner, spender) == val,
        forall|qo: u128, qs: u128|
            !(qo == owner && qs == spender) ==> #[trigger] pair_get(final(v)@, qo, qs) == pair_get(
                old(v)@,
                qo,
                qs,
            ),
{
    let ghost s = v@;
    let mut i: usize = 0;
    while i < v.len()
        invariant
            v@ == s,
            i <= s.len(),
            forall|k: int| 0 <= k < i ==> !(s[k].0 == owner && s[k].1 == spender),
        decreases v@.len() - i,
    {
        let e = v[i];
        if e.0 == owner && e.1 == spender {
            v[i] = (owner, spender, val);
            proof {
                assert(v@ == s.update(i as int, (s[i as int].0, s[i as int].1, val)));
                assert forall|k: int, l: int|
                    0 <= k < l < v@.len() implies !(v@[k].0 == v@[l].0 && v@[k].1 == v@[l].1) by {
                    assert(v@[k] == if k == i { (owner, spender, val) } else { s[k] });
                    assert(v@[l] == if l == i { (owner, spender, val) } else { s[l] });
                }
                assert forall|qo: u128, qs: u128| #[trigger] pair_get(v@, qo, qs) == (if qo == owner
                    && qs == spender {
                    val
                } else {
                    pair_get(s, qo, qs)
                }) by {
                    lemma_pair_get_update(s, i as int, val, qo, qs);
                }
            }
            return ;
        }
        i = i + 1;
    }
    v.push((owner, spender, val));
    proof {
        assert(v@ == s.push((owner, spender, val)));
        assert forall|k: int, l: int|
            0 <= k < l < v@.len() implies !(v@[k].0 == v@[l].0 && v@[k].1 == v@[l].1) by {
            assert(v@[k] == s[k]);
            if l < s.len() {
                assert(v@[l] == s[l]);
            } else {
                assert(v@[l] == (owner, spender, val));
            }
        }
        assert forall|qo: u128, qs: u128| #[trigger] pair_get(v@, qo, qs) == (if qo == owner && qs
            == spender {
            val
        } else {
            pair_get(s, qo, qs)
        }) by {
            lemma_pair_get_push(s, owner, spender, val, qo, qs);
        }
    }
}

/// Looks a key up in a table vector, yielding `dflt` when it is absent.
pub fn vec_table_get<V: Copy>(v: &Vec<(u128, V)>, key: u128, dflt: V) -> (r: V)
    ensures
        r == table_get(v@, key, dflt),
{
    let mut i: usize = v.len();
    proof {
        assert(v@.subrange(0, i as int) =~= v@);
    }
    while i > 0
        invariant
            i <= v@.len(),
            table_get(v@, key, dflt) == table_get(v@.subrange(0, i as int), key, dflt),
        decreases i,
    {
        i = i - 1;
        let e = v[i];
        proof {
            let sub = v@.subrange(0, i + 1);
            assert(sub.last() == v@[i as int]);
            assert(sub.drop_last() =~= v@.subrange(0, i as int));
        }
        if e.0 == key {
            return e.1;
        }
    }
    proof {
        assert(v@.subrange(0, 0).len() == 0);
    }
    dflt
}

/// Stores `val` under `key`, overwriting the key's entry or appending a new
/// one. Only the lookup of `key` changes.
#[verifier::loop_isolation(false)]
pub fn vec_table_set<V: Copy>(v: &mut Vec<(u128, V)>, key: u128, val: V)
    requires
        distinct_keys(old(v)@),
    ensures
        distinct_keys(final(v)@),
        forall|d: V| #[trigger] table_get(final(v)@, key, d) == val,
        forall|q: u128, d: V|
            q != key ==> #[trigger] table_get(final(v)@, q, d) == table_get(old(v)@, q, d),
        (exists|i: int|
            0 <= i < old(v)@.len() && old(v)@[i].0 == key && final(v)@ == old(v)@.update(
                i,
                (key, val),
            )) || ((forall|i: int| 0 <= i < old(v)@.len() ==> old(v)@[i].0 != key) && final(v)@
            == old(v)@.push((key, val))),
{
    let ghost s = v@;
    let mut i: usize = 0;
    while i < v.len()
        invariant
            v@ == s,
            i <= s.len(),
            distinct_keys(s),
            forall|k: int| 0 <= k < i ==> s[k].0 != key,
        decreases v@.len() - i,
    {
        let e = v[i];
        if e.0 == key {
            v[i] = (key, val);
            proof {
                assert(v@ == s.update(i as int, (s[i as int].0, val)));
                assert forall|k: int, l: int| 0 <= k < l < v@.len() implies v@[k].0 != v@[l].0 by {
                    assert(v@[k].0 == s[k].0);
                    assert(v@[l].0 == s[l].0);
                }
                assert forall|q: u128, d: V| #[trigger] table_get(v@, q, d) == (if q == key {
                    val
                } else {
                    table_get(s, q, d)
                }) by {
                    lemma_table_get_update(s, i as int, val, q, d);
                }
            }
            return ;
        }
        i = i + 1;
    }
    v.push((key, val));
    proof {
        assert(v@ == s.push((key, val)));
        assert forall|k: int, l: int| 0 <= k < l < v@.len() implies v@[k].0 != v@[l].0 by {
            if l < s.len() {
                assert(v@[k] == s[k]);
                assert(v@[l] == s[l]);
            } else {
                assert(v@[k] == s[k]);
                assert(v@[l] == (key, val));
            }
        }
        assert forall|q: u128, d: V| #[trigger] table_get(v@, q, d) == (if q == key {
            val
        } else {
            table_get(s, q, d)
        }) by {
            lemma_table_get_push(s, key, val, q, d);
        }
    }
}

} // verus!
