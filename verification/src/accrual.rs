//! The mathematics of dividend accrual.
//!
//! Dividend events form an append-only sequence of (timestamp, amount) pairs
//! whose timestamps never decrease, because the host clock is monotonic. A
//! holder's unclaimed accrual is drawn from the events issued strictly after
//! the holder's claim watermark.

use vstd::prelude::*;
use crate::Balance;
use crate::Timestamp;

verus! {

/// Timestamps never decrease along the event history.
pub open spec fn events_sorted(s: Seq<(Timestamp, Balance)>) -> bool {
    forall|i: int, j: int| 0 <= i <= j < s.len() ==> s[i].0 <= s[j].0
}

/// The timestamp of the newest event, or zero when there is none.
pub open spec fn latest_time(s: Seq<(Timestamp, Balance)>) -> Timestamp {
    if s.len() == 0 {
        0
    } else {
        s.last().0
    }
}

/// The sum of all event amounts.
pub open spec fn amounts_total(s: Seq<(Timestamp, Balance)>) -> int
    decreases s.len(),
{
    if s.len() == 0 {
        0
    } else {
        amounts_total(s.drop_last()) + s.last().1
    }
}

/// The sum of the amounts of the events issued strictly after `w`.
pub open spec fn unclaimed_total(s: Seq<(Timestamp, Balance)>, w: Timestamp) -> int
    decreases s.len(),
{
    if s.len() == 0 {
        0
    } else {
        unclaimed_total(s.drop_last(), w) + if s.last().0 > w {
            s.last().1 as int
        } else {
            0
        }
    }
}

/// The unclaimed sum lies between zero and the sum of all amounts.
pub proof fn lemma_unclaimed_total_bounds(s: Seq<(Timestamp, Balance)>, w: Timestamp)
    ensures
        0 <= unclaimed_total(s, w),
        unclaimed_total(s, w) <= amounts_total(s),
    decreases s.len(),
{
    if s.len() > 0 {
        lemma_unclaimed_total_bounds(s.drop_last(), w);
    }
}

/// A prefix of the history sums to no more than the whole history.
pub proof fn lemma_amounts_prefix_le(s: Seq<(Timestamp, Balance)>, j: int)
    requires
        0 <= j <= s.len(),
    ensures
        amounts_total(s.subrange(0, j)) <= amounts_total(s),
    decreases s.len() - j,
{
    if j == s.len() {
        assert(s.subrange(0, j) =~= s);
    } else {
        let t = s.subrange(0, j + 1);
        assert(t.drop_last() =~= s.subrange(0, j));
        assert(t.last() == s[j]);
        lemma_amounts_prefix_le(s, j + 1);
    }
}

/// A watermark at or past the newest event leaves nothing unclaimed.
pub proof fn lemma_unclaimed_settled(s: Seq<(Timestamp, Balance)>, w: Timestamp)
    requires
        events_sorted(s),
        w >= latest_time(s),
    ensures
        unclaimed_total(s, w) == 0,
    decreases s.len(),
{
    if s.len() > 0 {
        assert forall|i: int, j: int|
            0 <= i <= j < s.drop_last().len() implies s.drop_last()[i].0 <= s.drop_last()[j].0 by {
            assert(s.drop_last()[i] == s[i]);
            assert(s.drop_last()[j] == s[j]);
        }
        if s.len() > 1 {
            assert(s.drop_last().last() == s[s.len() - 2]);
            assert(s[s.len() - 2].0 <= s.last().0);
        }
        lemma_unclaimed_settled(s.drop_last(), w);
    }
}

/// An event issued strictly after the watermark adds its whole amount to the
/// unclaimed sum.
pub proof fn lemma_unclaimed_push(
    s: Seq<(Timestamp, Balance)>,
    w: Timestamp,
    t: Timestamp,
    a: Balance,
)
    requires
        t > w,
    ensures
        unclaimed_total(s.push((t, a)), w) == unclaimed_total(s, w) + a,
{
    assert(s.push((t, a)).drop_last() =~= s);
    assert(s.push((t, a)).last() == (t, a));
}

/// Appending an event no older than the newest keeps the history sorted.
pub proof fn lemma_sorted_push(s: Seq<(Timestamp, Balance)>, t: Timestamp, a: Balance)
    requires
        events_sorted(s),
        t >= latest_time(s),
    ensures
        events_sorted(s.push((t, a))),
{
    let u = s.push((t, a));
    assert forall|i: int, j: int| 0 <= i <= j < u.len() implies u[i].0 <= u[j].0 by {
        if j < s.len() {
            assert(u[i] == s[i]);
            assert(u[j] == s[j]);
        } else {
            assert(u[j] == (t, a));
            if i < s.len() {
                assert(u[i] == s[i]);
                assert(s[i].0 <= s.last().0);
            }
        }
    }
}

} // verus!
