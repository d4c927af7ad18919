//! What holds of every account and every movement.

use super::client::{AccountState, Outcome};
use super::transaction::Movement;
use crate::amount::MAX_RAW;
use vstd::prelude::*;

verus! {

/// A movement leaves the numbers of an account within their bounds: the
/// total from zero up, what is held and what overflowed below zero.
pub proof fn lemma_apply_keeps_bounds(s: AccountState, m: Movement)
    requires
        s.wf(),
        m.wf(),
    ensures
        s.apply(m).wf(),
{
}

/// A deposit into an unlocked account whose total has room for it adds
/// exactly its amount to the total, and touches nothing else.
pub proof fn lemma_deposit_adds_to_total(s: AccountState, d: int)
    requires
        s.wf(),
        !s.locked,
        0 <= d <= MAX_RAW,
        s.total + d <= MAX_RAW,
    ensures
        s.apply(Movement::Deposit(d)) == (AccountState { total: s.total + d, ..s }),
        s.outcome(Movement::Deposit(d)) == Outcome::Applied,
{
}

/// A deposit that would take the total past the bound is refused, and the
/// account is as it was.
pub proof fn lemma_deposit_past_bound_is_refused(s: AccountState, d: int)
    requires
        s.wf(),
        !s.locked,
        0 <= d <= MAX_RAW,
        s.total + d > MAX_RAW,
    ensures
        s.apply(Movement::Deposit(d)) == s,
        s.outcome(Movement::Deposit(d)) == Outcome::Rejected,
{
}

/// A withdrawal of `w` from an unlocked account takes `w` from the total
/// where both the total and what is available cover it; otherwise it is
/// refused and the account is as it was.
pub proof fn lemma_withdrawal_needs_cover(s: AccountState, w: int)
    requires
        s.wf(),
        !s.locked,
        0 < w <= MAX_RAW,
    ensures
        w <= s.total && w <= s.available() ==> {
            &&& s.apply(Movement::Withdrawal(-w)) == (AccountState { total: s.total - w, ..s })
            &&& s.outcome(Movement::Withdrawal(-w)) == Outcome::Applied
        },
        !(w <= s.total && w <= s.available()) ==> {
            &&& s.apply(Movement::Withdrawal(-w)) == s
            &&& s.outcome(Movement::Withdrawal(-w)) == Outcome::Rejected
        },
{
}

/// A withdrawal that is made never leaves less than nothing available.
pub proof fn lemma_withdrawal_leaves_available(s: AccountState, w: int)
    requires
        s.wf(),
        !s.locked,
        0 < w <= MAX_RAW,
        s.outcome(Movement::Withdrawal(-w)) == Outcome::Applied,
    ensures
        s.apply(Movement::Withdrawal(-w)).available() >= 0,
{
}

/// What is held, as a magnitude: nothing where no hold is open.
pub open spec fn held_magnitude(s: AccountState) -> int {
    match s.held {
        None => 0,
        Some(h) => -h,
    }
}

/// A dispute over `w` freezes `w` more in an unlocked account, whatever its
/// total, as long as the hold stays within the bound. The total does not
/// move, so what is available may fall below zero.
pub proof fn lemma_dispute_adds_to_hold(s: AccountState, w: int)
    requires
        s.wf(),
        !s.locked,
        0 < w <= MAX_RAW,
        held_magnitude(s) + w <= MAX_RAW,
    ensures
        s.apply(Movement::Dispute(-w)) == (AccountState {
            held: Some(-(held_magnitude(s) + w)),
            ..s
        }),
        s.apply(Movement::Dispute(-w)).available() == s.available() - w,
        s.outcome(Movement::Dispute(-w)) == Outcome::Applied,
{
}

/// A dispute that would take the hold past the bound is refused, and the
/// account is as it was.
pub proof fn lemma_dispute_past_bound_is_refused(s: AccountState, w: int)
    requires
        s.wf(),
        !s.locked,
        0 < w <= MAX_RAW,
        held_magnitude(s) + w > MAX_RAW,
    ensures
        s.apply(Movement::Dispute(-w)) == s,
        s.outcome(Movement::Dispute(-w)) == Outcome::Rejected,
{
}

/// A resolve of `c` in an unlocked account: equal to the hold, it clears the
/// hold; less than the hold, it reduces the hold by `c`; more than the hold,
/// or with no hold open, it is refused and the account is as it was.
pub proof fn lemma_resolve_releases_hold(s: AccountState, c: int)
    requires
        s.wf(),
        !s.locked,
        0 <= c <= MAX_RAW,
    ensures
        s.held is Some && c == held_magnitude(s) ==> {
            &&& s.apply(Movement::Resolve(c)) == (AccountState { held: None, ..s })
            &&& s.outcome(Movement::Resolve(c)) == Outcome::Applied
        },
        s.held is Some && c < held_magnitude(s) ==> {
            &&& s.apply(Movement::Resolve(c)) == (AccountState {
                held: Some(-(held_magnitude(s) - c)),
                ..s
            })
            &&& s.outcome(Movement::Resolve(c)) == Outcome::Applied
        },
        s.held is None || c > held_magnitude(s) ==> {
            &&& s.apply(Movement::Resolve(c)) == s
            &&& s.outcome(Movement::Resolve(c)) == Outcome::Rejected
        },
{
}

/// A chargeback of `w` against an unlocked account always locks it. The
/// hold shrinks by `w` where it covers `w`, and is cleared where it does
/// not. The total shrinks by `w` where it covers `w` and the overflow stays
/// as it was; where it does not, the total is zero and the overflow is what
/// was missing.
pub proof fn lemma_chargeback_locks_and_charges(s: AccountState, w: int)
    requires
        s.wf(),
        !s.locked,
        0 < w <= MAX_RAW,
    ensures
        s.apply(Movement::Chargeback(-w)).locked,
        w < held_magnitude(s) ==> s.apply(Movement::Chargeback(-w)).held == Some(
            -(held_magnitude(s) - w),
        ),
        w >= held_magnitude(s) ==> s.apply(Movement::Chargeback(-w)).held is None,
        w <= s.total ==> {
            &&& s.apply(Movement::Chargeback(-w)).total == s.total - w
            &&& s.apply(Movement::Chargeback(-w)).overflow == s.overflow
        },
        w > s.total ==> {
            &&& s.apply(Movement::Chargeback(-w)).total == 0
            &&& s.apply(Movement::Chargeback(-w)).overflow == Some(s.total - w)
        },
        s.outcome(Movement::Chargeback(-w)) == if s.held is Some && w <= held_magnitude(s) {
            Outcome::Applied
        } else {
            Outcome::HoldCleared
        },
{
}

/// A locked account takes no movement of any kind: it stays as it is, and
/// so stays locked.
pub proof fn lemma_locked_is_final(s: AccountState, m: Movement)
    requires
        s.locked,
    ensures
        s.apply(m) == s,
        s.outcome(m) == Outcome::Ignored,
{
}

/// Once an account is locked, no run of movements changes its total, what
/// it holds or its overflow, and none unlocks it.
pub proof fn lemma_locked_stays_as_it_is(s: AccountState, ms: Seq<Movement>)
    requires
        s.locked,
    ensures
        s.apply_all(ms) == s,
    decreases ms.len(),
{
    if ms.len() > 0 {
        lemma_locked_stays_as_it_is(s, ms.drop_last());
    }
}

/// A run of movements leaves the numbers of an account within their
/// bounds.
pub proof fn lemma_apply_all_keeps_bounds(s: AccountState, ms: Seq<Movement>)
    requires
        s.wf(),
        forall|i: int| 0 <= i < ms.len() ==> (#[trigger] ms[i]).wf(),
    ensures
        s.apply_all(ms).wf(),
    decreases ms.len(),
{
    if ms.len() > 0 {
        lemma_apply_all_keeps_bounds(s, ms.drop_last());
        lemma_apply_keeps_bounds(s.apply_all(ms.drop_last()), ms.last());
    }
}

/// Only a chargeback locks an account, and no movement unlocks one.
pub proof fn lemma_lock_comes_from_chargeback(s: AccountState, m: Movement)
    ensures
        s.apply(m).locked <==> s.locked || m is Chargeback,
{
}

/// A dispute over an amount that the hold has room for, and then a resolve
/// of the same amount, leave an unlocked account as it was.
pub proof fn lemma_dispute_then_resolve(s: AccountState, c: int)
    requires
        s.wf(),
        !s.locked,
        0 < c <= MAX_RAW,
        held_magnitude(s) + c <= MAX_RAW,
    ensures
        s.apply(Movement::Dispute(-c)).apply(Movement::Resolve(c)) == s,
{
}

} // verus!
