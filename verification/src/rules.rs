//! The rules of scoring and of the difficulty ramp.

use vstd::prelude::*;

verus! {

/// Ticks between two forced descents when a game starts.
pub const INITIAL_SPEED: u64 = 10;

/// Number of locked pieces after which the game gets faster.
pub const RAMP_INTERVAL: u64 = 10;

/// Points for locking a piece.
pub const LOCK_POINTS: u64 = 25;

/// Two to the power `n`.
pub open spec fn two_to(n: nat) -> nat
    decreases n,
{
    if n == 0 {
        1
    } else {
        2 * two_to((n - 1) as nat)
    }
}

/// Points for one lock that cleared `lines` rows at once: 25, and on top
/// 100 · 2^lines when any row was cleared.
pub open spec fn lock_points(lines: nat) -> nat {
    if lines > 0 {
        25 + 100 * two_to(lines)
    } else {
        25
    }
}

/// The bonus part alone of the points for one lock.
pub open spec fn clear_bonus(lines: nat) -> nat {
    if lines > 0 {
        100 * two_to(lines)
    } else {
        0
    }
}

/// The score after a run of locks, given the number of rows each cleared.
pub open spec fn score_after(clears: Seq<nat>) -> nat
    decreases clears.len(),
{
    if clears.len() == 0 {
        0
    } else {
        score_after(clears.drop_last()) + lock_points(clears.last())
    }
}

/// The sum of the bonuses of a run of locks.
pub open spec fn bonus_sum(clears: Seq<nat>) -> nat
    decreases clears.len(),
{
    if clears.len() == 0 {
        0
    } else {
        bonus_sum(clears.drop_last()) + clear_bonus(clears.last())
    }
}

/// The gravity period after one more lock, `count` being the number of
/// locks including this one: one tick shorter at every tenth lock, but
/// never under one tick.
pub open spec fn ramped(speed: nat, count: nat) -> nat {
    if count % 10 == 0 && speed > 1 {
        (speed - 1) as nat
    } else {
        speed
    }
}

/// The gravity period after `locks` locks of a game that began at
/// `initial`.
pub open spec fn period_after(initial: nat, locks: nat) -> nat
    decreases locks,
{
    if locks == 0 {
        initial
    } else {
        ramped(period_after(initial, (locks - 1) as nat), locks)
    }
}

/// The gravity period in closed form: the initial one less one tick per
/// ten locks, floored at one.
pub open spec fn period_at(initial: nat, locks: nat) -> nat {
    if initial - locks / 10 >= 1 {
        (initial - locks / 10) as nat
    } else {
        1
    }
}

/// The score is additive: after any run of locks it is 25 per lock plus
/// the bonuses of the locks that cleared rows.
pub proof fn lemma_score_additive(clears: Seq<nat>)
    ensures
        score_after(clears) == 25 * clears.len() + bonus_sum(clears),
    decreases clears.len(),
{
    if clears.len() > 0 {
        lemma_score_additive(clears.drop_last());
    }
}

/// The difficulty ramp in closed form: lock by lock the period follows
/// max(1, initial − locks / 10).
pub proof fn lemma_period_after(initial: nat, locks: nat)
    requires
        initial >= 1,
    ensures
        period_after(initial, locks) == period_at(initial, locks),
    decreases locks,
{
    if locks > 0 {
        lemma_period_after(initial, (locks - 1) as nat);
    }
}

/// After exactly ten times `k` locks the period is max(1, initial − k).
pub proof fn lemma_period_every_ten(initial: nat, k: nat)
    requires
        initial >= 1,
        k >= 1,
    ensures
        period_after(initial, 10 * k) == (if initial - k >= 1 {
            initial - k
        } else {
            1
        }),
{
    lemma_period_after(initial, 10 * k);
}

/// Up to the fourth, the powers of two stay within sixteen.
pub proof fn lemma_two_to_small(n: nat)
    requires
        n <= 4,
    ensures
        two_to(n) <= 16,
{
    reveal_with_fuel(two_to, 6);
}

/// Computes the points for one lock that cleared `lines` rows.
pub fn lock_score(lines: usize) -> (points: u64)
    requires
        lines <= 4,
    ensures
        points == lock_points(lines as nat),
        points <= 1625,
{
    if lines == 0 {
        return LOCK_POINTS;
    }
    let mut power: u64 = 1;
    let mut i: usize = 0;
    while i < lines
        invariant
            i <= lines <= 4,
            power == two_to(i as nat),
            power <= 16,
        decreases lines - i,
    {
        proof {
            lemma_two_to_small((i + 1) as nat);
        }
        power = power * 2;
        i += 1;
    }
    LOCK_POINTS + 100 * power
}

/// Computes the gravity period after one more lock, `count` being the
/// number of locks including this one.
pub fn ramp(speed: u64, count: u64) -> (next: u64)
    ensures
        next == ramped(speed as nat, count as nat),
{
    if count % RAMP_INTERVAL == 0 && speed > 1 {
        speed - 1
    } else {
        speed
    }
}

} // verus!
