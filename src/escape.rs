use vstd::prelude::*;

verus! {

/// Outcome of the escape-time test for one point of the plane.
#[derive(Clone, Copy, Debug, PartialEq, Eq, Structural)]
pub enum Escape {
    /// The orbit left the disc of radius 2; the count of updates made before.
    Escaped(u32),
    /// The orbit stayed in the disc up to the iteration cap.
    Bounded,
}

/// The cap as the loop applies it: a cap below one behaves as one, since the
/// first check always happens.
pub open spec fn effective_cap(cap: int) -> int {
    if cap < 1 {
        1
    } else {
        cap
    }
}

/// Outcome from the magnitude checks `inside[from..]` of one orbit:
/// `inside[k]` holds when `|z_k|^2 <= 4`. The first failing check before the
/// cap gives the count; no failing check gives `Bounded`.
pub open spec fn escape_from(inside: Seq<bool>, cap: int, from: int) -> Escape
    decreases inside.len() - from,
{
    if from < 0 || from >= inside.len() || from >= effective_cap(cap) {
        Escape::Bounded
    } else if !inside[from] {
        Escape::Escaped(from as u32)
    } else {
        escape_from(inside, cap, from + 1)
    }
}

/// Outcome of the escape-time test for an orbit whose magnitude checks are
/// `inside`, in order, from `z_0 = c` on.
pub open spec fn escape_of(inside: Seq<bool>, cap: int) -> Escape {
    escape_from(inside, cap, 0)
}

impl Escape {
    /// The integer form of the outcome: the count, or `-1` for a bounded orbit.
    pub fn code(&self) -> (r: i32)
        requires
            self matches Escape::Escaped(n) ==> n <= i32::MAX,
        ensures
            self matches Escape::Escaped(n) ==> r == n,
            *self == Escape::Bounded ==> r == -1,
    {
        match self {
            Escape::Escaped(n) => *n as i32,
            Escape::Bounded => -1,
        }
    }
}

/// Runs the escape-time loop over the magnitude checks of one orbit:
/// check `z_n`, stop if it is outside the disc, else update and count, and
/// give up as bounded once the count reaches `cap`.
///
/// `inside` may end at the first failing check, or after `cap` checks: later
/// entries are never read.
pub fn escape_time(inside: &Vec<bool>, cap: i32) -> (r: Escape)
    ensures
        r == escape_of(inside@, cap as int),
{
    let mut iter: u32 = 0;
    let len = inside.len();
    while (iter as usize) < len
        invariant
            0 <= iter <= len,
            len == inside@.len(),
            iter as int <= effective_cap(cap as int),
            escape_from(inside@, cap as int, iter as int) == escape_of(inside@, cap as int),
        decreases len - iter,
    {
        if (iter as i64) >= (cap as i64) && iter >= 1 {
            return Escape::Bounded;
        }
        if !inside[iter as usize] {
            return Escape::Escaped(iter);
        }
        iter = iter + 1;
    }
    Escape::Bounded
}

/// Every outcome from position `from` on is bounded or a count in `[from, cap)`.
proof fn lemma_escape_from_range(inside: Seq<bool>, cap: int, from: int)
    requires
        0 <= from,
        cap <= u32::MAX,
    ensures
        escape_from(inside, cap, from) matches Escape::Escaped(n) ==> from <= n
            < effective_cap(cap) && n < inside.len() && !inside[n as int],
    decreases inside.len() - from,
{
    if from < inside.len() && from < effective_cap(cap) && inside[from] {
        lemma_escape_from_range(inside, cap, from + 1);
    }
}

/// For a cap of at least one, the escape-time test gives either the bounded
/// outcome or an escape count in `[0, cap)`.
pub proof fn escape_count_below_cap(inside: Seq<bool>, cap: i32)
    requires
        cap >= 1,
    ensures
        escape_of(inside, cap as int) == Escape::Bounded
            || (escape_of(inside, cap as int) matches Escape::Escaped(n) && 0 <= n < cap),
{
    lemma_escape_from_range(inside, cap as int, 0);
}

/// A point whose first check already fails, such as one with `|c| > 2`,
/// escapes with count zero, whatever the cap.
pub proof fn outside_start_escapes_at_zero(inside: Seq<bool>, cap: i32)
    requires
        inside.len() >= 1,
        !inside[0],
    ensures
        escape_of(inside, cap as int) == Escape::Escaped(0),
{
}

/// An orbit that passes every check up to the cap, such as the fixed orbit of
/// the origin, is bounded.
pub proof fn orbit_within_disc_is_bounded(inside: Seq<bool>, cap: i32)
    requires
        forall|k: int| 0 <= k < inside.len() ==> inside[k],
    ensures
        escape_of(inside, cap as int) == Escape::Bounded,
{
    lemma_escape_from_range(inside, cap as int, 0);
}

} // verus!
