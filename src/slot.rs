use vstd::prelude::*;

verus! {

/// Seconds in one day.
pub const SECS_DAY: i64 = 86_400;

/// Seconds in one hour, the width of a slot.
pub const SECS_HOUR: i64 = 3_600;

/// Number of slots in a day.
pub const SLOTS_PER_DAY: u32 = 24;

/// Seconds elapsed since the start of the day that holds `ts`, in `[0, 86400)`,
/// also for timestamps before the epoch.
pub open spec fn secs_into_day(ts: int) -> int {
    ts % 86_400
}

/// A slot is eligible when the time of day falls inside its one-hour window.
/// A slot number of 24 or more names no window and is never eligible.
pub open spec fn slot_eligible(slot: int, ts: int) -> bool {
    slot * 3_600 <= secs_into_day(ts) < slot * 3_600 + 3_600
}

/// The one slot whose window holds the time of day of `ts`.
pub open spec fn active_slot(ts: int) -> int {
    secs_into_day(ts) / 3_600
}

/// Whether `slot` is the active hourly slot at timestamp `ts` (seconds since the
/// epoch). Slot numbers outside `0..24` are never eligible.
pub fn check_slot_eligibility(slot: u32, ts: i64) -> (r: bool)
    ensures
        r == slot_eligible(slot as int, ts as int),
{
    let rem: i64 = ts % SECS_DAY;
    let secs_today_elapsed: i64 = if rem < 0 { rem + SECS_DAY } else { rem };
    assert(secs_today_elapsed == secs_into_day(ts as int));
    let secs_slot_elapsed: i64 = slot as i64 * SECS_HOUR;
    secs_today_elapsed >= secs_slot_elapsed && secs_today_elapsed < secs_slot_elapsed + SECS_HOUR
}

/// The slots in `0..24` that are eligible at `ts`.
pub open spec fn eligible_slots(ts: int) -> Set<int> {
    Set::new(|s: int| 0 <= s < 24 && slot_eligible(s, ts))
}

/// Number of slots in `0..24` that are eligible at `ts`: always one.
pub fn count_eligible_slots(ts: i64) -> (r: u32)
    ensures
        r as int == eligible_slots(ts as int).len(),
        r == 1,
{
    let mut true_count: u32 = 0;
    let mut i: u32 = 0;
    while i < SLOTS_PER_DAY
        invariant
            i <= 24,
            true_count == (if active_slot(ts as int) < i { 1u32 } else { 0u32 }),
        decreases 24 - i,
    {
        proof {
            lemma_eligible_iff_active(i as int, ts as int);
        }
        if check_slot_eligibility(i, ts) {
            true_count = true_count + 1;
        }
        i = i + 1;
    }
    proof {
        law_exactly_one_slot(ts as int);
        assert(eligible_slots(ts as int) =~= set![active_slot(ts as int)]);
    }
    true_count
}

/// A slot is eligible exactly when it is the active slot.
pub proof fn lemma_eligible_iff_active(slot: int, ts: int)
    ensures
        slot_eligible(slot, ts) <==> slot == active_slot(ts),
{
    let d = secs_into_day(ts);
    assert(0 <= d < 86_400);
    assert(slot_eligible(slot, ts) <==> slot == d / 3_600) by (nonlinear_arith)
        requires
            0 <= d,
            slot_eligible(slot, ts) <==> slot * 3_600 <= d < slot * 3_600 + 3_600,
    ;
}

/// For every timestamp exactly one slot in `0..24` is eligible: the 24
/// one-hour windows cover the day with no gap and no overlap.
pub proof fn law_exactly_one_slot(ts: int)
    ensures
        0 <= active_slot(ts) < 24,
        slot_eligible(active_slot(ts), ts),
        forall|s: int| 0 <= s < 24 && #[trigger] slot_eligible(s, ts) ==> s == active_slot(ts),
{
    assert forall|s: int| #[trigger] slot_eligible(s, ts) <==> s == active_slot(ts) by {
        lemma_eligible_iff_active(s, ts);
    }
}

/// The first slot covers the first hour of the day and the last slot the last.
pub proof fn law_first_and_last_slot(ts: int)
    ensures
        slot_eligible(0, ts) <==> 0 <= secs_into_day(ts) < 3_600,
        slot_eligible(23, ts) <==> 82_800 <= secs_into_day(ts) < 86_400,
{
}

} // verus!
