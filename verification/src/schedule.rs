//! Agenda rules: when a slot is free, which start times a day offers, and the services
//! that make up an appointment.
use vstd::prelude::*;
use crate::clock::{
    lemma_time_text_roundtrip, spec_time_text, spec_time_to_minutes, time_arith_fits,
    time_arith_ok, time_text, time_to_minutes,
};
use crate::text::str_eq;

verus! {

/// A booked, not cancelled appointment of the day being checked.
pub struct BookedSlot {
    pub id: i64,
    pub time: String,
    pub duration_min: i64,
    pub staff_id: Option<i64>,
}

/// A schedule block of the day being checked ("Dia inteiro" blocks the whole day).
pub struct BlockedSlot {
    pub time: String,
    pub staff_id: Option<i64>,
}

/// The text that marks a block of the whole day.
pub open spec fn whole_day() -> Seq<char> {
    "Dia inteiro"@
}

pub open spec fn fits_i64(x: int) -> bool {
    i64::MIN <= x <= i64::MAX
}

/// Whether the intervals `[a, a + ad)` and `[b, b + bd)` share a minute.
pub open spec fn spec_overlaps(a: int, ad: int, b: int, bd: int) -> bool {
    a < b + bd && b < a + ad
}

/// `overlaps`: whether `[a, a + ad)` and `[b, b + bd)` share a minute.
pub fn overlaps(a: i64, ad: i64, b: i64, bd: i64) -> (r: bool)
    requires
        fits_i64(b + bd),
        a < b + bd ==> fits_i64(a + ad),
    ensures
        r == spec_overlaps(a as int, ad as int, b as int, bd as int),
{
    a < b + bd && b < a + ad
}

/// An appointment that the check passes over: the one being edited, or one of another
/// collaborator when both have a collaborator.
pub open spec fn appt_skipped(staff_id: Option<i64>, exclude: Option<i64>, a: BookedSlot) -> bool {
    exclude == Some(a.id) || (staff_id is Some && a.staff_id is Some && staff_id != a.staff_id)
}

pub open spec fn appt_conflicts(
    start: int,
    duration: int,
    staff_id: Option<i64>,
    exclude: Option<i64>,
    a: BookedSlot,
) -> bool {
    &&& !appt_skipped(staff_id, exclude, a)
    &&& match spec_time_to_minutes(a.time@) {
        Some(o) => spec_overlaps(start, duration, o, a.duration_min as int),
        None => false,
    }
}

/// A block that the check passes over: one of another collaborator.
pub open spec fn block_skipped(staff_id: Option<i64>, b: BlockedSlot) -> bool {
    b.staff_id is Some && staff_id is Some && b.staff_id != staff_id
}

/// A block covers a 30-minute step from its time, or the whole day.
pub open spec fn block_conflicts(start: int, duration: int, staff_id: Option<i64>, b: BlockedSlot) -> bool {
    &&& !block_skipped(staff_id, b)
    &&& (b.time@ == whole_day() || match spec_time_to_minutes(b.time@) {
        Some(o) => spec_overlaps(start, duration, o, 30),
        None => false,
    })
}

/// A service of `duration` minutes starting at minute `start` clashes with no appointment
/// and no block.
pub open spec fn slot_free(
    start: int,
    duration: int,
    staff_id: Option<i64>,
    exclude: Option<i64>,
    appts: Seq<BookedSlot>,
    blocks: Seq<BlockedSlot>,
) -> bool {
    &&& forall|i: int| 0 <= i < appts.len() ==> !appt_conflicts(start, duration, staff_id, exclude, #[trigger] appts[i])
    &&& forall|i: int| 0 <= i < blocks.len() ==> !block_conflicts(start, duration, staff_id, #[trigger] blocks[i])
}

/// The computation for an appointment row stays within `i64`.
pub open spec fn appt_row_safe(start: int, duration: int, a: BookedSlot) -> bool {
    &&& time_arith_ok(a.time@)
    &&& (spec_time_to_minutes(a.time@) matches Some(o) ==> {
        &&& fits_i64(o + a.duration_min)
        &&& (start < o + a.duration_min ==> fits_i64(start + duration))
    })
}

/// The computation for a block row stays within `i64`.
pub open spec fn block_row_safe(start: int, duration: int, b: BlockedSlot) -> bool {
    ||| b.time@ == whole_day()
    ||| {
        &&& time_arith_ok(b.time@)
        &&& (spec_time_to_minutes(b.time@) matches Some(o) ==> (start < o + 30 ==> fits_i64(start + duration)))
    }
}

/// Every row that the check reaches (rows after the first clash are not looked at) can be
/// computed on without leaving `i64`.
pub open spec fn slot_check_safe(
    start: int,
    duration: int,
    staff_id: Option<i64>,
    exclude: Option<i64>,
    appts: Seq<BookedSlot>,
    blocks: Seq<BlockedSlot>,
) -> bool {
    &&& forall|i: int| #![trigger appts[i]]
        0 <= i < appts.len() && !appt_skipped(staff_id, exclude, appts[i]) && (forall|j: int|
            0 <= j < i ==> !appt_conflicts(start, duration, staff_id, exclude, #[trigger] appts[j]))
            ==> appt_row_safe(start, duration, appts[i])
    &&& (forall|j: int| 0 <= j < appts.len() ==> !appt_conflicts(start, duration, staff_id, exclude, #[trigger] appts[j]))
        ==> forall|i: int| #![trigger blocks[i]]
        0 <= i < blocks.len() && !block_skipped(staff_id, blocks[i]) && (forall|j: int|
            0 <= j < i ==> !block_conflicts(start, duration, staff_id, #[trigger] blocks[j]))
            ==> block_row_safe(start, duration, blocks[i])
}

fn staff_differs(a: Option<i64>, b: Option<i64>) -> (r: bool)
    ensures
        r == (a is Some && b is Some && a != b),
{
    match (a, b) {
        (Some(x), Some(y)) => x != y,
        _ => false,
    }
}

fn appointments_leave_free(
    start: i64,
    duration: i64,
    staff_id: Option<i64>,
    exclude: Option<i64>,
    appts: &Vec<BookedSlot>,
) -> (r: bool)
    requires
        slot_check_safe(start as int, duration as int, staff_id, exclude, appts@, Seq::empty()),
    ensures
        r == forall|i: int| 0 <= i < appts@.len() ==> !appt_conflicts(start as int, duration as int, staff_id, exclude, #[trigger] appts@[i]),
{
    let mut i: usize = 0;
    while i < appts.len()
        invariant
            i <= appts@.len(),
            slot_check_safe(start as int, duration as int, staff_id, exclude, appts@, Seq::empty()),
            forall|j: int| 0 <= j < i ==> !appt_conflicts(start as int, duration as int, staff_id, exclude, #[trigger] appts@[j]),
        decreases appts@.len() - i,
    {
        let a = &appts[i];
        let skip = match exclude {
            Some(x) => x == a.id,
            None => false,
        } || staff_differs(staff_id, a.staff_id);
        if !skip {
            assert(appt_row_safe(start as int, duration as int, appts@[i as int]));
            if let Some(o) = time_to_minutes(a.time.as_str()) {
                if overlaps(start, duration, o, a.duration_min) {
                    assert(appt_conflicts(start as int, duration as int, staff_id, exclude, appts@[i as int]));
                    return false;
                }
            }
        }
        i = i + 1;
    }
    true
}

fn blocks_leave_free(start: i64, duration: i64, staff_id: Option<i64>, blocks: &Vec<BlockedSlot>) -> (r: bool)
    requires
        forall|i: int| #![trigger blocks@[i]]
            0 <= i < blocks@.len() && !block_skipped(staff_id, blocks@[i]) && (forall|j: int|
                0 <= j < i ==> !block_conflicts(start as int, duration as int, staff_id, #[trigger] blocks@[j]))
                ==> block_row_safe(start as int, duration as int, blocks@[i]),
    ensures
        r == forall|i: int| 0 <= i < blocks@.len() ==> !block_conflicts(start as int, duration as int, staff_id, #[trigger] blocks@[i]),
{
    let mut i: usize = 0;
    while i < blocks.len()
        invariant
            i <= blocks@.len(),
            forall|i: int| #![trigger blocks@[i]]
                0 <= i < blocks@.len() && !block_skipped(staff_id, blocks@[i]) && (forall|j: int|
                    0 <= j < i ==> !block_conflicts(start as int, duration as int, staff_id, #[trigger] blocks@[j]))
                    ==> block_row_safe(start as int, duration as int, blocks@[i]),
            forall|j: int| 0 <= j < i ==> !block_conflicts(start as int, duration as int, staff_id, #[trigger] blocks@[j]),
        decreases blocks@.len() - i,
    {
        let b = &blocks[i];
        if !staff_differs(b.staff_id, staff_id) {
            if str_eq(b.time.as_str(), "Dia inteiro") {
                assert(block_conflicts(start as int, duration as int, staff_id, blocks@[i as int]));
                return false;
            }
            assert(block_row_safe(start as int, duration as int, blocks@[i as int]));
            if let Some(o) = time_to_minutes(b.time.as_str()) {
                if overlaps(start, duration, o, 30) {
                    assert(block_conflicts(start as int, duration as int, staff_id, blocks@[i as int]));
                    return false;
                }
            }
        }
        i = i + 1;
    }
    true
}

/// `slot_available`: whether a service of `duration` minutes can start at `time`, given the
/// day's booked appointments and blocks. Appointments of another collaborator, and the
/// appointment `exclude`, do not count; nor do blocks of another collaborator.
pub fn slot_available(
    time: &str,
    duration: i64,
    staff_id: Option<i64>,
    exclude: Option<i64>,
    appts: &Vec<BookedSlot>,
    blocks: &Vec<BlockedSlot>,
) -> (r: Result<bool, String>)
    requires
        time_arith_ok(time@),
        spec_time_to_minutes(time@) matches Some(start) ==> slot_check_safe(
            start,
            duration as int,
            staff_id,
            exclude,
            appts@,
            blocks@,
        ),
    ensures
        match spec_time_to_minutes(time@) {
            None => r matches Err(e) && e@ == "Horário inválido"@,
            Some(start) => r == Ok::<bool, String>(
                slot_free(start, duration as int, staff_id, exclude, appts@, blocks@),
            ),
        },
{
    let start = match time_to_minutes(time) {
        Some(s) => s,
        None => return Err("Horário inválido".to_string()),
    };
    if !appointments_leave_free(start, duration, staff_id, exclude, appts) {
        return Ok(false);
    }
    Ok(blocks_leave_free(start, duration, staff_id, blocks))
}


proof fn lemma_unsafe_appt(
    st: int,
    du: int,
    staff_id: Option<i64>,
    exclude: Option<i64>,
    appts: Seq<BookedSlot>,
    blocks: Seq<BlockedSlot>,
    i: int,
)
    requires
        0 <= i < appts.len(),
        !appt_skipped(staff_id, exclude, appts[i]),
        forall|j: int| 0 <= j < i ==> !appt_conflicts(st, du, staff_id, exclude, #[trigger] appts[j]),
        !appt_row_safe(st, du, appts[i]),
    ensures
        !slot_check_safe(st, du, staff_id, exclude, appts, blocks),
{
}

proof fn lemma_unsafe_block(
    st: int,
    du: int,
    staff_id: Option<i64>,
    exclude: Option<i64>,
    appts: Seq<BookedSlot>,
    blocks: Seq<BlockedSlot>,
    b: int,
)
    requires
        0 <= b < blocks.len(),
        !block_skipped(staff_id, blocks[b]),
        forall|j: int| 0 <= j < appts.len() ==> !appt_conflicts(st, du, staff_id, exclude, #[trigger] appts[j]),
        forall|j: int| 0 <= j < b ==> !block_conflicts(st, du, staff_id, #[trigger] blocks[j]),
        !block_row_safe(st, du, blocks[b]),
    ensures
        !slot_check_safe(st, du, staff_id, exclude, appts, blocks),
{
}

proof fn lemma_block_clash_safe(
    st: int,
    du: int,
    staff_id: Option<i64>,
    exclude: Option<i64>,
    appts: Seq<BookedSlot>,
    blocks: Seq<BlockedSlot>,
    b: int,
)
    requires
        0 <= b < blocks.len(),
        block_conflicts(st, du, staff_id, blocks[b]),
        block_row_safe(st, du, blocks[b]),
        forall|k: int| #![trigger appts[k]]
            0 <= k < appts.len() && !appt_skipped(staff_id, exclude, appts[k]) ==> appt_row_safe(st, du, appts[k]),
        forall|k: int| #![trigger blocks[k]]
            0 <= k < b && !block_skipped(staff_id, blocks[k]) ==> block_row_safe(st, du, blocks[k]),
    ensures
        slot_check_safe(st, du, staff_id, exclude, appts, blocks),
{
    assert forall|k: int| #![trigger blocks[k]]
        0 <= k < blocks.len() && !block_skipped(staff_id, blocks[k]) && (forall|j: int|
            0 <= j < k ==> !block_conflicts(st, du, staff_id, #[trigger] blocks[j]))
            implies block_row_safe(st, du, blocks[k]) by {
        if k > b {
            assert(block_conflicts(st, du, staff_id, blocks[b]));
        }
    }
}

fn fits_exec(x: i128) -> (r: bool)
    ensures
        r == fits_i64(x as int),
{
    i64::MIN as i128 <= x && x <= i64::MAX as i128
}

/// Whether the check of start minute `start` against these rows stays within `i64`
/// (see `slot_check_safe`), so that `slot_available` and `available_times` may be run on them.
pub fn slot_check_fits(
    start: i64,
    duration: i64,
    staff_id: Option<i64>,
    exclude: Option<i64>,
    appts: &Vec<BookedSlot>,
    blocks: &Vec<BlockedSlot>,
) -> (r: bool)
    ensures
        r == slot_check_safe(start as int, duration as int, staff_id, exclude, appts@, blocks@),
{
    let ghost st = start as int;
    let ghost du = duration as int;
    let mut i: usize = 0;
    while i < appts.len()
        invariant
            i <= appts@.len(),
            st == start as int,
            du == duration as int,
            forall|j: int| 0 <= j < i ==> !appt_conflicts(st, du, staff_id, exclude, #[trigger] appts@[j]),
            forall|k: int| #![trigger appts@[k]]
                0 <= k < i && !appt_skipped(staff_id, exclude, appts@[k]) ==> appt_row_safe(st, du, appts@[k]),
        decreases appts@.len() - i,
    {
        let a = &appts[i];
        let skip = match exclude {
            Some(x) => x == a.id,
            None => false,
        } || staff_differs(staff_id, a.staff_id);
        if !skip {
            if !time_arith_fits(a.time.as_str()) {
                proof {
                    lemma_unsafe_appt(st, du, staff_id, exclude, appts@, blocks@, i as int);
                }
                return false;
            }
            if let Some(o) = time_to_minutes(a.time.as_str()) {
                let end_o: i128 = o as i128 + a.duration_min as i128;
                if !fits_exec(end_o) {
                    proof {
                        lemma_unsafe_appt(st, du, staff_id, exclude, appts@, blocks@, i as int);
                    }
                    return false;
                }
                if (start as i128) < end_o && !fits_exec(start as i128 + duration as i128) {
                    proof {
                        lemma_unsafe_appt(st, du, staff_id, exclude, appts@, blocks@, i as int);
                    }
                    return false;
                }
                if overlaps(start, duration, o, a.duration_min) {
                    assert(appt_conflicts(st, du, staff_id, exclude, appts@[i as int]));
                    return true;
                }
            }
        }
        i = i + 1;
    }
    let mut b: usize = 0;
    while b < blocks.len()
        invariant
            b <= blocks@.len(),
            st == start as int,
            du == duration as int,
            forall|j: int| 0 <= j < appts@.len() ==> !appt_conflicts(st, du, staff_id, exclude, #[trigger] appts@[j]),
            forall|k: int| #![trigger appts@[k]]
                0 <= k < appts@.len() && !appt_skipped(staff_id, exclude, appts@[k]) ==> appt_row_safe(st, du, appts@[k]),
            forall|j: int| 0 <= j < b ==> !block_conflicts(st, du, staff_id, #[trigger] blocks@[j]),
            forall|k: int| #![trigger blocks@[k]]
                0 <= k < b && !block_skipped(staff_id, blocks@[k]) ==> block_row_safe(st, du, blocks@[k]),
        decreases blocks@.len() - b,
    {
        let k = &blocks[b];
        if !staff_differs(k.staff_id, staff_id) {
            if str_eq(k.time.as_str(), "Dia inteiro") {
                proof {
                    lemma_block_clash_safe(st, du, staff_id, exclude, appts@, blocks@, b as int);
                }
                return true;
            }
            if !time_arith_fits(k.time.as_str()) {
                proof {
                    lemma_unsafe_block(st, du, staff_id, exclude, appts@, blocks@, b as int);
                }
                return false;
            }
            if let Some(o) = time_to_minutes(k.time.as_str()) {
                if (start as i128) < (o as i128) + 30 && !fits_exec(start as i128 + duration as i128) {
                    proof {
                        lemma_unsafe_block(st, du, staff_id, exclude, appts@, blocks@, b as int);
                    }
                    return false;
                }
                if overlaps(start, duration, o, 30) {
                    proof {
                        lemma_block_clash_safe(st, du, staff_id, exclude, appts@, blocks@, b as int);
                    }
                    return true;
                }
            }
        }
        b = b + 1;
    }
    true
}

/// Whether start minute `m` is still on offer: on the current day, only minutes after `now`.
pub open spec fn offered(m: int, is_today: bool, now: int) -> bool {
    !(is_today && m <= now)
}

/// Start minute `m` is on offer and free.
pub open spec fn start_kept(
    m: int,
    is_today: bool,
    now: int,
    duration: int,
    staff_id: Option<i64>,
    appts: Seq<BookedSlot>,
    blocks: Seq<BlockedSlot>,
) -> bool {
    offered(m, is_today, now) && slot_free(m, duration, staff_id, None, appts, blocks)
}

fn keep_start(
    m: i64,
    is_today: bool,
    now: i64,
    duration: i64,
    staff_id: Option<i64>,
    appts: &Vec<BookedSlot>,
    blocks: &Vec<BlockedSlot>,
) -> (r: Option<String>)
    requires
        m <= 1439,
        offered(m as int, is_today, now as int) ==> slot_check_safe(
            m as int,
            duration as int,
            staff_id,
            None,
            appts@,
            blocks@,
        ),
    ensures
        r is Some == start_kept(m as int, is_today, now as int, duration as int, staff_id, appts@, blocks@),
        r matches Some(t) ==> t@ == spec_time_text(m as int),
{
    if is_today && m <= now {
        return None;
    }
    let t = time_text(m);
    proof {
        lemma_time_text_roundtrip(m as int);
    }
    let ok = slot_available(t.as_str(), duration, staff_id, None, appts, blocks);
    if let Ok(true) = ok {
        Some(t)
    } else {
        None
    }
}

/// The clock texts of the free start times `m, m + 30, m + 60, ...` below `end`.
pub open spec fn free_times_from(
    m: int,
    end: int,
    is_today: bool,
    now: int,
    duration: int,
    staff_id: Option<i64>,
    appts: Seq<BookedSlot>,
    blocks: Seq<BlockedSlot>,
) -> Seq<Seq<char>>
    decreases end - m,
{
    if m >= end {
        Seq::empty()
    } else {
        let here = if start_kept(m, is_today, now, duration, staff_id, appts, blocks) {
            seq![spec_time_text(m)]
        } else {
            Seq::empty()
        };
        here + if m + 30 < end {
            free_times_from(m + 30, end, is_today, now, duration, staff_id, appts, blocks)
        } else {
            Seq::empty()
        }
    }
}

/// Every start time that gets checked can be checked without leaving `i64`.
pub open spec fn free_times_safe(
    start: int,
    end: int,
    is_today: bool,
    now: int,
    duration: int,
    staff_id: Option<i64>,
    appts: Seq<BookedSlot>,
    blocks: Seq<BlockedSlot>,
) -> bool {
    forall|m: int|
        start <= m < end && (m - start) % 30 == 0 && #[trigger] offered(m, is_today, now)
            ==> slot_check_safe(m, duration, staff_id, None, appts, blocks)
}

/// The free start times of a day whose opening window is `[start, end)`, every 30 minutes,
/// as "HH:MM" texts. On the current day (`is_today`) only minutes after `now` are offered.
#[verifier::rlimit(30)]
pub fn available_times(
    start: i64,
    end: i64,
    is_today: bool,
    now: i64,
    duration: i64,
    staff_id: Option<i64>,
    appts: &Vec<BookedSlot>,
    blocks: &Vec<BlockedSlot>,
) -> (r: Vec<String>)
    requires
        end <= 1440,
        free_times_safe(
            start as int,
            end as int,
            is_today,
            now as int,
            duration as int,
            staff_id,
            appts@,
            blocks@,
        ),
    ensures
        r@.map_values(|t: String| t@) == free_times_from(
            start as int,
            end as int,
            is_today,
            now as int,
            duration as int,
            staff_id,
            appts@,
            blocks@,
        ),
{
    let ghost all = free_times_from(
        start as int,
        end as int,
        is_today,
        now as int,
        duration as int,
        staff_id,
        appts@,
        blocks@,
    );
    let mut out: Vec<String> = Vec::new();
    let mut m = start;
    assert(out@.map_values(|t: String| t@) + all =~= all);
    while m < end
        invariant
            start <= m,
            m < end ==> m <= 1439,
            (m - start) % 30 == 0,
            end <= 1440,
            free_times_safe(
                start as int,
                end as int,
                is_today,
                now as int,
                duration as int,
                staff_id,
                appts@,
                blocks@,
            ),
            all == free_times_from(
                start as int,
                end as int,
                is_today,
                now as int,
                duration as int,
                staff_id,
                appts@,
                blocks@,
            ),
            m < end ==> out@.map_values(|t: String| t@) + free_times_from(
                m as int,
                end as int,
                is_today,
                now as int,
                duration as int,
                staff_id,
                appts@,
                blocks@,
            ) == all,
            m >= end ==> out@.map_values(|t: String| t@) == all,
        decreases end + 30 - m,
    {
        let ghost before = out@.map_values(|t: String| t@);
        let ghost rest = if m + 30 < end {
            free_times_from(
                m + 30,
                end as int,
                is_today,
                now as int,
                duration as int,
                staff_id,
                appts@,
                blocks@,
            )
        } else {
            Seq::empty()
        };
        let ghost keep = start_kept(
            m as int,
            is_today,
            now as int,
            duration as int,
            staff_id,
            appts@,
            blocks@,
        );
        proof {
            if offered(m as int, is_today, now as int) {
                assert(slot_check_safe(m as int, duration as int, staff_id, None, appts@, blocks@));
            }
        }
        if let Some(t) = keep_start(m, is_today, now, duration, staff_id, appts, blocks) {
            out.push(t);
        }
        assert(out@.map_values(|t: String| t@) =~= before + (if keep {
            seq![spec_time_text(m as int)]
        } else {
            Seq::empty()
        }));
        m = m + 30;
    }
    out
}



/// A slot is free exactly when no counted appointment's interval meets the new service's
/// whole interval `[start, start + duration)`, and no counted block closes it: a block of the
/// whole day, or one whose half hour `[o, o + 30)` meets that interval. Counted are the
/// appointments other than `exclude`, and the appointments and blocks that have no
/// collaborator, or the chosen one, or when no collaborator is chosen.
pub proof fn lemma_free_slot_meets_no_booking(
    start: int,
    duration: int,
    staff_id: Option<i64>,
    exclude: Option<i64>,
    appts: Seq<BookedSlot>,
    blocks: Seq<BlockedSlot>,
)
    ensures
        slot_free(start, duration, staff_id, exclude, appts, blocks) <==> {
            &&& forall|i: int| #![trigger appts[i]]
                0 <= i < appts.len() && exclude != Some(appts[i].id) && !(staff_id is Some
                    && appts[i].staff_id is Some && staff_id != appts[i].staff_id) ==> match spec_time_to_minutes(appts[i].time@) {
                    Some(o) => !(start < o + appts[i].duration_min && o < start + duration),
                    None => true,
                }
            &&& forall|i: int| #![trigger blocks[i]]
                0 <= i < blocks.len() && !(staff_id is Some && blocks[i].staff_id is Some
                    && staff_id != blocks[i].staff_id) ==> blocks[i].time@ != "Dia inteiro"@ && match spec_time_to_minutes(blocks[i].time@) {
                    Some(o) => !(start < o + 30 && o < start + duration),
                    None => true,
                }
        },
{
    let raw_a = forall|i: int| #![trigger appts[i]]
        0 <= i < appts.len() && exclude != Some(appts[i].id) && !(staff_id is Some
            && appts[i].staff_id is Some && staff_id != appts[i].staff_id) ==> match spec_time_to_minutes(appts[i].time@) {
            Some(o) => !(start < o + appts[i].duration_min && o < start + duration),
            None => true,
        };
    let raw_b = forall|i: int| #![trigger blocks[i]]
        0 <= i < blocks.len() && !(staff_id is Some && blocks[i].staff_id is Some
            && staff_id != blocks[i].staff_id) ==> blocks[i].time@ != "Dia inteiro"@ && match spec_time_to_minutes(blocks[i].time@) {
            Some(o) => !(start < o + 30 && o < start + duration),
            None => true,
        };
    assert((forall|i: int| 0 <= i < appts.len() ==> !appt_conflicts(start, duration, staff_id, exclude, #[trigger] appts[i])) <==> raw_a) by {
        if raw_a {
            assert forall|i: int| 0 <= i < appts.len() implies !appt_conflicts(start, duration, staff_id, exclude, #[trigger] appts[i]) by {
                assert(appts[i] == appts[i]);
            }
        }
        if forall|i: int| 0 <= i < appts.len() ==> !appt_conflicts(start, duration, staff_id, exclude, #[trigger] appts[i]) {
            assert forall|i: int| #![trigger appts[i]]
                0 <= i < appts.len() && exclude != Some(appts[i].id) && !(staff_id is Some
                    && appts[i].staff_id is Some && staff_id != appts[i].staff_id) implies match spec_time_to_minutes(appts[i].time@) {
                    Some(o) => !(start < o + appts[i].duration_min && o < start + duration),
                    None => true,
                } by {
                assert(!appt_conflicts(start, duration, staff_id, exclude, appts[i]));
            }
        }
    }
    assert((forall|i: int| 0 <= i < blocks.len() ==> !block_conflicts(start, duration, staff_id, #[trigger] blocks[i])) <==> raw_b) by {
        if raw_b {
            assert forall|i: int| 0 <= i < blocks.len() implies !block_conflicts(start, duration, staff_id, #[trigger] blocks[i]) by {
                assert(blocks[i] == blocks[i]);
            }
        }
        if forall|i: int| 0 <= i < blocks.len() ==> !block_conflicts(start, duration, staff_id, #[trigger] blocks[i]) {
            assert forall|i: int| #![trigger blocks[i]]
                0 <= i < blocks.len() && !(staff_id is Some && blocks[i].staff_id is Some
                    && staff_id != blocks[i].staff_id) implies blocks[i].time@ != "Dia inteiro"@ && match spec_time_to_minutes(blocks[i].time@) {
                    Some(o) => !(start < o + 30 && o < start + duration),
                    None => true,
                } by {
                assert(!block_conflicts(start, duration, staff_id, blocks[i]));
            }
        }
    }
}

proof fn lemma_time_text_injective(a: int, b: int)
    requires
        i64::MIN <= a < 1440,
        i64::MIN <= b < 1440,
        spec_time_text(a) == spec_time_text(b),
    ensures
        a == b,
{
    lemma_time_text_roundtrip(a);
    lemma_time_text_roundtrip(b);
}

/// The listed start times agree with the booking check for the chosen collaborator: for
/// every minute `m` of the day, the clock text of `m` is listed exactly when `m` is one of
/// the half-hour steps from `start` below `end`, still on offer, and a booking of
/// `duration` minutes at `m` for `staff_id` would be accepted (`slot_available` of that
/// text answers `Ok(true)`, its result being `slot_free` of the minute it reads back).
pub proof fn lemma_listed_times_are_bookable(
    start: int,
    end: int,
    is_today: bool,
    now: int,
    duration: int,
    staff_id: Option<i64>,
    appts: Seq<BookedSlot>,
    blocks: Seq<BlockedSlot>,
    m: int,
)
    requires
        i64::MIN <= start,
        end <= 1440,
        i64::MIN <= m < 1440,
    ensures
        free_times_from(start, end, is_today, now, duration, staff_id, appts, blocks).contains(
            spec_time_text(m),
        ) <==> (start <= m < end && (m - start) % 30 == 0 && offered(m, is_today, now)
            && spec_time_to_minutes(spec_time_text(m)) == Some(m) && slot_free(
            m,
            duration,
            staff_id,
            None,
            appts,
            blocks,
        )),
    decreases end - start,
{
    lemma_time_text_roundtrip(m);
    let all = free_times_from(start, end, is_today, now, duration, staff_id, appts, blocks);
    if start >= end {
        assert(!all.contains(spec_time_text(m)));
    } else {
        let here = if start_kept(start, is_today, now, duration, staff_id, appts, blocks) {
            seq![spec_time_text(start)]
        } else {
            Seq::<Seq<char>>::empty()
        };
        let rest = if start + 30 < end {
            free_times_from(start + 30, end, is_today, now, duration, staff_id, appts, blocks)
        } else {
            Seq::<Seq<char>>::empty()
        };
        assert(all == here + rest);
        if start + 30 < end {
            lemma_listed_times_are_bookable(start + 30, end, is_today, now, duration, staff_id, appts, blocks, m);
        }
        let t = spec_time_text(m);
        if all.contains(t) {
            let k = choose|k: int| 0 <= k < all.len() && all[k] == t;
            if k < here.len() {
                assert(here[k] == spec_time_text(start));
                lemma_time_text_injective(m, start);
            } else {
                assert(rest[k - here.len()] == t);
                assert(rest.contains(t));
            }
        }
        if start <= m < end && (m - start) % 30 == 0 && offered(m, is_today, now) && slot_free(m, duration, staff_id, None, appts, blocks) {
            if m == start {
                assert(all[0] == t);
            } else {
                assert(start + 30 <= m);
                assert((m - (start + 30)) % 30 == 0);
                let k = choose|k: int| 0 <= k < rest.len() && rest[k] == t;
                assert(all[here.len() + k] == t);
            }
        }
    }
}

} // verus!
