//! Ids that sort by time: the milliseconds since an epoch of their own stand in
//! their upper bits.
use vstd::prelude::*;

verus! {

/// The epoch of ids, in milliseconds since the Unix epoch: the start of 2025.
pub const DOOVER_EPOCH: u64 = 1_735_689_600_000;

/// What a millisecond is worth in an id.
pub const ID_STEP: u64 = 4_194_304;

/// The time that an id has room for, in milliseconds.
pub const ID_SPAN: u64 = 4_398_046_511_104;

/// The id that sorts at a time, with all lower bits zero. A time beyond the room of
/// an id loses its upper bits.
pub open spec fn id_at(millis: u64) -> int {
    ((millis - DOOVER_EPOCH) * ID_STEP) % 0x1_0000_0000_0000_0000
}

/// The id that sorts at a time.
pub fn generate_snowflake_id_at(millis: u64) -> (id: u64)
    requires
        millis >= DOOVER_EPOCH,
    ensures
        id == id_at(millis),
{
    (millis - DOOVER_EPOCH).wrapping_mul(ID_STEP)
}

/// The time of an id, in milliseconds since the Unix epoch.
pub fn unix_millis_from_snowflake(id: u64) -> (millis: u64)
    ensures
        millis == id / ID_STEP + DOOVER_EPOCH,
{
    id / ID_STEP + DOOVER_EPOCH
}

/// The time of the id at a time is that time.
pub proof fn law_ids_keep_their_time(millis: u64)
    requires
        DOOVER_EPOCH <= millis < DOOVER_EPOCH + ID_SPAN,
    ensures
        id_at(millis) == (millis - DOOVER_EPOCH) * ID_STEP,
        id_at(millis) / ID_STEP as int + DOOVER_EPOCH == millis,
{
    let d = millis - DOOVER_EPOCH;
    assert(0 <= d * ID_STEP < 0x1_0000_0000_0000_0000) by (nonlinear_arith)
        requires
            0 <= d < 4_398_046_511_104,
            ID_STEP == 4_194_304,
    ;
}

/// A later time has a greater id.
pub proof fn law_ids_sort_by_time(earlier: u64, later: u64)
    requires
        DOOVER_EPOCH <= earlier < later < DOOVER_EPOCH + ID_SPAN,
    ensures
        id_at(earlier) < id_at(later),
{
    law_ids_keep_their_time(earlier);
    law_ids_keep_their_time(later);
    assert((earlier - DOOVER_EPOCH) * ID_STEP < (later - DOOVER_EPOCH) * ID_STEP)
        by (nonlinear_arith)
        requires
            earlier < later,
            ID_STEP == 4_194_304,
    ;
}

/// An id counts milliseconds from the start of 2025, each worth 4194304, and all ids up to
/// the next millisecond have the same time.
pub proof fn law_ids_count_milliseconds(millis: u64, id: u64)
    requires
        1_735_689_600_000 <= millis < 1_735_689_600_000 + 4_398_046_511_104,
    ensures
        id_at(millis) == (millis - 1_735_689_600_000) * 4_194_304,
        id_at(millis) <= id < id_at(millis) + 4_194_304 <==> id / ID_STEP + DOOVER_EPOCH
            == millis,
{
    law_ids_keep_their_time(millis);
}

} // verus!
