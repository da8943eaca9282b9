//! Reading the arguments of the command line: numbers and truth values, alone or as
//! lists, JSON documents, and times.
use chrono::{DateTime, Local, NaiveDate, NaiveDateTime};
use vstd::prelude::*;

use crate::diff::tidy;
use crate::docker::platform::Edge;
use crate::json::Value;
use crate::json_text::{from_text, json_parse};
use crate::text::{
    chars, concat, debug_text, decimal, integer, is_white, lemma_decimal_reads_back,
    lemma_trim_keeps, lemma_trimmed_padding, lemma_trimmed_twice, natural, pieces, quoted, read_i64,
    read_u64, same, slice, split, string, trim, trimmed, views,
};
use crate::utils::{generate_snowflake_id_at, id_at, DOOVER_EPOCH};

verus! {

// ---- lists -----------------------------------------------------------------------------

/// The text without white space and brackets around it.
pub open spec fn unbracketed(s: Seq<char>) -> Seq<char> {
    let t = trimmed(s);
    if t.len() >= 2 && t[0] == '[' && t.last() == ']' {
        t.subrange(1, t.len() - 1)
    } else {
        t
    }
}

/// The pieces that are not blank, without the white space around them.
pub open spec fn non_blank(list: Seq<Seq<char>>) -> Seq<Seq<char>>
    decreases list.len(),
{
    if list.len() == 0 {
        Seq::empty()
    } else {
        let before = non_blank(list.drop_last());
        if trimmed(list.last()).len() > 0 {
            before.push(trimmed(list.last()))
        } else {
            before
        }
    }
}

/// The items of a list: `3`, `[1,2]` and `1,2` are lists, and so is nothing at all.
pub open spec fn items_of(s: Seq<char>) -> Seq<Seq<char>> {
    non_blank(pieces(unbracketed(s), ','))
}

/// The items of a list, written out.
pub fn items(s: &str) -> (list: Vec<String>)
    ensures
        views(list@) == items_of(s@),
{
    let t = trim(s);
    let v = chars(t.as_str());
    let n = v.len();
    let bare = if n >= 2 && v[0] == '[' && v[n - 1] == ']' {
        slice(&v, 1, n - 1)
    } else {
        string(&v)
    };
    let parts = split(bare.as_str(), ',');
    let ghost all = views(parts@);
    let mut list: Vec<String> = Vec::new();
    let mut i: usize = 0;
    assert(all.take(0) =~= Seq::empty());
    assert(views(list@) =~= Seq::empty());
    while i < parts.len()
        invariant
            i <= parts@.len(),
            all == views(parts@),
            views(list@) == non_blank(all.take(i as int)),
        decreases parts@.len() - i,
    {
        proof {
            assert(all.take(i as int + 1).drop_last() =~= all.take(i as int));
            assert(all.take(i as int + 1).last() == parts@[i as int]@);
        }
        let piece = trim(parts[i].as_str());
        if chars(piece.as_str()).len() > 0 {
            let ghost before = views(list@);
            let ghost text = piece@;
            list.push(piece);
            assert(views(list@) =~= before.push(text));
        }
        i += 1;
    }
    assert(all.take(all.len() as int) =~= all);
    list
}

/// Numbers, one or several.
#[derive(Debug, Clone, PartialEq, Eq)]
pub struct IntList(pub Vec<i32>);

/// Truth values, one or several.
#[derive(Debug, Clone, PartialEq, Eq)]
pub struct BoolList(pub Vec<bool>);

/// The number that an item is, or what is wrong with it.
pub open spec fn int_item(s: Seq<char>) -> Result<int, Seq<char>> {
    match integer(s) {
        Some(n) => if i32::MIN <= n <= i32::MAX {
            Ok(n)
        } else {
            Err(debug_text(s) + " is not an integer"@)
        },
        None => Err(debug_text(s) + " is not an integer"@),
    }
}

/// The numbers that items are, or what is wrong with the first that is none.
pub open spec fn int_items(list: Seq<Seq<char>>) -> Result<Seq<int>, Seq<char>>
    decreases list.len(),
{
    if list.len() == 0 {
        Ok(Seq::empty())
    } else {
        match int_items(list.drop_last()) {
            Err(m) => Err(m),
            Ok(before) => match int_item(list.last()) {
                Ok(n) => Ok(before.push(n)),
                Err(m) => Err(m),
            },
        }
    }
}

proof fn lemma_int_fault(list: Seq<Seq<char>>, n: int)
    requires
        0 <= n <= list.len(),
        int_items(list.take(n)) is Err,
    ensures
        int_items(list) == int_items(list.take(n)),
    decreases list.len(),
{
    if n == list.len() {
        assert(list.take(n) =~= list);
    } else {
        assert(list.drop_last().take(n) =~= list.take(n));
        lemma_int_fault(list.drop_last(), n);
    }
}

/// The numbers as integers of any size.
pub open spec fn ints(v: Seq<i32>) -> Seq<int> {
    Seq::new(v.len(), |i: int| v[i] as int)
}

/// Reads one number or several. There has to be at least one.
pub fn parse_int_list(s: &str) -> (r: Result<IntList, String>)
    ensures
        match (int_items(items_of(s@)), r) {
            (Ok(list), Ok(l)) => list.len() > 0 && ints(l.0@) == list,
            (Ok(list), Err(m)) => list.len() == 0 && m@ == debug_text(s@)
                + " is not an integer or a list of integers"@,
            (Err(t), Err(m)) => m@ == t,
            _ => false,
        },
{
    let list = items(s);
    let ghost all = views(list@);
    let mut values: Vec<i32> = Vec::new();
    let mut i: usize = 0;
    assert(all.take(0) =~= Seq::empty());
    assert(ints(values@) =~= Seq::empty());
    while i < list.len()
        invariant
            i <= list@.len(),
            all == views(list@),
            values@.len() == i,
            int_items(all.take(i as int)) == Ok::<Seq<int>, Seq<char>>(ints(values@)),
            all == items_of(s@),
        decreases list@.len() - i,
    {
        proof {
            assert(all.take(i as int + 1).drop_last() =~= all.take(i as int));
            assert(all.take(i as int + 1).last() == list@[i as int]@);
        }
        let good = match read_i64(list[i].as_str()) {
            Some(n) => {
                if n >= i32::MIN as i64 && n <= i32::MAX as i64 {
                    Some(n as i32)
                } else {
                    None
                }
            },
            None => None,
        };
        match good {
            Some(n) => {
                let ghost before = ints(values@);
                values.push(n);
                assert(ints(values@) =~= before.push(n as int));
            },
            None => {
                proof {
                    lemma_int_fault(all, i as int + 1);
                }
                return Err(concat(quoted(list[i].as_str()).as_str(), " is not an integer"));
            },
        }
        i += 1;
    }
    assert(all.take(all.len() as int) =~= all);
    if values.len() == 0 {
        return Err(concat(quoted(s).as_str(), " is not an integer or a list of integers"));
    }
    Ok(IntList(values))
}

/// The truth value that an item is, or what is wrong with it. Any number but zero is
/// true.
pub open spec fn bool_item(s: Seq<char>) -> Result<bool, Seq<char>> {
    if s == "true"@ || s == "True"@ {
        Ok(true)
    } else if s == "false"@ || s == "False"@ {
        Ok(false)
    } else {
        match integer(s) {
            Some(n) => if i64::MIN <= n <= i64::MAX {
                Ok(n != 0)
            } else {
                Err(debug_text(s) + " is not a boolean (use true/false/1/0)"@)
            },
            None => Err(debug_text(s) + " is not a boolean (use true/false/1/0)"@),
        }
    }
}

/// The truth values that items are, or what is wrong with the first that is none.
pub open spec fn bool_items(list: Seq<Seq<char>>) -> Result<Seq<bool>, Seq<char>>
    decreases list.len(),
{
    if list.len() == 0 {
        Ok(Seq::empty())
    } else {
        match bool_items(list.drop_last()) {
            Err(m) => Err(m),
            Ok(before) => match bool_item(list.last()) {
                Ok(b) => Ok(before.push(b)),
                Err(m) => Err(m),
            },
        }
    }
}

proof fn lemma_bool_fault(list: Seq<Seq<char>>, n: int)
    requires
        0 <= n <= list.len(),
        bool_items(list.take(n)) is Err,
    ensures
        bool_items(list) == bool_items(list.take(n)),
    decreases list.len(),
{
    if n == list.len() {
        assert(list.take(n) =~= list);
    } else {
        assert(list.drop_last().take(n) =~= list.take(n));
        lemma_bool_fault(list.drop_last(), n);
    }
}

fn parse_bool_item(s: &str) -> (r: Result<bool, String>)
    ensures
        match (bool_item(s@), r) {
            (Ok(b), Ok(c)) => b == c,
            (Err(t), Err(m)) => m@ == t,
            _ => false,
        },
{
    if same(s, "true") || same(s, "True") {
        Ok(true)
    } else if same(s, "false") || same(s, "False") {
        Ok(false)
    } else {
        match read_i64(s) {
            Some(n) => Ok(n != 0),
            None => Err(
                concat(quoted(s).as_str(), " is not a boolean (use true/false/1/0)"),
            ),
        }
    }
}

/// Reads one truth value or several. There has to be at least one.
pub fn parse_bool_list(s: &str) -> (r: Result<BoolList, String>)
    ensures
        match (bool_items(items_of(s@)), r) {
            (Ok(list), Ok(l)) => list.len() > 0 && l.0@ == list,
            (Ok(list), Err(m)) => list.len() == 0 && m@ == debug_text(s@)
                + " is not a boolean or a list of booleans"@,
            (Err(t), Err(m)) => m@ == t,
            _ => false,
        },
{
    let list = items(s);
    let ghost all = views(list@);
    let mut values: Vec<bool> = Vec::new();
    let mut i: usize = 0;
    assert(all.take(0) =~= Seq::empty());
    assert(values@ =~= Seq::empty());
    while i < list.len()
        invariant
            i <= list@.len(),
            all == views(list@),
            values@.len() == i,
            bool_items(all.take(i as int)) == Ok::<Seq<bool>, Seq<char>>(values@),
            all == items_of(s@),
        decreases list@.len() - i,
    {
        proof {
            assert(all.take(i as int + 1).drop_last() =~= all.take(i as int));
            assert(all.take(i as int + 1).last() == list@[i as int]@);
        }
        match parse_bool_item(list[i].as_str()) {
            Ok(b) => {
                values.push(b);
            },
            Err(m) => {
                proof {
                    lemma_bool_fault(all, i as int + 1);
                }
                return Err(m);
            },
        }
        i += 1;
    }
    assert(all.take(all.len() as int) =~= all);
    if values.len() == 0 {
        return Err(concat(quoted(s).as_str(), " is not a boolean or a list of booleans"));
    }
    Ok(BoolList(values))
}

/// Reads a JSON document.
pub fn parse_json(s: &str) -> (r: Result<Value, String>)
    ensures
        match (json_parse(s@), r) {
            (Ok(d), Ok(v)) => v@ == d,
            (Err(t), Err(m)) => m@ == "not valid inline JSON: "@ + t,
            _ => false,
        },
        r matches Ok(v) ==> tidy(v@),
{
    match from_text(s) {
        Ok(v) => Ok(v),
        Err(m) => Err(concat("not valid inline JSON: ", m.as_str())),
    }
}

/// Reads an edge.
pub fn parse_edge(s: &str) -> (r: Result<Edge, String>)
    ensures
        match r {
            Ok(e) => s@ == e.name(),
            Err(m) => s@ != "rising"@ && s@ != "falling"@ && s@ != "both"@ && m@
                == "invalid edge: "@ + debug_text(s@),
        },
{
    match Edge::from_name(s) {
        Ok(e) => Ok(e),
        Err(e) => Err(e.message()),
    }
}

// ---- times -----------------------------------------------------------------------------

/// The milliseconds since the Unix epoch of the instant that `chrono` reads a text
/// with an offset as; nothing if it is no such text.
pub uninterp spec fn rfc3339_millis(text: Seq<char>) -> Option<i64>;

/// The milliseconds since the Unix epoch of the date and time that `chrono` reads a
/// text as, were it in UTC; nothing if the text does not have the format.
pub uninterp spec fn naive_millis(text: Seq<char>, format: Seq<char>) -> Option<i64>;

/// The milliseconds since the Unix epoch of the midnight of the date that `chrono`
/// reads a text as, were it in UTC; nothing if the text does not have the format.
pub uninterp spec fn date_millis(text: Seq<char>, format: Seq<char>) -> Option<i64>;

/// `chrono::DateTime::parse_from_rfc3339`: the same text always gives the same
/// instant.
#[verifier::external_body]
fn read_rfc3339(text: &str) -> (r: Option<i64>)
    ensures
        r == rfc3339_millis(text@),
{
    DateTime::parse_from_rfc3339(text).ok().map(|t| t.timestamp_millis())
}

/// `chrono::NaiveDateTime::parse_from_str`: the same text and format always give the
/// same date and time.
#[verifier::external_body]
fn read_naive(text: &str, format: &str) -> (r: Option<i64>)
    ensures
        r == naive_millis(text@, format@),
{
    NaiveDateTime::parse_from_str(text, format).ok().map(|t| t.and_utc().timestamp_millis())
}

/// `chrono::NaiveDate::parse_from_str`: the same text and format always give the same
/// date.
#[verifier::external_body]
fn read_date(text: &str, format: &str) -> (r: Option<i64>)
    ensures
        r == date_millis(text@, format@),
{
    let date = NaiveDate::parse_from_str(text, format).ok();
    date.and_then(|d| d.and_hms_opt(0, 0, 0)).map(|t| t.and_utc().timestamp_millis())
}

/// The milliseconds of a day.
pub const DAY_MS: i64 = 86_400_000;

/// Whether an instant can be that of a local date and time, given as if it were in UTC:
/// an offset is less than a day.
pub open spec fn local_to(naive: i64, instant: Option<i64>) -> bool {
    instant matches Some(t) ==> -DAY_MS < t - naive < DAY_MS
}

/// `chrono::NaiveDateTime::and_local_timezone` with the machine's time zone: the
/// instant of a local date and time, which is given as if it were in UTC. It lies less
/// than a day from there, as every offset of `chrono` does. Which instant it is depends
/// on the machine; there is none where the local time does not exist or exists twice.
#[verifier::external_body]
fn local_instant(naive: i64) -> (r: Option<i64>)
    ensures
        local_to(naive, r),
{
    let time = DateTime::from_timestamp_millis(naive)?.naive_utc();
    time.and_local_timezone(Local).single().map(|t| t.timestamp_millis())
}

/// What a text says of a time.
#[derive(Debug, Clone, Copy, PartialEq, Eq, Structural)]
pub enum TimeReading {
    /// An instant, in milliseconds since the Unix epoch.
    Instant(i64),
    /// A local date and time, in milliseconds as if it were in UTC.
    Civil(i64),
    Nothing,
}

/// Whether an instant can be that of a reading: one of a local date and time lies less
/// than a day from it.
pub open spec fn fits_reading(reading: TimeReading, local: Option<i64>) -> bool {
    reading matches TimeReading::Civil(naive) ==> local_to(naive, local)
}

/// What a text says of a time: an instant if it has an offset, otherwise a date and
/// time, or a date alone.
pub open spec fn time_reading(s: Seq<char>) -> TimeReading {
    match rfc3339_millis(s) {
        Some(ms) => TimeReading::Instant(ms),
        None => match naive_millis(s, "%Y-%m-%dT%H:%M:%S%.f"@) {
            Some(ms) => TimeReading::Civil(ms),
            None => match naive_millis(s, "%Y-%m-%d %H:%M:%S%.f"@) {
                Some(ms) => TimeReading::Civil(ms),
                None => match date_millis(s, "%Y-%m-%d"@) {
                    Some(ms) => TimeReading::Civil(ms),
                    None => TimeReading::Nothing,
                },
            },
        },
    }
}

/// What a text says of a time.
pub fn read_time(s: &str) -> (r: TimeReading)
    ensures
        r == time_reading(s@),
{
    if let Some(ms) = read_rfc3339(s) {
        return TimeReading::Instant(ms);
    }
    if let Some(ms) = read_naive(s, "%Y-%m-%dT%H:%M:%S%.f") {
        return TimeReading::Civil(ms);
    }
    if let Some(ms) = read_naive(s, "%Y-%m-%d %H:%M:%S%.f") {
        return TimeReading::Civil(ms);
    }
    match read_date(s, "%Y-%m-%d") {
        Some(ms) => TimeReading::Civil(ms),
        None => TimeReading::Nothing,
    }
}

/// The message that a text is no time.
pub open spec fn no_time(s: Seq<char>) -> Seq<char> {
    debug_text(s) + " is not a unix-millisecond timestamp or an ISO-8601 datetime"@
}

/// The milliseconds of a reading, or what is wrong with it. `local` is the instant of
/// a local date and time, where there is one.
pub open spec fn instant_of(s: Seq<char>, reading: TimeReading, local: Option<i64>) -> Result<
    int,
    Seq<char>,
> {
    let ms = match reading {
        TimeReading::Instant(ms) => Some(ms),
        TimeReading::Civil(_) => local,
        TimeReading::Nothing => None,
    };
    match ms {
        Some(ms) => if ms >= 0 {
            Ok(ms as int)
        } else {
            Err(debug_text(s) + " is before the unix epoch"@)
        },
        None => Err(no_time(s)),
    }
}

/// Whether a number or a message is the expected one.
pub open spec fn is_reading(r: Result<u64, String>, expected: Result<int, Seq<char>>) -> bool {
    match (r, expected) {
        (Ok(n), Ok(e)) => n == e,
        (Err(m), Err(e)) => m@ == e,
        _ => false,
    }
}

/// The number or the message that came out.
pub open spec fn outcome(r: Result<u64, String>) -> Result<int, Seq<char>> {
    match r {
        Ok(n) => Ok(n as int),
        Err(m) => Err(m@),
    }
}

/// The milliseconds of a reading. `local` is the instant of a local date and time,
/// where there is one.
pub fn instant_millis(s: &str, reading: TimeReading, local: Option<i64>) -> (r: Result<u64, String>)
    ensures
        is_reading(r, instant_of(s@, reading, local)),
{
    let ms = match reading {
        TimeReading::Instant(ms) => Some(ms),
        TimeReading::Civil(_) => local,
        TimeReading::Nothing => None,
    };
    match ms {
        Some(ms) => {
            if ms >= 0 {
                Ok(ms as u64)
            } else {
                Err(concat(quoted(s).as_str(), " is before the unix epoch"))
            }
        },
        None => Err(
            concat(
                quoted(s).as_str(),
                " is not a unix-millisecond timestamp or an ISO-8601 datetime",
            ),
        ),
    }
}

/// Reads a date and time. Without an offset it is in the machine's time zone, so that
/// only its form is certain.
pub fn parse_iso8601_millis(s: &str) -> (r: Result<u64, String>)
    ensures
        !(time_reading(s@) is Civil) ==> is_reading(r, instant_of(s@, time_reading(s@), None)),
        exists|local: Option<i64>|
            fits_reading(time_reading(s@), local) && is_reading(
                r,
                #[trigger] instant_of(s@, time_reading(s@), local),
            ),
{
    let reading = read_time(s);
    let local = match reading {
        TimeReading::Civil(naive) => local_instant(naive),
        _ => None,
    };
    let r = instant_millis(s, reading, local);
    assert(is_reading(r, instant_of(s@, time_reading(s@), local)));
    r
}

/// The number of milliseconds that a text without white space around it says, if it
/// is a plain number.
pub open spec fn plain_number(s: Seq<char>) -> Option<nat> {
    match natural(s) {
        Some(n) => if n <= u64::MAX {
            Some(n)
        } else {
            None
        },
        None => None,
    }
}

/// Whether something can be a time zone: it gives the instant of a local date and time,
/// where there is one, less than a day from it.
pub open spec fn is_zone(zone: spec_fn(i64) -> Option<i64>) -> bool {
    forall|naive: i64| local_to(naive, #[trigger] zone(naive))
}

/// The instant of a reading in a time zone, if it is a local date and time.
pub open spec fn local_in(reading: TimeReading, zone: spec_fn(i64) -> Option<i64>) -> Option<i64> {
    match reading {
        TimeReading::Civil(naive) => zone(naive),
        _ => None,
    }
}

/// The time that a text says in a time zone, or what is wrong with it: a plain number is
/// itself, and a text with an offset is its instant in every zone.
pub open spec fn time_in(s: Seq<char>, zone: spec_fn(i64) -> Option<i64>) -> Result<
    int,
    Seq<char>,
> {
    let t = trimmed(s);
    match plain_number(t) {
        Some(n) => Ok(n as int),
        None => instant_of(t, time_reading(t), local_in(time_reading(t), zone)),
    }
}

/// Whether something is what a text is read as, where a time is wanted: what the text
/// says in some time zone.
pub open spec fn reads_as_time(s: Seq<char>, r: Result<u64, String>) -> bool {
    exists|zone: spec_fn(i64) -> Option<i64>|
        is_zone(zone) && is_reading(r, #[trigger] time_in(s, zone))
}

/// A zone that has the given instant for every local date and time that can be in it.
spec fn zone_with(local: Option<i64>) -> spec_fn(i64) -> Option<i64> {
    |naive: i64|
        if local_to(naive, local) {
            local
        } else {
            None
        }
}

/// Reads a time: milliseconds since the Unix epoch, or a date and time.
pub fn parse_timestamp_ms(s: &str) -> (r: Result<u64, String>)
    ensures
        reads_as_time(s@, r),
{
    let t = trim(s);
    match read_u64(t.as_str()) {
        Some(ms) => {
            let r: Result<u64, String> = Ok(ms);
            proof {
                assert(is_zone(zone_with(None)));
                assert(is_reading(r, time_in(s@, zone_with(None))));
            }
            r
        },
        None => {
            let ghost text = t@;
            let r = parse_iso8601_millis(t.as_str());
            proof {
                let local = choose|local: Option<i64>|
                    fits_reading(time_reading(text), local) && is_reading(
                        r,
                        #[trigger] instant_of(text, time_reading(text), local),
                    );
                assert(is_zone(zone_with(local)));
                assert(is_reading(r, time_in(s@, zone_with(local))));
            }
            r
        },
    }
}

/// The id at a time, or what is wrong with the time.
pub open spec fn bound_of(s: Seq<char>, millis: Result<int, Seq<char>>) -> Result<int, Seq<char>> {
    match millis {
        Ok(ms) => if ms < DOOVER_EPOCH {
            Err(debug_text(s) + " is before the doover epoch (2025-01-01)"@)
        } else {
            Ok(id_at(ms as u64))
        },
        Err(m) => Err(m),
    }
}

/// The id at a time.
pub fn snowflake_bound(s: &str, millis: Result<u64, String>) -> (r: Result<u64, String>)
    ensures
        is_reading(r, bound_of(s@, outcome(millis))),
{
    match millis {
        Ok(ms) => {
            if ms < DOOVER_EPOCH {
                Err(concat(quoted(s).as_str(), " is before the doover epoch (2025-01-01)"))
            } else {
                Ok(generate_snowflake_id_at(ms))
            }
        },
        Err(m) => Err(m),
    }
}

/// The bound on message ids that a text says in a time zone, or what is wrong with it: a
/// plain number is itself, and any other text is the id at its time.
pub open spec fn bound_in(s: Seq<char>, zone: spec_fn(i64) -> Option<i64>) -> Result<
    int,
    Seq<char>,
> {
    let t = trimmed(s);
    match plain_number(t) {
        Some(n) => Ok(n as int),
        None => bound_of(t, instant_of(t, time_reading(t), local_in(time_reading(t), zone))),
    }
}

/// Whether something is what a text is read as, where a bound on message ids is wanted:
/// what the text says in some time zone.
pub open spec fn reads_as_bound(s: Seq<char>, r: Result<u64, String>) -> bool {
    exists|zone: spec_fn(i64) -> Option<i64>|
        is_zone(zone) && is_reading(r, #[trigger] bound_in(s, zone))
}

/// Reads a bound on message ids: an id, or a date and time, which stands for the id
/// that sorts there.
pub fn parse_snowflake_bound(s: &str) -> (r: Result<u64, String>)
    ensures
        reads_as_bound(s@, r),
{
    let t = trim(s);
    match read_u64(t.as_str()) {
        Some(id) => {
            let r: Result<u64, String> = Ok(id);
            proof {
                assert(is_zone(zone_with(None)));
                assert(is_reading(r, bound_in(s@, zone_with(None))));
            }
            r
        },
        None => {
            let ghost text = t@;
            let ghost mut zone = zone_with(None);
            let millis = parse_iso8601_millis(t.as_str());
            proof {
                let local = choose|local: Option<i64>|
                    fits_reading(time_reading(text), local) && is_reading(
                        millis,
                        #[trigger] instant_of(text, time_reading(text), local),
                    );
                assert(instant_of(text, time_reading(text), local) == outcome(millis));
                zone = zone_with(local);
                assert(is_zone(zone));
                assert(bound_in(s@, zone) == bound_of(text, outcome(millis)));
            }
            let r = snowflake_bound(t.as_str(), millis);
            assert(is_reading(r, bound_in(s@, zone)));
            r
        },
    }
}

// ---- laws ------------------------------------------------------------------------------

/// A number that was written out reads back as itself, as a time and as a bound.
pub proof fn law_numbers_read_back(n: u64, r: Result<u64, String>)
    requires
        reads_as_time(decimal(n as nat), r) || reads_as_bound(decimal(n as nat), r),
    ensures
        r == Ok::<u64, String>(n),
{
    let d = decimal(n as nat);
    lemma_decimal_reads_back(n as nat);
    lemma_trim_keeps(d);
}

/// White space around a time or a bound never matters: in every time zone, the text with
/// it says what the text without it says.
pub proof fn law_white_space_is_ignored(
    before: Seq<char>,
    s: Seq<char>,
    after: Seq<char>,
    zone: spec_fn(i64) -> Option<i64>,
    r: Result<u64, String>,
)
    requires
        forall|i: int| 0 <= i < before.len() ==> is_white(#[trigger] before[i]),
        forall|i: int| 0 <= i < after.len() ==> is_white(#[trigger] after[i]),
    ensures
        time_in(before + s + after, zone) == time_in(s, zone),
        bound_in(before + s + after, zone) == bound_in(s, zone),
        time_in(trimmed(s), zone) == time_in(s, zone),
        bound_in(trimmed(s), zone) == bound_in(s, zone),
        reads_as_time(before + s + after, r) <==> reads_as_time(s, r),
        reads_as_bound(before + s + after, r) <==> reads_as_bound(s, r),
        reads_as_time(trimmed(s), r) <==> reads_as_time(s, r),
        reads_as_bound(trimmed(s), r) <==> reads_as_bound(s, r),
{
    lemma_trimmed_padding(before, s, after);
    lemma_trimmed_twice(s);
    let padded = before + s + after;
    lemma_same_readings(padded, s, r);
    lemma_same_readings(trimmed(s), s, r);
}

proof fn lemma_same_readings(a: Seq<char>, b: Seq<char>, r: Result<u64, String>)
    requires
        trimmed(a) == trimmed(b),
    ensures
        reads_as_time(a, r) <==> reads_as_time(b, r),
        reads_as_bound(a, r) <==> reads_as_bound(b, r),
{
    assert forall|zone: spec_fn(i64) -> Option<i64>| #[trigger]
        time_in(a, zone) == time_in(b, zone) by {}
    assert forall|zone: spec_fn(i64) -> Option<i64>| #[trigger]
        time_in(b, zone) == time_in(a, zone) by {}
    assert forall|zone: spec_fn(i64) -> Option<i64>| #[trigger]
        bound_in(a, zone) == bound_in(b, zone) by {}
    assert forall|zone: spec_fn(i64) -> Option<i64>| #[trigger]
        bound_in(b, zone) == bound_in(a, zone) by {}
}

/// Two readings of one text in one time zone are the same, and those of a text that is
/// no local date and time are the same whatever the zone.
pub proof fn law_readings_agree(
    s: Seq<char>,
    one: spec_fn(i64) -> Option<i64>,
    other: spec_fn(i64) -> Option<i64>,
    r: Result<u64, String>,
    q: Result<u64, String>,
)
    ensures
        is_reading(r, time_in(s, one)) && is_reading(q, time_in(s, one)) ==> outcome(r) == outcome(q),
        is_reading(r, bound_in(s, one)) && is_reading(q, bound_in(s, one)) ==> outcome(r) == outcome(
            q,
        ),
        !(time_reading(trimmed(s)) is Civil) ==> {
            &&& time_in(s, one) == time_in(s, other)
            &&& bound_in(s, one) == bound_in(s, other)
            &&& reads_as_time(s, r) && reads_as_time(s, q) ==> outcome(r) == outcome(q)
            &&& reads_as_bound(s, r) && reads_as_bound(s, q) ==> outcome(r) == outcome(q)
        },
{
}

} // verus!
