//! What holds of the command line: how its arguments are read and what it prints.
use vstd::prelude::*;

use crate::cli::parse::{
    bool_items, bound_of, date_millis, instant_of, int_items, items_of, naive_millis, non_blank,
    rfc3339_millis, time_reading, unbracketed, TimeReading,
};
use crate::cli::shapes::{
    are_settings, bus_doc, di_config_doc, endpoint_of, ethernet_doc, event_doc, flag_doc, int_doc,
    last_colon, listed_doc, location_doc, message_doc, num_doc, number_docs, resolved,
    scalar_or_list, serial_doc, sleep_log_doc, string_doc, string_docs, turn_doc, BusStatus,
    DiConfig, EthernetStatus, ListedChannel, Location, SerialStatus, SleepLogEntry,
};
use crate::docker::device_agent::{Message, TurnCredential};
use crate::docker::modbus::{BusSettings, SerialBusSettings};
use crate::docker::platform::PlatformEvent;
use crate::json::{field, lemma_first_is_position, Json, Number};
use crate::text::{
    decimal, decimal_int, integer, is_white, law_integers_read_back, lemma_decimal_reads_back,
    lemma_trim_keeps, trimmed, views,
};

verus! {

// ---- lists -----------------------------------------------------------------------------

/// The items of a list are its pieces without white space around them; blank ones are left
/// out.
pub proof fn law_blank_items_are_left_out(list: Seq<Seq<char>>)
    ensures
        non_blank(list) == list.map_values(|x: Seq<char>| trimmed(x)).filter(
            |x: Seq<char>| x.len() > 0,
        ),
    decreases list.len(),
{
    reveal(Seq::filter);
    let f = |x: Seq<char>| trimmed(x);
    if list.len() > 0 {
        law_blank_items_are_left_out(list.drop_last());
        assert(list.map_values(f).drop_last() =~= list.drop_last().map_values(f));
        assert(list.map_values(f).last() == trimmed(list.last()));
    }
}

/// Brackets around a list make no difference.
pub proof fn law_brackets_make_no_difference(t: Seq<char>)
    requires
        t.len() > 0,
        !is_white(t[0]),
        !is_white(t.last()),
        t[0] != '[',
    ensures
        items_of(seq!['['] + t + seq![']']) == items_of(t),
        unbracketed(t) == t,
{
    let s = seq!['['] + t + seq![']'];
    lemma_trim_keeps(s);
    lemma_trim_keeps(t);
    assert(s.subrange(1, s.len() - 1) =~= t);
}

/// A list of integers is read item by item. It is read exactly if every item is an integer
/// that a word has room for.
pub proof fn law_integers_are_read_item_by_item(list: Seq<Seq<char>>)
    ensures
        int_items(list) is Ok <==> forall|i: int|
            0 <= i < list.len() ==> (integer(#[trigger] list[i]) matches Some(n) && -2_147_483_648
                <= n <= 2_147_483_647),
        int_items(list) matches Ok(l) ==> l.len() == list.len() && forall|i: int|
            0 <= i < list.len() ==> integer(#[trigger] list[i]) == Some(l[i]),
    decreases list.len(),
{
    if list.len() > 0 {
        let d = list.drop_last();
        law_integers_are_read_item_by_item(d);
        assert(forall|i: int| 0 <= i < d.len() ==> #[trigger] d[i] == list[i]);
        if int_items(list) is Ok {
            assert forall|i: int| 0 <= i < list.len() implies (integer(
                #[trigger] list[i],
            ) matches Some(n) && -2_147_483_648 <= n <= 2_147_483_647) by {
                if i < d.len() {
                    let same = d[i];
                }
            }
        } else if forall|i: int|
            0 <= i < list.len() ==> (integer(#[trigger] list[i]) matches Some(n) && -2_147_483_648
                <= n <= 2_147_483_647) {
            let last = list[list.len() - 1];
            assert forall|i: int| 0 <= i < d.len() implies (integer(
                #[trigger] d[i],
            ) matches Some(n) && -2_147_483_648 <= n <= 2_147_483_647) by {
                let same = list[i];
            }
        }
        if let Ok(l) = int_items(list) {
            assert forall|i: int| 0 <= i < list.len() implies integer(#[trigger] list[i]) == Some(
                l[i],
            ) by {
                if i < d.len() {
                    let same = d[i];
                }
            }
        }
    }
}

/// What an item of a list of truth values says: a word, or a number that is zero or not.
pub open spec fn says(item: Seq<char>, b: bool) -> bool {
    if item == "true"@ || item == "True"@ {
        b
    } else if item == "false"@ || item == "False"@ {
        !b
    } else {
        integer(item) matches Some(n) && -0x8000_0000_0000_0000 <= n <= 0x7fff_ffff_ffff_ffff && b
            == (n != 0)
    }
}

/// A list of truth values is read item by item. It is read exactly if every item says one.
pub proof fn law_truth_values_are_read_item_by_item(list: Seq<Seq<char>>)
    ensures
        bool_items(list) is Ok <==> forall|i: int|
            0 <= i < list.len() ==> says(#[trigger] list[i], true) || says(list[i], false),
        bool_items(list) matches Ok(l) ==> l.len() == list.len() && forall|i: int|
            0 <= i < list.len() ==> says(#[trigger] list[i], l[i]),
    decreases list.len(),
{
    reveal_strlit("true");
    reveal_strlit("True");
    reveal_strlit("false");
    reveal_strlit("False");
    assert("true"@.len() != "false"@.len() && "True"@.len() != "False"@.len());
    if list.len() > 0 {
        let d = list.drop_last();
        law_truth_values_are_read_item_by_item(d);
        assert(forall|i: int| 0 <= i < d.len() ==> #[trigger] d[i] == list[i]);
        if let Ok(l) = bool_items(list) {
            assert forall|i: int| 0 <= i < list.len() implies says(#[trigger] list[i], l[i]) by {
                if i < d.len() {
                    let same = d[i];
                }
            }
        } else if forall|i: int|
            0 <= i < list.len() ==> says(#[trigger] list[i], true) || says(list[i], false) {
            let last = list[list.len() - 1];
            assert forall|i: int| 0 <= i < d.len() implies says(#[trigger] d[i], true) || says(
                d[i],
                false,
            ) by {
                let same = list[i];
            }
        }
    }
}

// ---- times -----------------------------------------------------------------------------

/// A time with an offset is an instant. Otherwise a date and a time of day, with a `T` or a
/// space between them, or a date alone, is a local time, and anything else is no time.
pub proof fn law_times_are_tried_in_order(s: Seq<char>, ms: i64)
    ensures
        rfc3339_millis(s) == Some(ms) ==> time_reading(s) == TimeReading::Instant(ms),
        rfc3339_millis(s) is None && naive_millis(s, "%Y-%m-%dT%H:%M:%S%.f"@) == Some(ms)
            ==> time_reading(s) == TimeReading::Civil(ms),
        rfc3339_millis(s) is None && naive_millis(s, "%Y-%m-%dT%H:%M:%S%.f"@) is None
            && naive_millis(s, "%Y-%m-%d %H:%M:%S%.f"@) == Some(ms) ==> time_reading(s)
            == TimeReading::Civil(ms),
        rfc3339_millis(s) is None && naive_millis(s, "%Y-%m-%dT%H:%M:%S%.f"@) is None
            && naive_millis(s, "%Y-%m-%d %H:%M:%S%.f"@) is None && date_millis(s, "%Y-%m-%d"@)
            == Some(ms) ==> time_reading(s) == TimeReading::Civil(ms),
        time_reading(s) is Nothing ==> rfc3339_millis(s) is None && date_millis(s, "%Y-%m-%d"@)
            is None,
{
}

/// An instant is its own time and a local time is the one that the zone gives it; a time
/// before 1970 is refused, and so is one that the zone does not have.
pub proof fn law_times_are_after_the_epoch(s: Seq<char>, ms: i64, local: Option<i64>)
    ensures
        ms >= 0 ==> instant_of(s, TimeReading::Instant(ms), local) == Ok::<int, Seq<char>>(
            ms as int,
        ),
        ms >= 0 ==> instant_of(s, TimeReading::Civil(ms), Some(ms)) == Ok::<int, Seq<char>>(
            ms as int,
        ),
        ms < 0 ==> instant_of(s, TimeReading::Instant(ms), local) is Err,
        local matches Some(t) ==> t >= 0 ==> instant_of(s, TimeReading::Civil(ms), local) == Ok::<
            int,
            Seq<char>,
        >(t as int),
        local is None ==> instant_of(s, TimeReading::Civil(ms), local) is Err,
        instant_of(s, TimeReading::Nothing, local) is Err,
{
}

/// A bound is the first id of its time; there is none before the start of 2025, and none for
/// what is no time.
pub proof fn law_bounds_are_the_first_id_of_their_time(s: Seq<char>, ms: int, m: Seq<char>)
    requires
        0 <= ms < 1_735_689_600_000 + 4_398_046_511_104,
    ensures
        ms < 1_735_689_600_000 ==> bound_of(s, Ok(ms)) is Err,
        ms >= 1_735_689_600_000 ==> bound_of(s, Ok(ms)) == Ok::<int, Seq<char>>(
            (ms - 1_735_689_600_000) * 4_194_304,
        ),
        bound_of(s, Err(m)) == Err::<int, Seq<char>>(m),
{
}

// ---- settings --------------------------------------------------------------------------

/// A setting is what its own section says, then what holds everywhere, then the default; an
/// empty text says nothing.
pub proof fn law_settings_are_resolved_in_order(
    section: Option<String>,
    global: Option<String>,
    default: Seq<char>,
)
    ensures
        section matches Some(s) ==> s@.len() > 0 ==> resolved(section, global, default) == s@,
        (section matches Some(s) ==> s@.len() == 0) ==> (global matches Some(g) ==> g@.len() > 0
            ==> resolved(section, global, default) == g@),
        (section matches Some(s) ==> s@.len() == 0) && (global matches Some(g) ==> g@.len() == 0)
            ==> resolved(section, global, default) == default,
{
}

/// One value that was asked for comes alone; everything else comes as a list of all values.
pub proof fn law_one_value_comes_alone(
    v: Json,
    values: Seq<Json>,
    asked: int,
    numbers: Seq<i32>,
    i: int,
)
    ensures
        scalar_or_list(1, seq![v]) == v,
        asked != 1 || values.len() != 1 ==> scalar_or_list(asked, values) == Json::Arr(values),
        number_docs(numbers).len() == numbers.len(),
        0 <= i < numbers.len() ==> number_docs(numbers)[i] == Json::Int(numbers[i] as int),
{
}

/// An address is a host and a port with a colon between them: the last one, since a host may
/// hold others.
pub proof fn law_addresses_end_with_a_port(host: Seq<char>, port: i32)
    ensures
        endpoint_of(host + seq![':'] + decimal_int(port as int)) == Ok::<
            (Seq<char>, int),
            Seq<char>,
        >((host, port as int)),
{
    let digits = decimal_int(port as int);
    let s = host + seq![':'] + digits;
    law_integers_read_back(port as int);
    lemma_no_colon(port as int);
    lemma_last_colon(host + seq![':'], digits);
    assert(s.take(host.len() as int) =~= host);
    assert(s.skip(host.len() as int + 1) =~= digits);
}

proof fn lemma_no_colon(n: int)
    ensures
        !decimal_int(n).contains(':'),
{
    let size = if n < 0 {
        (-n) as nat
    } else {
        n as nat
    };
    lemma_decimal_reads_back(size);
    let s = decimal_int(n);
    assert forall|k: int| 0 <= k < s.len() implies s[k] != ':' by {
        if n < 0 {
            if k > 0 {
                assert(s[k] == decimal(size)[k - 1]);
            }
        } else {
            assert(s[k] == decimal(size)[k]);
        }
    }
}

proof fn lemma_last_colon(before: Seq<char>, after: Seq<char>)
    requires
        before.len() > 0,
        before.last() == ':',
        !after.contains(':'),
    ensures
        last_colon(before + after) == Some(before.len() - 1),
    decreases after.len(),
{
    let s = before + after;
    if after.len() == 0 {
        assert(s =~= before);
    } else {
        assert(s.last() == after.last());
        assert(after[after.len() - 1] != ':');
        assert(s.drop_last() =~= before + after.drop_last());
        assert forall|k: int| 0 <= k < after.drop_last().len() implies after.drop_last()[k]
            != ':' by {
            assert(after[k] != ':');
        }
        lemma_last_colon(before, after.drop_last());
    }
}

/// The settings of a bus are the serial ones or an address, as its type says; no other type is
/// known.
pub proof fn law_bus_settings_follow_the_type(
    r: Result<BusSettings, String>,
    bus_type: Seq<char>,
    serial: SerialBusSettings,
    host: Seq<char>,
    port: i32,
    timeout_ms: u32,
)
    requires
        are_settings(
            r,
            bus_type,
            serial,
            host + seq![':'] + decimal_int(port as int),
            timeout_ms,
        ),
    ensures
        bus_type == "serial"@ ==> r == Ok::<BusSettings, String>(BusSettings::Serial(serial)),
        bus_type == "tcp"@ ==> (r matches Ok(BusSettings::Tcp(t)) && t.ip@ == host && t.port == port
            && t.timeout_ms == timeout_ms),
        bus_type != "serial"@ && bus_type != "tcp"@ ==> r is Err,
{
    law_addresses_end_with_a_port(host, port);
    reveal_strlit("serial");
    reveal_strlit("tcp");
    assert("serial"@.len() != "tcp"@.len());
}

// ---- documents -------------------------------------------------------------------------

/// What may be missing is printed as null where it is.
pub proof fn law_missing_parts_are_null(b: bool, s: String, n: i32, x: Number)
    ensures
        flag_doc(Some(b)) == Json::Bool(b) && flag_doc(None) is Null,
        string_doc(Some(s)) == Json::Str(s@) && string_doc(None) is Null,
        int_doc(Some(n)) == Json::Int(n as int) && int_doc(None) is Null,
        num_doc(Some(x)) == x@ && num_doc(None) is Null,
        di_config_doc(None) is Null,
        serial_doc(None) is Null,
        ethernet_doc(None) is Null,
{
}

/// The document of TURN credentials holds every part under its own key, and nothing else.
pub proof fn law_turn_documents(c: TurnCredential)
    ensures
        turn_doc(c) is Obj,
        turn_doc(c)->Obj_0.len() == 5,
        field(turn_doc(c), "username"@) == Some(Json::Str(c.username@)),
        field(turn_doc(c), "credential"@) == Some(Json::Str(c.credential@)),
        field(turn_doc(c), "ttl"@) == Some(Json::Int(c.ttl as int)),
        field(turn_doc(c), "expires_at"@) == Some(Json::Int(c.expires_at as int)),
        field(turn_doc(c), "uris"@) == Some(Json::Arr(string_docs(views(c.uris@)))),
{
    reveal_strlit("username");
    reveal_strlit("credential");
    reveal_strlit("ttl");
    reveal_strlit("expires_at");
    reveal_strlit("uris");
    assert("credential"@[0] != "expires_at"@[0]);
    let e = turn_doc(c)->Obj_0;
    assert(e[0].0 == "username"@);
    assert(e[1].0 == "credential"@);
    assert(e[2].0 == "ttl"@);
    assert(e[3].0 == "expires_at"@);
    assert(e[4].0 == "uris"@);
    lemma_first_is_position(e, "username"@, 0);
    lemma_first_is_position(e, "credential"@, 1);
    lemma_first_is_position(e, "ttl"@, 2);
    lemma_first_is_position(e, "expires_at"@, 3);
    lemma_first_is_position(e, "uris"@, 4);
}

/// The document of a message holds every part under its own key, and nothing else.
pub proof fn law_message_documents(m: Message)
    ensures
        message_doc(m) is Obj,
        message_doc(m)->Obj_0.len() == 4,
        field(message_doc(m), "message_id"@) == Some(Json::Int(m.message_id as int)),
        field(message_doc(m), "author_id"@) == Some(Json::Int(m.author_id as int)),
        field(message_doc(m), "channel_name"@) == Some(Json::Str(m.channel_name@)),
        field(message_doc(m), "data"@) == Some(m.data@),
{
    reveal_strlit("message_id");
    reveal_strlit("author_id");
    reveal_strlit("channel_name");
    reveal_strlit("data");
    let e = message_doc(m)->Obj_0;
    assert(e[0].0 == "message_id"@);
    assert(e[1].0 == "author_id"@);
    assert(e[2].0 == "channel_name"@);
    assert(e[3].0 == "data"@);
    lemma_first_is_position(e, "message_id"@, 0);
    lemma_first_is_position(e, "author_id"@, 1);
    lemma_first_is_position(e, "channel_name"@, 2);
    lemma_first_is_position(e, "data"@, 3);
}

/// The document of a platform event holds every part under its own key, and nothing else.
pub proof fn law_platform_event_documents(ev: PlatformEvent)
    ensures
        event_doc(ev) is Obj,
        event_doc(ev)->Obj_0.len() == 6,
        field(event_doc(ev), "event_id"@) == Some(Json::Int(ev.event_id as int)),
        field(event_doc(ev), "event"@) == Some(Json::Str(ev.event@)),
        field(event_doc(ev), "pin"@) == Some(Json::Int(ev.pin as int)),
        field(event_doc(ev), "value"@) == Some(Json::Str(ev.value@)),
        field(event_doc(ev), "time"@) == Some(Json::Int(ev.time as int)),
        field(event_doc(ev), "cm4_online"@) == Some(flag_doc(ev.cm4_online)),
{
    reveal_strlit("event_id");
    reveal_strlit("event");
    reveal_strlit("pin");
    reveal_strlit("value");
    reveal_strlit("time");
    reveal_strlit("cm4_online");
    assert("event"@[0] != "value"@[0]);
    let e = event_doc(ev)->Obj_0;
    assert(e[0].0 == "event_id"@);
    assert(e[1].0 == "event"@);
    assert(e[2].0 == "pin"@);
    assert(e[3].0 == "value"@);
    assert(e[4].0 == "time"@);
    assert(e[5].0 == "cm4_online"@);
    lemma_first_is_position(e, "event_id"@, 0);
    lemma_first_is_position(e, "event"@, 1);
    lemma_first_is_position(e, "pin"@, 2);
    lemma_first_is_position(e, "value"@, 3);
    lemma_first_is_position(e, "time"@, 4);
    lemma_first_is_position(e, "cm4_online"@, 5);
}

/// The document of a location holds every part under its own key, and nothing else.
pub proof fn law_location_documents(l: Location)
    ensures
        location_doc(l) is Obj,
        location_doc(l)->Obj_0.len() == 8,
        field(location_doc(l), "latitude"@) == Some(num_doc(l.latitude)),
        field(location_doc(l), "longitude"@) == Some(num_doc(l.longitude)),
        field(location_doc(l), "altitude_m"@) == Some(num_doc(l.altitude_m)),
        field(location_doc(l), "accuracy_m"@) == Some(num_doc(l.accuracy_m)),
        field(location_doc(l), "speed_mps"@) == Some(num_doc(l.speed_mps)),
        field(location_doc(l), "heading_deg"@) == Some(num_doc(l.heading_deg)),
        field(location_doc(l), "sat_count"@) == Some(int_doc(l.sat_count)),
        field(location_doc(l), "timestamp"@) == Some(string_doc(l.timestamp)),
{
    reveal_strlit("latitude");
    reveal_strlit("longitude");
    reveal_strlit("altitude_m");
    reveal_strlit("accuracy_m");
    reveal_strlit("speed_mps");
    reveal_strlit("heading_deg");
    reveal_strlit("sat_count");
    reveal_strlit("timestamp");
    assert("longitude"@[0] != "speed_mps"@[0]);
    assert("longitude"@[0] != "sat_count"@[0]);
    assert("longitude"@[0] != "timestamp"@[0]);
    assert("altitude_m"@[1] != "accuracy_m"@[1]);
    assert("speed_mps"@[1] != "sat_count"@[1]);
    assert("speed_mps"@[0] != "timestamp"@[0]);
    assert("sat_count"@[0] != "timestamp"@[0]);
    let e = location_doc(l)->Obj_0;
    assert(e[0].0 == "latitude"@);
    assert(e[1].0 == "longitude"@);
    assert(e[2].0 == "altitude_m"@);
    assert(e[3].0 == "accuracy_m"@);
    assert(e[4].0 == "speed_mps"@);
    assert(e[5].0 == "heading_deg"@);
    assert(e[6].0 == "sat_count"@);
    assert(e[7].0 == "timestamp"@);
    lemma_first_is_position(e, "latitude"@, 0);
    lemma_first_is_position(e, "longitude"@, 1);
    lemma_first_is_position(e, "altitude_m"@, 2);
    lemma_first_is_position(e, "accuracy_m"@, 3);
    lemma_first_is_position(e, "speed_mps"@, 4);
    lemma_first_is_position(e, "heading_deg"@, 5);
    lemma_first_is_position(e, "sat_count"@, 6);
    lemma_first_is_position(e, "timestamp"@, 7);
}

/// The document of a snapshot holds every part under its own key, and nothing else.
pub proof fn law_sleep_log_documents(s: SleepLogEntry)
    ensures
        sleep_log_doc(s) is Obj,
        sleep_log_doc(s)->Obj_0.len() == 8,
        field(sleep_log_doc(s), "timestamp"@) == Some(s.timestamp@),
        field(sleep_log_doc(s), "input_voltage"@) == Some(s.input_voltage@),
        field(sleep_log_doc(s), "system_current"@) == Some(s.system_current@),
        field(sleep_log_doc(s), "system_power"@) == Some(s.system_power@),
        field(sleep_log_doc(s), "di"@) == Some(s.di@),
        field(sleep_log_doc(s), "do"@) == Some(s.dos@),
        field(sleep_log_doc(s), "ai"@) == Some(s.ai@),
        field(sleep_log_doc(s), "ao"@) == Some(s.ao@),
{
    reveal_strlit("timestamp");
    reveal_strlit("input_voltage");
    reveal_strlit("system_current");
    reveal_strlit("system_power");
    reveal_strlit("di");
    reveal_strlit("do");
    reveal_strlit("ai");
    reveal_strlit("ao");
    assert("di"@[1] != "do"@[1]);
    assert("di"@[0] != "ai"@[0]);
    assert("di"@[0] != "ao"@[0]);
    assert("do"@[0] != "ai"@[0]);
    assert("do"@[0] != "ao"@[0]);
    assert("ai"@[1] != "ao"@[1]);
    let e = sleep_log_doc(s)->Obj_0;
    assert(e[0].0 == "timestamp"@);
    assert(e[1].0 == "input_voltage"@);
    assert(e[2].0 == "system_current"@);
    assert(e[3].0 == "system_power"@);
    assert(e[4].0 == "di"@);
    assert(e[5].0 == "do"@);
    assert(e[6].0 == "ai"@);
    assert(e[7].0 == "ao"@);
    lemma_first_is_position(e, "timestamp"@, 0);
    lemma_first_is_position(e, "input_voltage"@, 1);
    lemma_first_is_position(e, "system_current"@, 2);
    lemma_first_is_position(e, "system_power"@, 3);
    lemma_first_is_position(e, "di"@, 4);
    lemma_first_is_position(e, "do"@, 5);
    lemma_first_is_position(e, "ai"@, 6);
    lemma_first_is_position(e, "ao"@, 7);
}

/// The document of a digital input's configuration holds every part under its own key, and nothing else.
pub proof fn law_di_config_documents(c: DiConfig)
    ensures
        di_config_doc(Some(c)) is Obj,
        di_config_doc(Some(c))->Obj_0.len() == 5,
        field(di_config_doc(Some(c)), "pin"@) == Some(Json::Int(c.pin as int)),
        field(di_config_doc(Some(c)), "pnp_mode"@) == Some(flag_doc(c.pnp_mode)),
        field(di_config_doc(Some(c)), "irq_edge"@) == Some(string_doc(c.irq_edge)),
        field(di_config_doc(Some(c)), "debounce_ms"@) == Some(int_doc(c.debounce_ms)),
        field(di_config_doc(Some(c)), "wake_on_event"@) == Some(flag_doc(c.wake_on_event)),
{
    reveal_strlit("pin");
    reveal_strlit("pnp_mode");
    reveal_strlit("irq_edge");
    reveal_strlit("debounce_ms");
    reveal_strlit("wake_on_event");
    assert("pnp_mode"@[0] != "irq_edge"@[0]);
    let e = di_config_doc(Some(c))->Obj_0;
    assert(e[0].0 == "pin"@);
    assert(e[1].0 == "pnp_mode"@);
    assert(e[2].0 == "irq_edge"@);
    assert(e[3].0 == "debounce_ms"@);
    assert(e[4].0 == "wake_on_event"@);
    lemma_first_is_position(e, "pin"@, 0);
    lemma_first_is_position(e, "pnp_mode"@, 1);
    lemma_first_is_position(e, "irq_edge"@, 2);
    lemma_first_is_position(e, "debounce_ms"@, 3);
    lemma_first_is_position(e, "wake_on_event"@, 4);
}

/// The document of a channel in a listing holds every part under its own key, and nothing else.
pub proof fn law_listed_channel_documents(c: ListedChannel)
    ensures
        listed_doc(c) is Obj,
        listed_doc(c)->Obj_0.len() == 2,
        field(listed_doc(c), "channel_name"@) == Some(Json::Str(c.channel_name@)),
        field(listed_doc(c), "aggregate"@) == Some((match c.aggregate {
            Some(v) => v@,
            None => Json::Null,
        })),
{
    reveal_strlit("channel_name");
    reveal_strlit("aggregate");
    let e = listed_doc(c)->Obj_0;
    assert(e[0].0 == "channel_name"@);
    assert(e[1].0 == "aggregate"@);
    lemma_first_is_position(e, "channel_name"@, 0);
    lemma_first_is_position(e, "aggregate"@, 1);
}

/// The document of a serial bus holds every part under its own key, and nothing else.
pub proof fn law_serial_status_documents(s: SerialStatus)
    ensures
        serial_doc(Some(s)) is Obj,
        serial_doc(Some(s))->Obj_0.len() == 7,
        field(serial_doc(Some(s)), "port"@) == Some(Json::Str(s.port@)),
        field(serial_doc(Some(s)), "baud"@) == Some(Json::Int(s.baud as int)),
        field(serial_doc(Some(s)), "modbus_method"@) == Some(string_doc(s.modbus_method)),
        field(serial_doc(Some(s)), "data_bits"@) == Some(int_doc(s.data_bits)),
        field(serial_doc(Some(s)), "parity"@) == Some(string_doc(s.parity)),
        field(serial_doc(Some(s)), "stop_bits"@) == Some(int_doc(s.stop_bits)),
        field(serial_doc(Some(s)), "timeout"@) == Some(num_doc(s.timeout)),
{
    reveal_strlit("port");
    reveal_strlit("baud");
    reveal_strlit("modbus_method");
    reveal_strlit("data_bits");
    reveal_strlit("parity");
    reveal_strlit("stop_bits");
    reveal_strlit("timeout");
    assert("port"@[0] != "baud"@[0]);
    assert("data_bits"@[0] != "stop_bits"@[0]);
    let e = serial_doc(Some(s))->Obj_0;
    assert(e[0].0 == "port"@);
    assert(e[1].0 == "baud"@);
    assert(e[2].0 == "modbus_method"@);
    assert(e[3].0 == "data_bits"@);
    assert(e[4].0 == "parity"@);
    assert(e[5].0 == "stop_bits"@);
    assert(e[6].0 == "timeout"@);
    lemma_first_is_position(e, "port"@, 0);
    lemma_first_is_position(e, "baud"@, 1);
    lemma_first_is_position(e, "modbus_method"@, 2);
    lemma_first_is_position(e, "data_bits"@, 3);
    lemma_first_is_position(e, "parity"@, 4);
    lemma_first_is_position(e, "stop_bits"@, 5);
    lemma_first_is_position(e, "timeout"@, 6);
}

/// The document of a bus over TCP holds every part under its own key, and nothing else.
pub proof fn law_ethernet_status_documents(s: EthernetStatus)
    ensures
        ethernet_doc(Some(s)) is Obj,
        ethernet_doc(Some(s))->Obj_0.len() == 3,
        field(ethernet_doc(Some(s)), "ip"@) == Some(Json::Str(s.ip@)),
        field(ethernet_doc(Some(s)), "port"@) == Some(Json::Int(s.port as int)),
        field(ethernet_doc(Some(s)), "timeout"@) == Some(num_doc(s.timeout)),
{
    reveal_strlit("ip");
    reveal_strlit("port");
    reveal_strlit("timeout");
    let e = ethernet_doc(Some(s))->Obj_0;
    assert(e[0].0 == "ip"@);
    assert(e[1].0 == "port"@);
    assert(e[2].0 == "timeout"@);
    lemma_first_is_position(e, "ip"@, 0);
    lemma_first_is_position(e, "port"@, 1);
    lemma_first_is_position(e, "timeout"@, 2);
}

/// The document of a bus holds every part under its own key, and nothing else.
pub proof fn law_bus_status_documents(b: BusStatus)
    ensures
        bus_doc(b) is Obj,
        bus_doc(b)->Obj_0.len() == 4,
        field(bus_doc(b), "bus_id"@) == Some(Json::Str(b.bus_id@)),
        field(bus_doc(b), "open"@) == Some(Json::Bool(b.open)),
        field(bus_doc(b), "serial_settings"@) == Some(serial_doc(b.serial)),
        field(bus_doc(b), "ethernet_settings"@) == Some(ethernet_doc(b.ethernet)),
{
    reveal_strlit("bus_id");
    reveal_strlit("open");
    reveal_strlit("serial_settings");
    reveal_strlit("ethernet_settings");
    let e = bus_doc(b)->Obj_0;
    assert(e[0].0 == "bus_id"@);
    assert(e[1].0 == "open"@);
    assert(e[2].0 == "serial_settings"@);
    assert(e[3].0 == "ethernet_settings"@);
    lemma_first_is_position(e, "bus_id"@, 0);
    lemma_first_is_position(e, "open"@, 1);
    lemma_first_is_position(e, "serial_settings"@, 2);
    lemma_first_is_position(e, "ethernet_settings"@, 3);
}

} // verus!
