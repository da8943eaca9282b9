//! What requests to the device agent and to the sidecars carry, what their replies mean,
//! and how a run is configured.
use vstd::prelude::*;

use crate::channel_backend::{AggregateOptions, ChannelAggregate, UpdateMessageOptions};
use crate::docker::device_agent::{
    decoded, event_doc, header_is_not_found, header_passes, is_aggregate_of, is_create, is_echo,
    is_fetch, is_header_verdict, is_listing, is_message_fetch, is_message_update, is_one_shot,
    is_subscription, is_turn_request, is_update, status_after, AgentOp, AggregateParts, DdaStatus,
    ListMessagesOptions, Message, MessageParts, ResponseHeader,
};
use crate::docker::grpc::{call_step, feed_next, CallEnd, CallStep, FeedInput, FeedPhase};
use crate::docker::modbus::{
    is_carried_opt, is_poll, is_read, is_write, reports_success, BusSettings, ModbusHeader,
    ModbusOp, RegisterRange, SerialBusSettings, TcpBusSettings, WireBus,
};
use crate::docker::options::{
    export_name, export_scan, flag_value, flags_of, given, has_debug, picked, port_of, rewritten, with_scheme, Environment,
    Flags, RunOptions,
};
use crate::docker::payload::{clean_keys, key_char, payload_fault, valid_key};
use crate::docker::platform::{
    events_request, is_config_change, is_positive, sets_levels, sets_values, CounterView,
    DiConfigUpdate, Edge, PlatformHeader, PlatformOp,
};
use crate::error::DooverError;
use crate::json::{empty_obj, Json};
use crate::json_text::{json_parse, json_text, written};
use crate::text::{
    decimal, law_replacing, lemma_decimal_reads_back, natural, opt_chars, stands_at, views,
};

verus! {

// ---- replies ------------------------------------------------------------------------------

/// Whether the agent is available is what the last reply says, and so is whether it is
/// online; that it was online once is never forgotten. A reply without a header says
/// nothing.
pub proof fn law_the_status_follows_the_replies(
    s: DdaStatus,
    h: ResponseHeader,
    header: Option<ResponseHeader>,
)
    ensures
        status_after(s, Some(h)).available == h.success,
        status_after(s, Some(h)).online == h.cloud_synced,
        status_after(s, Some(h)).been_online == (s.been_online || h.cloud_synced),
        status_after(s, None) == s,
        status_after(s, header).online ==> status_after(s, header).been_online || s.online,
{
}

/// A reply succeeds exactly if its header says so or it has none. A failed one is not found
/// with the code 404, and otherwise an error with its code, 500 if it has none; either has
/// the header's message.
pub proof fn law_replies_mean_their_header(
    header: Option<ResponseHeader>,
    r: Result<(), DooverError>,
)
    requires
        is_header_verdict(r, header),
    ensures
        r is Ok <==> header is None || header.unwrap().success,
        header_passes(header) <==> r is Ok,
        r matches Err(x) ==> ({
            let h = header.unwrap();
            let text = match h.response_message {
                Some(m) => m@,
                None => Seq::empty(),
            };
            if h.response_code == Some(404i32) {
                x matches DooverError::NotFound(m) && m@ == text
            } else {
                x matches DooverError::Http { code, message } && message@ == text && code == (
                match h.response_code {
                    Some(c) => c,
                    None => 500i32,
                })
            }
        }),
        header_is_not_found(header) <==> (header is Some && !header.unwrap().success
            && header.unwrap().response_code == Some(404i32)),
{
}

/// The data of an aggregate is the document of its text, and null where the text is empty
/// or no document; an event without text has an empty payload.
pub proof fn law_texts_are_decoded(text: Seq<char>)
    ensures
        text.len() == 0 ==> decoded(text) is Null && event_doc(text) == Ok::<Json, Seq<char>>(
            empty_obj(),
        ),
        text.len() > 0 ==> event_doc(text) == json_parse(text),
        text.len() > 0 ==> (json_parse(text) matches Ok(d) ==> decoded(text) == d),
        text.len() > 0 && json_parse(text) is Err ==> decoded(text) is Null,
{
}

/// An aggregate has the data, the attachments and the time that were sent, all of the
/// attachments and in order; an attachment of no known type has none.
pub proof fn law_aggregates_are_whole(a: ChannelAggregate, p: AggregateParts, i: int)
    requires
        is_aggregate_of(Some(a), Some(p)),
    ensures
        a.data@ == decoded(p.data_json@),
        a.last_updated == p.last_updated,
        a.attachments@.len() == p.attachments@.len(),
        0 <= i < p.attachments@.len() ==> {
            let x = a.attachments@[i];
            let y = p.attachments@[i];
            &&& x.filename@ == y.filename@ && x.url@ == y.url@ && x.size == y.size_bytes
            &&& y.content_type@.len() == 0 ==> x.content_type is None
            &&& y.content_type@.len() > 0 ==> opt_chars(x.content_type) == Some(y.content_type@)
        },
{
}

// ---- requests -------------------------------------------------------------------------------

/// A write to an aggregate carries its channel, its document as text, and each of its
/// options as it is given.
pub proof fn law_writes_carry_their_options(
    op: AgentOp,
    to: Seq<char>,
    data: Json,
    opts: AggregateOptions,
    echo: bool,
)
    requires
        is_update(op, to, data, opts, echo),
    ensures
        op matches AgentOp::UpdateAggregate {
            channel,
            data_json,
            clear_attachments,
            replace_data,
            max_age_ms,
            save_log,
            return_aggregate,
        } && channel@ == to && data_json@ == json_text(written(data)) && clear_attachments
            == opts.clear_attachments && replace_data == opts.replace_data && max_age_ms
            == opts.max_age_ms && save_log == opts.save_log && return_aggregate == echo,
{
}

/// A message carries its channel, its document as text and its time; a one-shot has no
/// time, and an update names its message by its digits.
pub proof fn law_messages_carry_their_document(
    op: AgentOp,
    to: Seq<char>,
    data: Json,
    at_ms: u64,
    id: u64,
    opts: UpdateMessageOptions,
    list: ListMessagesOptions,
)
    ensures
        is_create(op, to, data, at_ms) ==> (op matches AgentOp::CreateMessage {
            channel,
            data_json,
            timestamp_ms,
        } && channel@ == to && data_json@ == json_text(written(data)) && timestamp_ms == at_ms),
        is_one_shot(op, to, data) ==> (op matches AgentOp::SendOneShot { channel, data_json }
            && channel@ == to && data_json@ == json_text(written(data))),
        is_message_update(op, to, id, data, opts) ==> (op matches AgentOp::UpdateMessage {
            channel,
            id_text,
            data_json,
            clear_attachments,
            replace_data,
        } && channel@ == to && id_text@ == decimal(id as nat) && data_json@ == json_text(
            written(data),
        ) && clear_attachments == opts.clear_attachments && replace_data == opts.replace_data),
        is_listing(op, to, list) ==> (op matches AgentOp::GetMessages {
            channel,
            before,
            after,
            limit,
            field_names,
        } && channel@ == to && before == list.before && after == list.after && limit == list.limit
            && views(field_names@) == views(list.field_names@)),
{
}

/// A payload is accepted exactly if it is an object whose keys, at every depth and inside
/// lists too, are not empty and made of letters, digits, underscores and dashes.
pub proof fn law_keys_are_plain(c: char, k: Seq<char>, j: Json)
    ensures
        key_char(c) <==> ({
            let n = c as u32;
            ||| 97 <= n <= 122
            ||| 65 <= n <= 90
            ||| 48 <= n <= 57
            ||| n == 95
            ||| n == 45
        }),
        valid_key(k) <==> k.len() > 0 && forall|i: int|
            0 <= i < k.len() ==> key_char(#[trigger] k[i]),
        !(j is Obj) ==> payload_fault(j) == Some("payload root must be an object"@),
        payload_fault(j) is None <==> j is Obj && clean_keys(j),
        j matches Json::Obj(e) ==> (clean_keys(j) <==> forall|i: int|
            0 <= i < e.len() ==> valid_key((#[trigger] e[i]).0) && clean_keys(e[i].1)),
        j matches Json::Arr(a) ==> (clean_keys(j) <==> forall|i: int|
            0 <= i < a.len() ==> clean_keys(#[trigger] a[i])),
{
    crate::docker::payload::law_accepted_payloads(j);
}

/// Levels and values are set on the pins that they are given for, now or after a while.
pub proof fn law_outputs_are_set(
    op: PlatformOp,
    to: Seq<i32>,
    levels: Seq<bool>,
    values: Seq<u32>,
    secs: u32,
)
    ensures
        sets_levels(op, to, levels, None) ==> (op matches PlatformOp::SetDo { pins, levels: l }
            && pins@ == to && l@ == levels),
        sets_levels(op, to, levels, Some(secs)) ==> (op matches PlatformOp::ScheduleDo {
            pins,
            levels: l,
            in_secs,
        } && pins@ == to && l@ == levels && in_secs == secs),
        sets_values(op, to, values, None) ==> (op matches PlatformOp::SetAo { pins, value_bits }
            && pins@ == to && value_bits@ == values),
        sets_values(op, to, values, Some(secs)) ==> (op matches PlatformOp::ScheduleAo {
            pins,
            value_bits,
            in_secs,
        } && pins@ == to && value_bits@ == values && in_secs == secs),
{
}

/// A change of an input's configuration carries what is to change, its edge by name, and
/// nothing else.
pub proof fn law_config_changes_carry_what_changes(op: PlatformOp, of: i32, u: DiConfigUpdate)
    requires
        is_config_change(op, of, u),
    ensures
        op matches PlatformOp::SetDiConfig { pin, pnp_mode, irq_edge, debounce_ms, wake_on_event }
            && pin == of && pnp_mode == u.pnp_mode && debounce_ms == u.debounce_ms && wake_on_event
            == u.wake_on_event && (u.irq_edge is None ==> irq_edge is None) && (u.irq_edge == Some(
            Edge::Rising,
        ) ==> opt_chars(irq_edge) == Some("rising"@)) && (u.irq_edge == Some(Edge::Falling)
            ==> opt_chars(irq_edge) == Some("falling"@)) && (u.irq_edge == Some(Edge::Both)
            ==> opt_chars(irq_edge) == Some("both"@)),
{
}

/// Registers are read, written and polled as their range says, over the bus with the
/// settings that it has.
pub proof fn law_registers_are_addressed(
    op: ModbusOp,
    range: RegisterRange,
    n: i32,
    data: Seq<i32>,
)
    ensures
        is_read(op, range, n) ==> (op matches ModbusOp::Read {
            modbus_id,
            register_type,
            address,
            count,
            bus,
            retries,
        } && modbus_id == range.modbus_id && register_type == range.register_type && address
            == range.start_address && count == n && retries == range.retries && bus_matches(
            range.bus,
            bus,
        )),
        is_write(op, range, data) ==> (op matches ModbusOp::Write {
            modbus_id,
            register_type,
            address,
            values,
            bus,
            retries,
        } && modbus_id == range.modbus_id && register_type == range.register_type && address
            == range.start_address && values@ == data && retries == range.retries && bus_matches(
            range.bus,
            bus,
        )),
        is_poll(op, range, n) ==> (op matches ModbusOp::Subscribe {
            modbus_id,
            register_type,
            address,
            count,
            poll_secs,
            bus,
        } && modbus_id == range.modbus_id && register_type == range.register_type && address
            == range.start_address && count == range.num_registers && poll_secs == n && bus_matches(
            range.bus,
            bus,
        )),
{
}

/// Whether a bus is sent with the settings that it has, setting by setting.
pub open spec fn bus_matches(bus: Option<BusSettings>, w: Option<WireBus>) -> bool {
    match bus {
        None => w is None,
        Some(BusSettings::Serial(s)) => w matches Some(
            WireBus::Serial {
                port,
                baud,
                modbus_method,
                data_bits,
                parity,
                stop_bits,
                timeout_ms,
            },
        ) && port@ == s.port@ && baud == s.baud && opt_chars(modbus_method) == Some(s.method@)
            && data_bits == Some(s.data_bits) && opt_chars(parity) == Some(s.parity@) && stop_bits
            == Some(s.stop_bits) && timeout_ms == Some(s.timeout_ms),
        Some(BusSettings::Tcp(t)) => w matches Some(
            WireBus::Ethernet { ip, tcp_port, modbus_method, timeout_ms },
        ) && ip@ == t.ip@ && tcp_port == t.port && modbus_method is None && timeout_ms == Some(
            t.timeout_ms,
        ),
    }
}

// ---- calls and feeds ---------------------------------------------------------------------------

/// A call is made again exactly if its first try found the sidecar unavailable. The
/// connection is given up then, and whenever a call ran out of time; no other end touches
/// it.
pub proof fn law_calls_end(first: bool)
    ensures
        call_step(first, CallEnd::Answered) == (CallStep { discard: false, retry: false }),
        call_step(first, CallEnd::Failed) == (CallStep { discard: false, retry: false }),
        call_step(first, CallEnd::Unavailable) == (CallStep { discard: first, retry: first }),
        call_step(first, CallEnd::DeadlineExceeded) == (CallStep { discard: true, retry: false }),
        call_step(first, CallEnd::TimedOut) == (CallStep { discard: true, retry: false }),
{
}

/// A feed that opened is read until it breaks or ends; then, and if it did not open, it is
/// opened again after a pause. An item does not end it.
pub proof fn law_feeds_go_on(phase: FeedPhase)
    ensures
        feed_next(FeedPhase::Opening, FeedInput::Opened) == FeedPhase::Reading,
        feed_next(FeedPhase::Opening, FeedInput::OpenFailed) == FeedPhase::Pausing,
        feed_next(FeedPhase::Reading, FeedInput::Item) == FeedPhase::Reading,
        feed_next(FeedPhase::Reading, FeedInput::Broken) == FeedPhase::Pausing,
        feed_next(FeedPhase::Reading, FeedInput::Ended) == FeedPhase::Pausing,
        feed_next(FeedPhase::Pausing, FeedInput::Paused) == FeedPhase::Opening,
{
}

// ---- options --------------------------------------------------------------------------------------

/// A flag takes the argument behind it as its value, `--debug` takes none, and what is no
/// flag is passed over.
pub proof fn law_flags_take_their_value(
    key: Seq<char>,
    value: Seq<char>,
    other: Seq<char>,
    rest: Seq<Seq<char>>,
)
    requires
        "--"@ + key != "--debug"@,
        !stands_at(other, "--"@, 0),
    ensures
        flags_of(seq!["--"@ + key, value] + rest) == seq![(key, value)] + flags_of(rest),
        has_debug(seq!["--"@ + key, value] + rest) == has_debug(rest),
        flags_of(seq!["--debug"@] + rest) == flags_of(rest),
        has_debug(seq!["--debug"@] + rest),
        flags_of(seq![other] + rest) == flags_of(rest),
        has_debug(seq![other] + rest) == has_debug(rest),
        flags_of(Seq::empty()).len() == 0,
        !has_debug(Seq::empty()),
{
    reveal_strlit("--");
    reveal_strlit("--debug");
    let flag = "--"@ + key;
    assert(flag.subrange(0, 2) =~= "--"@);
    assert(flag.skip(2) =~= key);
    let a = seq![flag, value] + rest;
    assert(a[0] == flag && a[1] == value);
    assert(a.skip(2) =~= rest);
    let b = seq!["--debug"@] + rest;
    assert(b[0] == "--debug"@);
    assert(b.skip(1) =~= rest);
    let c = seq![other] + rest;
    assert(c[0] == other);
    assert(c.skip(1) =~= rest);
    assert("--debug"@.subrange(0, 2) =~= "--"@);
}

/// Of a flag that is given twice the later value counts; flags that are not given have
/// none.
pub proof fn law_the_last_flag_counts(
    flags: Flags,
    key: Seq<char>,
    value: Seq<char>,
    other: Seq<char>,
)
    ensures
        flag_value(flags.push((key, value)), key) == Some(value),
        other != key ==> flag_value(flags.push((key, value)), other) == flag_value(flags, other),
        flag_value(Seq::empty(), key) is None,
{
    assert(flags.push((key, value)).drop_last() =~= flags);
}

/// A setting is what its flag says, else what its variable says if that is not empty, else
/// the default.
pub proof fn law_settings_come_from_flags_then_variables(
    flags: Flags,
    key: Seq<char>,
    variable: Option<String>,
    default: Seq<char>,
)
    ensures
        picked(flags, key, variable, default) == (if flag_value(flags, key) is Some {
            flag_value(flags, key).unwrap()
        } else if variable is Some && variable.unwrap()@.len() > 0 {
            variable.unwrap()@
        } else {
            default
        }),
        given(flags, key, variable) is None <==> flag_value(flags, key) is None && !(variable
            is Some && variable.unwrap()@.len() > 0),
{
}

/// Without flags and variables a run reaches the agent and the sidecars on this machine, has
/// no app and no configuration file, serves its health on 49200 and is not debugged; it
/// waits ten seconds after an error.
pub proof fn law_default_options(o: RunOptions, env: Environment)
    requires
        o.are_from(env, Seq::empty()),
        env.dda_uri is None && env.plt_uri is None && env.modbus_uri is None,
        env.app_key is None && env.config_fp is None && env.healthcheck_port is None,
        env.remote_dev is None && env.debug is None,
    ensures
        o.dda_uri@ == "127.0.0.1:50051"@,
        o.plt_uri@ == "localhost:50053"@,
        o.modbus_uri@ == "localhost:50054"@,
        o.app_key@.len() == 0,
        o.config_fp is None,
        o.healthcheck_port == 49200,
        !o.debug,
        o.error_wait_secs == 10,
{
    reveal_strlit("");
    reveal_strlit("49200");
    lemma_decimal_reads_back(49200);
    assert(natural("49200"@) == Some(49200nat)) by {
        lemma_port();
    }
}

proof fn lemma_port()
    ensures
        natural("49200"@) == Some(49200nat),
{
    reveal_strlit("49200");
    reveal_with_fuel(crate::text::decimal, 6);
    lemma_decimal_reads_back(49200);
    assert("49200"@ =~= decimal(49200));
}

/// A port is the number that its text says, and 49200 if that is no port.
pub proof fn law_ports_are_read(n: nat, text: Seq<char>)
    ensures
        n <= 65535 ==> port_of(decimal(n)) == n,
        n > 65535 ==> port_of(decimal(n)) == 49200,
        natural(text) is None ==> port_of(text) == 49200,
{
    lemma_decimal_reads_back(n);
}

/// For a remote device the local host in an address gives way to the remote one; without
/// one an address stays as it is.
pub proof fn law_remote_addresses(uri: Seq<char>, host: Seq<char>, port: Seq<char>)
    requires
        !host.contains('l'),
        !host.contains('1'),
        !port.contains('l'),
        !port.contains('1'),
    ensures
        rewritten(uri, None) == uri,
        rewritten("localhost"@ + port, Some(host)) == host + port,
        rewritten("127.0.0.1"@ + port, Some(host)) == host + port,
{
    reveal_strlit("localhost");
    reveal_strlit("127.0.0.1");
    let none = Seq::<char>::empty();
    let l = "localhost"@;
    let n = "127.0.0.1"@;
    assert(l[0] == 'l' && n[0] == '1');
    law_replacing(none, l, port, host);
    assert(none + l + port =~= l + port);
    assert(none + host + port =~= host + port);
    let there = host + port;
    assert(!there.contains('1')) by {
        if there.contains('1') {
            let i = choose|i: int| 0 <= i < there.len() && there[i] == '1';
            if i < host.len() {
                assert(host[i] == '1');
            } else {
                assert(port[i - host.len()] == '1');
            }
        }
    }
    law_replacing(there, n, none, host);
    let local = n + port;
    assert(!local.contains('l')) by {
        if local.contains('l') {
            let i = choose|i: int| 0 <= i < local.len() && local[i] == 'l';
            if i < n.len() {
                assert(n[i] != 'l');
            } else {
                assert(port[i - n.len()] == 'l');
            }
        }
    }
    law_replacing(local, l, none, host);
    law_replacing(none, n, port, host);
    assert(none + n + port =~= local);
}

/// An address without a scheme gets `http://` before it; one with a scheme stays as it is.
pub proof fn law_addresses_have_a_scheme(uri: Seq<char>)
    ensures
        (exists|i: int| stands_at(uri, "://"@, i)) ==> with_scheme(uri) == uri,
        !(exists|i: int| stands_at(uri, "://"@, i)) ==> with_scheme(uri) == "http://"@ + uri,
{
}

// ---- further requests ------------------------------------------------------------------------

/// Each request names what it is about: an aggregate or a stream its channel, a message its
/// channel and id, an echo its text, and a credential its camera.
pub proof fn law_requests_name_what_they_are_about(op: AgentOp, name: Seq<char>, id: u64)
    ensures
        is_fetch(op, name) <==> (op matches AgentOp::GetAggregate { channel } && channel@ == name),
        is_subscription(op, name) <==> (op matches AgentOp::Subscribe { channel } && channel@
            == name),
        is_message_fetch(op, name, id) <==> (op matches AgentOp::GetMessage { channel, message_id }
            && channel@ == name && message_id == id),
        is_echo(op, name) <==> (op matches AgentOp::TestComms { message } && message@ == name),
        is_turn_request(op, name) <==> (op matches AgentOp::GetTurnCredential { camera_name }
            && camera_name@ == name),
{
}

/// A message that was fetched has the ids and the channel of the reply, and its data decoded;
/// a reply without a channel names none.
pub proof fn law_fetched_messages_are_whole(m: Message, p: MessageParts)
    requires
        m.is_from(p),
    ensures
        m.message_id == p.message_id,
        m.author_id == p.author_id,
        p.channel_name matches Some(n) ==> m.channel_name@ == n@,
        p.channel_name is None ==> m.channel_name@.len() == 0,
        p.data_json@.len() > 0 ==> (json_parse(p.data_json@) matches Ok(d) ==> m.data@ == d),
{
}

/// A serial bus is opened with all of its settings, and a bus over TCP with its address and
/// its timeout.
pub proof fn law_bus_settings_are_carried(s: SerialBusSettings, t: TcpBusSettings, w: WireBus)
    ensures
        BusSettings::Serial(s).is_carried(w) ==> w is Serial && w->port@ == s.port@ && w->baud
            == s.baud && opt_chars(w->Serial_modbus_method) == Some(s.method@) && w->data_bits
            == Some(s.data_bits) && opt_chars(w->parity) == Some(s.parity@) && w->stop_bits == Some(
            s.stop_bits,
        ) && w->Serial_timeout_ms == Some(s.timeout_ms),
        BusSettings::Tcp(t).is_carried(w) ==> w is Ethernet && w->ip@ == t.ip@ && w->tcp_port
            == t.port && w->Ethernet_modbus_method is None && w->Ethernet_timeout_ms == Some(
            t.timeout_ms,
        ),
        is_carried_opt(None, Some(w)) == false,
        is_carried_opt(Some(BusSettings::Serial(s)), None) == false,
        is_carried_opt(Some(BusSettings::Serial(s)), Some(w)) <==> BusSettings::Serial(
            s,
        ).is_carried(w),
{
}

/// A reply of a sidecar fails exactly if its header says so, and without a message the cause
/// is not known; a bus counts as served only if a header says so.
pub proof fn law_sidecar_replies_mean_their_header(
    r: Result<(), DooverError>,
    m: Option<ModbusHeader>,
    p: Option<PlatformHeader>,
)
    ensures
        crate::docker::modbus::is_checked(r, m) ==> (r is Ok <==> (m matches Some(h) ==> h.success)),
        crate::docker::platform::is_checked(r, p) ==> (r is Ok <==> (p matches Some(h)
            ==> h.success)),
        crate::docker::modbus::is_checked(r, m) && (m matches Some(h) && !h.success
            && h.response_code == Some(404i32)) ==> r matches Err(DooverError::NotFound(_)),
        reports_success(m) <==> (m matches Some(h) && h.success),
{
}

/// A counter asks for all events of its pin since the start, those of its own edges and those
/// of the system.
pub proof fn law_counters_ask_for_their_edges(v: CounterView)
    ensures
        events_request(v) matches PlatformOp::GetDiEvents {
            pin,
            rising,
            falling,
            include_system_events,
            events_from,
        } && pin == v.pin && (rising <==> v.edge == Edge::Rising || v.edge == Edge::Both) && (falling
            <==> v.edge == Edge::Falling || v.edge == Edge::Both) && include_system_events
            && events_from == Some(0i64),
{
}

/// A single is positive if it is above zero, infinity among them; zero, negative numbers and
/// what is no number are not.
pub proof fn law_positive_numbers(bits: u32)
    ensures
        !is_positive(0),
        bits >= 0x8000_0000 ==> !is_positive(bits),
        0x7f80_0000 < bits < 0x8000_0000 ==> !is_positive(bits),
        0 < bits <= 0x7f80_0000 ==> is_positive(bits),
{
}

/// What is exported goes to the last path that is named, under the name behind the flag for
/// it; other flags are passed over.
pub proof fn law_exports_take_a_path_and_a_name(
    rest: Seq<Seq<char>>,
    path: Seq<char>,
    name: Option<Seq<char>>,
    word: Seq<char>,
)
    ensures
        export_scan(Seq::empty(), path, name) == (path, name),
        export_scan(seq!["--app-name"@, word] + rest, path, name) == export_scan(
            rest,
            path,
            Some(word),
        ),
        !stands_at(word, "--"@, 0) ==> export_scan(seq![word] + rest, path, name) == export_scan(
            rest,
            word,
            name,
        ),
        stands_at(word, "--"@, 0) && word != "--app-name"@ ==> export_scan(
            seq![word] + rest,
            path,
            name,
        ) == export_scan(rest, path, name),
{
    reveal_strlit("--app-name");
    reveal_strlit("--");
    assert((seq!["--app-name"@, word] + rest).skip(2) =~= rest);
    assert((seq![word] + rest).skip(1) =~= rest);
    if word == "--app-name"@ {
        assert("--app-name"@.subrange(0, 2) =~= "--"@);
        assert(stands_at(word, "--"@, 0));
    }
}

/// What is exported goes by the name given for it, then by the app's key, then by the name of
/// the program.
pub proof fn law_exports_go_by_a_name(name: Seq<char>, key: Option<String>, stem: Option<&str>)
    ensures
        export_name(Some(name), key, stem) == name,
        key matches Some(k) ==> (k@.len() > 0 ==> export_name(None, key, stem) == k@),
        (key matches Some(k) ==> k@.len() == 0) ==> (stem matches Some(s) ==> export_name(
            None,
            key,
            stem,
        ) == s@),
        (key matches Some(k) ==> k@.len() == 0) && stem is None ==> export_name(None, key, stem)
            == "app"@,
{
}

} // verus!
