//! The requests of the platform sidecar's client.
use vstd::prelude::*;

use crate::docker::platform::{
    broadcast_values, copy_pins, events_request, is_config_change, sets_levels, sets_values, spread,
    CounterView, DiConfigUpdate, Edge, PlatformOp, PulseCounter,
};
use crate::error::{is_other, DooverError};

verus! {

/// A client of the platform sidecar.
#[derive(Debug, Clone, Copy, PartialEq, Eq, Structural)]
pub struct PlatformClient;

fn just<T>(x: T) -> (v: Vec<T>)
    ensures
        v@ == seq![x],
{
    let mut v: Vec<T> = Vec::new();
    v.push(x);
    assert(v@ =~= seq![x]);
    v
}

impl PlatformClient {
    /// Asks for an echo.
    pub fn test_comms(&self, message: &str) -> (op: PlatformOp)
        ensures
            op matches PlatformOp::TestComms { message: m } && m@ == message@,
    {
        PlatformOp::TestComms { message: message.to_owned() }
    }

    // ---- inputs and outputs ------------------------------------------------------------

    /// Asks for the levels of digital inputs.
    pub fn fetch_dis(&self, pins: &Vec<i32>) -> (op: PlatformOp)
        ensures
            op matches PlatformOp::GetDi { pins: p } && p@ == pins@,
    {
        PlatformOp::GetDi { pins: copy_pins(pins) }
    }

    /// Asks for the level of a digital input.
    pub fn fetch_di(&self, pin: i32) -> (op: PlatformOp)
        ensures
            op matches PlatformOp::GetDi { pins: p } && p@ == seq![pin],
    {
        let pins = just(pin);
        PlatformOp::GetDi { pins }
    }

    /// Asks for the values of analog inputs.
    pub fn fetch_ais(&self, pins: &Vec<i32>) -> (op: PlatformOp)
        ensures
            op matches PlatformOp::GetAi { pins: p } && p@ == pins@,
    {
        PlatformOp::GetAi { pins: copy_pins(pins) }
    }

    /// Asks for the value of an analog input.
    pub fn fetch_ai(&self, pin: i32) -> (op: PlatformOp)
        ensures
            op matches PlatformOp::GetAi { pins: p } && p@ == seq![pin],
    {
        let pins = just(pin);
        PlatformOp::GetAi { pins }
    }

    /// Asks for the levels of digital outputs.
    pub fn fetch_dos(&self, pins: &Vec<i32>) -> (op: PlatformOp)
        ensures
            op matches PlatformOp::GetDo { pins: p } && p@ == pins@,
    {
        PlatformOp::GetDo { pins: copy_pins(pins) }
    }

    /// Asks for the level of a digital output.
    pub fn fetch_do(&self, pin: i32) -> (op: PlatformOp)
        ensures
            op matches PlatformOp::GetDo { pins: p } && p@ == seq![pin],
    {
        let pins = just(pin);
        PlatformOp::GetDo { pins }
    }

    /// Asks for the values of analog outputs.
    pub fn fetch_aos(&self, pins: &Vec<i32>) -> (op: PlatformOp)
        ensures
            op matches PlatformOp::GetAo { pins: p } && p@ == pins@,
    {
        PlatformOp::GetAo { pins: copy_pins(pins) }
    }

    /// Asks for the value of an analog output.
    pub fn fetch_ao(&self, pin: i32) -> (op: PlatformOp)
        ensures
            op matches PlatformOp::GetAo { pins: p } && p@ == seq![pin],
    {
        let pins = just(pin);
        PlatformOp::GetAo { pins }
    }

    /// Sets digital outputs.
    pub fn set_dos(&self, pins: &Vec<i32>, values: &Vec<bool>) -> (r: Result<PlatformOp, DooverError>)
        ensures
            match (spread(pins@.len(), values@), r) {
                (Some(v), Ok(op)) => sets_levels(op, pins@, v, None),
                (None, Err(e)) => is_other(
                    e,
                    "digital output"@ + " and value lists are not the same length"@,
                ),
                _ => false,
            },
    {
        match broadcast_values(pins, values, "digital output") {
            Ok(levels) => Ok(PlatformOp::SetDo { pins: copy_pins(pins), levels }),
            Err(e) => Err(e),
        }
    }

    /// Sets digital outputs after some seconds.
    pub fn schedule_dos(&self, pins: &Vec<i32>, values: &Vec<bool>, in_secs: u32) -> (r: Result<
        PlatformOp,
        DooverError,
    >)
        ensures
            match (spread(pins@.len(), values@), r) {
                (Some(v), Ok(op)) => sets_levels(op, pins@, v, Some(in_secs)),
                (None, Err(e)) => is_other(
                    e,
                    "digital output"@ + " and value lists are not the same length"@,
                ),
                _ => false,
            },
    {
        match broadcast_values(pins, values, "digital output") {
            Ok(levels) => Ok(PlatformOp::ScheduleDo { pins: copy_pins(pins), levels, in_secs }),
            Err(e) => Err(e),
        }
    }

    /// Sets analog outputs, by the bits of their values.
    pub fn set_aos(&self, pins: &Vec<i32>, values: &Vec<u32>) -> (r: Result<PlatformOp, DooverError>)
        ensures
            match (spread(pins@.len(), values@), r) {
                (Some(v), Ok(op)) => sets_values(op, pins@, v, None),
                (None, Err(e)) => is_other(
                    e,
                    "analogue output"@ + " and value lists are not the same length"@,
                ),
                _ => false,
            },
    {
        match broadcast_values(pins, values, "analogue output") {
            Ok(value_bits) => Ok(PlatformOp::SetAo { pins: copy_pins(pins), value_bits }),
            Err(e) => Err(e),
        }
    }

    /// Sets analog outputs after some seconds.
    pub fn schedule_aos(&self, pins: &Vec<i32>, values: &Vec<u32>, in_secs: u32) -> (r: Result<
        PlatformOp,
        DooverError,
    >)
        ensures
            match (spread(pins@.len(), values@), r) {
                (Some(v), Ok(op)) => sets_values(op, pins@, v, Some(in_secs)),
                (None, Err(e)) => is_other(
                    e,
                    "analogue output"@ + " and value lists are not the same length"@,
                ),
                _ => false,
            },
    {
        match broadcast_values(pins, values, "analogue output") {
            Ok(value_bits) => Ok(PlatformOp::ScheduleAo { pins: copy_pins(pins), value_bits, in_secs }),
            Err(e) => Err(e),
        }
    }

    /// Sets a digital output.
    pub fn set_do(&self, pin: i32, value: bool) -> (r: Result<PlatformOp, DooverError>)
        ensures
            r matches Ok(op) && sets_levels(op, seq![pin], seq![value], None),
    {
        self.set_dos(&just(pin), &just(value))
    }

    /// Sets a digital output, after some seconds.
    pub fn schedule_do(&self, pin: i32, value: bool, in_secs: u32) -> (r: Result<PlatformOp, DooverError>)
        ensures
            r matches Ok(op) && sets_levels(op, seq![pin], seq![value], Some(in_secs)),
    {
        self.schedule_dos(&just(pin), &just(value), in_secs)
    }

    /// Sets an analog output, by the bits of its value.
    pub fn set_ao(&self, pin: i32, value: u32) -> (r: Result<PlatformOp, DooverError>)
        ensures
            r matches Ok(op) && sets_values(op, seq![pin], seq![value], None),
    {
        self.set_aos(&just(pin), &just(value))
    }

    /// Sets an analog output, by the bits of its value, after some seconds.
    pub fn schedule_ao(&self, pin: i32, value: u32, in_secs: u32) -> (r: Result<PlatformOp, DooverError>)
        ensures
            r matches Ok(op) && sets_values(op, seq![pin], seq![value], Some(in_secs)),
    {
        self.schedule_aos(&just(pin), &just(value), in_secs)
    }

    // ---- the system --------------------------------------------------------------------

    /// Asks for the input voltage.
    pub fn fetch_system_voltage(&self) -> (op: PlatformOp)
        ensures
            op is GetInputVoltage,
    {
        PlatformOp::GetInputVoltage
    }

    /// Asks for the power that the system draws.
    pub fn fetch_system_power(&self) -> (op: PlatformOp)
        ensures
            op is GetSystemPower,
    {
        PlatformOp::GetSystemPower
    }

    /// Asks for the temperature of the system.
    pub fn fetch_system_temperature(&self) -> (op: PlatformOp)
        ensures
            op is GetTemperature,
    {
        PlatformOp::GetTemperature
    }

    /// Asks where the device is.
    pub fn fetch_location(&self) -> (op: PlatformOp)
        ensures
            op is GetLocation,
    {
        PlatformOp::GetLocation
    }

    /// Asks for the table of inputs and outputs.
    pub fn fetch_io_table(&self) -> (op: PlatformOp)
        ensures
            op is GetIoTable,
    {
        PlatformOp::GetIoTable
    }

    /// Sets the clock from the network.
    pub fn sync_rtc(&self) -> (op: PlatformOp)
        ensures
            op is SyncRtcTime,
    {
        PlatformOp::SyncRtcTime
    }

    /// Restarts the device.
    pub fn reboot(&self) -> (op: PlatformOp)
        ensures
            op is Reboot,
    {
        PlatformOp::Reboot
    }

    /// Shuts the device down.
    pub fn shutdown(&self) -> (op: PlatformOp)
        ensures
            op is Shutdown,
    {
        PlatformOp::Shutdown
    }

    /// Asks for how long the device refuses to shut down.
    pub fn fetch_immunity_seconds(&self) -> (op: PlatformOp)
        ensures
            op is GetShutdownImmunity,
    {
        PlatformOp::GetShutdownImmunity
    }

    /// Sets for how long the device refuses to shut down.
    pub fn set_immunity_seconds(&self, immunity_secs: i32) -> (op: PlatformOp)
        ensures
            op == (PlatformOp::SetShutdownImmunity { immunity_secs }),
    {
        PlatformOp::SetShutdownImmunity { immunity_secs }
    }

    /// Asks for the voltage that wakes the device.
    pub fn fetch_wake_on_voltage(&self) -> (op: PlatformOp)
        ensures
            op is GetWakeOnVoltage,
    {
        PlatformOp::GetWakeOnVoltage
    }

    /// Sets the voltage that wakes the device, by its bits; nothing to switch it off.
    pub fn set_wake_on_voltage(&self, voltage_bits: Option<u32>) -> (op: PlatformOp)
        ensures
            op == (PlatformOp::SetWakeOnVoltage { voltage_bits }),
    {
        PlatformOp::SetWakeOnVoltage { voltage_bits }
    }

    /// Asks what woke the device.
    pub fn fetch_wake_reason(&self) -> (op: PlatformOp)
        ensures
            op is GetWakeReason,
    {
        PlatformOp::GetWakeReason
    }

    /// Starts the device after some seconds.
    pub fn schedule_startup(&self, time_secs: u32) -> (op: PlatformOp)
        ensures
            op == (PlatformOp::ScheduleStartup { time_secs }),
    {
        PlatformOp::ScheduleStartup { time_secs }
    }

    /// Shuts the device down after some seconds.
    pub fn schedule_shutdown(&self, time_secs: u32) -> (op: PlatformOp)
        ensures
            op == (PlatformOp::ScheduleShutdown { time_secs }),
    {
        PlatformOp::ScheduleShutdown { time_secs }
    }

    /// Asks for what was recorded while the device slept, from a time on.
    pub fn fetch_sleep_log(&self, since: i64) -> (op: PlatformOp)
        ensures
            op == (PlatformOp::GetSleepLog { since: Some(since) }),
    {
        PlatformOp::GetSleepLog { since: Some(since) }
    }

    /// Asks for the time between two records of a sleeping device.
    pub fn fetch_sleep_log_interval(&self) -> (op: PlatformOp)
        ensures
            op is GetSleepLogInterval,
    {
        PlatformOp::GetSleepLogInterval
    }

    /// Sets the time between two records of a sleeping device.
    pub fn set_sleep_log_interval(&self, interval_secs: i32) -> (op: PlatformOp)
        ensures
            op == (PlatformOp::SetSleepLogInterval { interval_secs }),
    {
        PlatformOp::SetSleepLogInterval { interval_secs }
    }

    // ---- events ------------------------------------------------------------------------

    /// Asks for the events of the platform, from a number or a time on.
    pub fn fetch_events(&self, events_from: i64) -> (op: PlatformOp)
        ensures
            op == (PlatformOp::GetEvents { events_from: Some(events_from) }),
    {
        PlatformOp::GetEvents { events_from: Some(events_from) }
    }

    /// Asks for the stored events of a digital input.
    pub fn fetch_di_events(&self, pin: i32, edge: Edge, include_system_events: bool, events_from: i64) -> (op:
        PlatformOp)
        ensures
            op == (PlatformOp::GetDiEvents {
                pin,
                rising: edge != Edge::Falling,
                falling: edge != Edge::Rising,
                include_system_events,
                events_from: Some(events_from),
            }),
    {
        let (rising, falling) = edge.flags();
        PlatformOp::GetDiEvents {
            pin,
            rising,
            falling,
            include_system_events,
            events_from: Some(events_from),
        }
    }

    /// Asks for the configuration of a digital input.
    pub fn fetch_di_config(&self, pin: i32) -> (op: PlatformOp)
        ensures
            op == (PlatformOp::GetDiConfig { pin }),
    {
        PlatformOp::GetDiConfig { pin }
    }

    /// Changes the configuration of a digital input.
    pub fn set_di_config(&self, pin: i32, update: &DiConfigUpdate) -> (op: PlatformOp)
        ensures
            is_config_change(op, pin, *update),
    {
        let irq_edge = match update.irq_edge {
            Some(e) => Some(e.as_str().to_owned()),
            None => None,
        };
        PlatformOp::SetDiConfig {
            pin,
            pnp_mode: update.pnp_mode,
            irq_edge,
            debounce_ms: update.debounce_ms,
            wake_on_event: update.wake_on_event,
        }
    }

    /// Asks for the pulses of a digital input.
    pub fn subscribe_di_pulses(&self, di: i32, edge: Edge) -> (op: PlatformOp)
        ensures
            op matches PlatformOp::StartPulseCounter { pin, edge: name } && pin == di && name@
                == edge.name(),
    {
        PlatformOp::StartPulseCounter { pin: di, edge: edge.as_str().to_owned() }
    }

    /// A counter of live pulses, and the number that its listener counts from if it is
    /// started at once.
    pub fn get_new_pulse_counter(
        &self,
        di: i32,
        edge: Edge,
        rate_window_ms: u64,
        auto_start: bool,
        now: i64,
    ) -> (r: (PulseCounter, Option<u64>))
        ensures
            r.0@ == (CounterView {
                pin: di,
                edge,
                count: 0,
                stamps: Seq::empty(),
                window: rate_window_ms,
                receiving_pulses: auto_start,
                receiving_events: false,
                start: now,
            }),
            r.1 == (if auto_start {
                Some(0u64)
            } else {
                None
            }),
    {
        let mut counter = PulseCounter::new(di, edge, rate_window_ms, now);
        let mut from: Option<u64> = None;
        if auto_start {
            from = counter.start_listener_pulses(now);
        }
        (counter, from)
    }

    /// A counter of stored events, and the request for them if they are collected at
    /// once.
    pub fn get_new_event_counter(
        &self,
        di: i32,
        edge: Edge,
        rate_window_ms: u64,
        auto_collect: bool,
        now: i64,
    ) -> (r: (PulseCounter, Option<PlatformOp>))
        ensures
            r.0@ == (CounterView {
                pin: di,
                edge,
                count: 0,
                stamps: Seq::empty(),
                window: rate_window_ms,
                receiving_pulses: false,
                receiving_events: auto_collect,
                start: now,
            }),
            r.1 == (if auto_collect {
                Some(events_request(r.0@))
            } else {
                None
            }),
    {
        let mut counter = PulseCounter::new(di, edge, rate_window_ms, now);
        let mut request: Option<PlatformOp> = None;
        if auto_collect {
            request = counter.update_events();
        }
        (counter, request)
    }
}

} // verus!
