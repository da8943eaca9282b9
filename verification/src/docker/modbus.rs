//! Reading and writing registers through the modbus sidecar. A request carries the
//! settings of its bus, so that the bus is opened when it is needed.
use vstd::prelude::*;

use crate::docker::grpc::{check_response_header, is_failure};
use crate::error::{is_other, DooverError};
use crate::text::opt_chars;

verus! {

/// The name of the service.
pub const SERVICE_NAME: &'static str = "doover.ModbusInterface";

/// The settings of a serial bus.
#[derive(Debug, Clone, PartialEq, Eq)]
pub struct SerialBusSettings {
    /// The device.
    pub port: String,
    pub baud: i32,
    /// `rtu` or `ascii`.
    pub method: String,
    pub data_bits: i32,
    /// `N`, `E` or `O`.
    pub parity: String,
    pub stop_bits: i32,
    pub timeout_ms: u32,
}

impl Default for SerialBusSettings {
    fn default() -> (s: Self)
        ensures
            s.port@ == "/dev/ttyS0"@,
            s.baud == 9600,
            s.method@ == "rtu"@,
            s.data_bits == 8,
            s.parity@ == "N"@,
            s.stop_bits == 1,
            s.timeout_ms == 300,
    {
        SerialBusSettings {
            port: "/dev/ttyS0".to_owned(),
            baud: 9600,
            method: "rtu".to_owned(),
            data_bits: 8,
            parity: "N".to_owned(),
            stop_bits: 1,
            timeout_ms: 300,
        }
    }
}

/// The settings of a bus over TCP.
#[derive(Debug, Clone, PartialEq, Eq)]
pub struct TcpBusSettings {
    pub ip: String,
    pub port: i32,
    pub timeout_ms: u32,
}

impl Default for TcpBusSettings {
    fn default() -> (s: Self)
        ensures
            s.ip@ == "127.0.0.1"@,
            s.port == 5000,
            s.timeout_ms == 2000,
    {
        TcpBusSettings { ip: "127.0.0.1".to_owned(), port: 5000, timeout_ms: 2000 }
    }
}

/// The settings of a bus.
#[derive(Debug, Clone, PartialEq, Eq)]
pub enum BusSettings {
    Serial(SerialBusSettings),
    Tcp(TcpBusSettings),
}

/// The settings of a bus as a request carries them.
#[derive(Debug)]
pub enum WireBus {
    Serial {
        port: String,
        baud: i32,
        modbus_method: Option<String>,
        data_bits: Option<i32>,
        parity: Option<String>,
        stop_bits: Option<i32>,
        timeout_ms: Option<u32>,
    },
    Ethernet { ip: String, tcp_port: i32, modbus_method: Option<String>, timeout_ms: Option<u32> },
}

impl BusSettings {
    /// Whether a request carries these settings: all of a serial bus, and of a bus
    /// over TCP all but a method, which it does not have.
    pub open spec fn is_carried(&self, w: WireBus) -> bool {
        match (self, w) {
            (
                BusSettings::Serial(s),
                WireBus::Serial {
                    port,
                    baud,
                    modbus_method,
                    data_bits,
                    parity,
                    stop_bits,
                    timeout_ms,
                },
            ) => {
                &&& port@ == s.port@
                &&& baud == s.baud
                &&& opt_chars(modbus_method) == Some(s.method@)
                &&& data_bits == Some(s.data_bits)
                &&& opt_chars(parity) == Some(s.parity@)
                &&& stop_bits == Some(s.stop_bits)
                &&& timeout_ms == Some(s.timeout_ms)
            },
            (
                BusSettings::Tcp(t),
                WireBus::Ethernet { ip, tcp_port, modbus_method, timeout_ms },
            ) => {
                &&& ip@ == t.ip@
                &&& tcp_port == t.port
                &&& modbus_method is None
                &&& timeout_ms == Some(t.timeout_ms)
            },
            _ => false,
        }
    }

    /// The settings as a request carries them.
    pub fn to_wire(&self) -> (w: WireBus)
        ensures
            self.is_carried(w),
    {
        match self {
            BusSettings::Serial(s) => WireBus::Serial {
                port: s.port.clone(),
                baud: s.baud,
                modbus_method: Some(s.method.clone()),
                data_bits: Some(s.data_bits),
                parity: Some(s.parity.clone()),
                stop_bits: Some(s.stop_bits),
                timeout_ms: Some(s.timeout_ms),
            },
            BusSettings::Tcp(t) => WireBus::Ethernet {
                ip: t.ip.clone(),
                tcp_port: t.port,
                modbus_method: None,
                timeout_ms: Some(t.timeout_ms),
            },
        }
    }
}

/// Whether a request carries the settings of a bus that may be missing.
pub open spec fn is_carried_opt(bus: Option<BusSettings>, w: Option<WireBus>) -> bool {
    match (bus, w) {
        (Some(b), Some(w)) => b.is_carried(w),
        (None, None) => true,
        _ => false,
    }
}

/// The settings of a bus that may be missing, as a request carries them.
pub fn bus_to_wire(bus: &Option<BusSettings>) -> (w: Option<WireBus>)
    ensures
        is_carried_opt(*bus, w),
{
    match bus {
        Some(b) => Some(b.to_wire()),
        None => None,
    }
}

/// A range of registers.
#[derive(Debug, Clone)]
pub struct RegisterRange {
    /// The device on the bus.
    pub modbus_id: i32,
    pub register_type: i32,
    pub start_address: i32,
    pub num_registers: i32,
    /// The sidecar's default if missing.
    pub bus: Option<BusSettings>,
    /// How often the sidecar tries again; its default if missing.
    pub retries: Option<i32>,
}

impl Default for RegisterRange {
    fn default() -> (r: Self)
        ensures
            r.modbus_id == 1,
            r.register_type == 4,
            r.start_address == 0,
            r.num_registers == 1,
            r.bus is None,
            r.retries is None,
    {
        RegisterRange {
            modbus_id: 1,
            register_type: 4,
            start_address: 0,
            num_registers: 1,
            bus: None,
            retries: None,
        }
    }
}

/// A request to the sidecar.
#[derive(Debug)]
pub enum ModbusOp {
    Read {
        modbus_id: i32,
        register_type: i32,
        address: i32,
        count: i32,
        bus: Option<WireBus>,
        retries: Option<i32>,
    },
    Write {
        modbus_id: i32,
        register_type: i32,
        address: i32,
        values: Vec<i32>,
        bus: Option<WireBus>,
        retries: Option<i32>,
    },
    Subscribe {
        modbus_id: i32,
        register_type: i32,
        address: i32,
        count: i32,
        poll_secs: i32,
        bus: Option<WireBus>,
    },
    OpenBus { bus_id: String, bus: Option<WireBus> },
    CloseBus { bus_id: String },
    BusStatus { bus_id: String },
    ListBuses,
    TestComms { message: String },
}

/// Whether a request reads a number of registers from where a range begins.
pub open spec fn is_read(op: ModbusOp, range: RegisterRange, num: i32) -> bool {
    match op {
        ModbusOp::Read { modbus_id, register_type, address, count, bus, retries } => {
            &&& modbus_id == range.modbus_id
            &&& register_type == range.register_type
            &&& address == range.start_address
            &&& count == num
            &&& is_carried_opt(range.bus, bus)
            &&& retries == range.retries
        },
        _ => false,
    }
}

/// Whether a request writes registers from where a range begins.
pub open spec fn is_write(op: ModbusOp, range: RegisterRange, data: Seq<i32>) -> bool {
    match op {
        ModbusOp::Write { modbus_id, register_type, address, values, bus, retries } => {
            &&& modbus_id == range.modbus_id
            &&& register_type == range.register_type
            &&& address == range.start_address
            &&& values@ == data
            &&& is_carried_opt(range.bus, bus)
            &&& retries == range.retries
        },
        _ => false,
    }
}

/// Whether a request has a range polled.
pub open spec fn is_poll(op: ModbusOp, range: RegisterRange, every_secs: i32) -> bool {
    match op {
        ModbusOp::Subscribe { modbus_id, register_type, address, count, poll_secs, bus } => {
            &&& modbus_id == range.modbus_id
            &&& register_type == range.register_type
            &&& address == range.start_address
            &&& count == range.num_registers
            &&& poll_secs == every_secs
            &&& is_carried_opt(range.bus, bus)
        },
        _ => false,
    }
}

/// A client of the Modbus sidecar.
#[derive(Debug, Clone, Copy, PartialEq, Eq, Structural)]
pub struct ModbusClient;

impl ModbusClient {
    /// Asks for an echo.
    pub fn test_comms(&self, message: &str) -> (op: ModbusOp)
        ensures
            op matches ModbusOp::TestComms { message: m } && m@ == message@,
    {
        ModbusOp::TestComms { message: message.to_owned() }
    }

    /// Opens a bus.
    pub fn open_bus(&self, bus_id: &str, settings: &BusSettings) -> (op: ModbusOp)
        ensures
            op matches ModbusOp::OpenBus { bus_id: id, bus } && id@ == bus_id@ && is_carried_opt(
                Some(*settings),
                bus,
            ),
    {
        ModbusOp::OpenBus { bus_id: bus_id.to_owned(), bus: Some(settings.to_wire()) }
    }

    /// Closes a bus.
    pub fn close_bus(&self, bus_id: &str) -> (op: ModbusOp)
        ensures
            op matches ModbusOp::CloseBus { bus_id: id } && id@ == bus_id@,
    {
        ModbusOp::CloseBus { bus_id: bus_id.to_owned() }
    }

    /// Asks whether a bus is open.
    pub fn fetch_bus_status(&self, bus_id: &str) -> (op: ModbusOp)
        ensures
            op matches ModbusOp::BusStatus { bus_id: id } && id@ == bus_id@,
    {
        ModbusOp::BusStatus { bus_id: bus_id.to_owned() }
    }

    /// Asks for the buses.
    pub fn list_buses(&self) -> (op: ModbusOp)
        ensures
            op is ListBuses,
    {
        ModbusOp::ListBuses
    }

    /// Asks for a range of registers.
    pub fn read_registers(&self, range: &RegisterRange) -> (op: ModbusOp)
        ensures
            is_read(op, *range, range.num_registers),
    {
        ModbusOp::Read {
            modbus_id: range.modbus_id,
            register_type: range.register_type,
            address: range.start_address,
            count: range.num_registers,
            bus: bus_to_wire(&range.bus),
            retries: range.retries,
        }
    }

    /// Asks for one register, whatever the length of the range.
    pub fn read_register(&self, range: &RegisterRange) -> (op: ModbusOp)
        ensures
            is_read(op, *range, 1),
    {
        ModbusOp::Read {
            modbus_id: range.modbus_id,
            register_type: range.register_type,
            address: range.start_address,
            count: 1,
            bus: bus_to_wire(&range.bus),
            retries: range.retries,
        }
    }

    /// Writes registers, as many as there are values.
    pub fn write_registers(&self, range: &RegisterRange, values: Vec<i32>) -> (op: ModbusOp)
        ensures
            is_write(op, *range, values@),
    {
        ModbusOp::Write {
            modbus_id: range.modbus_id,
            register_type: range.register_type,
            address: range.start_address,
            values,
            bus: bus_to_wire(&range.bus),
            retries: range.retries,
        }
    }

    /// Has a range of registers polled.
    pub fn add_read_register_subscription(&self, range: &RegisterRange, poll_secs: i32) -> (op: ModbusOp)
        ensures
            is_poll(op, *range, poll_secs),
    {
        ModbusOp::Subscribe {
            modbus_id: range.modbus_id,
            register_type: range.register_type,
            address: range.start_address,
            count: range.num_registers,
            poll_secs,
            bus: bus_to_wire(&range.bus),
        }
    }
}

/// The header of the sidecar's response.
#[derive(Debug)]
pub struct ModbusHeader {
    pub success: bool,
    pub response_code: Option<i32>,
    pub response_message: Option<String>,
}

/// Whether a check of a header came out as it should. A missing header is no
/// failure.
pub open spec fn is_checked(r: Result<(), DooverError>, header: Option<ModbusHeader>) -> bool {
    match header {
        None => r is Ok,
        Some(h) => match r {
            Ok(_) => h.success,
            Err(e) => !h.success && is_failure(
                e,
                h.response_code,
                match h.response_message {
                    Some(m) => m@,
                    None => "Unknown error"@,
                },
            ),
        },
    }
}

/// What the header of a response means.
pub fn check(header: Option<ModbusHeader>) -> (r: Result<(), DooverError>)
    ensures
        is_checked(r, header),
{
    match header {
        Some(h) => check_response_header(h.success, h.response_code, h.response_message),
        None => Ok(()),
    }
}

/// Whether a header reports success. A missing header does not.
pub open spec fn reports_success(header: Option<ModbusHeader>) -> bool {
    match header {
        Some(h) => h.success,
        None => false,
    }
}

/// Whether a header reports success.
pub fn succeeded(header: &Option<ModbusHeader>) -> (r: bool)
    ensures
        r == reports_success(*header),
{
    match header {
        Some(h) => h.success,
        None => false,
    }
}

/// Whether a bus is open: the sidecar reports success and says so.
pub fn bus_is_open(header: &Option<ModbusHeader>, open: Option<bool>) -> (r: bool)
    ensures
        r == (reports_success(*header) && open == Some(true)),
{
    let ok = succeeded(header);
    ok && match open {
        Some(b) => b,
        None => false,
    }
}

/// The values that were read.
pub fn read_values(header: Option<ModbusHeader>, values: Vec<i32>) -> (r: Result<
    Vec<i32>,
    DooverError,
>)
    ensures
        match r {
            Ok(v) => is_checked(Ok(()), header) && v == values,
            Err(e) => is_checked(Err(e), header),
        },
{
    match check(header) {
        Ok(()) => Ok(values),
        Err(e) => Err(e),
    }
}

/// The value that was read.
pub fn read_value(header: Option<ModbusHeader>, values: Vec<i32>) -> (r: Result<i32, DooverError>)
    ensures
        match r {
            Ok(v) => is_checked(Ok(()), header) && values@.len() > 0 && v == values@[0],
            Err(e) => is_checked(Err(e), header) || (is_checked(Ok(()), header) && values@.len()
                == 0 && is_other(e, "read_register: sidecar returned no values"@)),
        },
{
    match check(header) {
        Ok(()) => {
            if values.len() > 0 {
                Ok(values[0])
            } else {
                Err(DooverError::Other("read_register: sidecar returned no values".to_owned()))
            }
        },
        Err(e) => Err(e),
    }
}

/// What a poll brought: the values, or nothing if it failed.
pub fn poll_result(header: &Option<ModbusHeader>, values: Vec<i32>) -> (r: Option<Vec<i32>>)
    ensures
        r == (if reports_success(*header) {
            Some(values)
        } else {
            None
        }),
{
    if succeeded(header) {
        Some(values)
    } else {
        None
    }
}

/// Two registers as one number: the first is the low word, unless they are swapped.
pub fn two_words_to_32bit_float(word1: u16, word2: u16, swap: bool) -> (r: u32)
    ensures
        r == (if swap {
            word2 + word1 * 65536
        } else {
            word1 + word2 * 65536
        }),
{
    let (low, high): (u16, u16) = if swap {
        (word2, word1)
    } else {
        (word1, word2)
    };
    low as u32 + (high as u32) * 65536
}

} // verus!
