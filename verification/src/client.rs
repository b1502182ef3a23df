use vstd::prelude::*;

use crate::config::{is_default_serial, DataFormat, SerialConfig};
use crate::display::{display_chars, format_data_for_display};
use crate::error::{ends_with_utc_offset, utc_now_rfc3339, SerialError};
use crate::text::{decimal_chars, decimal_string};

verus! {

broadcast use vstd::string::group_string_axioms;

/// `std::time::Instant`, the moment of the last activity and of the connection.
#[verifier::external_type_specification]
#[verifier::external_body]
pub struct ExInstant(std::time::Instant);

/// `std::time::Instant::now()`. Which moment it gives, nothing here states.
#[verifier::external_body]
fn instant_now() -> (r: std::time::Instant) {
    std::time::Instant::now()
}

/// State of the serial connection.
#[derive(Clone, Debug)]
pub enum ConnectionStatus {
    /// No port is open.
    Disconnected,
    /// A port is being opened.
    Connecting,
    /// A port is open.
    Connected,
    /// The connection failed.
    Error(String),
}

/// A serial port found on the system.
#[derive(Clone, Debug)]
pub struct PortInfo {
    pub port_name: String,
    pub port_type: String,
    pub description: Option<String>,
    pub hardware_id: Option<String>,
    pub vendor_id: Option<u16>,
    pub product_id: Option<u16>,
}

/// What a USB serial adapter reports about itself.
#[derive(Clone, Debug)]
pub struct UsbDetails {
    pub vid: u16,
    pub pid: u16,
    pub serial_number: Option<String>,
    pub product: Option<String>,
}

/// The description of a port named `port_name` of kind `port_type`: a USB port is
/// described by its product name, serial number, vendor and product ids; any other
/// port by its name and kind alone.
pub fn port_info_from(port_name: String, port_type: String, usb: Option<UsbDetails>) -> (r: PortInfo)
    ensures
        r.port_name == port_name,
        r.port_type == port_type,
        match usb {
            Some(u) => {
                &&& r.description == u.product
                &&& r.hardware_id == u.serial_number
                &&& r.vendor_id == Some(u.vid)
                &&& r.product_id == Some(u.pid)
            },
            None => {
                &&& r.description is None
                &&& r.hardware_id is None
                &&& r.vendor_id is None
                &&& r.product_id is None
            },
        },
{
    match usb {
        Some(u) => PortInfo {
            port_name,
            port_type,
            description: u.product,
            hardware_id: u.serial_number,
            vendor_id: Some(u.vid),
            product_id: Some(u.pid),
        },
        None => PortInfo {
            port_name,
            port_type,
            description: None,
            hardware_id: None,
            vendor_id: None,
            product_id: None,
        },
    }
}

/// A chunk of data that went over the line.
#[derive(Clone, Debug)]
pub struct DataPacket {
    pub timestamp: String,
    pub direction: DataDirection,
    pub data: Vec<u8>,
    pub format: DataFormat,
    pub display_text: String,
}

/// Which way a packet went.
#[derive(Clone, Copy, Debug, PartialEq, Eq, Structural)]
pub enum DataDirection {
    /// Written to the port.
    Sent,
    /// Read from the port.
    Received,
}

/// Counters of the traffic on the line.
#[derive(Clone, Debug)]
pub struct Statistics {
    pub bytes_sent: u64,
    pub bytes_received: u64,
    pub packets_sent: u64,
    pub packets_received: u64,
    pub errors_count: u64,
    pub connection_time: Option<std::time::Duration>,
    pub last_activity: Option<std::time::Instant>,
}

/// All counters at zero, no connection time and no activity yet.
pub open spec fn is_fresh(s: Statistics) -> bool {
    &&& s.bytes_sent == 0
    &&& s.bytes_received == 0
    &&& s.packets_sent == 0
    &&& s.packets_received == 0
    &&& s.errors_count == 0
    &&& s.connection_time is None
    &&& s.last_activity is None
}

impl Statistics {
    /// Counters that have seen nothing yet.
    pub fn new() -> (r: Statistics)
        ensures
            is_fresh(r),
    {
        Statistics {
            bytes_sent: 0,
            bytes_received: 0,
            packets_sent: 0,
            packets_received: 0,
            errors_count: 0,
            connection_time: None,
            last_activity: None,
        }
    }

    /// Counts one packet of `len` bytes written to the port, and notes the activity.
    pub fn record_sent(&mut self, len: usize)
        requires
            old(self).bytes_sent + len <= u64::MAX,
            old(self).packets_sent < u64::MAX,
        ensures
            final(self).bytes_sent == old(self).bytes_sent + len,
            final(self).packets_sent == old(self).packets_sent + 1,
            final(self).bytes_received == old(self).bytes_received,
            final(self).packets_received == old(self).packets_received,
            final(self).errors_count == old(self).errors_count,
            final(self).connection_time == old(self).connection_time,
            final(self).last_activity is Some,
    {
        self.bytes_sent = self.bytes_sent + len as u64;
        self.packets_sent = self.packets_sent + 1;
        self.last_activity = Some(instant_now());
    }

    /// Counts one error on the line (a write that failed).
    pub fn record_error(&mut self)
        requires
            old(self).errors_count < u64::MAX,
        ensures
            final(self).errors_count == old(self).errors_count + 1,
            final(self).bytes_sent == old(self).bytes_sent,
            final(self).bytes_received == old(self).bytes_received,
            final(self).packets_sent == old(self).packets_sent,
            final(self).packets_received == old(self).packets_received,
            final(self).connection_time == old(self).connection_time,
            final(self).last_activity == old(self).last_activity,
    {
        self.errors_count = self.errors_count + 1;
    }

    /// Counts one packet of `len` bytes read from the port, and notes the activity.
    pub fn record_received(&mut self, len: usize)
        requires
            old(self).bytes_received + len <= u64::MAX,
            old(self).packets_received < u64::MAX,
        ensures
            final(self).bytes_received == old(self).bytes_received + len,
            final(self).packets_received == old(self).packets_received + 1,
            final(self).bytes_sent == old(self).bytes_sent,
            final(self).packets_sent == old(self).packets_sent,
            final(self).errors_count == old(self).errors_count,
            final(self).connection_time == old(self).connection_time,
            final(self).last_activity is Some,
    {
        self.bytes_received = self.bytes_received + len as u64;
        self.packets_received = self.packets_received + 1;
        self.last_activity = Some(instant_now());
    }
}

/// Character size setting of the line.
#[derive(Clone, Copy, Debug, PartialEq, Eq, Structural)]
pub enum DataBits {
    Five,
    Six,
    Seven,
    Eight,
}

/// Stop bit setting of the line.
#[derive(Clone, Copy, Debug, PartialEq, Eq, Structural)]
pub enum StopBits {
    One,
    Two,
}

/// The character size for `bits` data bits, if there is one.
pub open spec fn data_bits_setting(bits: u8) -> Option<DataBits> {
    if bits == 5 {
        Some(DataBits::Five)
    } else if bits == 6 {
        Some(DataBits::Six)
    } else if bits == 7 {
        Some(DataBits::Seven)
    } else if bits == 8 {
        Some(DataBits::Eight)
    } else {
        None
    }
}

/// The number of data bits in a character of size `d`.
pub open spec fn bit_count(d: DataBits) -> nat {
    match d {
        DataBits::Five => 5,
        DataBits::Six => 6,
        DataBits::Seven => 7,
        DataBits::Eight => 8,
    }
}

/// The number of stop bits that `s` stands for.
pub open spec fn stop_count(s: StopBits) -> nat {
    match s {
        StopBits::One => 1,
        StopBits::Two => 2,
    }
}

/// The line is opened with exactly the character size asked for: each count from 5 to 8
/// has a setting, that setting has that many data bits, and no other count has one.
pub proof fn lemma_data_bits_setting_exact(bits: u8)
    ensures
        data_bits_setting(bits) is Some <==> 5 <= bits <= 8,
        data_bits_setting(bits) matches Some(d) ==> bit_count(d) == bits,
{
}

/// Two different counts of data bits never open the line with the same setting.
pub proof fn lemma_data_bits_setting_injective(a: u8, b: u8)
    requires
        data_bits_setting(a) is Some,
        data_bits_setting(a) == data_bits_setting(b),
    ensures
        a == b,
{
    lemma_data_bits_setting_exact(a);
    lemma_data_bits_setting_exact(b);
}

/// The character size for `bits` data bits; any count but 5 to 8 is refused with
/// `不支持的数据位: <bits>`.
pub fn convert_data_bits(bits: u8) -> (r: Result<DataBits, SerialError>)
    ensures
        r matches Ok(d) ==> bit_count(d) == bits,
        r is Ok <==> 5 <= bits <= 8,
        match data_bits_setting(bits) {
            Some(d) => r == Ok::<DataBits, SerialError>(d),
            None => r matches Err(SerialError::InvalidConfiguration(s)) && s@ == "不支持的数据位: "@
                + decimal_chars(bits as nat),
        },
{
    if bits == 5 {
        Ok(DataBits::Five)
    } else if bits == 6 {
        Ok(DataBits::Six)
    } else if bits == 7 {
        Ok(DataBits::Seven)
    } else if bits == 8 {
        Ok(DataBits::Eight)
    } else {
        let mut s = String::from_str("不支持的数据位: ");
        let n = decimal_string(bits as u64);
        s.append(n.as_str());
        Err(SerialError::InvalidConfiguration(s))
    }
}

/// The stop bit setting for `bits`; any count but 1 or 2 is refused with
/// `不支持的停止位: <bits>`.
pub fn convert_stop_bits(bits: u8) -> (r: Result<StopBits, SerialError>)
    ensures
        r matches Ok(s) ==> stop_count(s) == bits,
        r is Ok <==> (bits == 1 || bits == 2),
        bits == 1 ==> r == Ok::<StopBits, SerialError>(StopBits::One),
        bits == 2 ==> r == Ok::<StopBits, SerialError>(StopBits::Two),
        bits != 1 && bits != 2 ==> (r matches Err(SerialError::InvalidConfiguration(s)) && s@
            == "不支持的停止位: "@ + decimal_chars(bits as nat)),
{
    if bits == 1 {
        Ok(StopBits::One)
    } else if bits == 2 {
        Ok(StopBits::Two)
    } else {
        let mut s = String::from_str("不支持的停止位: ");
        let n = decimal_string(bits as u64);
        s.append(n.as_str());
        Err(SerialError::InvalidConfiguration(s))
    }
}

/// Why `c` cannot be used to open a port, checked in this order: no port name, a baud
/// rate of 0, data bits other than 5 to 8, stop bits other than 1 or 2.
pub open spec fn config_problem(c: SerialConfig) -> Option<Seq<char>> {
    if c.port@.len() == 0 {
        Some("端口名称不能为空"@)
    } else if c.baud_rate == 0 {
        Some("波特率必须大于0"@)
    } else if !(5 <= c.data_bits <= 8) {
        Some("数据位必须为5-8"@)
    } else if !(c.stop_bits == 1 || c.stop_bits == 2) {
        Some("停止位必须为1或2"@)
    } else {
        None
    }
}

/// Checks that `config` can be used to open a port.
pub fn validate_config(config: &SerialConfig) -> (r: Result<(), SerialError>)
    ensures
        match config_problem(*config) {
            None => r is Ok,
            Some(m) => r matches Err(SerialError::InvalidConfiguration(s)) && s@ == m,
        },
{
    if config.port.as_str().is_empty() {
        return Err(SerialError::InvalidConfiguration(String::from_str("端口名称不能为空")));
    }
    if config.baud_rate == 0 {
        return Err(SerialError::InvalidConfiguration(String::from_str("波特率必须大于0")));
    }
    if !(5 <= config.data_bits && config.data_bits <= 8) {
        return Err(SerialError::InvalidConfiguration(String::from_str("数据位必须为5-8")));
    }
    if !(config.stop_bits == 1 || config.stop_bits == 2) {
        return Err(SerialError::InvalidConfiguration(String::from_str("停止位必须为1或2")));
    }
    Ok(())
}

/// Exactly the settings with a port name, a baud rate above 0 (any, however low), 5 to 8
/// data bits and 1 or 2 stop bits are accepted.
pub proof fn lemma_config_accepted_iff(c: SerialConfig)
    ensures
        config_problem(c) is None <==> {
            &&& c.port@.len() > 0
            &&& c.baud_rate > 0
            &&& 5 <= c.data_bits <= 8
            &&& (c.stop_bits == 1 || c.stop_bits == 2)
        },
{
}

/// The baud rate is refused only when it is 0: for settings with a port name, the baud
/// rate complaint comes exactly for a rate of 0.
pub proof fn lemma_baud_refused_only_at_zero(c: SerialConfig)
    requires
        c.port@.len() > 0,
    ensures
        config_problem(c) == Some("波特率必须大于0"@) <==> c.baud_rate == 0,
{
    reveal_strlit("波特率必须大于0");
    reveal_strlit("数据位必须为5-8");
    reveal_strlit("停止位必须为1或2");
    assert("波特率必须大于0"@[0] != "数据位必须为5-8"@[0]);
    assert("波特率必须大于0"@[0] != "停止位必须为1或2"@[0]);
}

/// Every baud rate above 0 is treated alike: two settings that differ only in their
/// nonzero baud rates are accepted or refused together, with the same message.
pub proof fn lemma_nonzero_baud_rates_alike(a: SerialConfig, b: SerialConfig)
    requires
        a.port@ == b.port@,
        a.data_bits == b.data_bits,
        a.stop_bits == b.stop_bits,
        a.baud_rate > 0,
        b.baud_rate > 0,
    ensures
        config_problem(a) == config_problem(b),
{
}

/// Settings that pass `validate_config` can always be turned into line settings:
/// their data bits and stop bits convert without error.
pub proof fn lemma_valid_config_converts(c: SerialConfig)
    requires
        config_problem(c) is None,
    ensures
        data_bits_setting(c.data_bits) is Some,
        c.stop_bits == 1 || c.stop_bits == 2,
{
}

/// The default settings lack only a port: as they are, they are refused for the missing
/// port name; with any port name they are accepted.
pub proof fn lemma_default_needs_only_a_port(c: SerialConfig)
    requires
        c.baud_rate == 115200,
        c.data_bits == 8,
        c.stop_bits == 1,
    ensures
        c.port@.len() == 0 ==> config_problem(c) == Some("端口名称不能为空"@),
        c.port@.len() > 0 ==> config_problem(c) is None,
{
}

/// The state that the serial client keeps between the operations on its port.
#[derive(Clone, Debug)]
pub struct ClientState {
    /// The settings of the current (or last) connection.
    pub config: SerialConfig,
    pub status: ConnectionStatus,
    /// A port is open.
    pub port_open: bool,
    pub statistics: Statistics,
    /// When the current connection was made.
    pub connection_start: Option<std::time::Instant>,
    /// The channels that carry packets to the listener are open.
    pub receiving: bool,
}

impl ClientState {
    /// A client with default settings and nothing open.
    pub fn new() -> (r: ClientState)
        ensures
            is_default_serial(r.config),
            r.status == ConnectionStatus::Disconnected,
            !r.port_open,
            is_fresh(r.statistics),
            r.connection_start is None,
            !r.receiving,
    {
        ClientState {
            config: SerialConfig::default(),
            status: ConnectionStatus::Disconnected,
            port_open: false,
            statistics: Statistics::new(),
            connection_start: None,
            receiving: false,
        }
    }

    /// A connection attempt starts: the status is `Connecting`.
    pub fn begin_connect(&mut self)
        ensures
            final(self).status == ConnectionStatus::Connecting,
            final(self).config == old(self).config,
            final(self).port_open == old(self).port_open,
            final(self).statistics == old(self).statistics,
            final(self).connection_start == old(self).connection_start,
            final(self).receiving == old(self).receiving,
    {
        self.status = ConnectionStatus::Connecting;
    }

    /// The port was opened with `config`: it is kept, the client is `Connected`, the
    /// moment is noted and the channels to the listener are opened.
    pub fn finish_connect(&mut self, config: SerialConfig)
        ensures
            final(self).config == config,
            final(self).status == ConnectionStatus::Connected,
            final(self).port_open,
            final(self).statistics == old(self).statistics,
            final(self).connection_start is Some,
            final(self).receiving,
    {
        self.config = config;
        self.port_open = true;
        self.status = ConnectionStatus::Connected;
        self.connection_start = Some(instant_now());
        self.receiving = true;
    }

    /// A connection attempt failed with the message `msg`: the status is that error;
    /// nothing else changes.
    pub fn fail_connect(&mut self, msg: String)
        ensures
            final(self).status == ConnectionStatus::Error(msg),
            final(self).config == old(self).config,
            final(self).port_open == old(self).port_open,
            final(self).statistics == old(self).statistics,
            final(self).connection_start == old(self).connection_start,
            final(self).receiving == old(self).receiving,
    {
        self.status = ConnectionStatus::Error(msg);
    }

    /// The port is closed: `Disconnected`, no start time, no channels.
    pub fn disconnect(&mut self)
        ensures
            final(self).config == old(self).config,
            final(self).status == ConnectionStatus::Disconnected,
            !final(self).port_open,
            final(self).statistics == old(self).statistics,
            final(self).connection_start is None,
            !final(self).receiving,
    {
        self.port_open = false;
        self.status = ConnectionStatus::Disconnected;
        self.connection_start = None;
        self.receiving = false;
    }

    /// Whether data can be written now: only while a port is open; otherwise the
    /// error `未建立连接`.
    pub fn ready_to_send(&self) -> (r: Result<(), SerialError>)
        ensures
            self.port_open ==> r is Ok,
            !self.port_open ==> (r matches Err(SerialError::ConnectionFailed(s)) && s@
                == "未建立连接"@),
    {
        if self.port_open {
            Ok(())
        } else {
            Err(SerialError::ConnectionFailed(String::from_str("未建立连接")))
        }
    }

    /// `data` was written in `format`: it is counted, and the packet that records it
    /// is made, stamped with `timestamp`.
    pub fn record_send_at(&mut self, data: &[u8], format: DataFormat, timestamp: String) -> (p:
        DataPacket)
        requires
            old(self).statistics.bytes_sent + data@.len() <= u64::MAX,
            old(self).statistics.packets_sent < u64::MAX,
        ensures
            final(self).statistics.bytes_sent == old(self).statistics.bytes_sent + data@.len(),
            final(self).statistics.packets_sent == old(self).statistics.packets_sent + 1,
            final(self).statistics.bytes_received == old(self).statistics.bytes_received,
            final(self).statistics.packets_received == old(self).statistics.packets_received,
            final(self).statistics.errors_count == old(self).statistics.errors_count,
            final(self).statistics.connection_time == old(self).statistics.connection_time,
            final(self).statistics.last_activity is Some,
            final(self).config == old(self).config,
            final(self).status == old(self).status,
            final(self).port_open == old(self).port_open,
            final(self).connection_start == old(self).connection_start,
            final(self).receiving == old(self).receiving,
            p.timestamp == timestamp,
            p.direction == DataDirection::Sent,
            p.data@ == data@,
            p.format == format,
            p.display_text@ == display_chars(data@, format),
    {
        self.statistics.record_sent(data.len());
        DataPacket {
            timestamp,
            direction: DataDirection::Sent,
            data: vstd::slice::slice_to_vec(data),
            format,
            display_text: format_data_for_display(data, &format),
        }
    }

    /// `data` was written in `format`: it is counted, and the packet that records it
    /// is made, stamped with the current time in UTC.
    pub fn record_send(&mut self, data: &[u8], format: DataFormat) -> (p: DataPacket)
        requires
            old(self).statistics.bytes_sent + data@.len() <= u64::MAX,
            old(self).statistics.packets_sent < u64::MAX,
        ensures
            final(self).statistics.bytes_sent == old(self).statistics.bytes_sent + data@.len(),
            final(self).statistics.packets_sent == old(self).statistics.packets_sent + 1,
            final(self).statistics.bytes_received == old(self).statistics.bytes_received,
            final(self).statistics.packets_received == old(self).statistics.packets_received,
            final(self).statistics.errors_count == old(self).statistics.errors_count,
            final(self).statistics.connection_time == old(self).statistics.connection_time,
            final(self).statistics.last_activity is Some,
            final(self).config == old(self).config,
            final(self).status == old(self).status,
            final(self).port_open == old(self).port_open,
            final(self).connection_start == old(self).connection_start,
            final(self).receiving == old(self).receiving,
            ends_with_utc_offset(p.timestamp@),
            p.direction == DataDirection::Sent,
            p.data@ == data@,
            p.format == format,
            p.display_text@ == display_chars(data@, format),
    {
        let timestamp = utc_now_rfc3339();
        self.record_send_at(data, format, timestamp)
    }

    /// Writing to the port failed: the error is counted; nothing else changes.
    pub fn record_send_failure(&mut self)
        requires
            old(self).statistics.errors_count < u64::MAX,
        ensures
            final(self).statistics.errors_count == old(self).statistics.errors_count + 1,
            final(self).statistics.bytes_sent == old(self).statistics.bytes_sent,
            final(self).statistics.bytes_received == old(self).statistics.bytes_received,
            final(self).statistics.packets_sent == old(self).statistics.packets_sent,
            final(self).statistics.packets_received == old(self).statistics.packets_received,
            final(self).statistics.connection_time == old(self).statistics.connection_time,
            final(self).statistics.last_activity == old(self).statistics.last_activity,
            final(self).config == old(self).config,
            final(self).status == old(self).status,
            final(self).port_open == old(self).port_open,
            final(self).connection_start == old(self).connection_start,
            final(self).receiving == old(self).receiving,
    {
        self.statistics.record_error();
    }
}

} // verus!
