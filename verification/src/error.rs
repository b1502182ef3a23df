use vstd::prelude::*;
use vstd::string::to_string_from_display_ensures;

use crate::text::{decimal_chars, decimal_string};

verus! {

broadcast use vstd::string::group_string_axioms;

/// `std::io::Error`, carried by [`SerialError::IoError`].
#[verifier::external_type_specification]
#[verifier::external_body]
pub struct ExIoError(std::io::Error);

/// `serde_json::Error`, carried by [`SerialError::SerializationError`].
#[verifier::external_type_specification]
#[verifier::external_body]
pub struct ExJsonError(serde_json::Error);

/// `serialport::Error`, carried by [`SerialError::SerialPortError`].
#[verifier::external_type_specification]
#[verifier::external_body]
pub struct ExSerialPortError(serialport::Error);

/// What can go wrong in the serial assistant.
#[derive(Debug)]
pub enum SerialError {
    /// The serial port could not be opened or is not open.
    ConnectionFailed(String),
    /// The serial settings are not usable.
    InvalidConfiguration(String),
    /// Writing to the port failed.
    SendFailed(String),
    /// The system's ports could not be listed.
    PortEnumerationFailed(String),
    /// An I/O error.
    IoError(std::io::Error),
    /// A JSON (de)serialisation error.
    SerializationError(serde_json::Error),
    /// An error of the serial port library.
    SerialPortError(serialport::Error),
    /// A background task was cancelled.
    TaskCancelled,
    /// An error of the plugin itself.
    PluginError(String),
}

/// The result of a serial operation.
pub type SerialResult<T> = Result<T, SerialError>;

impl From<std::io::Error> for SerialError {
    fn from(e: std::io::Error) -> (r: SerialError) {
        SerialError::IoError(e)
    }
}

impl vstd::std_specs::convert::FromSpecImpl<std::io::Error> for SerialError {
    open spec fn obeys_from_spec() -> bool {
        true
    }

    open spec fn from_spec(e: std::io::Error) -> SerialError {
        SerialError::IoError(e)
    }
}

impl From<serde_json::Error> for SerialError {
    fn from(e: serde_json::Error) -> (r: SerialError) {
        SerialError::SerializationError(e)
    }
}

impl vstd::std_specs::convert::FromSpecImpl<serde_json::Error> for SerialError {
    open spec fn obeys_from_spec() -> bool {
        true
    }

    open spec fn from_spec(e: serde_json::Error) -> SerialError {
        SerialError::SerializationError(e)
    }
}

impl From<serialport::Error> for SerialError {
    fn from(e: serialport::Error) -> (r: SerialError) {
        SerialError::SerialPortError(e)
    }
}

impl vstd::std_specs::convert::FromSpecImpl<serialport::Error> for SerialError {
    open spec fn obeys_from_spec() -> bool {
        true
    }

    open spec fn from_spec(e: serialport::Error) -> SerialError {
        SerialError::SerialPortError(e)
    }
}

/// The machine-readable name of the kind of `e`.
pub open spec fn error_type_name(e: SerialError) -> Seq<char> {
    match e {
        SerialError::ConnectionFailed(_) => "connection_failed"@,
        SerialError::InvalidConfiguration(_) => "invalid_configuration"@,
        SerialError::SendFailed(_) => "send_failed"@,
        SerialError::PortEnumerationFailed(_) => "port_enumeration_failed"@,
        SerialError::IoError(_) => "io_error"@,
        SerialError::SerializationError(_) => "serialization_error"@,
        SerialError::SerialPortError(_) => "serial_port_error"@,
        SerialError::TaskCancelled => "task_cancelled"@,
        SerialError::PluginError(_) => "plugin_error"@,
    }
}

/// The fixed start of the message of `e`.
pub open spec fn message_prefix(e: SerialError) -> Seq<char> {
    match e {
        SerialError::ConnectionFailed(_) => "串口连接失败: "@,
        SerialError::InvalidConfiguration(_) => "串口配置无效: "@,
        SerialError::SendFailed(_) => "数据发送失败: "@,
        SerialError::PortEnumerationFailed(_) => "端口枚举失败: "@,
        SerialError::IoError(_) => "IO错误: "@,
        SerialError::SerializationError(_) => "序列化错误: "@,
        SerialError::SerialPortError(_) => "串口库错误: "@,
        SerialError::TaskCancelled => "任务被取消"@,
        SerialError::PluginError(_) => "插件错误: "@,
    }
}

/// `text` is the message of `e`: its fixed start, then the text it carries, or, for an
/// error of another library, the text that library's `Display` writes for it.
pub open spec fn is_message_of(e: SerialError, text: Seq<char>) -> bool {
    match e {
        SerialError::ConnectionFailed(s) => text == message_prefix(e) + s@,
        SerialError::InvalidConfiguration(s) => text == message_prefix(e) + s@,
        SerialError::SendFailed(s) => text == message_prefix(e) + s@,
        SerialError::PortEnumerationFailed(s) => text == message_prefix(e) + s@,
        SerialError::PluginError(s) => text == message_prefix(e) + s@,
        SerialError::TaskCancelled => text == message_prefix(e),
        SerialError::IoError(inner) => exists|t: String|
            to_string_from_display_ensures::<std::io::Error>(&inner, t) && text == message_prefix(e)
                + t@,
        SerialError::SerializationError(inner) => exists|t: String|
            to_string_from_display_ensures::<serde_json::Error>(&inner, t) && text
                == message_prefix(e) + t@,
        SerialError::SerialPortError(inner) => exists|t: String|
            to_string_from_display_ensures::<serialport::Error>(&inner, t) && text
                == message_prefix(e) + t@,
    }
}

/// The position of the kind of `e` in the list of kinds.
pub open spec fn error_kind(e: SerialError) -> nat {
    match e {
        SerialError::ConnectionFailed(_) => 0,
        SerialError::InvalidConfiguration(_) => 1,
        SerialError::SendFailed(_) => 2,
        SerialError::PortEnumerationFailed(_) => 3,
        SerialError::IoError(_) => 4,
        SerialError::SerializationError(_) => 5,
        SerialError::SerialPortError(_) => 6,
        SerialError::TaskCancelled => 7,
        SerialError::PluginError(_) => 8,
    }
}

/// Two errors report the same type name exactly when they are of the same kind.
pub proof fn lemma_error_type_names_distinct(a: SerialError, b: SerialError)
    ensures
        (error_type_name(a) == error_type_name(b)) <==> (error_kind(a) == error_kind(b)),
{
    reveal_strlit("connection_failed");
    reveal_strlit("invalid_configuration");
    reveal_strlit("send_failed");
    reveal_strlit("port_enumeration_failed");
    reveal_strlit("io_error");
    reveal_strlit("serialization_error");
    reveal_strlit("serial_port_error");
    reveal_strlit("task_cancelled");
    reveal_strlit("plugin_error");
    if error_kind(a) != error_kind(b) {
        let x = error_type_name(a);
        let y = error_type_name(b);
        if x.len() == y.len() {
            assert(x[0] != y[0]);
        }
    }
}

fn joined(prefix: &str, rest: &str) -> (r: String)
    ensures
        r@ == prefix@ + rest@,
{
    let mut s = String::from_str(prefix);
    s.append(rest);
    s
}

impl SerialError {
    /// The machine-readable name of the kind of this error.
    pub fn error_type(&self) -> (r: String)
        ensures
            r@ == error_type_name(*self),
    {
        match self {
            SerialError::ConnectionFailed(_) => String::from_str("connection_failed"),
            SerialError::InvalidConfiguration(_) => String::from_str("invalid_configuration"),
            SerialError::SendFailed(_) => String::from_str("send_failed"),
            SerialError::PortEnumerationFailed(_) => String::from_str("port_enumeration_failed"),
            SerialError::IoError(_) => String::from_str("io_error"),
            SerialError::SerializationError(_) => String::from_str("serialization_error"),
            SerialError::SerialPortError(_) => String::from_str("serial_port_error"),
            SerialError::TaskCancelled => String::from_str("task_cancelled"),
            SerialError::PluginError(_) => String::from_str("plugin_error"),
        }
    }

    /// The human-readable message of this error.
    pub fn to_string(&self) -> (r: String)
        ensures
            is_message_of(*self, r@),
    {
        match self {
            SerialError::ConnectionFailed(s) => joined("串口连接失败: ", s.as_str()),
            SerialError::InvalidConfiguration(s) => joined("串口配置无效: ", s.as_str()),
            SerialError::SendFailed(s) => joined("数据发送失败: ", s.as_str()),
            SerialError::PortEnumerationFailed(s) => joined("端口枚举失败: ", s.as_str()),
            SerialError::IoError(e) => {
                let t = e.to_string();
                joined("IO错误: ", t.as_str())
            },
            SerialError::SerializationError(e) => {
                let t = e.to_string();
                joined("序列化错误: ", t.as_str())
            },
            SerialError::SerialPortError(e) => {
                let t = e.to_string();
                joined("串口库错误: ", t.as_str())
            },
            SerialError::TaskCancelled => String::from_str("任务被取消"),
            SerialError::PluginError(s) => joined("插件错误: ", s.as_str()),
        }
    }
}

/// The error for a port that could not be opened: `端口 <port> - <reason>`.
pub fn connection_failed(port: &str, reason: &str) -> (r: SerialError)
    ensures
        r matches SerialError::ConnectionFailed(s) && s@ == "端口 "@ + port@ + " - "@ + reason@,
{
    let mut s = String::from_str("端口 ");
    s.append(port);
    s.append(" - ");
    s.append(reason);
    SerialError::ConnectionFailed(s)
}

/// The error for data that could not be written:
/// `发送 <data_length> 字节数据失败: <reason>`, the length in decimal.
pub fn send_failed(data_length: usize, reason: &str) -> (r: SerialError)
    ensures
        r matches SerialError::SendFailed(s) && s@ == "发送 "@ + decimal_chars(data_length as nat)
            + " 字节数据失败: "@ + reason@,
{
    let mut s = String::from_str("发送 ");
    let n = decimal_string(data_length as u64);
    s.append(n.as_str());
    s.append(" 字节数据失败: ");
    s.append(reason);
    SerialError::SendFailed(s)
}

/// RFC 3339 text of a moment in UTC ends with the offset `+00:00`.
pub open spec fn ends_with_utc_offset(s: Seq<char>) -> bool {
    &&& s.len() >= 6
    &&& s.subrange(s.len() - 6, s.len() as int) == "+00:00"@
}

/// The current time in UTC as RFC 3339 text: `chrono::Utc::now().to_rfc3339()`.
/// Both calls stand in this one function because chrono's `DateTime` is generic over a
/// time zone bound by chrono's `TimeZone` trait, which cannot be declared here.
/// The text ends with the offset `+00:00` (chrono writes a zero offset that way when it
/// is not asked for `Z`); which moment it shows, nothing here states.
#[verifier::external_body]
pub(crate) fn utc_now_rfc3339() -> (r: String)
    ensures
        ends_with_utc_offset(r@),
{
    chrono::Utc::now().to_rfc3339()
}

/// An error as it is reported to the front end.
#[derive(Clone, Debug)]
pub struct ErrorResponse {
    pub error_type: String,
    pub message: String,
    pub details: Option<String>,
    pub timestamp: String,
}

impl ErrorResponse {
    /// The report of `error`, stamped with `timestamp`.
    pub fn at(error: SerialError, timestamp: String) -> (r: ErrorResponse)
        ensures
            r.error_type@ == error_type_name(error),
            is_message_of(error, r.message@),
            r.details is None,
            r.timestamp == timestamp,
    {
        let error_type = error.error_type();
        let message = error.to_string();
        ErrorResponse { error_type, message, details: None, timestamp }
    }

    /// The report of `error`, stamped with the current time.
    pub fn from(error: SerialError) -> (r: ErrorResponse)
        ensures
            r.error_type@ == error_type_name(error),
            is_message_of(error, r.message@),
            r.details is None,
            ends_with_utc_offset(r.timestamp@),
    {
        let now = utc_now_rfc3339();
        ErrorResponse::at(error, now)
    }
}

} // verus!
