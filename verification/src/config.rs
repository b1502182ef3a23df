use vstd::prelude::*;

verus! {

/// The user's configuration, as kept in the plugin's settings file.
#[derive(Clone, Debug)]
pub struct UserConfig {
    pub serial: SerialConfig,
    pub ui: UiConfig,
    pub data: DataConfig,
    pub advanced: AdvancedConfig,
}

/// Settings of the serial line.
#[derive(Clone, Debug)]
pub struct SerialConfig {
    pub port: String,
    pub baud_rate: u32,
    pub data_bits: u8,
    pub stop_bits: u8,
    pub parity: Parity,
    pub flow_control: FlowControl,
}

/// Parity checking mode.
#[derive(Clone, Copy, Debug, PartialEq, Eq, Structural)]
pub enum Parity {
    /// No parity bit.
    NoParity,
    Even,
    Odd,
}

/// Flow control mode.
#[derive(Clone, Copy, Debug, PartialEq, Eq, Structural)]
pub enum FlowControl {
    /// No flow control.
    NoFlowControl,
    Hardware,
    Software,
}

/// Settings of the user interface.
#[derive(Clone, Debug)]
pub struct UiConfig {
    pub auto_scroll: bool,
    pub timestamp: bool,
    pub max_lines: u32,
}

/// Settings of how data is written and shown.
#[derive(Clone, Debug)]
pub struct DataConfig {
    pub format: DataFormat,
    pub encoding: String,
    pub auto_send_interval: u64,
}

/// How bytes are written as text: as UTF-8 text, as hex pairs, or as binary octets.
#[derive(Clone, Copy, Debug, PartialEq, Eq, Structural)]
pub enum DataFormat {
    Text,
    Hex,
    Binary,
}

/// Timeouts and buffer size.
#[derive(Clone, Debug)]
pub struct AdvancedConfig {
    pub read_timeout: u64,
    pub write_timeout: u64,
    pub buffer_size: usize,
}

/// The serial settings a new configuration starts from: no port chosen, 115200 baud,
/// 8 data bits, 1 stop bit, no parity, no flow control.
pub open spec fn is_default_serial(c: SerialConfig) -> bool {
    &&& c.port@ == Seq::<char>::empty()
    &&& c.baud_rate == 115200
    &&& c.data_bits == 8
    &&& c.stop_bits == 1
    &&& c.parity == Parity::NoParity
    &&& c.flow_control == FlowControl::NoFlowControl
}

impl Default for SerialConfig {
    fn default() -> (r: SerialConfig)
        ensures
            is_default_serial(r),
    {
        SerialConfig {
            port: String::new(),
            baud_rate: 115200,
            data_bits: 8,
            stop_bits: 1,
            parity: Parity::NoParity,
            flow_control: FlowControl::NoFlowControl,
        }
    }
}

/// The configuration written when the user has none yet.
pub fn create_default_user_config() -> (r: UserConfig)
    ensures
        is_default_serial(r.serial),
        r.ui.auto_scroll,
        r.ui.timestamp,
        r.ui.max_lines == 1000,
        r.data.format == DataFormat::Hex,
        r.data.encoding@ == "UTF-8"@,
        r.data.auto_send_interval == 0,
        r.advanced.read_timeout == 1000,
        r.advanced.write_timeout == 1000,
        r.advanced.buffer_size == 4096,
{
    UserConfig {
        serial: SerialConfig {
            port: String::new(),
            baud_rate: 115200,
            data_bits: 8,
            stop_bits: 1,
            parity: Parity::NoParity,
            flow_control: FlowControl::NoFlowControl,
        },
        ui: UiConfig { auto_scroll: true, timestamp: true, max_lines: 1000 },
        data: DataConfig {
            format: DataFormat::Hex,
            encoding: String::from_str("UTF-8"),
            auto_send_interval: 0,
        },
        advanced: AdvancedConfig { read_timeout: 1000, write_timeout: 1000, buffer_size: 4096 },
    }
}

} // verus!
