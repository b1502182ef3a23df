use vstd::prelude::*;
use vstd::utf8::*;

use crate::client::PortInfo;
use crate::codec::{binary_decoding, hex_decoding, try_binary_to_bytes, try_hex_to_bytes, Decoding};
use crate::config::{DataConfig, DataFormat, Parity, SerialConfig};
use crate::error::SerialError;
use crate::text::{
    decimal_chars, decimal_string, lemma_decimal_round_trip, parse_u32, parse_u8,
    parse_unsigned_spec, same_text,
};

verus! {

broadcast use vstd::string::group_string_axioms;

/// The label of a parity mode in the settings panel.
pub open spec fn parity_label_text(p: Parity) -> Seq<char> {
    match p {
        Parity::NoParity => "None"@,
        Parity::Even => "Even"@,
        Parity::Odd => "Odd"@,
    }
}

/// The parity mode a label selects: `Even`, `Odd`, and no parity for any other text.
pub open spec fn parity_for_label(s: Seq<char>) -> Parity {
    if s == "Even"@ {
        Parity::Even
    } else if s == "Odd"@ {
        Parity::Odd
    } else {
        Parity::NoParity
    }
}

/// The label of a data format in the settings panel.
pub open spec fn format_label_text(f: DataFormat) -> Seq<char> {
    match f {
        DataFormat::Text => "TEXT"@,
        DataFormat::Hex => "HEX"@,
        DataFormat::Binary => "BIN"@,
    }
}

/// The data format a label selects: `TEXT`, `BIN`, and hex for any other text.
pub open spec fn format_for_label(s: Seq<char>) -> DataFormat {
    if s == "TEXT"@ {
        DataFormat::Text
    } else if s == "BIN"@ {
        DataFormat::Binary
    } else {
        DataFormat::Hex
    }
}

/// The label of `p`.
pub fn parity_label(p: Parity) -> (r: String)
    ensures
        r@ == parity_label_text(p),
{
    match p {
        Parity::NoParity => String::from_str("None"),
        Parity::Even => String::from_str("Even"),
        Parity::Odd => String::from_str("Odd"),
    }
}

/// The parity mode that the label `s` selects.
pub fn parity_from_label(s: &str) -> (r: Parity)
    ensures
        r == parity_for_label(s@),
{
    if same_text(s, "Even") {
        Parity::Even
    } else if same_text(s, "Odd") {
        Parity::Odd
    } else {
        Parity::NoParity
    }
}

/// The label of `f`.
pub fn format_label(f: DataFormat) -> (r: String)
    ensures
        r@ == format_label_text(f),
{
    match f {
        DataFormat::Text => String::from_str("TEXT"),
        DataFormat::Hex => String::from_str("HEX"),
        DataFormat::Binary => String::from_str("BIN"),
    }
}

/// The data format that the label `s` selects.
pub fn format_from_label(s: &str) -> (r: DataFormat)
    ensures
        r == format_for_label(s@),
{
    if same_text(s, "TEXT") {
        DataFormat::Text
    } else if same_text(s, "BIN") {
        DataFormat::Binary
    } else {
        DataFormat::Hex
    }
}

/// A parity mode's label selects that mode again.
pub proof fn lemma_parity_label_round_trip(p: Parity)
    ensures
        parity_for_label(parity_label_text(p)) == p,
{
    reveal_strlit("None");
    reveal_strlit("Even");
    reveal_strlit("Odd");
    assert("None"@ != "Even"@ && "None"@ != "Odd"@ && "Odd"@ != "Even"@) by {
        assert("None"@[0] != "Even"@[0]);
        assert("None"@[0] != "Odd"@[0]);
        assert("Odd"@[0] != "Even"@[0]);
    }
}

/// A data format's label selects that format again.
pub proof fn lemma_format_label_round_trip(f: DataFormat)
    ensures
        format_for_label(format_label_text(f)) == f,
{
    reveal_strlit("TEXT");
    reveal_strlit("HEX");
    reveal_strlit("BIN");
    assert("HEX"@ != "TEXT"@ && "HEX"@ != "BIN"@ && "BIN"@ != "TEXT"@) by {
        assert("HEX"@[0] != "TEXT"@[0]);
        assert("HEX"@[0] != "BIN"@[0]);
        assert("BIN"@[0] != "TEXT"@[0]);
    }
}

/// The baud rates offered in the settings panel.
pub open spec fn offered_baud_rates() -> Seq<u32> {
    seq![9600u32, 19200, 38400, 57600, 115200, 230400, 460800, 921600]
}

/// The labels of the offered baud rates, in decimal.
pub fn baud_rate_options() -> (r: Vec<String>)
    ensures
        r@.len() == offered_baud_rates().len(),
        forall|i: int| 0 <= i < r@.len() ==> (#[trigger] r@[i])@ == decimal_chars(
            offered_baud_rates()[i] as nat,
        ),
{
    let rates: [u32; 8] = [9600, 19200, 38400, 57600, 115200, 230400, 460800, 921600];
    assert(rates@ =~= offered_baud_rates());
    let mut out: Vec<String> = Vec::new();
    let mut i: usize = 0;
    while i < 8
        invariant
            i <= 8,
            rates@ == offered_baud_rates(),
            out@.len() == i,
            forall|j: int| 0 <= j < i ==> (#[trigger] out@[j])@ == decimal_chars(rates@[j] as nat),
        decreases 8 - i,
    {
        let label = decimal_string(rates[i] as u64);
        out.push(label);
        i = i + 1;
    }
    out
}

/// The labels of the parity modes, in the order the panel lists them.
pub fn parity_options() -> (r: Vec<String>)
    ensures
        r@.len() == 3,
        r@[0]@ == parity_label_text(Parity::NoParity),
        r@[1]@ == parity_label_text(Parity::Even),
        r@[2]@ == parity_label_text(Parity::Odd),
{
    let mut out: Vec<String> = Vec::new();
    out.push(parity_label(Parity::NoParity));
    out.push(parity_label(Parity::Even));
    out.push(parity_label(Parity::Odd));
    out
}

/// The labels of the data formats, in the order the panel lists them.
pub fn format_options() -> (r: Vec<String>)
    ensures
        r@.len() == 3,
        r@[0]@ == format_label_text(DataFormat::Text),
        r@[1]@ == format_label_text(DataFormat::Hex),
        r@[2]@ == format_label_text(DataFormat::Binary),
{
    let mut out: Vec<String> = Vec::new();
    out.push(format_label(DataFormat::Text));
    out.push(format_label(DataFormat::Hex));
    out.push(format_label(DataFormat::Binary));
    out
}

/// The entries of the port list: a prompt to choose, then each port's name.
pub fn port_options(ports: &Vec<PortInfo>) -> (r: Vec<String>)
    ensures
        r@.len() == ports@.len() + 1,
        r@[0]@ == "请选择端口"@,
        forall|i: int| 0 <= i < ports@.len() ==> (#[trigger] r@[i + 1]) == ports@[i].port_name,
{
    let mut out: Vec<String> = Vec::new();
    out.push(String::from_str("请选择端口"));
    let mut i: usize = 0;
    while i < ports.len()
        invariant
            i <= ports@.len(),
            out@.len() == i + 1,
            out@[0]@ == "请选择端口"@,
            forall|j: int| 0 <= j < i ==> (#[trigger] out@[j + 1]) == ports@[j].port_name,
        decreases ports.len() - i,
    {
        let name = ports[i].port_name.clone();
        out.push(name);
        i = i + 1;
    }
    out
}

/// Choosing a label from the baud rate list: a label that reads as a `u32` becomes the
/// baud rate; anything else leaves the settings as they were.
pub open spec fn baud_after_selection(baud: u32, selected: Option<Seq<char>>) -> u32 {
    match selected {
        Some(s) => match parse_unsigned_spec(s, 10, u32::MAX as nat) {
            Some(v) => v as u32,
            None => baud,
        },
        None => baud,
    }
}

/// Typing into the data bits field: text that reads as a `u8` from 5 to 8 becomes the
/// number of data bits; anything else leaves them as they were.
pub open spec fn data_bits_after_edit(bits: u8, text: Seq<char>) -> u8 {
    match parse_unsigned_spec(text, 10, u8::MAX as nat) {
        Some(v) => if 5 <= v <= 8 {
            v as u8
        } else {
            bits
        },
        None => bits,
    }
}

/// Typing into the stop bits field: text that reads as 1 or 2 becomes the number of
/// stop bits; anything else leaves them as they were.
pub open spec fn stop_bits_after_edit(bits: u8, text: Seq<char>) -> u8 {
    match parse_unsigned_spec(text, 10, u8::MAX as nat) {
        Some(v) => if 1 <= v <= 2 {
            v as u8
        } else {
            bits
        },
        None => bits,
    }
}

/// The text of an optional string slice.
pub open spec fn option_text(s: Option<&str>) -> Option<Seq<char>> {
    match s {
        Some(t) => Some(t@),
        None => None,
    }
}

impl SerialConfig {
    /// Applies a choice from the baud rate list.
    pub fn select_baud_rate(&mut self, selected: Option<&str>)
        ensures
            final(self).baud_rate == baud_after_selection(old(self).baud_rate, option_text(selected)),
            final(self).port == old(self).port,
            final(self).data_bits == old(self).data_bits,
            final(self).stop_bits == old(self).stop_bits,
            final(self).parity == old(self).parity,
            final(self).flow_control == old(self).flow_control,
    {
        if let Some(s) = selected {
            if let Some(v) = parse_u32(s) {
                self.baud_rate = v;
            }
        }
    }

    /// Applies an edit of the data bits field.
    pub fn edit_data_bits(&mut self, text: &str)
        ensures
            final(self).data_bits == data_bits_after_edit(old(self).data_bits, text@),
            final(self).port == old(self).port,
            final(self).baud_rate == old(self).baud_rate,
            final(self).stop_bits == old(self).stop_bits,
            final(self).parity == old(self).parity,
            final(self).flow_control == old(self).flow_control,
    {
        if let Some(v) = parse_u8(text) {
            if 5 <= v && v <= 8 {
                self.data_bits = v;
            }
        }
    }

    /// Applies an edit of the stop bits field.
    pub fn edit_stop_bits(&mut self, text: &str)
        ensures
            final(self).stop_bits == stop_bits_after_edit(old(self).stop_bits, text@),
            final(self).port == old(self).port,
            final(self).baud_rate == old(self).baud_rate,
            final(self).data_bits == old(self).data_bits,
            final(self).parity == old(self).parity,
            final(self).flow_control == old(self).flow_control,
    {
        if let Some(v) = parse_u8(text) {
            if 1 <= v && v <= 2 {
                self.stop_bits = v;
            }
        }
    }

    /// Applies a choice from the parity list.
    pub fn select_parity(&mut self, selected: Option<&str>)
        ensures
            final(self).parity == match selected {
                Some(s) => parity_for_label(s@),
                None => old(self).parity,
            },
            final(self).port == old(self).port,
            final(self).baud_rate == old(self).baud_rate,
            final(self).data_bits == old(self).data_bits,
            final(self).stop_bits == old(self).stop_bits,
            final(self).flow_control == old(self).flow_control,
    {
        if let Some(s) = selected {
            self.parity = parity_from_label(s);
        }
    }
}

impl DataConfig {
    /// Applies a choice from the data format list.
    pub fn select_format(&mut self, selected: Option<&str>)
        ensures
            final(self).format == match selected {
                Some(s) => format_for_label(s@),
                None => old(self).format,
            },
            final(self).encoding == old(self).encoding,
            final(self).auto_send_interval == old(self).auto_send_interval,
    {
        if let Some(s) = selected {
            self.format = format_from_label(s);
        }
    }
}

/// Choosing the label that shows the current baud rate keeps it.
pub proof fn lemma_current_baud_kept(baud: u32)
    ensures
        baud_after_selection(baud, Some(decimal_chars(baud as nat))) == baud,
{
    lemma_decimal_round_trip(baud as nat, u32::MAX as nat);
}

/// Every offered baud rate is a rate that the settings accept: choosing its label sets
/// exactly that rate, and it is not 0.
pub proof fn lemma_offered_baud_rates(baud: u32, i: int)
    requires
        0 <= i < offered_baud_rates().len(),
    ensures
        baud_after_selection(baud, Some(decimal_chars(offered_baud_rates()[i] as nat)))
            == offered_baud_rates()[i],
        offered_baud_rates()[i] > 0,
{
    lemma_decimal_round_trip(offered_baud_rates()[i] as nat, u32::MAX as nat);
}

/// Typing a number of data bits takes it when it is from 5 to 8 and leaves the setting
/// as it was otherwise: for every count the field may show, `8` typed over `7` gives 8.
pub proof fn lemma_typed_data_bits(bits: u8, v: nat)
    requires
        v <= u8::MAX,
    ensures
        5 <= v <= 8 ==> data_bits_after_edit(bits, decimal_chars(v)) == v,
        !(5 <= v <= 8) ==> data_bits_after_edit(bits, decimal_chars(v)) == bits,
{
    lemma_decimal_round_trip(v, u8::MAX as nat);
}

/// Typing a number of stop bits takes it when it is 1 or 2 and leaves the setting as it
/// was otherwise.
pub proof fn lemma_typed_stop_bits(bits: u8, v: nat)
    requires
        v <= u8::MAX,
    ensures
        1 <= v <= 2 ==> stop_bits_after_edit(bits, decimal_chars(v)) == v,
        !(1 <= v <= 2) ==> stop_bits_after_edit(bits, decimal_chars(v)) == bits,
{
    lemma_decimal_round_trip(v, u8::MAX as nat);
}

/// Edits of the data bits and stop bits fields never leave them out of range:
/// data bits stay within 5 to 8 and stop bits within 1 to 2 when they were.
pub proof fn lemma_edits_keep_ranges(data_bits: u8, stop_bits: u8, text: Seq<char>)
    ensures
        5 <= data_bits <= 8 ==> 5 <= data_bits_after_edit(data_bits, text) <= 8,
        1 <= stop_bits <= 2 ==> 1 <= stop_bits_after_edit(stop_bits, text) <= 2,
{
}

/// The bytes that a message from the front end becomes in `format`, or the notice shown
/// when it cannot be read: text as its UTF-8 bytes, with CR LF added when asked; hex and
/// binary text read as `hex_to_bytes` and `binary_to_bytes` read it.
pub open spec fn outgoing_bytes(data: Seq<char>, format: DataFormat, auto_add_crlf: bool) -> Result<
    Seq<u8>,
    Seq<char>,
> {
    match format {
        DataFormat::Text => Ok(
            encode_utf8(data) + if auto_add_crlf {
                seq![13u8, 10u8]
            } else {
                Seq::<u8>::empty()
            },
        ),
        DataFormat::Hex => match hex_decoding(data) {
            Decoding::Bytes(b) => Ok(b),
            _ => Err("十六进制格式错误"@),
        },
        DataFormat::Binary => match binary_decoding(data) {
            Decoding::Bytes(b) => Ok(b),
            _ => Err("二进制格式错误"@),
        },
    }
}

/// Text typed in text mode (without CR LF) is written as its UTF-8 bytes, and those
/// bytes are valid UTF-8 that decodes to the same text, so they are shown as typed.
pub proof fn lemma_text_echo(data: Seq<char>)
    ensures
        outgoing_bytes(data, DataFormat::Text, false) == Ok::<Seq<u8>, Seq<char>>(encode_utf8(data)),
        valid_utf8(encode_utf8(data)),
        decode_utf8(encode_utf8(data)) == data,
{
    assert(encode_utf8(data) + Seq::<u8>::empty() =~= encode_utf8(data));
    encode_utf8_valid_utf8(data);
    encode_utf8_decode_utf8(data);
}

/// Text typed in text mode with CR LF on is written as all of its UTF-8 bytes followed by
/// CR (13) and LF (10): the bytes before the last two decode to the text as typed.
pub proof fn lemma_text_crlf(data: Seq<char>)
    ensures
        outgoing_bytes(data, DataFormat::Text, true) == Ok::<Seq<u8>, Seq<char>>(
            encode_utf8(data) + seq![13u8, 10u8],
        ),
        (outgoing_bytes(data, DataFormat::Text, true) matches Ok(b) && {
            &&& b.len() == encode_utf8(data).len() + 2
            &&& b[b.len() - 2] == 13
            &&& b[b.len() - 1] == 10
            &&& valid_utf8(b.take(b.len() - 2))
            &&& decode_utf8(b.take(b.len() - 2)) == data
        }),
{
    let e = encode_utf8(data);
    let b = e + seq![13u8, 10u8];
    assert(b.take(b.len() - 2) =~= e);
    encode_utf8_valid_utf8(data);
    encode_utf8_decode_utf8(data);
}

/// The input on which reading a message in `format` panics: hex or binary text whose
/// chunks would slice through a character.
pub open spec fn outgoing_splits_char(data: Seq<char>, format: DataFormat) -> bool {
    match format {
        DataFormat::Text => false,
        DataFormat::Hex => hex_decoding(data) is SplitsChar,
        DataFormat::Binary => binary_decoding(data) is SplitsChar,
    }
}

/// The bytes that `data` becomes in `format`, or the notice for text that cannot be read.
pub fn encode_outgoing(data: &str, format: DataFormat, auto_add_crlf: bool) -> (r: Result<
    Vec<u8>,
    String,
>)
    requires
        !outgoing_splits_char(data@, format),
    ensures
        match r {
            Ok(b) => outgoing_bytes(data@, format, auto_add_crlf) == Ok::<Seq<u8>, Seq<char>>(b@),
            Err(m) => outgoing_bytes(data@, format, auto_add_crlf) == Err::<Seq<u8>, Seq<char>>(m@),
        },
{
    match format {
        DataFormat::Text => {
            let mut bytes = data.as_bytes_vec();
            if auto_add_crlf {
                bytes.push(13u8);
                bytes.push(10u8);
            }
            assert(bytes@ =~= encode_utf8(data@) + if auto_add_crlf {
                seq![13u8, 10u8]
            } else {
                Seq::<u8>::empty()
            });
            Ok(bytes)
        },
        DataFormat::Hex => match try_hex_to_bytes(data) {
            Some(Ok(b)) => Ok(b),
            _ => Err(String::from_str("十六进制格式错误")),
        },
        DataFormat::Binary => match try_binary_to_bytes(data) {
            Some(Ok(b)) => Ok(b),
            _ => Err(String::from_str("二进制格式错误")),
        },
    }
}

/// What to do with a message from the front end.
#[derive(Debug)]
pub enum SendAction {
    /// Show this notice to the user; nothing is written.
    Notify(String),
    /// Write these bytes to the port.
    Transmit(Vec<u8>),
    /// Nothing to write.
    Skip,
}

/// What happens to a message typed into the panel: without a connection the user is asked
/// to connect; text that cannot be read gives its notice; an empty result is not sent;
/// anything else is written.
pub fn plan_send(connected: bool, data: &str, format: DataFormat, auto_add_crlf: bool) -> (r:
    SendAction)
    requires
        connected ==> !outgoing_splits_char(data@, format),
    ensures
        !connected ==> (r matches SendAction::Notify(m) && m@ == "请先连接串口"@),
        connected ==> match outgoing_bytes(data@, format, auto_add_crlf) {
            Err(m) => r matches SendAction::Notify(n) && n@ == m,
            Ok(b) => if b.len() == 0 {
                r is Skip
            } else {
                r matches SendAction::Transmit(t) && t@ == b
            },
        },
{
    if !connected {
        return SendAction::Notify(String::from_str("请先连接串口"));
    }
    match encode_outgoing(data, format, auto_add_crlf) {
        Ok(bytes) => if bytes.len() == 0 {
            SendAction::Skip
        } else {
            SendAction::Transmit(bytes)
        },
        Err(m) => SendAction::Notify(m),
    }
}

/// The settings for connecting to the chosen port: the configured settings with that
/// port's name; with no port chosen, the error `未选择端口`.
pub fn serial_config_for_port(config: &SerialConfig, selected_port: &Option<String>) -> (r: Result<
    SerialConfig,
    SerialError,
>)
    ensures
        match selected_port {
            Some(name) => r matches Ok(c) && {
                &&& c.port == name
                &&& c.baud_rate == config.baud_rate
                &&& c.data_bits == config.data_bits
                &&& c.stop_bits == config.stop_bits
                &&& c.parity == config.parity
                &&& c.flow_control == config.flow_control
            },
            None => r matches Err(SerialError::PluginError(m)) && m@ == "未选择端口"@,
        },
{
    match selected_port {
        Some(name) => Ok(
            SerialConfig {
                port: name.clone(),
                baud_rate: config.baud_rate,
                data_bits: config.data_bits,
                stop_bits: config.stop_bits,
                parity: config.parity,
                flow_control: config.flow_control,
            },
        ),
        None => Err(SerialError::PluginError(String::from_str("未选择端口"))),
    }
}

} // verus!
