use serial_debug_assistant::assistant::{
    baud_rate_options, format_from_label, format_label, format_options, parity_from_label,
    parity_label, parity_options,
};
use serial_debug_assistant::config::{
    create_default_user_config, DataFormat, FlowControl, Parity, SerialConfig,
};

#[test]
fn test_default_user_config() {
    let config = create_default_user_config();
    assert_eq!(config.serial.baud_rate, 115200);
    assert_eq!(config.serial.data_bits, 8);
    assert_eq!(config.ui.max_lines, 1000);
}

#[test]
fn default_user_config_all_fields() {
    let config = create_default_user_config();
    assert_eq!(config.serial.port, "");
    assert_eq!(config.serial.stop_bits, 1);
    assert_eq!(config.serial.parity, Parity::NoParity);
    assert_eq!(config.serial.flow_control, FlowControl::NoFlowControl);
    assert!(config.ui.auto_scroll);
    assert!(config.ui.timestamp);
    assert_eq!(config.data.format, DataFormat::Hex);
    assert_eq!(config.data.encoding, "UTF-8");
    assert_eq!(config.data.auto_send_interval, 0);
    assert_eq!(config.advanced.read_timeout, 1000);
    assert_eq!(config.advanced.write_timeout, 1000);
    assert_eq!(config.advanced.buffer_size, 4096);
}

#[test]
fn serial_config_default_matches_user_default() {
    let c = SerialConfig::default();
    assert_eq!(c.port, "");
    assert_eq!(c.baud_rate, 115200);
    assert_eq!(c.data_bits, 8);
    assert_eq!(c.stop_bits, 1);
    assert_eq!(c.parity, Parity::NoParity);
    assert_eq!(c.flow_control, FlowControl::NoFlowControl);
}

#[test]
fn baud_rate_selection() {
    let mut c = SerialConfig::default();
    c.select_baud_rate(Some("9600"));
    assert_eq!(c.baud_rate, 9600);
    c.select_baud_rate(Some("+19200"));
    assert_eq!(c.baud_rate, 19200);
    c.select_baud_rate(Some("abc"));
    assert_eq!(c.baud_rate, 19200);
    c.select_baud_rate(Some("4294967296"));
    assert_eq!(c.baud_rate, 19200);
    c.select_baud_rate(Some("4294967295"));
    assert_eq!(c.baud_rate, 4294967295);
    c.select_baud_rate(None);
    assert_eq!(c.baud_rate, 4294967295);
    c.select_baud_rate(Some(""));
    assert_eq!(c.baud_rate, 4294967295);
}

#[test]
fn current_baud_label_keeps_baud() {
    let mut c = SerialConfig::default();
    let label = c.baud_rate.to_string();
    c.select_baud_rate(Some(label.as_str()));
    assert_eq!(c.baud_rate, 115200);
}

#[test]
fn data_bits_edits() {
    let mut c = SerialConfig::default();
    c.edit_data_bits("7");
    assert_eq!(c.data_bits, 7);
    c.edit_data_bits("9");
    assert_eq!(c.data_bits, 7);
    c.edit_data_bits("4");
    assert_eq!(c.data_bits, 7);
    c.edit_data_bits(" 5");
    assert_eq!(c.data_bits, 7);
    c.edit_data_bits("+5");
    assert_eq!(c.data_bits, 5);
    c.edit_data_bits("300");
    assert_eq!(c.data_bits, 5);
    c.edit_data_bits("");
    assert_eq!(c.data_bits, 5);
}

#[test]
fn stop_bits_edits() {
    let mut c = SerialConfig::default();
    c.edit_stop_bits("2");
    assert_eq!(c.stop_bits, 2);
    c.edit_stop_bits("0");
    assert_eq!(c.stop_bits, 2);
    c.edit_stop_bits("3");
    assert_eq!(c.stop_bits, 2);
    c.edit_stop_bits("1");
    assert_eq!(c.stop_bits, 1);
}

#[test]
fn parity_labels() {
    assert_eq!(parity_label(Parity::NoParity), "None");
    assert_eq!(parity_label(Parity::Even), "Even");
    assert_eq!(parity_label(Parity::Odd), "Odd");
    assert_eq!(parity_from_label("Even"), Parity::Even);
    assert_eq!(parity_from_label("Odd"), Parity::Odd);
    assert_eq!(parity_from_label("None"), Parity::NoParity);
    assert_eq!(parity_from_label("even"), Parity::NoParity);
    for p in [Parity::NoParity, Parity::Even, Parity::Odd] {
        assert_eq!(parity_from_label(&parity_label(p)), p);
    }
    assert_eq!(parity_options(), vec!["None", "Even", "Odd"]);
    let mut c = SerialConfig::default();
    c.select_parity(Some("Odd"));
    assert_eq!(c.parity, Parity::Odd);
    c.select_parity(None);
    assert_eq!(c.parity, Parity::Odd);
    c.select_parity(Some("Mark"));
    assert_eq!(c.parity, Parity::NoParity);
}

#[test]
fn format_labels() {
    assert_eq!(format_label(DataFormat::Text), "TEXT");
    assert_eq!(format_label(DataFormat::Hex), "HEX");
    assert_eq!(format_label(DataFormat::Binary), "BIN");
    assert_eq!(format_from_label("TEXT"), DataFormat::Text);
    assert_eq!(format_from_label("BIN"), DataFormat::Binary);
    assert_eq!(format_from_label("HEX"), DataFormat::Hex);
    assert_eq!(format_from_label("whatever"), DataFormat::Hex);
    for f in [DataFormat::Text, DataFormat::Hex, DataFormat::Binary] {
        assert_eq!(format_from_label(&format_label(f)), f);
    }
    assert_eq!(format_options(), vec!["TEXT", "HEX", "BIN"]);
    let mut d = create_default_user_config().data;
    d.select_format(Some("TEXT"));
    assert_eq!(d.format, DataFormat::Text);
    d.select_format(None);
    assert_eq!(d.format, DataFormat::Text);
    d.select_format(Some("hex"));
    assert_eq!(d.format, DataFormat::Hex);
    assert_eq!(d.encoding, "UTF-8");
}

#[test]
fn baud_options_listed() {
    let opts = baud_rate_options();
    assert_eq!(
        opts,
        vec!["9600", "19200", "38400", "57600", "115200", "230400", "460800", "921600"]
    );
    for o in &opts {
        let mut c = SerialConfig::default();
        c.select_baud_rate(Some(o.as_str()));
        assert_eq!(c.baud_rate.to_string(), *o);
    }
}
