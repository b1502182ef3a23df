use serial_debug_assistant::assistant::{
    encode_outgoing, plan_send, port_options, serial_config_for_port, SendAction,
};
use serial_debug_assistant::client::{
    convert_data_bits, convert_stop_bits, port_info_from, validate_config, ClientState,
    ConnectionStatus, DataBits, DataDirection, StopBits, Statistics, UsbDetails,
};
use serial_debug_assistant::config::{DataFormat, SerialConfig};
use serial_debug_assistant::error::{
    connection_failed, send_failed, ErrorResponse, SerialError,
};

fn invalid_message(r: Result<(), SerialError>) -> String {
    match r {
        Err(SerialError::InvalidConfiguration(m)) => m,
        _ => panic!("expected an invalid configuration"),
    }
}

#[test]
fn config_validation() {
    let mut c = SerialConfig::default();
    assert_eq!(invalid_message(validate_config(&c)), "端口名称不能为空");
    c.port = "COM1".to_string();
    assert!(validate_config(&c).is_ok());
    c.baud_rate = 0;
    assert_eq!(invalid_message(validate_config(&c)), "波特率必须大于0");
    c.baud_rate = 9600;
    c.data_bits = 9;
    assert_eq!(invalid_message(validate_config(&c)), "数据位必须为5-8");
    c.data_bits = 5;
    c.stop_bits = 3;
    assert_eq!(invalid_message(validate_config(&c)), "停止位必须为1或2");
    c.stop_bits = 2;
    assert!(validate_config(&c).is_ok());
}

#[test]
fn line_settings_conversion() {
    assert_eq!(convert_data_bits(5).ok(), Some(DataBits::Five));
    assert_eq!(convert_data_bits(8).ok(), Some(DataBits::Eight));
    match convert_data_bits(9) {
        Err(SerialError::InvalidConfiguration(m)) => assert_eq!(m, "不支持的数据位: 9"),
        _ => panic!(),
    }
    assert_eq!(convert_stop_bits(1).ok(), Some(StopBits::One));
    assert_eq!(convert_stop_bits(2).ok(), Some(StopBits::Two));
    match convert_stop_bits(200) {
        Err(SerialError::InvalidConfiguration(m)) => assert_eq!(m, "不支持的停止位: 200"),
        _ => panic!(),
    }
}

#[test]
fn error_messages() {
    match connection_failed("COM3", "busy") {
        SerialError::ConnectionFailed(m) => assert_eq!(m, "端口 COM3 - busy"),
        _ => panic!(),
    }
    match send_failed(42, "broken pipe") {
        SerialError::SendFailed(m) => assert_eq!(m, "发送 42 字节数据失败: broken pipe"),
        _ => panic!(),
    }
    assert_eq!(
        SerialError::ConnectionFailed("x".to_string()).to_string(),
        "串口连接失败: x"
    );
    assert_eq!(SerialError::TaskCancelled.to_string(), "任务被取消");
    assert_eq!(SerialError::PluginError("p".to_string()).to_string(), "插件错误: p");
    let io = std::io::Error::new(std::io::ErrorKind::Other, "disk gone");
    assert_eq!(SerialError::from(io).to_string(), "IO错误: disk gone");
    let sp = serialport::Error::new(serialport::ErrorKind::NoDevice, "no such port");
    assert_eq!(SerialError::from(sp).to_string(), "串口库错误: no such port");
}

#[test]
fn error_responses() {
    let r = ErrorResponse::at(SerialError::SendFailed("x".to_string()), "t0".to_string());
    assert_eq!(r.error_type, "send_failed");
    assert_eq!(r.message, "数据发送失败: x");
    assert_eq!(r.details, None);
    assert_eq!(r.timestamp, "t0");
    let r = ErrorResponse::from(SerialError::TaskCancelled);
    assert_eq!(r.error_type, "task_cancelled");
    assert_eq!(r.message, "任务被取消");
    assert!(!r.timestamp.is_empty());
    let kinds = [
        (SerialError::ConnectionFailed(String::new()), "connection_failed"),
        (SerialError::InvalidConfiguration(String::new()), "invalid_configuration"),
        (SerialError::PortEnumerationFailed(String::new()), "port_enumeration_failed"),
        (SerialError::PluginError(String::new()), "plugin_error"),
    ];
    for (e, k) in kinds {
        assert_eq!(e.error_type(), k);
    }
}

#[test]
fn client_lifecycle() {
    let mut s = ClientState::new();
    assert!(matches!(s.status, ConnectionStatus::Disconnected));
    assert!(s.ready_to_send().is_err());
    s.begin_connect();
    assert!(matches!(s.status, ConnectionStatus::Connecting));
    let mut c = SerialConfig::default();
    c.port = "COM7".to_string();
    s.finish_connect(c);
    assert!(matches!(s.status, ConnectionStatus::Connected));
    assert!(s.port_open && s.receiving && s.connection_start.is_some());
    assert_eq!(s.config.port, "COM7");
    assert!(s.ready_to_send().is_ok());
    let p = s.record_send(b"Hi", DataFormat::Hex);
    assert_eq!(p.direction, DataDirection::Sent);
    assert_eq!(p.data, b"Hi".to_vec());
    assert_eq!(p.display_text, "48 69");
    assert_eq!(s.statistics.bytes_sent, 2);
    assert_eq!(s.statistics.packets_sent, 1);
    assert!(s.statistics.last_activity.is_some());
    s.disconnect();
    assert!(matches!(s.status, ConnectionStatus::Disconnected));
    match s.ready_to_send() {
        Err(SerialError::ConnectionFailed(m)) => assert_eq!(m, "未建立连接"),
        _ => panic!(),
    }
    assert_eq!(s.statistics.bytes_sent, 2);
}

#[test]
fn statistics_counting() {
    let mut st = Statistics::new();
    assert_eq!(st.bytes_received, 0);
    assert!(st.connection_time.is_none() && st.last_activity.is_none());
    st.record_received(10);
    st.record_received(5);
    assert_eq!(st.bytes_received, 15);
    assert_eq!(st.packets_received, 2);
    assert_eq!(st.bytes_sent, 0);
}

#[test]
fn port_descriptions() {
    let usb = UsbDetails {
        vid: 0x1a86,
        pid: 0x7523,
        serial_number: Some("SN1".to_string()),
        product: Some("CH340".to_string()),
    };
    let p = port_info_from("/dev/ttyUSB0".to_string(), "UsbPort".to_string(), Some(usb));
    assert_eq!(p.description.as_deref(), Some("CH340"));
    assert_eq!(p.hardware_id.as_deref(), Some("SN1"));
    assert_eq!(p.vendor_id, Some(0x1a86));
    assert_eq!(p.product_id, Some(0x7523));
    let q = port_info_from("/dev/ttyS0".to_string(), "PciPort".to_string(), None);
    assert!(q.description.is_none() && q.vendor_id.is_none() && q.product_id.is_none());
    let opts = port_options(&vec![p, q]);
    assert_eq!(opts, vec!["请选择端口", "/dev/ttyUSB0", "/dev/ttyS0"]);
}

#[test]
fn outgoing_encoding() {
    assert_eq!(encode_outgoing("Hi", DataFormat::Text, false), Ok(b"Hi".to_vec()));
    assert_eq!(encode_outgoing("Hi", DataFormat::Text, true), Ok(b"Hi\r\n".to_vec()));
    assert_eq!(encode_outgoing("中", DataFormat::Text, false), Ok("中".as_bytes().to_vec()));
    assert_eq!(encode_outgoing("48 69", DataFormat::Hex, true), Ok(b"Hi".to_vec()));
    assert_eq!(encode_outgoing("4", DataFormat::Hex, false), Err("十六进制格式错误".to_string()));
    assert_eq!(encode_outgoing("0100100001101001", DataFormat::Binary, false), Ok(b"Hi".to_vec()));
    assert_eq!(encode_outgoing("012", DataFormat::Binary, false), Err("二进制格式错误".to_string()));
}

#[test]
fn send_planning() {
    match plan_send(false, "Hi", DataFormat::Text, false) {
        SendAction::Notify(m) => assert_eq!(m, "请先连接串口"),
        _ => panic!(),
    }
    match plan_send(true, "Hi", DataFormat::Text, false) {
        SendAction::Transmit(b) => assert_eq!(b, b"Hi".to_vec()),
        _ => panic!(),
    }
    assert!(matches!(plan_send(true, "", DataFormat::Text, false), SendAction::Skip));
    match plan_send(true, "", DataFormat::Text, true) {
        SendAction::Transmit(b) => assert_eq!(b, b"\r\n".to_vec()),
        _ => panic!(),
    }
    assert!(matches!(plan_send(true, " ", DataFormat::Hex, false), SendAction::Skip));
    match plan_send(true, "xyz", DataFormat::Hex, false) {
        SendAction::Notify(m) => assert_eq!(m, "十六进制格式错误"),
        _ => panic!(),
    }
}

#[test]
fn choosing_the_port() {
    let mut base = SerialConfig::default();
    base.baud_rate = 9600;
    match serial_config_for_port(&base, &Some("COM4".to_string())) {
        Ok(c) => {
            assert_eq!(c.port, "COM4");
            assert_eq!(c.baud_rate, 9600);
            assert_eq!(c.data_bits, 8);
        }
        Err(_) => panic!(),
    }
    match serial_config_for_port(&base, &None) {
        Err(SerialError::PluginError(m)) => assert_eq!(m, "未选择端口"),
        _ => panic!(),
    }
}

#[test]
fn text_mode_echo() {
    for s in ["Hello", "中文 串口", ""] {
        let bytes = encode_outgoing(s, DataFormat::Text, false).unwrap();
        assert_eq!(
            serial_debug_assistant::display::format_data_for_display(&bytes, &DataFormat::Text),
            s
        );
    }
}

#[test]
fn valid_config_converts() {
    let mut c = SerialConfig::default();
    c.port = "COM1".to_string();
    for bits in 5..=8u8 {
        c.data_bits = bits;
        for stop in 1..=2u8 {
            c.stop_bits = stop;
            assert!(validate_config(&c).is_ok());
            assert!(convert_data_bits(c.data_bits).is_ok());
            assert!(convert_stop_bits(c.stop_bits).is_ok());
        }
    }
}

#[test]
fn failed_connect_reports_error() {
    let mut s = ClientState::new();
    s.begin_connect();
    let c = SerialConfig::default();
    let e = validate_config(&c).unwrap_err();
    s.fail_connect(e.to_string());
    match &s.status {
        ConnectionStatus::Error(m) => assert_eq!(m, "串口配置无效: 端口名称不能为空"),
        _ => panic!("expected an error status"),
    }
    assert!(!s.port_open && !s.receiving && s.connection_start.is_none());
}

#[test]
fn send_records_and_failures() {
    let mut s = ClientState::new();
    let p = s.record_send_at(b"A", DataFormat::Binary, "2024-01-01T00:00:00+00:00".to_string());
    assert_eq!(p.timestamp, "2024-01-01T00:00:00+00:00");
    assert_eq!(p.display_text, "01000001");
    assert_eq!(s.statistics.bytes_sent, 1);
    assert!(s.statistics.connection_time.is_none());
    let q = s.record_send(b"BC", DataFormat::Text);
    assert!(q.timestamp.ends_with("+00:00"));
    assert_eq!(s.statistics.bytes_sent, 3);
    assert_eq!(s.statistics.packets_sent, 2);
    s.record_send_failure();
    s.record_send_failure();
    assert_eq!(s.statistics.errors_count, 2);
    assert_eq!(s.statistics.bytes_sent, 3);
    assert_eq!(s.statistics.packets_sent, 2);
    let mut st = Statistics::new();
    st.record_error();
    assert_eq!(st.errors_count, 1);
    assert!(st.last_activity.is_none());
}

#[test]
fn error_report_timestamp_is_utc() {
    let r = ErrorResponse::from(SerialError::PluginError("x".to_string()));
    assert!(r.timestamp.ends_with("+00:00"));
}
