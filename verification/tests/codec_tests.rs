use serial_debug_assistant::codec::{
    binary_to_bytes, hex_to_bytes, try_binary_to_bytes, try_hex_to_bytes,
};
use serial_debug_assistant::config::DataFormat;
use serial_debug_assistant::display::format_data_for_display;
use serial_debug_assistant::text::{decimal_string, parse_u32, parse_u8, same_text};

#[test]
fn hex_basic() {
    assert_eq!(hex_to_bytes("48 65 6C 6C 6F"), Ok(b"Hello".to_vec()));
    assert_eq!(hex_to_bytes("48656c6c6f"), Ok(b"Hello".to_vec()));
    assert_eq!(hex_to_bytes("4\n8\r 65"), Ok(vec![0x48, 0x65]));
    assert_eq!(hex_to_bytes(""), Ok(vec![]));
    assert_eq!(hex_to_bytes("   "), Ok(vec![]));
    assert_eq!(hex_to_bytes("ff00"), Ok(vec![0xff, 0x00]));
}

#[test]
fn hex_plus_sign_quirk() {
    assert_eq!(hex_to_bytes("+F"), Ok(vec![0x0f]));
    assert_eq!(hex_to_bytes("-F"), Err("无效的十六进制字符: -F".to_string()));
}

#[test]
fn hex_errors() {
    assert_eq!(hex_to_bytes("123"), Err("十六进制字符串长度必须是偶数".to_string()));
    assert_eq!(hex_to_bytes("12 3"), Err("十六进制字符串长度必须是偶数".to_string()));
    assert_eq!(hex_to_bytes("12zz34"), Err("无效的十六进制字符: zz".to_string()));
    assert_eq!(hex_to_bytes("\t1"), Err("无效的十六进制字符: \t1".to_string()));
    assert_eq!(hex_to_bytes("é"), Err("无效的十六进制字符: é".to_string()));
}

#[test]
fn hex_splitting_a_character_is_flagged() {
    assert_eq!(try_hex_to_bytes("aéb"), None);
    assert_eq!(try_hex_to_bytes("中a"), None);
    assert_eq!(try_hex_to_bytes("4142"), Some(Ok(vec![0x41, 0x42])));
    assert_eq!(try_hex_to_bytes("414"), Some(Err("十六进制字符串长度必须是偶数".to_string())));
}

#[test]
fn binary_basic() {
    assert_eq!(binary_to_bytes("01001000 01100101"), Ok(vec![0x48, 0x65]));
    assert_eq!(binary_to_bytes("11111111"), Ok(vec![0xff]));
    assert_eq!(binary_to_bytes("+1111111"), Ok(vec![0x7f]));
    assert_eq!(binary_to_bytes(""), Ok(vec![]));
    assert_eq!(binary_to_bytes("0101"), Err("二进制字符串长度必须是8的倍数".to_string()));
    assert_eq!(binary_to_bytes("01020000"), Err("无效的二进制字符: 01020000".to_string()));
    assert_eq!(try_binary_to_bytes("0000000中中中"), None);
    assert_eq!(
        try_binary_to_bytes("中中0a"),
        Some(Err("无效的二进制字符: 中中0a".to_string()))
    );
}

#[test]
fn display_formats() {
    let data = b"Hello";
    assert_eq!(format_data_for_display(data, &DataFormat::Text), "Hello");
    assert_eq!(format_data_for_display(data, &DataFormat::Hex), "48 65 6C 6C 6F");
    assert_eq!(
        format_data_for_display(&[0x48, 0x65], &DataFormat::Binary),
        "01001000 01100101"
    );
    assert_eq!(format_data_for_display(&[], &DataFormat::Hex), "");
    assert_eq!(format_data_for_display(&[0x0a], &DataFormat::Hex), "0A");
    assert_eq!(format_data_for_display(&[0xff, 0x80], &DataFormat::Text), "\u{FFFD}\u{FFFD}");
    assert_eq!(format_data_for_display("中".as_bytes(), &DataFormat::Text), "中");
}

#[test]
fn display_then_read_back() {
    let samples: Vec<Vec<u8>> = vec![vec![], vec![0], vec![255], (0..=255).collect()];
    for d in samples {
        let hex = format_data_for_display(&d, &DataFormat::Hex);
        assert_eq!(hex_to_bytes(&hex), Ok(d.clone()));
        let bin = format_data_for_display(&d, &DataFormat::Binary);
        assert_eq!(binary_to_bytes(&bin), Ok(d.clone()));
    }
}

#[test]
fn decimal_text() {
    assert_eq!(decimal_string(0), "0");
    assert_eq!(decimal_string(7), "7");
    assert_eq!(decimal_string(115200), "115200");
    assert_eq!(decimal_string(u64::MAX), u64::MAX.to_string());
}

#[test]
fn number_parsing() {
    assert_eq!(parse_u8("255"), Some(255));
    assert_eq!(parse_u8("256"), None);
    assert_eq!(parse_u8("+8"), Some(8));
    assert_eq!(parse_u8("-8"), None);
    assert_eq!(parse_u8("+"), None);
    assert_eq!(parse_u8(""), None);
    assert_eq!(parse_u8("0008"), Some(8));
    assert_eq!(parse_u32("4294967295"), Some(u32::MAX));
    assert_eq!(parse_u32("4294967296"), None);
    assert_eq!(parse_u32("12a"), None);
    for s in ["", "+", "-1", "0", "+0", "00", "255", "256", "1e3", " 1", "９"] {
        assert_eq!(parse_u8(s), s.parse::<u8>().ok());
        assert_eq!(parse_u32(s), s.parse::<u32>().ok());
    }
}

#[test]
fn text_equality() {
    assert!(same_text("abc", "abc"));
    assert!(!same_text("abc", "abd"));
    assert!(!same_text("", "a"));
}

#[test]
fn separators_do_not_change_reading() {
    assert_eq!(hex_to_bytes("4 8\r\n6C"), hex_to_bytes("486C"));
    assert_eq!(hex_to_bytes("486C"), Ok(vec![0x48, 0x6C]));
    assert_eq!(binary_to_bytes("0100 1000\n"), binary_to_bytes("01001000"));
    assert_eq!(hex_to_bytes("1 2 3"), hex_to_bytes("123"));
}
