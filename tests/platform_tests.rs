use process_compose::pid_file::parse_pid;
use process_compose::taskkill::{
    decimal, decode_msg, decoded_text, kill_failure_message, taskkill_args,
};

#[test]
fn pid_file_texts() {
    assert_eq!(parse_pid("1234"), Some(1234));
    assert_eq!(parse_pid("1234\n"), Some(1234));
    assert_eq!(parse_pid("  \t42 \r\n"), Some(42));
    assert_eq!(parse_pid("+7"), Some(7));
    assert_eq!(parse_pid("4294967295"), Some(u32::MAX));
    assert_eq!(parse_pid("4294967296"), None);
    assert_eq!(parse_pid("99999999999999999999"), None);
    assert_eq!(parse_pid(""), None);
    assert_eq!(parse_pid("   "), None);
    assert_eq!(parse_pid("+"), None);
    assert_eq!(parse_pid("-1"), None);
    assert_eq!(parse_pid("12a"), None);
    assert_eq!(parse_pid("1 2"), None);
    assert_eq!(parse_pid("\u{3000}8\u{a0}"), Some(8));
}

#[test]
fn pid_file_round_trip() {
    for pid in [0u32, 1, 9, 10, 4321, 65535, u32::MAX] {
        assert_eq!(parse_pid(&decimal(pid)), Some(pid));
    }
}

#[test]
fn decimal_texts() {
    assert_eq!(decimal(0), "0");
    assert_eq!(decimal(7), "7");
    assert_eq!(decimal(10), "10");
    assert_eq!(decimal(4096), "4096");
    assert_eq!(decimal(u32::MAX), "4294967295");
}

#[test]
fn taskkill_arguments() {
    assert_eq!(taskkill_args(1234, true), vec!["/F", "/T", "/PID", "1234"]);
    assert_eq!(taskkill_args(5, false), vec!["/T", "/PID", "5"]);
}

#[test]
fn taskkill_failure_messages() {
    let prefix = "An error occurred when attempting to terminate process：";
    assert_eq!(kill_failure_message("out", "err"), format!("{}err", prefix));
    assert_eq!(kill_failure_message("out", ""), format!("{}out", prefix));
    assert_eq!(kill_failure_message("", ""), format!("{}unkown error", prefix));
}

#[test]
fn console_output_decoding() {
    assert_eq!(decode_msg(&"ERROR: process not found".as_bytes().to_vec()), "ERROR: process not found");
    // "中文" in GB18030, which is not valid UTF-8
    assert_eq!(decode_msg(&vec![0xD6, 0xD0, 0xCE, 0xC4]), "中文");
    assert_eq!(decode_msg(&vec![0xFF]), "");
    assert_eq!(decoded_text(None, Some("b".to_string())), "b");
    assert_eq!(decoded_text(Some("a".to_string()), Some("b".to_string())), "a");
    assert_eq!(decoded_text(None, None), "");
}
