use ota_sweep::scpi::{
    command_line, is_clean_error_reply, parse_binary_block, write_binary_block, ErrCheck,
    ScpiError,
};

fn round_trip(len: usize) {
    let data: Vec<u8> = (0..len).map(|i| (i % 251) as u8).collect();
    let cmd = "mmemory:data \"WFM1:waveform\",";
    let frame = write_binary_block(cmd, &data);
    let digits = len.to_string();
    let header = format!("{}#{}{}", cmd, digits.len(), digits);
    assert_eq!(&frame[..header.len()], header.as_bytes());
    assert_eq!(frame.len(), cmd.len() + 1 + 1 + digits.len() + len + 1);
    assert_eq!(*frame.last().unwrap(), b'\n');
    let parsed = parse_binary_block(&frame[cmd.len()..]).expect("block reads back");
    assert_eq!(parsed, data);
}

#[test]
fn block_round_trip_empty() {
    round_trip(0);
}

#[test]
fn block_round_trip_one_byte() {
    round_trip(1);
}

#[test]
fn block_round_trip_nine_bytes() {
    round_trip(9);
}

#[test]
fn block_round_trip_ten_bytes() {
    round_trip(10);
}

#[test]
fn block_round_trip_999_bytes() {
    round_trip(999);
}

#[test]
fn block_round_trip_1000_bytes() {
    round_trip(1000);
}

#[test]
fn block_header_exact_bytes() {
    let frame = write_binary_block("X", &[7u8; 12]);
    let mut expected = b"X#212".to_vec();
    expected.extend_from_slice(&[7u8; 12]);
    expected.push(b'\n');
    assert_eq!(frame, expected);
    assert_eq!(write_binary_block("", &[]), b"#10\n".to_vec());
}

#[test]
fn malformed_blocks_are_refused() {
    assert_eq!(parse_binary_block(b""), None);
    assert_eq!(parse_binary_block(b"#0\n"), None);
    assert_eq!(parse_binary_block(b"#13ab\n"), None);
    assert_eq!(parse_binary_block(b"#12ab\r"), None);
    assert_eq!(parse_binary_block(b"#1xab\n"), None);
    assert_eq!(parse_binary_block(b"#12abc\n"), None);
    assert_eq!(parse_binary_block(b"#12ab\n"), Some(b"ab".to_vec()));
}

#[test]
fn command_line_appends_newline() {
    assert_eq!(command_line("*idn?"), b"*idn?\n".to_vec());
    assert_eq!(command_line(""), b"\n".to_vec());
}

#[test]
fn clean_error_replies() {
    assert!(is_clean_error_reply("+0,\"No error\""));
    assert!(is_clean_error_reply("0,\"No error\""));
    assert!(is_clean_error_reply("-0,x"));
    assert!(is_clean_error_reply("No error"));
    assert!(!is_clean_error_reply("-222,\"Data out of range\""));
    assert!(!is_clean_error_reply(""));
    assert!(!is_clean_error_reply("10,\"x\""));
}

#[test]
fn err_check_with_empty_queue() {
    let mut check = ErrCheck::new();
    assert!(matches!(check.on_reply("+0,\"No error\"".to_string()), Some(Ok(()))));
}

#[test]
fn err_check_gathers_every_error() {
    let mut check = ErrCheck::new();
    assert!(check.on_reply("-222,\"Data out of range\"".to_string()).is_none());
    assert!(check.on_reply("-113,\"Undefined header\"".to_string()).is_none());
    match check.on_reply("+0,\"No error\"".to_string()) {
        Some(Err(ScpiError::InstrumentErrors(v))) => assert_eq!(
            v,
            vec!["-222,\"Data out of range\"", "-113,\"Undefined header\""]
        ),
        _ => panic!("expected the gathered errors"),
    }
    assert!(matches!(check.on_reply("0,ok".to_string()), Some(Ok(()))));
}

#[test]
fn error_query_text() {
    assert_eq!(ErrCheck::QUERY, "SYST:ERR?");
}
