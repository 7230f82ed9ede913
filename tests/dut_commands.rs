use ota_sweep::dut::{DutClient, DutCommand, DutError, ResponseHeader};

fn ate_args(c: DutCommand) -> (String, Vec<String>) {
    match c {
        DutCommand::ATECmd { cmd, args } => (cmd, args),
        DutCommand::ReadMib(_) => panic!("expected an ATE command"),
    }
}

#[test]
fn bandwidth_codes_for_known_widths() {
    assert_eq!(DutClient::bandwidth_code(20), 1);
    assert_eq!(DutClient::bandwidth_code(40), 2);
    assert_eq!(DutClient::bandwidth_code(80), 3);
    assert_eq!(DutClient::bandwidth_code(160), 4);
}

#[test]
fn unknown_bandwidth_gets_the_20mhz_code() {
    assert_eq!(DutClient::bandwidth_code(10), 1);
    assert_eq!(DutClient::bandwidth_code(0), 1);
    assert_eq!(DutClient::bandwidth_code(320), 1);
}

#[test]
fn interface_follows_the_band() {
    assert_eq!(DutClient::interface(5000), "wlan0");
    assert_eq!(DutClient::interface(5180), "wlan0");
    assert_eq!(DutClient::interface(4999), "wlan1");
    assert_eq!(DutClient::interface(2412), "wlan1");
}

#[test]
fn open_rx_command_arguments() {
    let (cmd, args) = ate_args(DutClient::open_rx(5180, 40));
    assert_eq!(cmd, "ate_cmd");
    let expected = vec![
        "wlan0", "fastconfig", "-f", "5180", "-c", "5180", "-w", "2", "-u", "2", "-r",
    ];
    assert_eq!(args, expected);
}

#[test]
fn open_rx_on_2g_with_unknown_width() {
    let (_, args) = ate_args(DutClient::open_rx(2412, 25));
    let expected = vec![
        "wlan1", "fastconfig", "-f", "2412", "-c", "2412", "-w", "1", "-u", "1", "-r",
    ];
    assert_eq!(args, expected);
}

#[test]
fn close_rx_command_arguments() {
    let (cmd, args) = ate_args(DutClient::close_rx(2437));
    assert_eq!(cmd, "ate_cmd");
    assert_eq!(args, vec!["wlan1", "fastconfig", "-k"]);
}

#[test]
fn read_mib_names_the_interface() {
    match DutClient::read_mib(5745) {
        DutCommand::ReadMib(iface) => assert_eq!(iface, "wlan0"),
        DutCommand::ATECmd { .. } => panic!("expected a MIB read"),
    }
}

#[test]
fn header_with_error_flag_fails() {
    let h = ResponseHeader { is_error: true, file_size: 12 };
    assert_eq!(DutClient::read_resp(&h), Err(DutError::DeviceError));
    assert_eq!(DutClient::read_resp_raw(&h), Err(DutError::DeviceError));
}

#[test]
fn clean_header_gives_payload_size() {
    let h = ResponseHeader { is_error: false, file_size: 12 };
    assert_eq!(DutClient::read_resp(&h), Ok(()));
    assert_eq!(DutClient::read_resp_raw(&h), Ok(12));
}

#[test]
fn mib_text_decodes_payload() {
    assert_eq!(DutClient::mib_text(b"rec = 5"), "rec = 5");
    assert_eq!(DutClient::mib_text(&[0x61, 0xff, 0x62]), "a\u{fffd}b");
    assert_eq!(DutClient::mib_text(&[]), "");
}
