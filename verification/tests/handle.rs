use stm32_kernel::handle::{handle_request, request_payload, Command};
use stm32_kernel::led::LedOp;

fn frame(payload: &[u8], rest: &[u8]) -> Vec<u8> {
    let mut f = format!("\r\n+IPD,{}:", payload.len()).into_bytes();
    f.extend_from_slice(payload);
    f.extend_from_slice(rest);
    f
}

#[test]
fn reads_payload_of_frame() {
    let f = frame(b"\"GreenLEDLight\"", b"");
    assert_eq!(request_payload(&f), Some((10, 15)));
    assert_eq!(&f[10..25], b"\"GreenLEDLight\"");
}

#[test]
fn ignores_bytes_after_payload() {
    let mut f = frame(b"abc", b"zzzz");
    f.resize(1000, 0);
    assert_eq!(request_payload(&f), Some((9, 3)));
}

#[test]
fn drops_trailing_control_byte() {
    let f = frame(b"abc\n", b"");
    assert_eq!(request_payload(&f), Some((9, 3)));
    let f = frame(b"abc\x7f", b"");
    assert_eq!(request_payload(&f), Some((9, 3)));
}

#[test]
fn empty_payload() {
    let f = frame(b"", b"");
    assert_eq!(request_payload(&f), Some((9, 0)));
}

#[test]
fn colon_inside_payload_is_payload() {
    let f = frame(b"a:b", b"");
    assert_eq!(request_payload(&f), Some((9, 3)));
}

#[test]
fn multi_digit_length() {
    let payload = vec![b'x'; 123];
    let f = frame(&payload, b"");
    assert_eq!(request_payload(&f), Some((11, 123)));
}

#[test]
fn no_colon_is_unreadable() {
    assert_eq!(request_payload(b"\r\n+IPD,12"), None);
    assert_eq!(request_payload(b"short"), None);
}

#[test]
fn bad_length_is_unreadable() {
    assert_eq!(request_payload(b"\r\n+IPD,x1:ab"), None);
}

#[test]
fn length_past_end_is_unreadable() {
    assert_eq!(request_payload(b"\r\n+IPD,5:ab"), None);
}

#[test]
fn length_with_plus_sign() {
    assert_eq!(request_payload(b"\r\n+IPD,+2:ab"), Some((10, 2)));
}

#[test]
fn commands_map_to_leds() {
    let cases = [
        (Command::GreenLEDLight, Some(LedOp::GreenLight)),
        (Command::GreenLEDDark, Some(LedOp::GreenDark)),
        (Command::RedLEDLight, Some(LedOp::RedLight)),
        (Command::RedLEDDark, Some(LedOp::RedDark)),
        (Command::Reboot, None),
        (Command::Upgrade, None),
    ];
    for (c, led) in cases {
        let r = handle_request(Some(c)).unwrap();
        assert_eq!(r.led, led);
        assert_eq!(r.reply.command, b"AT+CIPSEND=2\r\n".to_vec());
        assert_eq!(r.reply.payload, b"OK".to_vec());
    }
}

#[test]
fn unknown_payload_gets_no_reply() {
    assert!(handle_request(None).is_none());
}
