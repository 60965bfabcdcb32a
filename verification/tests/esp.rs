use stm32_kernel::esp::{send_bytes_to_server, send_msg_to_server, BUFFER_LEN, USART2};

#[test]
fn cipsend_announces_length() {
    let s = send_msg_to_server("hello");
    assert_eq!(s.command, b"AT+CIPSEND=5\r\n".to_vec());
    assert_eq!(s.payload, b"hello".to_vec());
}

#[test]
fn cipsend_counts_bytes_not_chars() {
    let s = send_msg_to_server("héllo");
    assert_eq!(s.command, b"AT+CIPSEND=6\r\n".to_vec());
    assert_eq!(s.payload, "héllo".as_bytes().to_vec());
}

#[test]
fn cipsend_of_empty_message() {
    let s = send_msg_to_server("");
    assert_eq!(s.command, b"AT+CIPSEND=0\r\n".to_vec());
    assert!(s.payload.is_empty());
}

#[test]
fn cipsend_of_long_message() {
    let msg = vec![b'a'; 1234];
    let s = send_bytes_to_server(&msg);
    assert_eq!(s.command, b"AT+CIPSEND=1234\r\n".to_vec());
    assert_eq!(s.payload, msg);
}

#[test]
fn buffer_len_and_port() {
    assert_eq!(BUFFER_LEN, 1000);
    let _port = USART2;
}
