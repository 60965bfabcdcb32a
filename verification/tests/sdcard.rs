use stm32_kernel::sdcard::get_wifi_config;
use stm32_kernel::text::utf8_text;

#[test]
fn splits_at_first_comma() {
    assert_eq!(get_wifi_config(b"home,pass,word"), ("home", "pass,word"));
}

#[test]
fn empty_parts() {
    assert_eq!(get_wifi_config(b","), ("", ""));
    assert_eq!(get_wifi_config(b"net,"), ("net", ""));
}

#[test]
fn non_ascii_names() {
    assert_eq!(get_wifi_config("café,mot".as_bytes()), ("café", "mot"));
}

#[test]
fn invalid_utf8_gives_empty_strings() {
    assert_eq!(get_wifi_config(&[0xc3, 0x28, b',', b'a']), ("", ""));
}

#[test]
fn utf8_text_agrees_with_std() {
    for bytes in [&b"abc"[..], &[0xe2, 0x82, 0xac], &[0xed, 0xa0, 0x80], &[0xc0, 0x80], &[]] {
        assert_eq!(utf8_text(bytes), std::str::from_utf8(bytes).ok());
    }
}
