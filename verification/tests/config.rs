use stm32_kernel::config::{Config, ConfigError};

fn sample() -> Config {
    Config {
        wifi_ssid: "home".to_string(),
        wifi_pwd: "secret".to_string(),
        server: "10.0.0.2".to_string(),
        port: 8080,
        token: "SECRET-REDACTED".to_string(),
    }
}

#[test]
fn invalid_utf8_is_no_config() {
    let r = Config::get_config(&[0xff, 0xfe], Some(sample()));
    assert_eq!(r.unwrap_err(), ConfigError::NoConfig);
}

#[test]
fn unparsable_text_is_format_error() {
    let r = Config::get_config(b"not json", None);
    assert_eq!(r.unwrap_err(), ConfigError::FormatError);
}

#[test]
fn parsed_config_is_returned() {
    let r = Config::get_config(b"{}", Some(sample())).unwrap();
    assert_eq!(r.wifi_ssid, "home");
    assert_eq!(r.port, 8080);
}
