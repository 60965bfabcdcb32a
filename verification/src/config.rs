use vstd::prelude::*;
use vstd::utf8::*;
use crate::text::str_from_utf8;

verus! {

/// Why no configuration could be had from the card.
#[derive(Debug, PartialEq, Eq, Structural, Clone, Copy)]
pub enum ConfigError {
    /// The configuration file is not text (not UTF-8).
    NoConfig,
    /// The configuration file is text but not a configuration in JSON.
    FormatError,
}

/// Connection settings read from `config.json` on the SD card.
#[derive(Debug)]
pub struct Config {
    pub wifi_ssid: String,
    pub wifi_pwd: String,
    pub server: String,
    pub port: u16,
    pub token: String,
}

impl Config {
    /// Decides the outcome of reading the configuration file whose contents
    /// are `content`. `parsed` is what the JSON reader made of that text:
    /// the configuration, or nothing where the text is not one. Contents that
    /// are not UTF-8 give `NoConfig`; text that does not parse gives
    /// `FormatError`; otherwise the parsed configuration is the result.
    pub fn get_config(content: &[u8], parsed: Option<Config>) -> (r: Result<Config, ConfigError>)
        ensures
            !valid_utf8(content@) ==> r == Err::<Config, ConfigError>(ConfigError::NoConfig),
            valid_utf8(content@) && parsed is None ==> r == Err::<Config, ConfigError>(
                ConfigError::FormatError,
            ),
            valid_utf8(content@) && parsed is Some ==> r == Ok::<Config, ConfigError>(parsed->0),
    {
        match str_from_utf8(content) {
            None => Err(ConfigError::NoConfig),
            Some(_text) => match parsed {
                Some(config) => Ok(config),
                None => Err(ConfigError::FormatError),
            },
        }
    }
}

} // verus!
