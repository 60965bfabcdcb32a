//! Verified core of a small round-robin kernel for an STM32F4 board that
//! talks to a server through an ESP8266 Wi-Fi module.

pub mod config;
pub mod decimal;
pub mod esp;
pub mod handle;
pub mod interrupt;
pub mod led;
pub mod sdcard;
pub mod startup;
pub mod switch_context;
pub mod text;
