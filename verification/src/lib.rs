//! Verified core of an NFC keyboard wedge: APDU framing, Type 2 tag memory
//! parsing, NDEF Text extraction, duplicate-read suppression, the reader polling
//! state machine, the log ring buffer, translations, settings, the status line
//! and the keystrokes that type a tag's text.

pub mod auto_start;
pub mod config;
pub mod i18n;
pub mod log_buffer;
pub mod nfc;
pub mod single_shot;
pub mod ui;
pub mod wedge;
