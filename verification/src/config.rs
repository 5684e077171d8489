//! Application settings. Loading and saving them is the application's job.
use vstd::prelude::*;

verus! {

/// Application configuration persisted to disk.
#[derive(Debug, Clone)]
pub struct Config {
    pub default_reader: Option<String>,
    pub append_enter: bool,
    pub language: String,
    pub cooldown_ms: u64,
    pub typing_delay_ms: u64,
}

/// Cooldown between two reads of the same card, when the settings do not say.
pub fn default_cooldown_ms() -> (ms: u64)
    ensures
        ms == 2000,
{
    2000
}

/// Delay between typed characters, when the settings do not say: none.
pub fn default_typing_delay_ms() -> (ms: u64)
    ensures
        ms == 0,
{
    0
}

impl Default for Config {
    /// No default reader, Enter appended, Russian, a two-second cooldown and no
    /// typing delay.
    fn default() -> (c: Self)
        ensures
            c.default_reader is None,
            c.append_enter,
            c.language@ == "ru"@,
            c.cooldown_ms == 2000,
            c.typing_delay_ms == 0,
    {
        Config {
            default_reader: None,
            append_enter: true,
            language: String::from_str("ru"),
            cooldown_ms: default_cooldown_ms(),
            typing_delay_ms: default_typing_delay_ms(),
        }
    }
}

} // verus!
