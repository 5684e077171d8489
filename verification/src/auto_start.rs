//! Start on login. The registry entry exists on Windows only, where the
//! application registers itself; on every other platform these are no-ops.
use vstd::prelude::*;

verus! {

/// Why the start-on-login setting could not be read or changed.
#[derive(Debug, Clone)]
pub struct AutoStartError {
    pub message: String,
}

/// Whether the application starts on login: never, on this platform.
pub fn is_enabled() -> (r: Result<bool, AutoStartError>)
    ensures
        r matches Ok(enabled) && !enabled,
{
    Ok(false)
}

/// Turns start on login on: nothing to do on this platform.
pub fn enable() -> (r: Result<(), AutoStartError>)
    ensures
        r is Ok,
{
    Ok(())
}

/// Turns start on login off: nothing to do on this platform.
pub fn disable() -> (r: Result<(), AutoStartError>)
    ensures
        r is Ok,
{
    Ok(())
}

} // verus!
