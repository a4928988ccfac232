//! Errors of the library.

use vstd::prelude::*;

verus! {

/// What can go wrong when talking to a HID device.
#[derive(Debug, Clone)]
pub enum HidError {
    /// A failure described in words.
    Message(String),
    /// The device id names no device that this process was granted.
    NotConnected,
    /// The device went away while a report was awaited.
    Disconnected,
    /// The browser rejected a call; its own description of the failure.
    Js(String),
}

/// `Ok` of a library call or the `HidError` that it failed with.
pub type HidResult<T> = Result<T, HidError>;

impl HidError {
    /// An error described by the given words.
    pub fn message(text: &str) -> (err: HidError)
        ensures
            err matches HidError::Message(m) && m@ == text@,
    {
        HidError::Message(text.to_owned())
    }
}

} // verus!
