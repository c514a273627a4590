//! The handle for the global play/pause hotkey listener. The listener
//! itself is an operating-system affair that lives with the caller; it
//! hands this library the sending half of its shutdown channel, and
//! unregistering delivers the one stop message the listener waits for.

use vstd::prelude::*;

verus! {

#[verifier::external_type_specification]
#[verifier::external_body]
#[verifier::reject_recursive_types(T)]
pub struct ExSender<T>(std::sync::mpsc::Sender<T>);

/// Relies on std's `mpsc::Sender::send`: delivers one unit message to the
/// listener's channel. A send error only means the listener is already
/// gone, so it is ignored.
#[verifier::external_body]
fn send_stop(tx: &std::sync::mpsc::Sender<()>) {
    let _ = tx.send(());
}

/// The handle of a registered hotkey listener: dropping the message into
/// its channel is the only way to stop it.
pub struct HotkeyManager {
    tx: std::sync::mpsc::Sender<()>,
}

impl HotkeyManager {
    /// Wraps the sending half of a listener's shutdown channel.
    pub fn new(tx: std::sync::mpsc::Sender<()>) -> (m: HotkeyManager) {
        HotkeyManager { tx }
    }

    /// Stops the listener by sending its shutdown message; the handle is
    /// consumed, so the signal is sent at most once through it.
    pub fn unregister(self) {
        send_stop(&self.tx);
    }
}

} // verus!
