//! Applies configured default settings to zigbee2mqtt devices: follows the
//! bridge's websocket protocol, matches each device's reported state against
//! an ordered list of rules, and sends the first matching rule's values to
//! the device, at most once per device and session.

use vstd::prelude::*;

pub mod bootstrap;
pub mod config;
pub mod dispatch;
pub mod json;
pub mod messages;

verus! {

/// The success type of the steady-state loop, which only ends on an error:
/// it has no values.
pub enum Never {
    Unreachable(core::convert::Infallible),
}

} // verus!
