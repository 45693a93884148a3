//! The lifecycle a script exposes to the host.
//!
//! The host drives a script through a small fixed set of entry points:
//! once to initialize, then every tick the update step followed by the
//! message-handling step. An adapter at the boundary owns one state value
//! and threads it through these calls; execution is strictly
//! single-threaded and cooperative.

use crate::action::RegisterAction;
use crate::message::Message;

use vstd::prelude::*;

verus! {

/// What a script does at each lifecycle entry point.
pub trait Script: Sized {
    /// Runs once before the first tick.
    fn init(&mut self);

    /// The actions the script wants registered with the engine.
    fn actions() -> Vec<RegisterAction>;

    /// Runs every tick.
    fn tick(&mut self);

    /// Runs once per inbound message after the tick.
    fn on_message(&mut self, msg: Message);
}

} // verus!
