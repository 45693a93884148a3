//! Plain event records of the legacy, pre-envelope event channel.

use vstd::prelude::*;

verus! {

/// Whether a legacy message came down from the parent or up from a child.
#[derive(Debug, Clone, Copy, PartialEq, Eq, Structural)]
pub enum ReceiveMessageKind {
    /// From the parent script.
    Parent,
    /// From a child script.
    Child,
}

/// An object entered or left a sensor's area.
#[derive(Debug)]
pub struct TriggerEvent {
    /// The identifier of the trigger.
    pub id: String,
    /// The index of the sensor.
    pub sensor_index: i32,
}

/// A cockpit button changed state.
#[derive(Debug)]
pub struct ButtonEvent {
    /// The identifier of the button.
    pub id: String,
    /// Pressed when true, released when false.
    pub value: bool,
    /// The cockpit the button belongs to.
    pub cockpit_index: u8,
}

/// An integer message from a child script.
#[derive(Debug)]
pub struct ReceiveMessageFromChildEvent {
    /// The slot the child occupies.
    pub slot_index: i32,
    /// The identifier of the message.
    pub id: String,
    /// The carried value.
    pub value: i32,
}

/// An integer message from the parent script.
#[derive(Debug)]
pub struct ReceiveMessageFromParentEvent {
    /// This module's index within its class.
    pub index_of_class: i32,
    /// The identifier of the message.
    pub id: String,
    /// The carried value.
    pub value: i32,
}

} // verus!
