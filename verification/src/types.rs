//! The built-in message types the engine sends to scripts.
//!
//! Each type declares its identity metadata and its payload representation,
//! and proves that parsing its representation returns the represented
//! value.

use crate::message::Encodable;
use crate::message::MessageMeta;
use crate::message::MessageMetaV;
use crate::message::MessageType;
use crate::message::SerializationError;
use crate::message::str_eq;
use crate::value::Value;
use crate::value::ValueV;
use crate::value::lemma_view_entries;
use crate::value::view_entries;

use vstd::prelude::*;

verus! {

broadcast use vstd::seq::group_seq_axioms;

/// Whether an object entered or left a sensor's detection area.
#[derive(Debug, Clone, Copy, PartialEq, Eq, Structural)]
pub enum TriggerKind {
    /// An object entered the detection area.
    Enter,
    /// An object left the detection area.
    Leave,
}

impl TriggerKind {
    /// Whether this is an entry.
    pub fn is_enter(&self) -> (r: bool)
        ensures
            r == (*self == TriggerKind::Enter),
    {
        matches!(self, TriggerKind::Enter)
    }

    /// Whether this is a departure.
    pub fn is_leave(&self) -> (r: bool)
        ensures
            r == (*self == TriggerKind::Leave),
    {
        matches!(self, TriggerKind::Leave)
    }
}

/// An event from a sensor: an object entered or left its detection area.
#[derive(Debug)]
pub struct TriggerEvent {
    /// The identifier of the trigger.
    pub id: String,
    /// The index of the sensor that saw the object.
    pub sensor_index: i32,
    /// Whether the object entered or left.
    pub kind: TriggerKind,
}

/// The mathematical form of a [`TriggerEvent`].
pub struct TriggerEventV {
    pub id: Seq<char>,
    pub sensor_index: i32,
    pub kind: TriggerKind,
}

impl View for TriggerEvent {
    type V = TriggerEventV;

    open spec fn view(&self) -> TriggerEventV {
        TriggerEventV { id: self.id@, sensor_index: self.sensor_index, kind: self.kind }
    }
}

impl TriggerEvent {
    /// Whether this is an entry event.
    pub fn is_enter(&self) -> (r: bool)
        ensures
            r == (self@.kind == TriggerKind::Enter),
    {
        self.kind.is_enter()
    }

    /// Whether this is a departure event.
    pub fn is_leave(&self) -> (r: bool)
        ensures
            r == (self@.kind == TriggerKind::Leave),
    {
        self.kind.is_leave()
    }
}

impl Encodable for TriggerEvent {
    open spec fn rep_of(tv: TriggerEventV) -> ValueV {
        ValueV::Record(
            seq![
                ("id"@, ValueV::Str(tv.id)),
                ("sensor_index"@, ValueV::Int(tv.sensor_index as i64)),
                (
                    "kind"@,
                    ValueV::Str(
                        if tv.kind == TriggerKind::Enter {
                            "enter"@
                        } else {
                            "leave"@
                        },
                    ),
                ),
            ],
        )
    }

    open spec fn parse_rep(v: ValueV) -> Option<TriggerEventV> {
        match v {
            ValueV::Record(es) => if es.len() == 3 && es[0].0 == "id"@ && es[0].1 is Str
                && es[1].0 == "sensor_index"@ && es[1].1 is Int
                && i32::MIN <= es[1].1->Int_0 <= i32::MAX && es[2].0 == "kind"@
                && es[2].1 is Str && (es[2].1->Str_0 == "enter"@ || es[2].1->Str_0
                == "leave"@) {
                Some(
                    TriggerEventV {
                        id: es[0].1->Str_0,
                        sensor_index: es[1].1->Int_0 as i32,
                        kind: if es[2].1->Str_0 == "enter"@ {
                            TriggerKind::Enter
                        } else {
                            TriggerKind::Leave
                        },
                    },
                )
            } else {
                None
            },
            _ => None,
        }
    }

    proof fn lemma_parse_rep_of(tv: TriggerEventV) {
        reveal_strlit("enter");
        reveal_strlit("leave");
        assert("enter"@ != "leave"@) by {
            assert("enter"@[0] == 'e' && "leave"@[0] == 'l');
        }
        let es = Self::rep_of(tv)->Record_0;
        assert(es.len() == 3);
        assert(es[0] == ("id"@, ValueV::Str(tv.id)));
        assert(es[1] == ("sensor_index"@, ValueV::Int(tv.sensor_index as i64)));
    }

    fn to_value(&self) -> (v: Value) {
        let mut entries: Vec<(String, Value)> = Vec::new();
        entries.push(("id".to_owned(), Value::Str(self.id.clone())));
        entries.push(("sensor_index".to_owned(), Value::Int(self.sensor_index as i64)));
        entries.push(
            (
                "kind".to_owned(),
                Value::Str(
                    if self.kind.is_enter() {
                        "enter".to_owned()
                    } else {
                        "leave".to_owned()
                    },
                ),
            ),
        );
        let v = Value::Record(entries);
        proof {
            lemma_view_entries(entries@);
            assert(view_entries(entries@) =~= Self::rep_of(self@)->Record_0);
        }
        v
    }

    fn from_value(v: &Value) -> (r: Result<Self, SerializationError>) {
        let bad = "not a trigger event";
        match v {
            Value::Record(entries) => {
                proof {
                    lemma_view_entries(entries@);
                }
                if entries.len() != 3 {
                    return Err(SerializationError::new(bad.to_owned()));
                }
                if !str_eq(&entries[0].0, "id") || !str_eq(&entries[1].0, "sensor_index")
                    || !str_eq(&entries[2].0, "kind") {
                    return Err(SerializationError::new(bad.to_owned()));
                }
                let id = match &entries[0].1 {
                    Value::Str(s) => s.clone(),
                    _ => {
                        return Err(SerializationError::new(bad.to_owned()));
                    },
                };
                let sensor_index = match &entries[1].1 {
                    Value::Int(n) => if -2147483648i64 <= *n && *n <= 2147483647i64 {
                        *n as i32
                    } else {
                        return Err(SerializationError::new(bad.to_owned()));
                    },
                    _ => {
                        return Err(SerializationError::new(bad.to_owned()));
                    },
                };
                let kind = match &entries[2].1 {
                    Value::Str(s) => if str_eq(s, "enter") {
                        TriggerKind::Enter
                    } else if str_eq(s, "leave") {
                        TriggerKind::Leave
                    } else {
                        return Err(SerializationError::new(bad.to_owned()));
                    },
                    _ => {
                        return Err(SerializationError::new(bad.to_owned()));
                    },
                };
                Ok(TriggerEvent { id, sensor_index, kind })
            },
            _ => Err(SerializationError::new(bad.to_owned())),
        }
    }
}

impl MessageType for TriggerEvent {
    open spec fn spec_meta() -> MessageMetaV {
        MessageMetaV { namespace: "builtin"@, identifier: "trigger_event"@, bus: None }
    }

    fn message_meta() -> (m: MessageMeta) {
        MessageMeta::new("builtin", "trigger_event", None)
    }
}

/// A button in the cockpit changed state.
#[derive(Debug)]
pub struct ButtonEvent {
    /// The identifier of the button.
    pub id: String,
    /// The new state: pressed when true, released when false.
    pub value: bool,
    /// The cockpit the button belongs to.
    pub cockpit_index: u8,
}

/// The mathematical form of a [`ButtonEvent`].
pub struct ButtonEventV {
    pub id: Seq<char>,
    pub value: bool,
    pub cockpit_index: u8,
}

impl View for ButtonEvent {
    type V = ButtonEventV;

    open spec fn view(&self) -> ButtonEventV {
        ButtonEventV { id: self.id@, value: self.value, cockpit_index: self.cockpit_index }
    }
}

impl Encodable for ButtonEvent {
    open spec fn rep_of(tv: ButtonEventV) -> ValueV {
        ValueV::Record(
            seq![
                ("id"@, ValueV::Str(tv.id)),
                ("value"@, ValueV::Bool(tv.value)),
                ("cockpit_index"@, ValueV::Int(tv.cockpit_index as i64)),
            ],
        )
    }

    open spec fn parse_rep(v: ValueV) -> Option<ButtonEventV> {
        match v {
            ValueV::Record(es) => if es.len() == 3 && es[0].0 == "id"@ && es[0].1 is Str
                && es[1].0 == "value"@ && es[1].1 is Bool && es[2].0 == "cockpit_index"@
                && es[2].1 is Int && 0 <= es[2].1->Int_0 <= u8::MAX {
                Some(
                    ButtonEventV {
                        id: es[0].1->Str_0,
                        value: es[1].1->Bool_0,
                        cockpit_index: es[2].1->Int_0 as u8,
                    },
                )
            } else {
                None
            },
            _ => None,
        }
    }

    proof fn lemma_parse_rep_of(tv: ButtonEventV) {
        let es = Self::rep_of(tv)->Record_0;
        assert(es.len() == 3);
        assert(es[0] == ("id"@, ValueV::Str(tv.id)));
        assert(es[1] == ("value"@, ValueV::Bool(tv.value)));
    }

    fn to_value(&self) -> (v: Value) {
        let mut entries: Vec<(String, Value)> = Vec::new();
        entries.push(("id".to_owned(), Value::Str(self.id.clone())));
        entries.push(("value".to_owned(), Value::Bool(self.value)));
        entries.push(("cockpit_index".to_owned(), Value::Int(self.cockpit_index as i64)));
        let v = Value::Record(entries);
        proof {
            lemma_view_entries(entries@);
            assert(view_entries(entries@) =~= Self::rep_of(self@)->Record_0);
        }
        v
    }

    fn from_value(v: &Value) -> (r: Result<Self, SerializationError>) {
        let bad = "not a button event";
        match v {
            Value::Record(entries) => {
                proof {
                    lemma_view_entries(entries@);
                }
                if entries.len() != 3 {
                    return Err(SerializationError::new(bad.to_owned()));
                }
                if !str_eq(&entries[0].0, "id") || !str_eq(&entries[1].0, "value") || !str_eq(
                    &entries[2].0,
                    "cockpit_index",
                ) {
                    return Err(SerializationError::new(bad.to_owned()));
                }
                let id = match &entries[0].1 {
                    Value::Str(s) => s.clone(),
                    _ => {
                        return Err(SerializationError::new(bad.to_owned()));
                    },
                };
                let value = match &entries[1].1 {
                    Value::Bool(b) => *b,
                    _ => {
                        return Err(SerializationError::new(bad.to_owned()));
                    },
                };
                let cockpit_index = match &entries[2].1 {
                    Value::Int(n) => if 0i64 <= *n && *n <= 255i64 {
                        *n as u8
                    } else {
                        return Err(SerializationError::new(bad.to_owned()));
                    },
                    _ => {
                        return Err(SerializationError::new(bad.to_owned()));
                    },
                };
                Ok(ButtonEvent { id, value, cockpit_index })
            },
            _ => Err(SerializationError::new(bad.to_owned())),
        }
    }
}

impl MessageType for ButtonEvent {
    open spec fn spec_meta() -> MessageMetaV {
        MessageMetaV { namespace: "builtin"@, identifier: "button_event"@, bus: None }
    }

    fn message_meta() -> (m: MessageMeta) {
        MessageMeta::new("builtin", "button_event", None)
    }
}

/// The state of the battery switch: on when true, off when false.
#[derive(Debug)]
pub struct BatterySwitch(pub bool);

impl View for BatterySwitch {
    type V = bool;

    open spec fn view(&self) -> bool {
        self.0
    }
}

impl Encodable for BatterySwitch {
    open spec fn rep_of(tv: bool) -> ValueV {
        ValueV::Bool(tv)
    }

    open spec fn parse_rep(v: ValueV) -> Option<bool> {
        match v {
            ValueV::Bool(b) => Some(b),
            _ => None,
        }
    }

    proof fn lemma_parse_rep_of(tv: bool) {
    }

    fn to_value(&self) -> (v: Value) {
        Value::Bool(self.0)
    }

    fn from_value(v: &Value) -> (r: Result<Self, SerializationError>) {
        match v {
            Value::Bool(b) => Ok(BatterySwitch(*b)),
            _ => Err(SerializationError::new("not a battery switch state".to_owned())),
        }
    }
}

impl MessageType for BatterySwitch {
    open spec fn spec_meta() -> MessageMetaV {
        MessageMetaV { namespace: "builtin"@, identifier: "battery_switch"@, bus: None }
    }

    fn message_meta() -> (m: MessageMeta) {
        MessageMeta::new("builtin", "battery_switch", None)
    }
}

} // verus!
