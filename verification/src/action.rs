//! Actions: named inputs a script registers with the engine, and the event
//! sent when one fires.

use crate::input::ActionState;
use crate::input::ActionStateKind;
use crate::input::KeyCode;
use crate::message::Encodable;
use crate::message::MessageMeta;
use crate::message::MessageMetaV;
use crate::message::MessageType;
use crate::message::SerializationError;
use crate::message::str_eq;
use crate::value::Value;
use crate::value::ValueV;
use crate::value::lemma_view_entries;
use crate::value::view_entries;

use vstd::prelude::*;

verus! {

broadcast use vstd::seq::group_seq_axioms;

/// A request to register one action with the engine.
#[derive(Debug)]
pub struct RegisterAction {
    /// The action's name.
    pub id: String,
    /// The key the action is bound to until the user rebinds it.
    pub default_key: KeyCode,
}

impl RegisterAction {
    /// A registration request from its parts.
    pub fn new(id: String, default_key: KeyCode) -> (r: RegisterAction)
        ensures
            r.id@ == id@,
            r.default_key == default_key,
    {
        RegisterAction { id, default_key }
    }
}

/// Collects action registrations before they are handed to the engine.
#[derive(Debug)]
pub struct ActionsBuilder {
    actions: Vec<RegisterAction>,
}

impl ActionsBuilder {
    /// The collected registrations, at the specification level.
    pub closed spec fn spec_actions(&self) -> Seq<RegisterAction> {
        self.actions@
    }

    /// An empty collection.
    pub fn new() -> (b: ActionsBuilder)
        ensures
            b.spec_actions() == Seq::<RegisterAction>::empty(),
    {
        ActionsBuilder { actions: Vec::new() }
    }

    /// Adds one registration and hands the builder back.
    pub fn push(self, id: String, default_key: KeyCode) -> (b: ActionsBuilder)
        ensures
            b.spec_actions().len() == self.spec_actions().len() + 1,
            forall|i: int|
                0 <= i < self.spec_actions().len() ==> #[trigger] b.spec_actions()[i]
                    == self.spec_actions()[i],
            b.spec_actions().last().id@ == id@,
            b.spec_actions().last().default_key == default_key,
    {
        let mut actions = self.actions;
        actions.push(RegisterAction::new(id, default_key));
        ActionsBuilder { actions }
    }

    /// The collected registrations.
    pub fn build(self) -> (r: Vec<RegisterAction>)
        ensures
            r@ == self.spec_actions(),
    {
        self.actions
    }
}

/// Whether an action was pressed or released.
#[derive(Debug, Clone, Copy, PartialEq, Eq, Structural, Hash)]
pub enum ActionKind {
    /// The action went down.
    Pressed,
    /// The action came up.
    Released,
}

/// The event sent when a registered action changes state.
#[derive(Debug)]
pub struct ActionEvent {
    /// The action's name.
    pub name: String,
    /// The action's new state.
    pub state: ActionState,
}

/// The mathematical form of an [`ActionEvent`].
pub struct ActionEventV {
    pub name: Seq<char>,
    pub state: ActionState,
}

impl View for ActionEvent {
    type V = ActionEventV;

    open spec fn view(&self) -> ActionEventV {
        ActionEventV { name: self.name@, state: self.state }
    }
}

/// The wire number of each action state.
pub open spec fn state_kind_code(kind: ActionStateKind) -> i64 {
    match kind {
        ActionStateKind::Idle => 0,
        ActionStateKind::JustPressed => 1,
        ActionStateKind::Pressed => 2,
        ActionStateKind::JustReleased => 3,
    }
}

/// The action state a wire number names, if any.
pub open spec fn parse_state_kind(code: i64) -> Option<ActionStateKind> {
    if code == 0 {
        Some(ActionStateKind::Idle)
    } else if code == 1 {
        Some(ActionStateKind::JustPressed)
    } else if code == 2 {
        Some(ActionStateKind::Pressed)
    } else if code == 3 {
        Some(ActionStateKind::JustReleased)
    } else {
        None
    }
}

impl Encodable for ActionEvent {
    open spec fn rep_of(tv: ActionEventV) -> ValueV {
        ValueV::Record(
            seq![
                ("name"@, ValueV::Str(tv.name)),
                ("kind"@, ValueV::Int(state_kind_code(tv.state.kind))),
                (
                    "cockpit_index"@,
                    match tv.state.cockpit_index {
                        None => ValueV::Null,
                        Some(i) => ValueV::Int((i as u64) as i64),
                    },
                ),
            ],
        )
    }

    open spec fn parse_rep(v: ValueV) -> Option<ActionEventV> {
        match v {
            ValueV::Record(es) => if es.len() == 3 && es[0].0 == "name"@ && es[0].1 is Str
                && es[1].0 == "kind"@ && es[1].1 is Int && parse_state_kind(
                es[1].1->Int_0,
            ) is Some && es[2].0 == "cockpit_index"@ && (es[2].1 is Null || (es[2].1 is Int
                && (es[2].1->Int_0 as u64) <= usize::MAX)) {
                Some(
                    ActionEventV {
                        name: es[0].1->Str_0,
                        state: ActionState {
                            kind: parse_state_kind(es[1].1->Int_0)->Some_0,
                            cockpit_index: match es[2].1 {
                                ValueV::Int(n) => Some((n as u64) as usize),
                                _ => None,
                            },
                        },
                    },
                )
            } else {
                None
            },
            _ => None,
        }
    }

    proof fn lemma_parse_rep_of(tv: ActionEventV) {
        let es = Self::rep_of(tv)->Record_0;
        assert(es.len() == 3);
        assert(es[0] == ("name"@, ValueV::Str(tv.name)));
        assert(es[1] == ("kind"@, ValueV::Int(state_kind_code(tv.state.kind))));
        match tv.state.cockpit_index {
            None => {},
            Some(i) => {
                assert((((i as u64) as i64) as u64) == i as u64) by (bit_vector);
            },
        }
    }

    fn to_value(&self) -> (v: Value) {
        let mut entries: Vec<(String, Value)> = Vec::new();
        entries.push(("name".to_owned(), Value::Str(self.name.clone())));
        let kind_code: i64 = match self.state.kind {
            ActionStateKind::Idle => 0,
            ActionStateKind::JustPressed => 1,
            ActionStateKind::Pressed => 2,
            ActionStateKind::JustReleased => 3,
        };
        entries.push(("kind".to_owned(), Value::Int(kind_code)));
        entries.push(
            (
                "cockpit_index".to_owned(),
                match self.state.cockpit_index {
                    None => Value::Null,
                    Some(i) => Value::Int((i as u64) as i64),
                },
            ),
        );
        let v = Value::Record(entries);
        proof {
            lemma_view_entries(entries@);
            assert(view_entries(entries@) =~= Self::rep_of(self@)->Record_0);
        }
        v
    }

    fn from_value(v: &Value) -> (r: Result<Self, SerializationError>) {
        let bad = "not an action event";
        match v {
            Value::Record(entries) => {
                proof {
                    lemma_view_entries(entries@);
                }
                if entries.len() != 3 {
                    return Err(SerializationError::new(bad.to_owned()));
                }
                if !str_eq(&entries[0].0, "name") || !str_eq(&entries[1].0, "kind") || !str_eq(
                    &entries[2].0,
                    "cockpit_index",
                ) {
                    return Err(SerializationError::new(bad.to_owned()));
                }
                let name = match &entries[0].1 {
                    Value::Str(s) => s.clone(),
                    _ => {
                        return Err(SerializationError::new(bad.to_owned()));
                    },
                };
                let kind = match &entries[1].1 {
                    Value::Int(n) => if *n == 0 {
                        ActionStateKind::Idle
                    } else if *n == 1 {
                        ActionStateKind::JustPressed
                    } else if *n == 2 {
                        ActionStateKind::Pressed
                    } else if *n == 3 {
                        ActionStateKind::JustReleased
                    } else {
                        return Err(SerializationError::new(bad.to_owned()));
                    },
                    _ => {
                        return Err(SerializationError::new(bad.to_owned()));
                    },
                };
                let cockpit_index = match &entries[2].1 {
                    Value::Null => None,
                    Value::Int(n) => {
                        let u = *n as u64;
                        if u <= usize::MAX as u64 {
                            Some(u as usize)
                        } else {
                            return Err(SerializationError::new(bad.to_owned()));
                        }
                    },
                    _ => {
                        return Err(SerializationError::new(bad.to_owned()));
                    },
                };
                Ok(ActionEvent { name, state: ActionState { kind, cockpit_index } })
            },
            _ => Err(SerializationError::new(bad.to_owned())),
        }
    }
}

impl MessageType for ActionEvent {
    open spec fn spec_meta() -> MessageMetaV {
        MessageMetaV { namespace: "builtin"@, identifier: "action_event"@, bus: None }
    }

    fn message_meta() -> (m: MessageMeta) {
        MessageMeta::new("builtin", "action_event", None)
    }
}

} // verus!
