use lotus_script::message::{
    decode_message_batch, send_message, Encodable, Message, MessageHandleError, MessageMeta,
    MessageMetaV, MessageSource, MessageTarget, MessageType, MessageValueError,
    SerializationError,
};
use lotus_script::types::{BatterySwitch, ButtonEvent, TriggerEvent, TriggerKind};
use lotus_script::value::{encode_value, Value};

struct TestMessage {
    value: i32,
}

impl vstd::prelude::View for TestMessage {
    type V = i32;

    // Ghost item of the verified trait; never called at run time.
    fn view(&self) -> i32 {
        unreachable!()
    }
}

impl Encodable for TestMessage {
    // Ghost items of the verified trait; never called at run time.
    fn rep_of(_: i32) -> lotus_script::value::ValueV {
        unreachable!()
    }

    fn parse_rep(_: lotus_script::value::ValueV) -> Option<i32> {
        unreachable!()
    }

    fn lemma_parse_rep_of(_: i32) {
        unreachable!()
    }

    fn to_value(&self) -> Value {
        Value::Record(vec![("value".to_string(), Value::Int(self.value as i64))])
    }

    fn from_value(v: &Value) -> Result<Self, SerializationError> {
        match v {
            Value::Record(entries) if entries.len() == 1 && entries[0].0 == "value" => {
                match entries[0].1 {
                    Value::Int(n) => Ok(TestMessage { value: n as i32 }),
                    _ => Err(SerializationError::new("bad test message".to_string())),
                }
            }
            _ => Err(SerializationError::new("bad test message".to_string())),
        }
    }
}

impl MessageType for TestMessage {
    // Ghost item of the verified trait; never called at run time.
    fn spec_meta() -> MessageMetaV {
        unreachable!()
    }

    fn message_meta() -> MessageMeta {
        MessageMeta::new("test", "message", Some("ibis"))
    }
}

struct OtherMessage;

impl vstd::prelude::View for OtherMessage {
    type V = ();

    // Ghost item of the verified trait; never called at run time.
    fn view(&self) {
        unreachable!()
    }
}

impl Encodable for OtherMessage {
    // Ghost items of the verified trait; never called at run time.
    fn rep_of(_: ()) -> lotus_script::value::ValueV {
        unreachable!()
    }

    fn parse_rep(_: lotus_script::value::ValueV) -> Option<()> {
        unreachable!()
    }

    fn lemma_parse_rep_of(_: ()) {
        unreachable!()
    }

    fn to_value(&self) -> Value {
        Value::Null
    }

    fn from_value(v: &Value) -> Result<Self, SerializationError> {
        match v {
            Value::Null => Ok(OtherMessage),
            _ => Err(SerializationError::new("bad other message".to_string())),
        }
    }
}

impl MessageType for OtherMessage {
    // Ghost item of the verified trait; never called at run time.
    fn spec_meta() -> MessageMetaV {
        unreachable!()
    }

    fn message_meta() -> MessageMeta {
        MessageMeta::new("other", "message", None)
    }
}

#[test]
fn test_message() {
    let message = Message::new(&TestMessage { value: 42 });
    assert!(message.meta().matches(&TestMessage::message_meta()));

    let value = message.value::<TestMessage>().unwrap();
    assert_eq!(value.value, 42);

    message
        .handle::<TestMessage, _>(|m| {
            assert_eq!(m.value, 42);
            Ok(())
        })
        .expect("message handle failed");
}

#[test]
fn matching_type_decodes_and_foreign_meta_is_invalid_type() {
    let message = Message::new(&TestMessage { value: 42 });

    let decoded = message.value::<TestMessage>().expect("matching decode failed");
    assert_eq!(decoded.value, 42);

    match message.value::<OtherMessage>() {
        Err(MessageValueError::InvalidType) => {}
        _ => panic!("a foreign meta must answer InvalidType"),
    }
    assert!(!message.has_type::<OtherMessage>());
    assert!(message.has_type::<TestMessage>());
}

#[test]
fn matching_meta_with_malformed_payload_is_serialization_error() {
    let meta = MessageMeta::new("test", "message", Some("ibis"));
    let message = Message::from_parts(meta, MessageSource::default(), Value::Bool(true));
    assert!(message.has_type::<TestMessage>());
    match message.value::<TestMessage>() {
        Err(MessageValueError::Serialization(_)) => {}
        _ => panic!("a malformed payload must answer Serialization"),
    }
}

#[test]
fn handler_runs_exactly_on_type_match() {
    let message = Message::new(&BatterySwitch(true));

    let handled = message
        .handle::<BatterySwitch, _>(|m| {
            assert!(m.0);
            Ok(())
        })
        .expect("handling failed");
    assert!(handled);

    let not_mine = message
        .handle::<ButtonEvent, _>(|_m| panic!("handler ran for a foreign type"))
        .expect("probe failed");
    assert!(!not_mine);
}

#[test]
fn handler_failure_is_kept_apart_from_decode_failure() {
    let message = Message::new(&BatterySwitch(false));

    match message.handle::<BatterySwitch, _>(|_m| Err("refused".to_string())) {
        Err(MessageHandleError::Handler(reason)) => assert_eq!(reason, "refused"),
        _ => panic!("a failing handler must answer Handler"),
    }

    let meta = MessageMeta::new("builtin", "battery_switch", None);
    let malformed = Message::from_parts(meta, MessageSource::default(), Value::Int(3));
    match malformed.handle::<BatterySwitch, _>(|_m| Ok(())) {
        Err(MessageHandleError::Serialization(_)) => {}
        _ => panic!("a malformed payload must answer Serialization"),
    }
}

#[test]
fn trigger_event_roundtrips_through_envelope() {
    let event = TriggerEvent {
        id: "door_sensor".to_string(),
        sensor_index: 7,
        kind: TriggerKind::Enter,
    };
    let message = Message::new(&event);
    let back = message.value::<TriggerEvent>().expect("decode failed");
    assert_eq!(back.id, "door_sensor");
    assert_eq!(back.sensor_index, 7);
    assert!(back.is_enter());
    assert!(!back.is_leave());
}

#[test]
fn empty_batch_decodes_to_empty_collection() {
    let batch = encode_value(&Value::Array(vec![]));
    let messages = decode_message_batch(&batch).expect("an empty batch is not an error");
    assert_eq!(messages.len(), 0);
}

#[test]
fn batch_roundtrips_and_is_all_or_nothing() {
    let a = Message::new(&BatterySwitch(true));
    let b = Message::new(&TestMessage { value: 42 });
    let batch = encode_value(&Value::Array(vec![a.to_value(), b.to_value()]));
    let messages = decode_message_batch(&batch).expect("batch decode failed");
    assert_eq!(messages.len(), 2);
    assert!(messages[0].has_type::<BatterySwitch>());
    assert!(messages[1].has_type::<TestMessage>());
    assert!(messages[0].source().is_front() == false);
    assert!(messages[0].source().is_rear() == false);

    let broken = encode_value(&Value::Array(vec![a.to_value(), Value::Int(5)]));
    assert!(decode_message_batch(&broken).is_err());
}

#[test]
fn send_buffers_carry_targets_and_envelope() {
    let targets = vec![
        MessageTarget::Myself,
        MessageTarget::ChildByIndex(3),
        MessageTarget::broadcast_all(),
        MessageTarget::broadcast_except_self(false),
        MessageTarget::Parent,
        MessageTarget::Cockpit(1),
    ];
    let (targets_obj, message_obj) = send_message(&TestMessage { value: 42 }, &targets);
    assert!(!targets_obj.bytes().is_empty());
    let messages = decode_message_batch(
        &encode_value(&Value::Array(vec![message_obj.deserialize::<Message>().to_value()])),
    )
    .expect("sent envelope must decode");
    assert_eq!(messages[0].value::<TestMessage>().unwrap().value, 42);
}

#[test]
fn broadcast_builders_fill_the_flags() {
    assert_eq!(
        MessageTarget::broadcast_all(),
        MessageTarget::Broadcast {
            across_couplings: true,
            include_self: true
        }
    );
    assert_eq!(
        MessageTarget::broadcast_except_self(true),
        MessageTarget::Broadcast {
            across_couplings: true,
            include_self: false
        }
    );
}

#[test]
fn with_source_restamps_only_the_source() {
    let message = Message::new(&BatterySwitch(true));
    assert!(message.source().coupling.is_none());
    let restamped = message.with_source(MessageSource {
        coupling: Some(lotus_script::message::Coupling::Front),
    });
    assert!(restamped.source().is_front());
    assert!(!restamped.source().is_rear());
    assert!(restamped.has_type::<BatterySwitch>());
    assert!(restamped.value::<BatterySwitch>().unwrap().0);
}
