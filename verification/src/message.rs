//! The typed message envelope and its routing types.
//!
//! A message is a self-describing record: type-identity metadata, a
//! provenance note, and a payload carried as a generic tree value. Receivers
//! probe "is this mine?" against the metadata before committing to decode the
//! payload, so several independent message types can share one inbound
//! stream.

use crate::ffi::FfiObject;
use crate::value::Value;
use crate::value::ValueV;
use crate::value::decode_value;

use vstd::prelude::*;

verus! {

broadcast use vstd::seq::group_seq_axioms;

/// The mathematical form of [`MessageMeta`]: its strings as character
/// sequences.
pub struct MessageMetaV {
    pub namespace: Seq<char>,
    pub identifier: Seq<char>,
    pub bus: Option<Seq<char>>,
}

/// The metadata that identifies a message type.
///
/// The pair (namespace, identifier) is meant to be globally unique per
/// logical message type; two distinct types sharing it is a protocol-level
/// mistake this crate cannot detect. The optional bus participates in the
/// identity comparison: metadata match only if their buses match too.
#[derive(Debug)]
pub struct MessageMeta {
    /// The namespace of the message type.
    pub namespace: String,
    /// The identifier of the message type.
    pub identifier: String,
    /// The bus the message should be sent on.
    pub bus: Option<String>,
}

impl View for MessageMeta {
    type V = MessageMetaV;

    open spec fn view(&self) -> MessageMetaV {
        MessageMetaV {
            namespace: self.namespace@,
            identifier: self.identifier@,
            bus: match self.bus {
                Some(ref b) => Some(b@),
                None => None,
            },
        }
    }
}

impl Clone for MessageMeta {
    fn clone(&self) -> (r: Self)
        ensures
            r@ == self@,
    {
        MessageMeta {
            namespace: self.namespace.clone(),
            identifier: self.identifier.clone(),
            bus: match &self.bus {
                Some(b) => Some(b.clone()),
                None => None,
            },
        }
    }
}

/// Whether a string equals the given borrowed string, at the view level.
pub(crate) fn str_eq(a: &String, b: &str) -> (r: bool)
    ensures
        r == (a@ == b@),
{
    *a == b.to_owned()
}

impl MessageMeta {
    /// Creates new message metadata.
    pub fn new(namespace: &str, identifier: &str, bus: Option<&str>) -> (m: MessageMeta)
        ensures
            m@.namespace == namespace@,
            m@.identifier == identifier@,
            match bus {
                Some(b) => m@.bus == Some(b@),
                None => m@.bus is None,
            },
    {
        MessageMeta {
            namespace: namespace.to_owned(),
            identifier: identifier.to_owned(),
            bus: match bus {
                Some(b) => Some(b.to_owned()),
                None => None,
            },
        }
    }

    /// Structural equality of metadata: the identity check used by dispatch.
    pub fn matches(&self, other: &MessageMeta) -> (r: bool)
        ensures
            r == (self@ == other@),
    {
        let same_bus = match (&self.bus, &other.bus) {
            (None, None) => true,
            (Some(a), Some(b)) => *a == *b,
            _ => false,
        };
        same_bus && str_eq(&self.namespace, other.namespace.as_str()) && str_eq(
            &self.identifier,
            other.identifier.as_str(),
        )
    }
}

/// Which coupling of the vehicle a message crossed, or is to be sent across.
#[derive(Debug, Clone, Copy, PartialEq, Eq, Structural)]
pub enum Coupling {
    /// The coupling to the front vehicle.
    Front,
    /// The coupling to the rear vehicle.
    Rear,
}

/// Where a message came from: whether it crossed a vehicle coupling on its
/// way to the receiver.
#[derive(Debug, Clone, Copy)]
pub struct MessageSource {
    /// The coupling the message crossed, if it came from another vehicle.
    pub coupling: Option<Coupling>,
}

impl Default for MessageSource {
    /// The default source: no coupling crossed.
    fn default() -> (r: Self)
        ensures
            r.coupling is None,
    {
        MessageSource { coupling: None }
    }
}

impl MessageSource {
    /// Whether the message came from the vehicle in front.
    pub fn is_front(&self) -> (r: bool)
        ensures
            r == (self.coupling == Some(Coupling::Front)),
    {
        matches!(self.coupling, Some(Coupling::Front))
    }

    /// Whether the message came from the vehicle behind.
    pub fn is_rear(&self) -> (r: bool)
        ensures
            r == (self.coupling == Some(Coupling::Rear)),
    {
        matches!(self.coupling, Some(Coupling::Rear))
    }
}

/// A routing instruction, interpreted solely by the host. It carries no
/// delivery guarantee back to the sender.
#[derive(Debug, Clone, Copy, PartialEq, Eq, Structural)]
pub enum MessageTarget {
    /// The sending script itself.
    Myself,
    /// The child script at the given index.
    ChildByIndex(usize),
    /// All modules in the cockpit with the given index.
    Cockpit(u8),
    /// Broadcast to scripts based on the given scope.
    Broadcast {
        /// Whether to include coupled vehicles.
        across_couplings: bool,
        /// Whether to include the sending script.
        include_self: bool,
    },
    /// Send across one coupling.
    AcrossCoupling {
        /// The coupling to send across.
        coupling: Coupling,
        /// Whether to cascade the message to the next coupling.
        cascade: bool,
    },
    /// The parent script.
    Parent,
}

impl MessageTarget {
    /// A broadcast that leaves out the sending script.
    pub fn broadcast_except_self(across_couplings: bool) -> (t: MessageTarget)
        ensures
            t == (MessageTarget::Broadcast { across_couplings, include_self: false }),
    {
        MessageTarget::Broadcast { across_couplings, include_self: false }
    }

    /// A broadcast to everyone, the sending script included.
    pub fn broadcast_all() -> (t: MessageTarget)
        ensures
            t == (MessageTarget::Broadcast { across_couplings: true, include_self: true }),
    {
        MessageTarget::Broadcast { across_couplings: true, include_self: true }
    }
}

/// Why a payload could not be decoded as the requested type.
#[derive(Debug)]
pub struct SerializationError {
    reason: String,
}

impl SerializationError {
    /// Wraps a decode-failure description.
    pub fn new(reason: String) -> (e: SerializationError)
        ensures
            e@ == reason@,
    {
        SerializationError { reason }
    }

    /// The decode-failure description.
    pub fn reason(&self) -> (r: &String)
        ensures
            r@ == self@,
    {
        &self.reason
    }
}

impl View for SerializationError {
    type V = Seq<char>;

    closed spec fn view(&self) -> Seq<char> {
        self.reason@
    }
}

/// The outcome of asking a message for a value of a given type, when no
/// value comes back.
#[derive(Debug)]
pub enum MessageValueError {
    /// The message holds a different type: its metadata does not match.
    InvalidType,
    /// The metadata matches, but the payload does not decode as the type.
    Serialization(SerializationError),
}

/// The outcome of handling a message, when handling did not run to success.
#[derive(Debug)]
pub enum MessageHandleError {
    /// The metadata matches, but the payload does not decode as the type.
    Serialization(SerializationError),
    /// The handler itself reported failure, with its own description.
    Handler(String),
}

/// A type whose values travel as tree values: the library's own
/// serialization contract.
///
/// `rep_of` and `parse_rep` fix, at the view level, what a value looks like
/// as a payload and what payloads parse back; every implementation proves
/// that parsing a representation returns the represented value.
pub trait Encodable: View + Sized {
    /// The payload representation of a value with view `tv`.
    spec fn rep_of(tv: Self::V) -> ValueV;

    /// The view a payload parses back to, if any.
    spec fn parse_rep(v: ValueV) -> Option<Self::V>;

    /// Law: parsing a representation gives back the represented view.
    proof fn lemma_parse_rep_of(tv: Self::V)
        ensures
            Self::parse_rep(Self::rep_of(tv)) == Some(tv),
    ;

    /// Turns this value into its payload representation.
    fn to_value(&self) -> (v: Value)
        ensures
            v@ == Self::rep_of(self@),
    ;

    /// Decodes a value of this type out of a payload.
    fn from_value(v: &Value) -> (r: Result<Self, SerializationError>)
        ensures
            r matches Ok(t) ==> Self::parse_rep(v@) == Some(t@),
            r is Err <==> Self::parse_rep(v@) is None,
    ;
}

/// A message type: an encodable payload plus declared type-identity
/// metadata. The metadata is meant to be globally unique per logical type.
pub trait MessageType: Encodable {
    /// The declared metadata, at the view level.
    spec fn spec_meta() -> MessageMetaV;

    /// The declared metadata of this message type.
    fn message_meta() -> (m: MessageMeta)
        ensures
            m@ == Self::spec_meta(),
    ;
}

/// The mathematical form of a [`Message`].
pub struct MessageV {
    pub meta: MessageMetaV,
    pub source: MessageSource,
    pub value: ValueV,
}

/// A message envelope: type-identity metadata, provenance, and the payload
/// as a generic tree value.
#[derive(Debug)]
pub struct Message {
    meta: MessageMeta,
    source: MessageSource,
    value: Value,
}

impl View for Message {
    type V = MessageV;

    closed spec fn view(&self) -> MessageV {
        MessageV { meta: self.meta@, source: self.source, value: self.value@ }
    }
}

/// How a handler's outcome is reported by [`Message::handle`].
pub open spec fn handler_outcome(out: Result<(), String>) -> Result<bool, MessageHandleError> {
    match out {
        Ok(_) => Ok(true),
        Err(e) => Err(MessageHandleError::Handler(e)),
    }
}

impl Message {
    /// Wraps a value in an envelope: captures the value's declared type
    /// identity, re-encodes the value as a tree, and marks the source as
    /// local (no coupling crossed).
    pub fn new<T: MessageType>(value: &T) -> (m: Message)
        ensures
            m@.meta == T::spec_meta(),
            m@.value == T::rep_of(value@),
            m@.source.coupling is None,
    {
        Message {
            meta: T::message_meta(),
            source: MessageSource::default(),
            value: value.to_value(),
        }
    }

    /// Builds an envelope from its parts, as the host does for inbound
    /// messages.
    pub fn from_parts(meta: MessageMeta, source: MessageSource, value: Value) -> (m: Message)
        ensures
            m@.meta == meta@,
            m@.source == source,
            m@.value == value@,
    {
        Message { meta, source, value }
    }

    /// The message's type-identity metadata.
    pub fn meta(&self) -> (m: &MessageMeta)
        ensures
            m@ == self@.meta,
    {
        &self.meta
    }

    /// Where the message came from.
    pub fn source(&self) -> (s: &MessageSource)
        ensures
            *s == self@.source,
    {
        &self.source
    }

    /// The payload tree, before any typed decode.
    pub fn payload(&self) -> (v: &Value)
        ensures
            v@ == self@.value,
    {
        &self.value
    }

    /// Whether this message carries type `T`: exactly when asking for a
    /// value of `T` would not answer `InvalidType`.
    pub fn has_type<T: MessageType>(&self) -> (r: bool)
        ensures
            r == (self@.meta == T::spec_meta()),
    {
        self.meta.matches(&T::message_meta())
    }

    /// The payload decoded as `T`.
    ///
    /// Exactly one of three outcomes: `InvalidType` exactly when the
    /// metadata does not match `T`'s; otherwise the decoded value, or
    /// `Serialization` exactly when the payload does not parse as `T`.
    pub fn value<T: MessageType>(&self) -> (r: Result<T, MessageValueError>)
        ensures
            (r matches Err(e) && e is InvalidType) <==> self@.meta != T::spec_meta(),
            self@.meta == T::spec_meta() ==> match T::parse_rep(self@.value) {
                Some(tv) => r matches Ok(t) && t@ == tv,
                None => r matches Err(e) && e is Serialization,
            },
    {
        if !self.has_type::<T>() {
            return Err(MessageValueError::InvalidType);
        }
        match T::from_value(&self.value) {
            Ok(t) => Ok(t),
            Err(e) => Err(MessageValueError::Serialization(e)),
        }
    }

    /// Runs `f` on the decoded value exactly when this message carries `T`.
    ///
    /// Answers `Ok(false)`, without running `f`, exactly when the type does
    /// not match; `Ok(true)` when it matched and `f` succeeded; and keeps
    /// "the payload did not decode" (`Serialization`) apart from "the
    /// handler itself failed" (`Handler`).
    pub fn handle<T: MessageType, F: FnOnce(T) -> Result<(), String>>(&self, f: F) -> (r: Result<
        bool,
        MessageHandleError,
    >)
        requires
            forall|t: T| T::parse_rep(self@.value) == Some(t@) ==> call_requires(f, (t,)),
        ensures
            (r matches Ok(b) && b == false) <==> self@.meta != T::spec_meta(),
            self@.meta == T::spec_meta() ==> match T::parse_rep(self@.value) {
                Some(tv) => exists|t: T, out: Result<(), String>|
                    t@ == tv && #[trigger] call_ensures(f, (t,), out) && r == handler_outcome(out),
                None => r matches Err(e) && e is Serialization,
            },
    {
        match self.value::<T>() {
            Ok(t) => match f(t) {
                Ok(_) => Ok(true),
                Err(e) => Err(MessageHandleError::Handler(e)),
            },
            Err(MessageValueError::InvalidType) => Ok(false),
            Err(MessageValueError::Serialization(e)) => Err(
                MessageHandleError::Serialization(e),
            ),
        }
    }

    /// The same message restamped with a new source, as the host does when
    /// it carries a message across a coupling.
    pub fn with_source(&self, source: MessageSource) -> (m: Message)
        ensures
            m@.meta == self@.meta,
            m@.value == self@.value,
            m@.source == source,
    {
        Message { meta: self.meta.clone(), source, value: self.value.clone() }
    }
}


/// The payload form of a message source: nothing, or which coupling was
/// crossed.
pub open spec fn source_rep(s: MessageSource) -> ValueV {
    match s.coupling {
        None => ValueV::Null,
        Some(Coupling::Front) => ValueV::Int(0),
        Some(Coupling::Rear) => ValueV::Int(1),
    }
}

/// The source a payload form parses back to, if any.
pub open spec fn parse_source(v: ValueV) -> Option<MessageSource> {
    match v {
        ValueV::Null => Some(MessageSource { coupling: None }),
        ValueV::Int(i) => if i == 0 {
            Some(MessageSource { coupling: Some(Coupling::Front) })
        } else if i == 1 {
            Some(MessageSource { coupling: Some(Coupling::Rear) })
        } else {
            None
        },
        _ => None,
    }
}

/// The envelope representation from its parts: a record holding the
/// metadata, the provenance, and the payload tree.
pub open spec fn envelope_rep(mv: MessageV) -> ValueV {
    ValueV::Record(
        seq![
            ("namespace"@, ValueV::Str(mv.meta.namespace)),
            ("identifier"@, ValueV::Str(mv.meta.identifier)),
            (
                "bus"@,
                match mv.meta.bus {
                    None => ValueV::Null,
                    Some(b) => ValueV::Str(b),
                },
            ),
            ("source"@, source_rep(mv.source)),
            ("value"@, mv.value),
        ],
    )
}

impl Encodable for Message {
    open spec fn rep_of(mv: MessageV) -> ValueV {
        envelope_rep(mv)
    }

    open spec fn parse_rep(v: ValueV) -> Option<MessageV> {
        match v {
            ValueV::Record(es) => if es.len() == 5 && es[0].0 == "namespace"@ && es[0].1 is Str
                && es[1].0 == "identifier"@ && es[1].1 is Str && es[2].0 == "bus"@ && (
            es[2].1 is Null || es[2].1 is Str) && es[3].0 == "source"@ && parse_source(
                es[3].1,
            ) is Some && es[4].0 == "value"@ {
                Some(
                    MessageV {
                        meta: MessageMetaV {
                            namespace: es[0].1->Str_0,
                            identifier: es[1].1->Str_0,
                            bus: match es[2].1 {
                                ValueV::Str(b) => Some(b),
                                _ => None,
                            },
                        },
                        source: parse_source(es[3].1)->Some_0,
                        value: es[4].1,
                    },
                )
            } else {
                None
            },
            _ => None,
        }
    }

    proof fn lemma_parse_rep_of(mv: MessageV) {
        let es = envelope_rep(mv)->Record_0;
        assert(es.len() == 5);
        assert(es[0] == ("namespace"@, ValueV::Str(mv.meta.namespace)));
        assert(es[1] == ("identifier"@, ValueV::Str(mv.meta.identifier)));
        assert(es[3] == ("source"@, source_rep(mv.source)));
        assert(es[4] == ("value"@, mv.value));
    }

    fn to_value(&self) -> (v: Value) {
        let mut entries: Vec<(String, Value)> = Vec::new();
        entries.push(("namespace".to_owned(), Value::Str(self.meta.namespace.clone())));
        entries.push(("identifier".to_owned(), Value::Str(self.meta.identifier.clone())));
        entries.push(
            (
                "bus".to_owned(),
                match &self.meta.bus {
                    None => Value::Null,
                    Some(b) => Value::Str(b.clone()),
                },
            ),
        );
        entries.push(
            (
                "source".to_owned(),
                match self.source.coupling {
                    None => Value::Null,
                    Some(Coupling::Front) => Value::Int(0),
                    Some(Coupling::Rear) => Value::Int(1),
                },
            ),
        );
        entries.push(("value".to_owned(), self.value.clone()));
        let v = Value::Record(entries);
        proof {
            crate::value::lemma_view_entries(entries@);
            assert(crate::value::view_entries(entries@) =~= envelope_rep(self@)->Record_0);
        }
        v
    }

    fn from_value(v: &Value) -> (r: Result<Self, SerializationError>) {
        let bad = "not a message envelope";
        match v {
            Value::Record(entries) => {
                proof {
                    crate::value::lemma_view_entries(entries@);
                }
                if entries.len() != 5 {
                    return Err(SerializationError::new(bad.to_owned()));
                }
                if !str_eq(&entries[0].0, "namespace") || !str_eq(&entries[1].0, "identifier")
                    || !str_eq(&entries[2].0, "bus") || !str_eq(&entries[3].0, "source")
                    || !str_eq(&entries[4].0, "value") {
                    return Err(SerializationError::new(bad.to_owned()));
                }
                let namespace = match &entries[0].1 {
                    Value::Str(s) => s.clone(),
                    _ => {
                        return Err(SerializationError::new(bad.to_owned()));
                    },
                };
                let identifier = match &entries[1].1 {
                    Value::Str(s) => s.clone(),
                    _ => {
                        return Err(SerializationError::new(bad.to_owned()));
                    },
                };
                let bus = match &entries[2].1 {
                    Value::Null => None,
                    Value::Str(s) => Some(s.clone()),
                    _ => {
                        return Err(SerializationError::new(bad.to_owned()));
                    },
                };
                let source = match &entries[3].1 {
                    Value::Null => MessageSource { coupling: None },
                    Value::Int(i) => if *i == 0 {
                        MessageSource { coupling: Some(Coupling::Front) }
                    } else if *i == 1 {
                        MessageSource { coupling: Some(Coupling::Rear) }
                    } else {
                        return Err(SerializationError::new(bad.to_owned()));
                    },
                    _ => {
                        return Err(SerializationError::new(bad.to_owned()));
                    },
                };
                let value = entries[4].1.clone();
                Ok(Message { meta: MessageMeta { namespace, identifier, bus }, source, value })
            },
            _ => Err(SerializationError::new(bad.to_owned())),
        }
    }
}


/// The views of a sequence of messages, message by message.
pub open spec fn view_msgs(ms: Seq<Message>) -> Seq<MessageV>
    decreases ms,
{
    if ms.len() == 0 {
        Seq::empty()
    } else {
        seq![ms[0]@] + view_msgs(ms.drop_first())
    }
}

/// How [`view_msgs`] acts on each index.
pub proof fn lemma_view_msgs(ms: Seq<Message>)
    ensures
        view_msgs(ms).len() == ms.len(),
        forall|i: int| 0 <= i < ms.len() ==> view_msgs(ms)[i] == ms[i]@,
    decreases ms,
{
    reveal_with_fuel(view_msgs, 2);
    if ms.len() > 0 {
        lemma_view_msgs(ms.drop_first());
        assert forall|i: int| 0 <= i < ms.len() implies view_msgs(ms)[i] == ms[i]@ by {
            if i > 0 {
                assert(ms.drop_first()[i - 1] == ms[i]);
            }
        }
    }
}

/// The messages a batch of payload trees parses back to: all of them, or
/// nothing if a single entry is malformed.
pub open spec fn parse_msgs(items: Seq<ValueV>) -> Option<Seq<MessageV>>
    decreases items,
{
    if items.len() == 0 {
        Some(Seq::empty())
    } else {
        match (<Message as Encodable>::parse_rep(items[0]), parse_msgs(items.drop_first())) {
            (Some(m), Some(rest)) => Some(seq![m] + rest),
            _ => None,
        }
    }
}

/// Appending one more tree to a batch parses to the parsed batch plus the
/// parsed tree.
pub proof fn lemma_parse_msgs_push(items: Seq<ValueV>, x: ValueV)
    ensures
        parse_msgs(items.push(x)) == (match (
            parse_msgs(items),
            <Message as Encodable>::parse_rep(x),
        ) {
            (Some(rest), Some(m)) => Some(rest.push(m)),
            _ => None,
        }),
    decreases items,
{
    reveal_with_fuel(parse_msgs, 2);
    if items.len() == 0 {
        assert(items.push(x).drop_first() =~= Seq::<ValueV>::empty());
        if <Message as Encodable>::parse_rep(x) is Some {
            assert(seq![<Message as Encodable>::parse_rep(x)->Some_0] + Seq::<
                MessageV,
            >::empty() =~= Seq::<MessageV>::empty().push(
                <Message as Encodable>::parse_rep(x)->Some_0,
            ));
        }
    } else {
        assert(items.push(x).drop_first() =~= items.drop_first().push(x));
        lemma_parse_msgs_push(items.drop_first(), x);
        if parse_msgs(items) is Some && <Message as Encodable>::parse_rep(x) is Some {
            let m0 = <Message as Encodable>::parse_rep(items[0])->Some_0;
            let rest = parse_msgs(items.drop_first())->Some_0;
            let mx = <Message as Encodable>::parse_rep(x)->Some_0;
            assert(seq![m0] + rest.push(mx) =~= (seq![m0] + rest).push(mx));
        }
    }
}

/// If one tree of a batch does not parse as a message, the batch does not
/// parse.
pub proof fn lemma_parse_msgs_none(items: Seq<ValueV>, k: int)
    requires
        0 <= k < items.len(),
        <Message as Encodable>::parse_rep(items[k]) is None,
    ensures
        parse_msgs(items) is None,
    decreases items,
{
    if k > 0 {
        lemma_parse_msgs_none(items.drop_first(), k - 1);
    }
}

/// Decodes one inbound batch buffer into its messages. The decode is
/// all-or-nothing: a single malformed entry fails the whole batch, and an
/// empty batch yields an empty collection, not an error.
pub fn decode_message_batch(bytes: &Vec<u8>) -> (r: Result<Vec<Message>, SerializationError>)
    ensures
        r matches Ok(ms) ==> (crate::value::dec_full(bytes@) matches Some(bv) && bv is Array
            && parse_msgs(bv->Array_0) == Some(view_msgs(ms@))),
        r is Err <==> !(crate::value::dec_full(bytes@) matches Some(bv) && bv is Array
            && parse_msgs(bv->Array_0) is Some),
{
    let bad = "not a message batch";
    match decode_value(bytes) {
        Some(tree) => match tree {
            Value::Array(items) => {
                proof {
                    crate::value::lemma_view_elems(items@);
                }
                let n = items.len();
                let mut out: Vec<Message> = Vec::new();
                let mut k: usize = 0;
                while k < n
                    invariant
                        n == items@.len(),
                        k <= n,
                        out@.len() == k,
                        crate::value::dec_full(bytes@) == Some(
                            ValueV::Array(crate::value::view_elems(items@)),
                        ),
                        parse_msgs(crate::value::view_elems(items@).take(k as int)) == Some(
                            view_msgs(out@),
                        ),
                    decreases n - k,
                {
                    proof {
                        crate::value::lemma_view_elems(items@);
                    }
                    match Message::from_value(&items[k]) {
                        Ok(m) => {
                            proof {
                                let xs = crate::value::view_elems(items@);
                                lemma_parse_msgs_push(xs.take(k as int), xs[k as int]);
                                assert(xs.take(k as int).push(xs[k as int]) =~= xs.take(
                                k + 1 as int));
                                lemma_view_msgs(out@);
                                lemma_view_msgs(out@.push(m));
                                assert(view_msgs(out@.push(m)) =~= view_msgs(out@).push(m@));
                            }
                            out.push(m);
                        },
                        Err(e) => {
                            proof {
                                let xs = crate::value::view_elems(items@);
                                lemma_parse_msgs_none(xs, k as int);
                                assert(crate::value::dec_full(bytes@) == Some(
                                    ValueV::Array(xs),
                                ));
                            }
                            return Err(e);
                        },
                    }
                    k += 1;
                }
                proof {
                    assert(crate::value::view_elems(items@).take(n as int) =~= crate::value::view_elems(
                    items@));
                }
                Ok(out)
            },
            _ => Err(SerializationError::new(bad.to_owned())),
        },
        None => Err(SerializationError::new(bad.to_owned())),
    }
}


/// The payload form of one routing instruction: a record naming the kind
/// and its parameters.
pub open spec fn target_rep(t: MessageTarget) -> ValueV {
    match t {
        MessageTarget::Myself => ValueV::Record(seq![("kind"@, ValueV::Str("myself"@))]),
        MessageTarget::ChildByIndex(i) => ValueV::Record(
            seq![
                ("kind"@, ValueV::Str("child_by_index"@)),
                ("index"@, ValueV::Int((i as u64) as i64)),
            ],
        ),
        MessageTarget::Cockpit(c) => ValueV::Record(
            seq![("kind"@, ValueV::Str("cockpit"@)), ("index"@, ValueV::Int(c as i64))],
        ),
        MessageTarget::Broadcast { across_couplings, include_self } => ValueV::Record(
            seq![
                ("kind"@, ValueV::Str("broadcast"@)),
                ("across_couplings"@, ValueV::Bool(across_couplings)),
                ("include_self"@, ValueV::Bool(include_self)),
            ],
        ),
        MessageTarget::AcrossCoupling { coupling, cascade } => ValueV::Record(
            seq![
                ("kind"@, ValueV::Str("across_coupling"@)),
                (
                    "coupling"@,
                    ValueV::Int(
                        if coupling == Coupling::Front {
                            0
                        } else {
                            1
                        },
                    ),
                ),
                ("cascade"@, ValueV::Bool(cascade)),
            ],
        ),
        MessageTarget::Parent => ValueV::Record(seq![("kind"@, ValueV::Str("parent"@))]),
    }
}

/// The payload forms of a list of routing instructions, in order.
pub open spec fn targets_rep(ts: Seq<MessageTarget>) -> Seq<ValueV> {
    Seq::new(ts.len(), |i: int| target_rep(ts[i]))
}

/// A one-entry record with a short key and an encodable value fits the
/// wire format.
proof fn lemma_wf_record1(k1: Seq<char>, v1: ValueV)
    requires
        vstd::utf8::encode_utf8(k1).len() <= u32::MAX,
        crate::value::wf(v1),
    ensures
        crate::value::wf(ValueV::Record(seq![(k1, v1)])),
{
    let es = seq![(k1, v1)];
    assert(es.drop_first() =~= Seq::<(Seq<char>, ValueV)>::empty());
    assert(crate::value::wf_entries(Seq::<(Seq<char>, ValueV)>::empty()));
    assert(crate::value::wf_entries(es));
}

/// A two-entry record with short keys and encodable values fits the wire
/// format.
proof fn lemma_wf_record2(k1: Seq<char>, v1: ValueV, k2: Seq<char>, v2: ValueV)
    requires
        vstd::utf8::encode_utf8(k1).len() <= u32::MAX,
        vstd::utf8::encode_utf8(k2).len() <= u32::MAX,
        crate::value::wf(v1),
        crate::value::wf(v2),
    ensures
        crate::value::wf(ValueV::Record(seq![(k1, v1), (k2, v2)])),
{
    let es = seq![(k1, v1), (k2, v2)];
    lemma_wf_record1(k2, v2);
    assert(es.drop_first() =~= seq![(k2, v2)]);
    assert(crate::value::wf_entries(seq![(k2, v2)]));
    assert(crate::value::wf_entries(es));
}

/// A three-entry record with short keys and encodable values fits the wire
/// format.
proof fn lemma_wf_record3(k1: Seq<char>, v1: ValueV, k2: Seq<char>, v2: ValueV, k3: Seq<char>, v3: ValueV)
    requires
        vstd::utf8::encode_utf8(k1).len() <= u32::MAX,
        vstd::utf8::encode_utf8(k2).len() <= u32::MAX,
        vstd::utf8::encode_utf8(k3).len() <= u32::MAX,
        crate::value::wf(v1),
        crate::value::wf(v2),
        crate::value::wf(v3),
    ensures
        crate::value::wf(ValueV::Record(seq![(k1, v1), (k2, v2), (k3, v3)])),
{
    let es = seq![(k1, v1), (k2, v2), (k3, v3)];
    lemma_wf_record2(k2, v2, k3, v3);
    assert(es.drop_first() =~= seq![(k2, v2), (k3, v3)]);
    assert(crate::value::wf_entries(seq![(k2, v2), (k3, v3)]));
    assert(crate::value::wf_entries(es));
}

/// Every routing instruction's payload form fits the wire format.
pub proof fn lemma_target_rep_wf(t: MessageTarget)
    ensures
        crate::value::wf(target_rep(t)),
{
    reveal_strlit("kind");
    reveal_strlit("myself");
    reveal_strlit("child_by_index");
    reveal_strlit("cockpit");
    reveal_strlit("broadcast");
    reveal_strlit("across_coupling");
    reveal_strlit("parent");
    reveal_strlit("index");
    reveal_strlit("across_couplings");
    reveal_strlit("include_self");
    reveal_strlit("coupling");
    reveal_strlit("cascade");
    crate::value::lemma_encode_utf8_len("kind"@);
    crate::value::lemma_encode_utf8_len("myself"@);
    crate::value::lemma_encode_utf8_len("child_by_index"@);
    crate::value::lemma_encode_utf8_len("cockpit"@);
    crate::value::lemma_encode_utf8_len("broadcast"@);
    crate::value::lemma_encode_utf8_len("across_coupling"@);
    crate::value::lemma_encode_utf8_len("parent"@);
    crate::value::lemma_encode_utf8_len("index"@);
    crate::value::lemma_encode_utf8_len("across_couplings"@);
    crate::value::lemma_encode_utf8_len("include_self"@);
    crate::value::lemma_encode_utf8_len("coupling"@);
    crate::value::lemma_encode_utf8_len("cascade"@);
    crate::value::lemma_encode_utf8_len("myself"@);
    match t {
        MessageTarget::Myself => {
            lemma_wf_record1("kind"@, ValueV::Str("myself"@));
        },
        MessageTarget::ChildByIndex(i) => {
            lemma_wf_record2(
                "kind"@,
                ValueV::Str("child_by_index"@),
                "index"@,
                ValueV::Int((i as u64) as i64),
            );
        },
        MessageTarget::Cockpit(c) => {
            lemma_wf_record2("kind"@, ValueV::Str("cockpit"@), "index"@, ValueV::Int(c as i64));
        },
        MessageTarget::Broadcast { across_couplings, include_self } => {
            lemma_wf_record3(
                "kind"@,
                ValueV::Str("broadcast"@),
                "across_couplings"@,
                ValueV::Bool(across_couplings),
                "include_self"@,
                ValueV::Bool(include_self),
            );
        },
        MessageTarget::AcrossCoupling { coupling, cascade } => {
            lemma_wf_record3(
                "kind"@,
                ValueV::Str("across_coupling"@),
                "coupling"@,
                ValueV::Int(
                    if coupling == Coupling::Front {
                        0
                    } else {
                        1
                    },
                ),
                "cascade"@,
                ValueV::Bool(cascade),
            );
        },
        MessageTarget::Parent => {
            lemma_wf_record1("kind"@, ValueV::Str("parent"@));
        },
    }
}

/// Turns one routing instruction into its payload form.
fn target_to_value(t: &MessageTarget) -> (v: Value)
    ensures
        v@ == target_rep(*t),
{
    let mut entries: Vec<(String, Value)> = Vec::new();
    match t {
        MessageTarget::Myself => {
            entries.push(("kind".to_owned(), Value::Str("myself".to_owned())));
        },
        MessageTarget::ChildByIndex(i) => {
            entries.push(("kind".to_owned(), Value::Str("child_by_index".to_owned())));
            entries.push(("index".to_owned(), Value::Int((*i as u64) as i64)));
        },
        MessageTarget::Cockpit(c) => {
            entries.push(("kind".to_owned(), Value::Str("cockpit".to_owned())));
            entries.push(("index".to_owned(), Value::Int(*c as i64)));
        },
        MessageTarget::Broadcast { across_couplings, include_self } => {
            entries.push(("kind".to_owned(), Value::Str("broadcast".to_owned())));
            entries.push(("across_couplings".to_owned(), Value::Bool(*across_couplings)));
            entries.push(("include_self".to_owned(), Value::Bool(*include_self)));
        },
        MessageTarget::AcrossCoupling { coupling, cascade } => {
            entries.push(("kind".to_owned(), Value::Str("across_coupling".to_owned())));
            entries.push(
                (
                    "coupling".to_owned(),
                    Value::Int(
                        if *coupling == Coupling::Front {
                            0
                        } else {
                            1
                        },
                    ),
                ),
            );
            entries.push(("cascade".to_owned(), Value::Bool(*cascade)));
        },
        MessageTarget::Parent => {
            entries.push(("kind".to_owned(), Value::Str("parent".to_owned())));
        },
    }
    let v = Value::Record(entries);
    proof {
        crate::value::lemma_view_entries(entries@);
        assert(crate::value::view_entries(entries@) =~= target_rep(*t)->Record_0);
    }
    v
}

/// Turns a list of routing instructions into one payload tree.
pub fn targets_to_value(targets: &Vec<MessageTarget>) -> (v: Value)
    ensures
        v@ == ValueV::Array(targets_rep(targets@)),
{
    let mut items: Vec<Value> = Vec::new();
    let n = targets.len();
    let mut k: usize = 0;
    while k < n
        invariant
            n == targets@.len(),
            k <= n,
            items@.len() == k,
            forall|t: int| 0 <= t < k ==> #[trigger] items@[t]@ == target_rep(targets@[t]),
        decreases n - k,
    {
        items.push(target_to_value(&targets[k]));
        k += 1;
    }
    let v = Value::Array(items);
    proof {
        crate::value::lemma_view_elems(items@);
        assert(crate::value::view_elems(items@) =~= targets_rep(targets@));
    }
    v
}

/// Wraps a value in an envelope and packs the envelope and the resolved
/// target list as two independent codec buffers, ready for the single host
/// call that sends them. Fire and forget: the host gives no delivery
/// confirmation back.
pub fn send_message<T: MessageType>(value: &T, targets: &Vec<MessageTarget>) -> (buffers: (
    FfiObject,
    FfiObject,
))
    requires
        crate::value::wf(
            envelope_rep(
                MessageV {
                    meta: T::spec_meta(),
                    source: MessageSource { coupling: None },
                    value: T::rep_of(value@),
                },
            ),
        ),
        targets@.len() <= u32::MAX,
    ensures
        buffers.0@.data == crate::value::enc(ValueV::Array(targets_rep(targets@))),
        buffers.1@.data == crate::value::enc(
            envelope_rep(
                MessageV {
                    meta: T::spec_meta(),
                    source: MessageSource { coupling: None },
                    value: T::rep_of(value@),
                },
            ),
        ),
{
    let message = Message::new(value);
    let message_obj = FfiObject::new(&message);
    let targets_tree = targets_to_value(targets);
    proof {
        let reps = targets_rep(targets@);
        assert forall|t: int| 0 <= t < reps.len() implies crate::value::wf(#[trigger] reps[t]) by {
            lemma_target_rep_wf(targets@[t]);
        }
        crate::value::lemma_wf_elems_iff(reps);
    }
    let targets_data = crate::value::encode_value(&targets_tree);
    let targets_obj = FfiObject::from_bytes(targets_data);
    (targets_obj, message_obj)
}

/// Gathers routing instructions for a send: one target alone, or any list
/// of them.
pub trait IntoMessageTargets {
    /// The instructions, as one list.
    fn into_message_targets(self) -> Vec<MessageTarget>;
}

impl IntoMessageTargets for MessageTarget {
    fn into_message_targets(self) -> (r: Vec<MessageTarget>)
        ensures
            r@ == seq![self],
    {
        let mut v: Vec<MessageTarget> = Vec::new();
        v.push(self);
        proof {
            assert(v@ =~= seq![self]);
        }
        v
    }
}

impl IntoMessageTargets for Vec<MessageTarget> {
    fn into_message_targets(self) -> (r: Vec<MessageTarget>)
        ensures
            r@ == self@,
    {
        self
    }
}


/// Law: an envelope whose metadata and payload come from one value of `T`
/// decodes back to exactly that value. With [`Message::new`] and
/// [`Message::value`], a wrapped value is returned unchanged by a matching
/// typed decode.
pub proof fn lemma_dispatch_roundtrip<T: MessageType>(m: MessageV, tv: T::V)
    requires
        m.meta == T::spec_meta(),
        m.value == T::rep_of(tv),
    ensures
        T::parse_rep(m.value) == Some(tv),
{
    T::lemma_parse_rep_of(tv);
}

} // verus!
