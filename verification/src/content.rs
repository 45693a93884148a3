//! Identifiers for user-authored assets.

use crate::message::Encodable;
use crate::message::SerializationError;
use crate::message::str_eq;
use crate::value::Value;
use crate::value::ValueV;
use crate::value::lemma_view_entries;
use crate::value::view_entries;

use vstd::prelude::*;

verus! {

broadcast use vstd::seq::group_seq_axioms;

/// A unique identifier for a content item: the author and the item.
#[derive(Debug, Clone, Copy, PartialEq, Eq, Structural, Hash)]
pub struct ContentId {
    /// The user id of the author.
    pub user_id: i32,
    /// The sub id of the item among the author's content.
    pub sub_id: i32,
}

impl View for ContentId {
    type V = ContentId;

    open spec fn view(&self) -> ContentId {
        *self
    }
}

impl Encodable for ContentId {
    open spec fn rep_of(tv: ContentId) -> ValueV {
        ValueV::Record(
            seq![
                ("user_id"@, ValueV::Int(tv.user_id as i64)),
                ("sub_id"@, ValueV::Int(tv.sub_id as i64)),
            ],
        )
    }

    open spec fn parse_rep(v: ValueV) -> Option<ContentId> {
        match v {
            ValueV::Record(es) => if es.len() == 2 && es[0].0 == "user_id"@ && es[0].1 is Int
                && i32::MIN <= es[0].1->Int_0 <= i32::MAX && es[1].0 == "sub_id"@
                && es[1].1 is Int && i32::MIN <= es[1].1->Int_0 <= i32::MAX {
                Some(
                    ContentId {
                        user_id: es[0].1->Int_0 as i32,
                        sub_id: es[1].1->Int_0 as i32,
                    },
                )
            } else {
                None
            },
            _ => None,
        }
    }

    proof fn lemma_parse_rep_of(tv: ContentId) {
        let es = Self::rep_of(tv)->Record_0;
        assert(es.len() == 2);
        assert(es[0] == ("user_id"@, ValueV::Int(tv.user_id as i64)));
        assert(es[1] == ("sub_id"@, ValueV::Int(tv.sub_id as i64)));
    }

    fn to_value(&self) -> (v: Value) {
        let mut entries: Vec<(String, Value)> = Vec::new();
        entries.push(("user_id".to_owned(), Value::Int(self.user_id as i64)));
        entries.push(("sub_id".to_owned(), Value::Int(self.sub_id as i64)));
        let v = Value::Record(entries);
        proof {
            lemma_view_entries(entries@);
            assert(view_entries(entries@) =~= Self::rep_of(self@)->Record_0);
        }
        v
    }

    fn from_value(v: &Value) -> (r: Result<Self, SerializationError>) {
        let bad = "not a content id";
        match v {
            Value::Record(entries) => {
                proof {
                    lemma_view_entries(entries@);
                }
                if entries.len() != 2 {
                    return Err(SerializationError::new(bad.to_owned()));
                }
                if !str_eq(&entries[0].0, "user_id") || !str_eq(&entries[1].0, "sub_id") {
                    return Err(SerializationError::new(bad.to_owned()));
                }
                let user_id = match &entries[0].1 {
                    Value::Int(n) => if -2147483648i64 <= *n && *n <= 2147483647i64 {
                        *n as i32
                    } else {
                        return Err(SerializationError::new(bad.to_owned()));
                    },
                    _ => {
                        return Err(SerializationError::new(bad.to_owned()));
                    },
                };
                let sub_id = match &entries[1].1 {
                    Value::Int(n) => if -2147483648i64 <= *n && *n <= 2147483647i64 {
                        *n as i32
                    } else {
                        return Err(SerializationError::new(bad.to_owned()));
                    },
                    _ => {
                        return Err(SerializationError::new(bad.to_owned()));
                    },
                };
                Ok(ContentId { user_id, sub_id })
            },
            _ => Err(SerializationError::new(bad.to_owned())),
        }
    }
}

} // verus!
