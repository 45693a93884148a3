//! The tree-shaped value representation and the compact binary codec.
//!
//! Structured data crosses the guest/host boundary in two forms that share
//! this module: a generic tree value (used as the payload of message
//! envelopes) and its compact, length-prefixed binary encoding (used to fill
//! the byte buffers that packed handles describe). The encoding is
//! field-name-preserving: records are written as maps from field name to
//! value, so both sides stay compatible if fields are reordered.

use vstd::prelude::*;

verus! {

broadcast use vstd::seq::group_seq_axioms, vstd::slice::group_slice_axioms;

/// A structured value, as carried inside a message envelope or encoded into
/// a binary buffer.
///
/// Floating-point numbers are carried opaquely, by their IEEE 754 bit
/// pattern: the codec never computes with them, it only moves them.
#[derive(Debug)]
pub enum Value {
    /// The absent value.
    Null,
    /// A boolean.
    Bool(bool),
    /// A signed integer.
    Int(i64),
    /// A 64-bit float, stored as its raw bit pattern.
    F64Bits(u64),
    /// A text string.
    Str(String),
    /// A raw byte string.
    Bytes(Vec<u8>),
    /// An ordered sequence of values.
    Array(Vec<Value>),
    /// A record: field names paired with field values, in field order.
    Record(Vec<(String, Value)>),
}

/// The mathematical form of a [`Value`]: strings become sequences of
/// characters, vectors become sequences. Contracts in this crate speak about
/// values through this form.
pub enum ValueV {
    Null,
    Bool(bool),
    Int(i64),
    F64Bits(u64),
    Str(Seq<char>),
    Bytes(Seq<u8>),
    Array(Seq<ValueV>),
    Record(Seq<(Seq<char>, ValueV)>),
}

impl View for Value {
    type V = ValueV;

    open spec fn view(&self) -> ValueV
        decreases self,
    {
        match self {
            Value::Null => ValueV::Null,
            Value::Bool(b) => ValueV::Bool(*b),
            Value::Int(i) => ValueV::Int(*i),
            Value::F64Bits(bits) => ValueV::F64Bits(*bits),
            Value::Str(s) => ValueV::Str(s@),
            Value::Bytes(bs) => ValueV::Bytes(bs@),
            Value::Array(items) => ValueV::Array(view_elems(items@)),
            Value::Record(entries) => ValueV::Record(view_entries(entries@)),
        }
    }
}

/// The views of a sequence of values, element by element.
pub open spec fn view_elems(items: Seq<Value>) -> Seq<ValueV>
    decreases items,
{
    if items.len() == 0 {
        Seq::empty()
    } else {
        seq![items[0]@] + view_elems(items.drop_first())
    }
}

/// The views of a sequence of record entries, entry by entry.
pub open spec fn view_entries(entries: Seq<(String, Value)>) -> Seq<(Seq<char>, ValueV)>
    decreases entries,
{
    if entries.len() == 0 {
        Seq::empty()
    } else {
        seq![(entries[0].0@, entries[0].1@)] + view_entries(entries.drop_first())
    }
}

/// How [`view_elems`] acts on each index.
pub proof fn lemma_view_elems(items: Seq<Value>)
    ensures
        view_elems(items).len() == items.len(),
        forall|i: int| 0 <= i < items.len() ==> view_elems(items)[i] == items[i]@,
    decreases items,
{
    reveal_with_fuel(view_elems, 2);
    if items.len() > 0 {
        lemma_view_elems(items.drop_first());
        assert forall|i: int| 0 <= i < items.len() implies view_elems(items)[i] == items[i]@ by {
            if i > 0 {
                assert(items.drop_first()[i - 1] == items[i]);
            }
        }
    }
}

/// How [`view_entries`] acts on each index.
pub proof fn lemma_view_entries(entries: Seq<(String, Value)>)
    ensures
        view_entries(entries).len() == entries.len(),
        forall|i: int| 0 <= i < entries.len() ==> view_entries(entries)[i] == (
        entries[i].0@,
        entries[i].1@,
        ),
    decreases entries,
{
    reveal_with_fuel(view_entries, 2);
    if entries.len() > 0 {
        lemma_view_entries(entries.drop_first());
        assert forall|i: int| 0 <= i < entries.len() implies view_entries(entries)[i] == (
        entries[i].0@,
        entries[i].1@,
        ) by {
            if i > 0 {
                assert(entries.drop_first()[i - 1] == entries[i]);
            }
        }
    }
}


/// Wire tag for [`Value::Null`].
pub const TAG_NULL: u8 = 0;

/// Wire tag for `false`.
pub const TAG_FALSE: u8 = 1;

/// Wire tag for `true`.
pub const TAG_TRUE: u8 = 2;

/// Wire tag for a signed integer.
pub const TAG_INT: u8 = 3;

/// Wire tag for a 64-bit float bit pattern.
pub const TAG_F64: u8 = 4;

/// Wire tag for a text string.
pub const TAG_STR: u8 = 5;

/// Wire tag for a raw byte string.
pub const TAG_BYTES: u8 = 6;

/// Wire tag for an array.
pub const TAG_ARRAY: u8 = 7;

/// Wire tag for a record.
pub const TAG_RECORD: u8 = 8;

/// A 32-bit length prefix, most significant byte first.
pub open spec fn u32_be(n: u32) -> Seq<u8> {
    seq![
        ((n / 0x100_0000) % 0x100) as u8,
        ((n / 0x1_0000) % 0x100) as u8,
        ((n / 0x100) % 0x100) as u8,
        (n % 0x100) as u8,
    ]
}

/// The 32-bit value a 4-byte big-endian prefix denotes.
pub open spec fn be_to_u32(b: Seq<u8>) -> u32 {
    ((b[0] as int) * 0x100_0000 + (b[1] as int) * 0x1_0000 + (b[2] as int) * 0x100 + (
    b[3] as int)) as u32
}

/// A 64-bit number, most significant byte first: its high half, then its
/// low half.
pub open spec fn u64_be(n: u64) -> Seq<u8> {
    u32_be((n / 0x1_0000_0000) as u32) + u32_be((n % 0x1_0000_0000) as u32)
}

/// The 64-bit value an 8-byte big-endian run denotes.
pub open spec fn be_to_u64(b: Seq<u8>) -> u64 {
    ((be_to_u32(b.subrange(0, 4)) as int) * 0x1_0000_0000 + (be_to_u32(
        b.subrange(4, 8),
    ) as int)) as u64
}

/// The bit pattern of a signed 64-bit integer, as an unsigned number.
pub open spec fn i64_bits(i: i64) -> u64 {
    i as u64
}

/// The signed 64-bit integer a bit pattern denotes.
pub open spec fn bits_to_i64(n: u64) -> i64 {
    n as i64
}

/// Reading back a written 32-bit prefix gives the number written.
pub proof fn lemma_u32_be_roundtrip(n: u32)
    ensures
        u32_be(n).len() == 4,
        be_to_u32(u32_be(n)) == n,
{
}

/// Reading back a written 64-bit run gives the number written.
pub proof fn lemma_u64_be_roundtrip(n: u64)
    ensures
        u64_be(n).len() == 8,
        be_to_u64(u64_be(n)) == n,
{
    let hi = (n / 0x1_0000_0000) as u32;
    let lo = (n % 0x1_0000_0000) as u32;
    lemma_u32_be_roundtrip(hi);
    lemma_u32_be_roundtrip(lo);
    assert(u64_be(n).subrange(0, 4) =~= u32_be(hi));
    assert(u64_be(n).subrange(4, 8) =~= u32_be(lo));
}

/// Signed integers survive the trip through their bit pattern.
pub proof fn lemma_i64_bits_roundtrip(i: i64)
    ensures
        bits_to_i64(i64_bits(i)) == i,
{
    assert((i as u64) as i64 == i) by (bit_vector);
}

/// Every element of a well-formed array is well formed.
pub proof fn lemma_wf_array_elem(items: Seq<ValueV>, k: int)
    requires
        0 <= k < items.len(),
    ensures
        wf(ValueV::Array(items)) ==> wf(items[k]),
        !wf(items[k]) ==> !wf(ValueV::Array(items)),
{
    lemma_wf_elems_iff(items);
}

/// Every entry of a well-formed record has a short enough key and a
/// well-formed value.
pub proof fn lemma_wf_record_entry(entries: Seq<(Seq<char>, ValueV)>, k: int)
    requires
        0 <= k < entries.len(),
    ensures
        wf(ValueV::Record(entries)) ==> vstd::utf8::encode_utf8(entries[k].0).len() <= u32::MAX
            && wf(entries[k].1),
        !(vstd::utf8::encode_utf8(entries[k].0).len() <= u32::MAX && wf(entries[k].1)) ==> !wf(
            ValueV::Record(entries),
        ),
{
    lemma_wf_entries_iff(entries);
}

/// Whether a value can be encoded: every length in it fits the 32-bit
/// length prefixes of the wire format.
pub open spec fn wf(v: ValueV) -> bool
    decreases v,
{
    match v {
        ValueV::Null => true,
        ValueV::Bool(_) => true,
        ValueV::Int(_) => true,
        ValueV::F64Bits(_) => true,
        ValueV::Str(s) => vstd::utf8::encode_utf8(s).len() <= u32::MAX,
        ValueV::Bytes(bs) => bs.len() <= u32::MAX,
        ValueV::Array(items) => items.len() <= u32::MAX && wf_elems(items),
        ValueV::Record(entries) => entries.len() <= u32::MAX && wf_entries(entries),
    }
}

/// Whether every value of a sequence can be encoded.
pub open spec fn wf_elems(items: Seq<ValueV>) -> bool
    decreases items,
{
    items.len() == 0 || (wf(items[0]) && wf_elems(items.drop_first()))
}

/// Whether every entry of a record can be encoded: each field name fits a
/// length prefix and each field value can be encoded.
pub open spec fn wf_entries(entries: Seq<(Seq<char>, ValueV)>) -> bool
    decreases entries,
{
    entries.len() == 0 || (vstd::utf8::encode_utf8(entries[0].0).len() <= u32::MAX && wf(
        entries[0].1,
    ) && wf_entries(entries.drop_first()))
}

/// [`wf_elems`], read index by index.
pub proof fn lemma_wf_elems_iff(items: Seq<ValueV>)
    ensures
        wf_elems(items) == (forall|i: int| 0 <= i < items.len() ==> #[trigger] wf(items[i])),
    decreases items,
{
    reveal_with_fuel(wf_elems, 2);
    if items.len() > 0 {
        lemma_wf_elems_iff(items.drop_first());
        assert forall|i: int|
            0 <= i < items.drop_first().len() implies #[trigger] items.drop_first()[i]
            == items[i + 1] by {}
        if wf(items[0]) && wf_elems(items.drop_first()) {
            assert forall|i: int| 0 <= i < items.len() implies #[trigger] wf(items[i]) by {
                if i > 0 {
                    assert(wf(items.drop_first()[i - 1]));
                }
            }
        }
        if forall|i: int| 0 <= i < items.len() ==> #[trigger] wf(items[i]) {
            assert forall|i: int|
                0 <= i < items.drop_first().len() implies #[trigger] wf(
                items.drop_first()[i],
            ) by {
                assert(wf(items[i + 1]));
            }
        }
    }
}

/// [`wf_entries`], read index by index.
pub proof fn lemma_wf_entries_iff(entries: Seq<(Seq<char>, ValueV)>)
    ensures
        wf_entries(entries) == (forall|i: int|
            0 <= i < entries.len() ==> vstd::utf8::encode_utf8(#[trigger] entries[i].0).len()
                <= u32::MAX && wf(entries[i].1)),
    decreases entries,
{
    reveal_with_fuel(wf_entries, 2);
    if entries.len() > 0 {
        lemma_wf_entries_iff(entries.drop_first());
        assert forall|i: int|
            0 <= i < entries.drop_first().len() implies #[trigger] entries.drop_first()[i]
            == entries[i + 1] by {}
        if vstd::utf8::encode_utf8(entries[0].0).len() <= u32::MAX && wf(entries[0].1)
            && wf_entries(entries.drop_first()) {
            assert forall|i: int|
                0 <= i < entries.len() implies vstd::utf8::encode_utf8(
                #[trigger] entries[i].0,
            ).len() <= u32::MAX && wf(entries[i].1) by {
                if i > 0 {
                    assert(vstd::utf8::encode_utf8(entries.drop_first()[i - 1].0).len()
                        <= u32::MAX && wf(entries.drop_first()[i - 1].1));
                }
            }
        }
        if forall|i: int|
            0 <= i < entries.len() ==> vstd::utf8::encode_utf8(#[trigger] entries[i].0).len()
                <= u32::MAX && wf(entries[i].1) {
            assert forall|i: int|
                0 <= i < entries.drop_first().len() implies vstd::utf8::encode_utf8(
                #[trigger] entries.drop_first()[i].0,
            ).len() <= u32::MAX && wf(entries.drop_first()[i].1) by {
                assert(vstd::utf8::encode_utf8(entries[i + 1].0).len() <= u32::MAX && wf(
                    entries[i + 1].1,
                ));
            }
        }
    }
}

/// The binary encoding of a value: a tag byte, then the body, with every
/// variable-length part preceded by a 4-byte big-endian length.
pub open spec fn enc(v: ValueV) -> Seq<u8>
    decreases v,
{
    match v {
        ValueV::Null => seq![TAG_NULL],
        ValueV::Bool(b) => if b {
            seq![TAG_TRUE]
        } else {
            seq![TAG_FALSE]
        },
        ValueV::Int(i) => seq![TAG_INT] + u64_be(i64_bits(i)),
        ValueV::F64Bits(bits) => seq![TAG_F64] + u64_be(bits),
        ValueV::Str(s) => {
            let bs = vstd::utf8::encode_utf8(s);
            seq![TAG_STR] + u32_be(bs.len() as u32) + bs
        },
        ValueV::Bytes(bs) => seq![TAG_BYTES] + u32_be(bs.len() as u32) + bs,
        ValueV::Array(items) => seq![TAG_ARRAY] + u32_be(items.len() as u32) + enc_elems(items),
        ValueV::Record(entries) => seq![TAG_RECORD] + u32_be(entries.len() as u32) + enc_entries(
            entries,
        ),
    }
}

/// The concatenated encodings of a sequence of values.
pub open spec fn enc_elems(items: Seq<ValueV>) -> Seq<u8>
    decreases items,
{
    if items.len() == 0 {
        Seq::empty()
    } else {
        enc(items[0]) + enc_elems(items.drop_first())
    }
}

/// The concatenated encodings of a sequence of record entries: each entry is
/// a length-prefixed field name followed by the field value.
pub open spec fn enc_entries(entries: Seq<(Seq<char>, ValueV)>) -> Seq<u8>
    decreases entries,
{
    if entries.len() == 0 {
        Seq::empty()
    } else {
        let key = vstd::utf8::encode_utf8(entries[0].0);
        u32_be(key.len() as u32) + key + enc(entries[0].1) + enc_entries(entries.drop_first())
    }
}

/// Every encoding starts with its tag byte and so is never empty.
pub proof fn lemma_enc_len(v: ValueV)
    ensures
        enc(v).len() >= 1,
{
}


/// The 32-bit length prefix at position `i` of `s`, if four bytes are there.
pub open spec fn dec_len(s: Seq<u8>, i: int) -> Option<u32> {
    if 0 <= i && i + 4 <= s.len() {
        Some(be_to_u32(s.subrange(i, i + 4)))
    } else {
        None
    }
}

/// Decodes one value at position `i` of `s`. On success, yields the value
/// and the position just past its encoding.
pub open spec fn dec(s: Seq<u8>, i: int) -> Option<(ValueV, int)>
    decreases s.len() - i, 0int, 0int,
    when 0 <= i
{
    if i >= s.len() {
        None
    } else {
        let tag = s[i];
        if tag == TAG_NULL {
            Some((ValueV::Null, i + 1))
        } else if tag == TAG_FALSE {
            Some((ValueV::Bool(false), i + 1))
        } else if tag == TAG_TRUE {
            Some((ValueV::Bool(true), i + 1))
        } else if tag == TAG_INT {
            if i + 9 <= s.len() {
                Some((ValueV::Int(bits_to_i64(be_to_u64(s.subrange(i + 1, i + 9)))), i + 9))
            } else {
                None
            }
        } else if tag == TAG_F64 {
            if i + 9 <= s.len() {
                Some((ValueV::F64Bits(be_to_u64(s.subrange(i + 1, i + 9))), i + 9))
            } else {
                None
            }
        } else if tag == TAG_STR {
            match dec_len(s, i + 1) {
                Some(n) => if i + 5 + n <= s.len() {
                    let bs = s.subrange(i + 5, i + 5 + n);
                    if vstd::utf8::valid_utf8(bs) {
                        Some((ValueV::Str(vstd::utf8::decode_utf8(bs)), i + 5 + n))
                    } else {
                        None
                    }
                } else {
                    None
                },
                None => None,
            }
        } else if tag == TAG_BYTES {
            match dec_len(s, i + 1) {
                Some(n) => if i + 5 + n <= s.len() {
                    Some((ValueV::Bytes(s.subrange(i + 5, i + 5 + n)), i + 5 + n))
                } else {
                    None
                },
                None => None,
            }
        } else if tag == TAG_ARRAY {
            match dec_len(s, i + 1) {
                Some(n) => match dec_elems(s, i + 5, n as nat) {
                    Some((items, j)) => Some((ValueV::Array(items), j)),
                    None => None,
                },
                None => None,
            }
        } else if tag == TAG_RECORD {
            match dec_len(s, i + 1) {
                Some(n) => match dec_entries(s, i + 5, n as nat) {
                    Some((entries, j)) => Some((ValueV::Record(entries), j)),
                    None => None,
                },
                None => None,
            }
        } else {
            None
        }
    }
}

/// Decodes `n` consecutive values starting at position `i` of `s`.
pub open spec fn dec_elems(s: Seq<u8>, i: int, n: nat) -> Option<(Seq<ValueV>, int)>
    decreases s.len() - i, 1int, n,
    when 0 <= i <= s.len()
{
    if n == 0 {
        Some((Seq::empty(), i))
    } else {
        match dec(s, i) {
            Some((v, j)) => if i < j <= s.len() {
                match dec_elems(s, j, (n - 1) as nat) {
                    Some((rest, k)) => Some((seq![v] + rest, k)),
                    None => None,
                }
            } else {
                None
            },
            None => None,
        }
    }
}

/// Decodes `n` consecutive record entries starting at position `i` of `s`.
pub open spec fn dec_entries(s: Seq<u8>, i: int, n: nat) -> Option<
    (Seq<(Seq<char>, ValueV)>, int),
>
    decreases s.len() - i, 1int, n,
    when 0 <= i <= s.len()
{
    if n == 0 {
        Some((Seq::empty(), i))
    } else {
        match dec_len(s, i) {
            Some(klen) => if i + 4 + klen <= s.len() {
                let kbytes = s.subrange(i + 4, i + 4 + klen);
                if vstd::utf8::valid_utf8(kbytes) {
                    let key = vstd::utf8::decode_utf8(kbytes);
                    match dec(s, i + 4 + klen) {
                        Some((v, j)) => if i < j <= s.len() {
                            match dec_entries(s, j, (n - 1) as nat) {
                                Some((rest, k)) => Some((seq![(key, v)] + rest, k)),
                                None => None,
                            }
                        } else {
                            None
                        },
                        None => None,
                    }
                } else {
                    None
                }
            } else {
                None
            },
            None => None,
        }
    }
}

/// Decodes a whole buffer as one value; the encoding must fill the buffer
/// exactly.
pub open spec fn dec_full(s: Seq<u8>) -> Option<ValueV> {
    match dec(s, 0) {
        Some((v, j)) => if j == s.len() {
            Some(v)
        } else {
            None
        },
        None => None,
    }
}


/// A subrange equality, read index by index.
proof fn lemma_subrange_index(s: Seq<u8>, i: int, e: Seq<u8>)
    requires
        0 <= i,
        i + e.len() <= s.len(),
        s.subrange(i, i + e.len() as int) == e,
    ensures
        forall|k: int| 0 <= k < e.len() ==> s[i + k] == e[k],
{
    assert forall|k: int| 0 <= k < e.len() implies s[i + k] == e[k] by {
        assert(e[k] == s.subrange(i, i + e.len() as int)[k]);
    }
}

/// If a stretch of `s` holds `a + b`, its two halves hold `a` and `b`.
proof fn lemma_split_prefix(s: Seq<u8>, i: int, a: Seq<u8>, b: Seq<u8>)
    requires
        0 <= i,
        i + a.len() + b.len() <= s.len(),
        s.subrange(i, i + a.len() + b.len()) == a + b,
    ensures
        s.subrange(i, i + a.len() as int) == a,
        s.subrange(i + a.len() as int, i + a.len() + b.len()) == b,
{
    lemma_subrange_index(s, i, a + b);
    assert forall|t: int| 0 <= t < a.len() implies s.subrange(i, i + a.len() as int)[t] == a[t] by {
        assert(s[i + t] == (a + b)[t]);
    }
    assert(s.subrange(i, i + a.len() as int) =~= a);
    assert forall|t: int|
        0 <= t < b.len() implies s.subrange(i + a.len() as int, i + a.len() + b.len())[t]
        == b[t] by {
        assert(s[i + a.len() + t] == (a + b)[a.len() + t]);
    }
    assert(s.subrange(i + a.len() as int, i + a.len() + b.len()) =~= b);
}

/// Law: decoding reads back exactly what encoding wrote, wherever the
/// encoding stands inside a larger buffer.
#[verifier::rlimit(100)]
#[verifier::spinoff_prover]
pub proof fn lemma_dec_enc(v: ValueV, s: Seq<u8>, i: int)
    requires
        wf(v),
        0 <= i,
        i + enc(v).len() <= s.len(),
        s.subrange(i, i + enc(v).len() as int) == enc(v),
    ensures
        dec(s, i) == Some((v, i + enc(v).len() as int)),
    decreases v,
{
    let e = enc(v);
    assert(s[i] == e[0]) by {
        assert(e[0] == s.subrange(i, i + e.len() as int)[0]);
    }
    match v {
        ValueV::Null => {},
        ValueV::Bool(_) => {},
        ValueV::Int(n) => {
            lemma_split_prefix(s, i, seq![TAG_INT], u64_be(i64_bits(n)));
            assert(s.subrange(i + 1, i + 9) == u64_be(i64_bits(n)));
            lemma_u64_be_roundtrip(i64_bits(n));
            lemma_i64_bits_roundtrip(n);
        },
        ValueV::F64Bits(bits) => {
            lemma_split_prefix(s, i, seq![TAG_F64], u64_be(bits));
            assert(s.subrange(i + 1, i + 9) == u64_be(bits));
            lemma_u64_be_roundtrip(bits);
        },
        ValueV::Str(sv) => {
            let bs = vstd::utf8::encode_utf8(sv);
            let blen = bs.len() as u32;
            lemma_u32_be_roundtrip(blen);
            assert(seq![TAG_STR] + (u32_be(blen) + bs) =~= e);
            lemma_split_prefix(s, i, seq![TAG_STR], u32_be(blen) + bs);
            lemma_split_prefix(s, i + 1, u32_be(blen), bs);
            assert(s.subrange(i + 1, i + 5) == u32_be(blen));
            assert(s.subrange(i + 5, i + 5 + blen) == bs);
            vstd::utf8::encode_utf8_valid_utf8(sv);
            vstd::utf8::encode_utf8_decode_utf8(sv);
        },
        ValueV::Bytes(bs) => {
            let blen = bs.len() as u32;
            lemma_u32_be_roundtrip(blen);
            assert(seq![TAG_BYTES] + (u32_be(blen) + bs) =~= e);
            lemma_split_prefix(s, i, seq![TAG_BYTES], u32_be(blen) + bs);
            lemma_split_prefix(s, i + 1, u32_be(blen), bs);
            assert(s.subrange(i + 1, i + 5) == u32_be(blen));
            assert(s.subrange(i + 5, i + 5 + blen) == bs);
        },
        ValueV::Array(items) => {
            let n = items.len() as u32;
            lemma_u32_be_roundtrip(n);
            assert(seq![TAG_ARRAY] + (u32_be(n) + enc_elems(items)) =~= e);
            lemma_split_prefix(s, i, seq![TAG_ARRAY], u32_be(n) + enc_elems(items));
            lemma_split_prefix(s, i + 1, u32_be(n), enc_elems(items));
            assert(s.subrange(i + 1, i + 5) == u32_be(n));
            assert(s.subrange(i + 5, i + 5 + enc_elems(items).len()) == enc_elems(items));
            lemma_wf_elems_iff(items);
            lemma_dec_enc_elems(items, s, i + 5);
        },
        ValueV::Record(entries) => {
            let n = entries.len() as u32;
            lemma_u32_be_roundtrip(n);
            assert(seq![TAG_RECORD] + (u32_be(n) + enc_entries(entries)) =~= e);
            lemma_split_prefix(s, i, seq![TAG_RECORD], u32_be(n) + enc_entries(entries));
            lemma_split_prefix(s, i + 1, u32_be(n), enc_entries(entries));
            assert(s.subrange(i + 1, i + 5) == u32_be(n));
            assert(s.subrange(i + 5, i + 5 + enc_entries(entries).len()) == enc_entries(entries));
            lemma_wf_entries_iff(entries);
            lemma_dec_enc_entries(entries, s, i + 5);
        },
    }
}

/// Companion of [`lemma_dec_enc`] for a run of array elements.
pub proof fn lemma_dec_enc_elems(items: Seq<ValueV>, s: Seq<u8>, i: int)
    requires
        forall|k: int| 0 <= k < items.len() ==> #[trigger] wf(items[k]),
        0 <= i,
        i + enc_elems(items).len() <= s.len(),
        s.subrange(i, i + enc_elems(items).len() as int) == enc_elems(items),
    ensures
        dec_elems(s, i, items.len() as nat) == Some(
            (items, i + enc_elems(items).len() as int),
        ),
    decreases items,
{
    if items.len() == 0 {
        assert(items =~= Seq::<ValueV>::empty());
    } else {
        let head = items[0];
        let rest = items.drop_first();
        let e0 = enc(head);
        let er = enc_elems(rest);
        lemma_split_prefix(s, i, e0, er);
        assert(wf(head));
        lemma_dec_enc(head, s, i);
        lemma_enc_len(head);
        assert forall|k: int| 0 <= k < rest.len() implies #[trigger] wf(rest[k]) by {
            assert(rest[k] == items[k + 1]);
        }
        lemma_dec_enc_elems(rest, s, i + e0.len());
        assert(seq![head] + rest =~= items);
    }
}

/// Companion of [`lemma_dec_enc`] for a run of record entries.
#[verifier::rlimit(100)]
pub proof fn lemma_dec_enc_entries(entries: Seq<(Seq<char>, ValueV)>, s: Seq<u8>, i: int)
    requires
        forall|k: int| 0 <= k < entries.len() ==> vstd::utf8::encode_utf8(
            #[trigger] entries[k].0,
        ).len() <= u32::MAX && wf(entries[k].1),
        0 <= i,
        i + enc_entries(entries).len() <= s.len(),
        s.subrange(i, i + enc_entries(entries).len() as int) == enc_entries(entries),
    ensures
        dec_entries(s, i, entries.len() as nat) == Some(
            (entries, i + enc_entries(entries).len() as int),
        ),
    decreases entries,
{
    if entries.len() == 0 {
        assert(entries =~= Seq::<(Seq<char>, ValueV)>::empty());
    } else {
        let (key, head) = entries[0];
        let rest = entries.drop_first();
        let kb = vstd::utf8::encode_utf8(key);
        let klen = kb.len() as u32;
        let e0 = u32_be(klen) + kb + enc(head);
        let er = enc_entries(rest);
        assert(enc_entries(entries) == e0 + er);
        lemma_split_prefix(s, i, e0, er);
        assert((u32_be(klen) + kb) + (enc(head) + er) =~= e0 + er);
        lemma_split_prefix(s, i, u32_be(klen) + kb, enc(head) + er);
        assert(u32_be(klen) + (kb + enc(head) + er) =~= e0 + er);
        lemma_split_prefix(s, i, u32_be(klen), kb + enc(head) + er);
        assert(s.subrange(i, i + 4) =~= u32_be(klen));
        lemma_u32_be_roundtrip(klen);
        assert(s.subrange(i + 4, i + 4 + klen) =~= kb);
        vstd::utf8::encode_utf8_valid_utf8(key);
        vstd::utf8::encode_utf8_decode_utf8(key);
        assert(s.subrange(i + 4 + klen, i + 4 + klen + enc(head).len()) =~= enc(head));
        lemma_dec_enc(head, s, i + 4 + klen);
        lemma_enc_len(head);
        assert forall|k: int| 0 <= k < rest.len() implies vstd::utf8::encode_utf8(
            #[trigger] rest[k].0,
        ).len() <= u32::MAX && wf(rest[k].1) by {
            assert(rest[k] == entries[k + 1]);
        }
        lemma_dec_enc_entries(rest, s, i + e0.len());
        assert(seq![(key, head)] + rest =~= entries);
    }
}

/// Law: for every encodable value, decoding its encoding gives the value
/// back.
pub proof fn lemma_codec_roundtrip(v: ValueV)
    requires
        wf(v),
    ensures
        dec_full(enc(v)) == Some(v),
{
    assert(enc(v).subrange(0, enc(v).len() as int) =~= enc(v));
    lemma_dec_enc(v, enc(v), 0);
}


/// Appending one more element extends the encoded run by that element's
/// encoding.
pub proof fn lemma_enc_elems_push(items: Seq<ValueV>, x: ValueV)
    ensures
        enc_elems(items.push(x)) == enc_elems(items) + enc(x),
    decreases items,
{
    reveal_with_fuel(enc_elems, 2);
    if items.len() == 0 {
        assert(items.push(x).drop_first() =~= Seq::<ValueV>::empty());
        assert(enc_elems(items.push(x)) =~= enc(x));
        assert(enc_elems(items) + enc(x) =~= enc(x));
    } else {
        assert(items.push(x).drop_first() =~= items.drop_first().push(x));
        lemma_enc_elems_push(items.drop_first(), x);
        assert(enc_elems(items.push(x)) =~= enc_elems(items) + enc(x));
    }
}

/// Appending one more entry extends the encoded run by that entry's
/// encoding.
pub proof fn lemma_enc_entries_push(entries: Seq<(Seq<char>, ValueV)>, e: (Seq<char>, ValueV))
    ensures
        enc_entries(entries.push(e)) == enc_entries(entries) + u32_be(
            vstd::utf8::encode_utf8(e.0).len() as u32,
        ) + vstd::utf8::encode_utf8(e.0) + enc(e.1),
    decreases entries,
{
    reveal_with_fuel(enc_entries, 2);
    let ee = u32_be(vstd::utf8::encode_utf8(e.0).len() as u32) + vstd::utf8::encode_utf8(e.0)
        + enc(e.1);
    if entries.len() == 0 {
        assert(entries.push(e).drop_first() =~= Seq::<(Seq<char>, ValueV)>::empty());
        assert(enc_entries(entries.push(e)) =~= ee);
        assert(enc_entries(entries) + ee =~= ee);
    } else {
        assert(entries.push(e).drop_first() =~= entries.drop_first().push(e));
        lemma_enc_entries_push(entries.drop_first(), e);
        assert(enc_entries(entries.push(e)) =~= enc_entries(entries) + ee);
    }
}

/// Writes a 32-bit length prefix, most significant byte first.
fn write_u32_be(out: &mut Vec<u8>, n: u32)
    ensures
        final(out)@ == old(out)@ + u32_be(n),
{
    out.push(((n / 0x100_0000) % 0x100) as u8);
    out.push(((n / 0x1_0000) % 0x100) as u8);
    out.push(((n / 0x100) % 0x100) as u8);
    out.push((n % 0x100) as u8);
    assert(out@ =~= old(out)@ + u32_be(n));
}

/// Writes a 64-bit number, most significant byte first.
fn write_u64_be(out: &mut Vec<u8>, n: u64)
    ensures
        final(out)@ == old(out)@ + u64_be(n),
{
    write_u32_be(out, (n / 0x1_0000_0000) as u32);
    write_u32_be(out, (n % 0x1_0000_0000) as u32);
    assert(out@ =~= old(out)@ + u64_be(n));
}

/// Reads the 32-bit length prefix at position `i`.
fn read_u32_be(s: &Vec<u8>, i: usize) -> (n: u32)
    requires
        i + 4 <= s@.len(),
    ensures
        n == be_to_u32(s@.subrange(i as int, i + 4)),
{
    let _total: usize = s.len();
    let b0 = s[i];
    let b1 = s[i + 1];
    let b2 = s[i + 2];
    let b3 = s[i + 3];
    let n = (b0 as u32) * 0x100_0000 + (b1 as u32) * 0x1_0000 + (b2 as u32) * 0x100 + (b3 as u32);
    proof {
        let sub = s@.subrange(i as int, i + 4);
        assert(sub[0] == b0 && sub[1] == b1 && sub[2] == b2 && sub[3] == b3);
    }
    n
}

/// Reads the 64-bit number at position `i`.
fn read_u64_be(s: &Vec<u8>, i: usize) -> (n: u64)
    requires
        i + 8 <= s@.len(),
    ensures
        n == be_to_u64(s@.subrange(i as int, i + 8)),
{
    let _total: usize = s.len();
    let hi = read_u32_be(s, i);
    let lo = read_u32_be(s, i + 4);
    let n = (hi as u64) * 0x1_0000_0000 + (lo as u64);
    proof {
        let sub = s@.subrange(i as int, i + 8);
        assert(sub.subrange(0, 4) =~= s@.subrange(i as int, i + 4));
        assert(sub.subrange(4, 8) =~= s@.subrange(i + 4, i + 8));
    }
    n
}


impl Value {
    /// Whether this value fits the wire format: every string, byte string,
    /// array and record in it is short enough for a 32-bit length prefix.
    pub fn is_encodable(&self) -> (b: bool)
        ensures
            b == wf(self@),
        decreases self,
    {
        match self {
            Value::Null => true,
            Value::Bool(_) => true,
            Value::Int(_) => true,
            Value::F64Bits(_) => true,
            Value::Str(st) => st.as_str().as_bytes().len() <= 0xFFFF_FFFFusize,
            Value::Bytes(bs) => bs.len() <= 0xFFFF_FFFFusize,
            Value::Array(items) => {
                proof {
                    lemma_view_elems(items@);
                }
                if items.len() > 0xFFFF_FFFFusize {
                    return false;
                }
                let n = items.len();
                let mut k: usize = 0;
                while k < n
                    invariant
                        n == items@.len() <= 0xFFFF_FFFF,
                        k <= n,
                        self == Value::Array(*items),
                        forall|t: int| 0 <= t < k ==> wf(#[trigger] view_elems(items@)[t]),
                    decreases n - k,
                {
                    proof {
                        lemma_view_elems(items@);
                        assert(decreases_to!(*self => self->Array_0));
                        assert(decreases_to!(*items => items@));
                        assert(decreases_to!(items@ => items@[k as int]));
                    }
                    if !items[k].is_encodable() {
                        proof {
                            lemma_view_elems(items@);
                            let xs = view_elems(items@);
                            assert(self@ == ValueV::Array(xs));
                            assert(xs[k as int] == items@[k as int]@);
                            lemma_wf_array_elem(xs, k as int);
                            assert(!wf(self@));
                        }
                        return false;
                    }
                    k += 1;
                }
                proof {
                    lemma_view_elems(items@);
                    lemma_wf_elems_iff(view_elems(items@));
                }
                true
            },
            Value::Record(entries) => {
                proof {
                    lemma_view_entries(entries@);
                }
                if entries.len() > 0xFFFF_FFFFusize {
                    return false;
                }
                let n = entries.len();
                let mut k: usize = 0;
                while k < n
                    invariant
                        n == entries@.len() <= 0xFFFF_FFFF,
                        k <= n,
                        self == Value::Record(*entries),
                        forall|t: int|
                            0 <= t < k ==> vstd::utf8::encode_utf8(
                                #[trigger] view_entries(entries@)[t].0,
                            ).len() <= u32::MAX && wf(view_entries(entries@)[t].1),
                    decreases n - k,
                {
                    proof {
                        lemma_view_entries(entries@);
                        assert(decreases_to!(*self => self->Record_0));
                        assert(decreases_to!(*entries => entries@));
                        assert(decreases_to!(entries@ => entries@[k as int]));
                        assert(decreases_to!(entries@[k as int] => entries@[k as int].1));
                    }
                    if entries[k].0.as_str().as_bytes().len() > 0xFFFF_FFFFusize {
                        proof {
                            lemma_view_entries(entries@);
                            let xs = view_entries(entries@);
                            assert(self@ == ValueV::Record(xs));
                            assert(vstd::utf8::encode_utf8(xs[k as int].0).len() > u32::MAX);
                            lemma_wf_record_entry(xs, k as int);
                            assert(!wf(self@));
                        }
                        return false;
                    }
                    if !entries[k].1.is_encodable() {
                        proof {
                            lemma_view_entries(entries@);
                            let xs = view_entries(entries@);
                            assert(self@ == ValueV::Record(xs));
                            assert(xs[k as int].1 == entries@[k as int].1@);
                            lemma_wf_record_entry(xs, k as int);
                            assert(!wf(self@));
                        }
                        return false;
                    }
                    proof {
                        lemma_view_entries(entries@);
                        let xs = view_entries(entries@);
                        assert(xs[k as int].0 == entries@[k as int].0@);
                        assert(vstd::utf8::encode_utf8(xs[k as int].0).len() <= u32::MAX);
                        assert(wf(xs[k as int].1));
                    }
                    k += 1;
                }
                proof {
                    lemma_view_entries(entries@);
                    lemma_wf_entries_iff(view_entries(entries@));
                }
                true
            },
        }
    }
}

/// Appends the encoding of `v` to `out`.
fn encode_onto(v: &Value, out: &mut Vec<u8>)
    requires
        wf(v@),
    ensures
        final(out)@ == old(out)@ + enc(v@),
    decreases v,
{
    match v {
        Value::Null => {
            out.push(TAG_NULL);
            assert(out@ =~= old(out)@ + enc(v@));
        },
        Value::Bool(b) => {
            if *b {
                out.push(TAG_TRUE);
            } else {
                out.push(TAG_FALSE);
            }
            assert(out@ =~= old(out)@ + enc(v@));
        },
        Value::Int(n) => {
            out.push(TAG_INT);
            write_u64_be(out, *n as u64);
            assert(out@ =~= old(out)@ + enc(v@));
        },
        Value::F64Bits(bits) => {
            out.push(TAG_F64);
            write_u64_be(out, *bits);
            assert(out@ =~= old(out)@ + enc(v@));
        },
        Value::Str(st) => {
            out.push(TAG_STR);
            let bytes = st.as_str().as_bytes();
            write_u32_be(out, bytes.len() as u32);
            out.extend_from_slice(bytes);
            assert(out@ =~= old(out)@ + enc(v@));
        },
        Value::Bytes(bs) => {
            out.push(TAG_BYTES);
            write_u32_be(out, bs.len() as u32);
            out.extend_from_slice(bs.as_slice());
            assert(out@ =~= old(out)@ + enc(v@));
        },
        Value::Array(items) => {
            proof {
                lemma_view_elems(items@);
            }
            out.push(TAG_ARRAY);
            write_u32_be(out, items.len() as u32);
            let ghost base = out@;
            let n = items.len();
            let mut k: usize = 0;
            while k < n
                invariant
                    n == items@.len() <= 0xFFFF_FFFF,
                    k <= n,
                    v == Value::Array(*items),
                    wf(v@),
                    out@ == base + enc_elems(view_elems(items@).take(k as int)),
                decreases n - k,
            {
                proof {
                    lemma_view_elems(items@);
                    assert(view_elems(items@).take(k as int).push(items@[k as int]@) =~= view_elems(
                    items@).take(k + 1 as int));
                    lemma_enc_elems_push(view_elems(items@).take(k as int), items@[k as int]@);
                    let xs = view_elems(items@);
                    assert(v@ == ValueV::Array(xs));
                    lemma_wf_array_elem(xs, k as int);
                    assert(wf(items@[k as int]@));
                    assert(decreases_to!(*v => v->Array_0));
                    assert(decreases_to!(*items => items@));
                    assert(decreases_to!(items@ => items@[k as int]));
                }
                encode_onto(&items[k], out);
                k += 1;
            }
            proof {
                assert(view_elems(items@).take(n as int) =~= view_elems(items@));
                assert(out@ =~= old(out)@ + enc(v@));
            }
        },
        Value::Record(entries) => {
            proof {
                lemma_view_entries(entries@);
            }
            out.push(TAG_RECORD);
            write_u32_be(out, entries.len() as u32);
            let ghost base = out@;
            let n = entries.len();
            let mut k: usize = 0;
            while k < n
                invariant
                    n == entries@.len() <= 0xFFFF_FFFF,
                    k <= n,
                    v == Value::Record(*entries),
                    wf(v@),
                    out@ == base + enc_entries(view_entries(entries@).take(k as int)),
                decreases n - k,
            {
                proof {
                    lemma_view_entries(entries@);
                    let xs = view_entries(entries@);
                    assert(v@ == ValueV::Record(xs));
                    lemma_wf_record_entry(xs, k as int);
                    assert(vstd::utf8::encode_utf8(xs[k as int].0).len() <= u32::MAX);
                    assert(wf(xs[k as int].1));
                    assert(decreases_to!(*v => v->Record_0));
                    assert(decreases_to!(*entries => entries@));
                    assert(decreases_to!(entries@ => entries@[k as int]));
                    assert(decreases_to!(entries@[k as int] => entries@[k as int].1));
                }
                let ghost mid = out@;
                let key = entries[k].0.as_str();
                write_u32_be(out, key.len() as u32);
                out.extend_from_slice(key.as_bytes());
                encode_onto(&entries[k].1, out);
                proof {
                    let ev = view_entries(entries@)[k as int];
                    assert(out@ =~= mid + (u32_be(vstd::utf8::encode_utf8(ev.0).len() as u32)
                        + vstd::utf8::encode_utf8(ev.0) + enc(ev.1)));
                    assert(view_entries(entries@).take(k as int).push(ev) =~= view_entries(
                    entries@).take(k + 1 as int));
                    lemma_enc_entries_push(view_entries(entries@).take(k as int), ev);
                    assert(out@ =~= base + enc_entries(view_entries(entries@).take(k + 1 as int)));
                }
                k += 1;
            }
            proof {
                assert(view_entries(entries@).take(n as int) =~= view_entries(entries@));
                assert(out@ =~= old(out)@ + enc(v@));
            }
        },
    }
}

/// Encodes a value into a fresh buffer holding exactly its binary encoding.
pub fn encode_value(v: &Value) -> (out: Vec<u8>)
    requires
        wf(v@),
    ensures
        out@ == enc(v@),
{
    let mut out: Vec<u8> = Vec::new();
    encode_onto(v, &mut out);
    out
}


/// Relies on String::from_utf8: it returns a string exactly when the bytes
/// are valid UTF-8, and the returned string holds exactly those bytes.
#[verifier::external_body]
pub(crate) fn string_from_utf8(bytes: Vec<u8>) -> (r: Option<String>)
    ensures
        r is Some <==> vstd::utf8::valid_utf8(bytes@),
        r matches Some(st) ==> vstd::utf8::encode_utf8(st@) == bytes@,
{
    String::from_utf8(bytes).ok()
}

/// Decodes one value at position `i`, returning it with the position just
/// past its encoding.
fn decode_at(s: &Vec<u8>, i: usize) -> (r: Option<(Value, usize)>)
    requires
        i <= s@.len(),
    ensures
        match r {
            Some(p) => dec(s@, i as int) == Some((p.0@, p.1 as int)) && i < p.1 <= s@.len(),
            None => dec(s@, i as int) is None,
        },
    decreases s@.len() - i, 0int, 0int,
{
    if i >= s.len() {
        return None;
    }
    let tag = s[i];
    if tag == TAG_NULL {
        Some((Value::Null, i + 1))
    } else if tag == TAG_FALSE {
        Some((Value::Bool(false), i + 1))
    } else if tag == TAG_TRUE {
        Some((Value::Bool(true), i + 1))
    } else if tag == TAG_INT {
        if s.len() - i >= 9 {
            let n = read_u64_be(s, i + 1);
            Some((Value::Int(n as i64), i + 9))
        } else {
            None
        }
    } else if tag == TAG_F64 {
        if s.len() - i >= 9 {
            let n = read_u64_be(s, i + 1);
            Some((Value::F64Bits(n), i + 9))
        } else {
            None
        }
    } else if tag == TAG_STR {
        if s.len() - i >= 5 {
            let n = read_u32_be(s, i + 1) as usize;
            if s.len() - (i + 5) >= n {
                let bytes = vstd::slice::slice_to_vec(
                    vstd::slice::slice_subrange(s.as_slice(), i + 5, i + 5 + n),
                );
                match string_from_utf8(bytes) {
                    Some(st) => {
                        proof {
                            vstd::utf8::encode_utf8_decode_utf8(st@);
                        }
                        Some((Value::Str(st), i + 5 + n))
                    },
                    None => None,
                }
            } else {
                None
            }
        } else {
            None
        }
    } else if tag == TAG_BYTES {
        if s.len() - i >= 5 {
            let n = read_u32_be(s, i + 1) as usize;
            if s.len() - (i + 5) >= n {
                let bytes = vstd::slice::slice_to_vec(
                    vstd::slice::slice_subrange(s.as_slice(), i + 5, i + 5 + n),
                );
                Some((Value::Bytes(bytes), i + 5 + n))
            } else {
                None
            }
        } else {
            None
        }
    } else if tag == TAG_ARRAY {
        if s.len() - i >= 5 {
            let n = read_u32_be(s, i + 1);
            match decode_elems(s, i + 5, n) {
                Some(p) => Some((Value::Array(p.0), p.1)),
                None => None,
            }
        } else {
            None
        }
    } else if tag == TAG_RECORD {
        if s.len() - i >= 5 {
            let n = read_u32_be(s, i + 1);
            match decode_entries(s, i + 5, n) {
                Some(p) => Some((Value::Record(p.0), p.1)),
                None => None,
            }
        } else {
            None
        }
    } else {
        None
    }
}

/// Decodes `n` consecutive values starting at position `i`.
fn decode_elems(s: &Vec<u8>, i: usize, n: u32) -> (r: Option<(Vec<Value>, usize)>)
    requires
        i <= s@.len(),
    ensures
        match r {
            Some(p) => dec_elems(s@, i as int, n as nat) == Some((view_elems(p.0@), p.1 as int))
                && i <= p.1 <= s@.len(),
            None => dec_elems(s@, i as int, n as nat) is None,
        },
    decreases s@.len() - i, 1int, n,
{
    if n == 0 {
        let items: Vec<Value> = Vec::new();
        proof {
            lemma_view_elems(items@);
            assert(view_elems(items@) =~= Seq::<ValueV>::empty());
        }
        return Some((items, i));
    }
    match decode_at(s, i) {
        Some(head) => {
            let (v, j) = head;
            match decode_elems(s, j, n - 1) {
                Some(p) => {
                    let (mut rest, k) = p;
                    rest.insert(0, v);
                    proof {
                        lemma_view_elems(rest@);
                        lemma_view_elems(rest@.drop_first());
                        assert(rest@.drop_first() =~= p.0@);
                        assert(view_elems(rest@) =~= seq![v@] + view_elems(p.0@));
                    }
                    Some((rest, k))
                },
                None => None,
            }
        },
        None => None,
    }
}

/// Decodes `n` consecutive record entries starting at position `i`.
fn decode_entries(s: &Vec<u8>, i: usize, n: u32) -> (r: Option<(Vec<(String, Value)>, usize)>)
    requires
        i <= s@.len(),
    ensures
        match r {
            Some(p) => dec_entries(s@, i as int, n as nat) == Some(
                (view_entries(p.0@), p.1 as int),
            ) && i <= p.1 <= s@.len(),
            None => dec_entries(s@, i as int, n as nat) is None,
        },
    decreases s@.len() - i, 1int, n,
{
    if n == 0 {
        let entries: Vec<(String, Value)> = Vec::new();
        proof {
            lemma_view_entries(entries@);
            assert(view_entries(entries@) =~= Seq::<(Seq<char>, ValueV)>::empty());
        }
        return Some((entries, i));
    }
    if s.len() - i < 4 {
        return None;
    }
    let klen = read_u32_be(s, i) as usize;
    if s.len() - (i + 4) < klen {
        return None;
    }
    let kbytes = vstd::slice::slice_to_vec(
        vstd::slice::slice_subrange(s.as_slice(), i + 4, i + 4 + klen),
    );
    match string_from_utf8(kbytes) {
        Some(key) => {
            proof {
                vstd::utf8::encode_utf8_decode_utf8(key@);
            }
            match decode_at(s, i + 4 + klen) {
                Some(head) => {
                    let (v, j) = head;
                    match decode_entries(s, j, n - 1) {
                        Some(p) => {
                            let (mut rest, k) = p;
                            rest.insert(0, (key, v));
                            proof {
                                lemma_view_entries(rest@);
                                lemma_view_entries(rest@.drop_first());
                                assert(rest@.drop_first() =~= p.0@);
                                assert(view_entries(rest@) =~= seq![(rest@[0].0@, rest@[0].1@)]
                                    + view_entries(p.0@));
                            }
                            Some((rest, k))
                        },
                        None => None,
                    }
                },
                None => None,
            }
        },
        None => None,
    }
}

/// Decodes a whole buffer as one value. Returns the value exactly when the
/// buffer holds one well-formed encoding and nothing else.
pub fn decode_value(bytes: &Vec<u8>) -> (r: Option<Value>)
    ensures
        match r {
            Some(v) => dec_full(bytes@) == Some(v@),
            None => dec_full(bytes@) is None,
        },
{
    match decode_at(bytes, 0) {
        Some(p) => {
            let (v, j) = p;
            if j == bytes.len() {
                Some(v)
            } else {
                None
            }
        },
        None => None,
    }
}

impl Clone for Value {
    /// A clone keeps the value's mathematical form.
    fn clone(&self) -> (r: Self)
        ensures
            r@ == self@,
        decreases self,
    {
        match self {
            Value::Null => Value::Null,
            Value::Bool(b) => Value::Bool(*b),
            Value::Int(i) => Value::Int(*i),
            Value::F64Bits(bits) => Value::F64Bits(*bits),
            Value::Str(st) => Value::Str(st.clone()),
            Value::Bytes(bs) => {
                let mut out: Vec<u8> = Vec::new();
                let n = bs.len();
                let mut k: usize = 0;
                while k < n
                    invariant
                        n == bs@.len(),
                        k <= n,
                        out@ == bs@.take(k as int),
                    decreases n - k,
                {
                    out.push(bs[k]);
                    proof {
                        assert(out@ =~= bs@.take(k + 1 as int));
                    }
                    k += 1;
                }
                proof {
                    assert(bs@.take(n as int) =~= bs@);
                }
                Value::Bytes(out)
            },
            Value::Array(items) => {
                let mut out: Vec<Value> = Vec::new();
                let n = items.len();
                let mut k: usize = 0;
                while k < n
                    invariant
                        n == items@.len(),
                        k <= n,
                        self == Value::Array(*items),
                        out@.len() == k,
                        forall|t: int| 0 <= t < k ==> #[trigger] out@[t]@ == items@[t]@,
                    decreases n - k,
                {
                    proof {
                        assert(decreases_to!(*self => self->Array_0));
                        assert(decreases_to!(*items => items@));
                        assert(decreases_to!(items@ => items@[k as int]));
                    }
                    out.push(items[k].clone());
                    k += 1;
                }
                proof {
                    lemma_view_elems(out@);
                    lemma_view_elems(items@);
                    assert(view_elems(out@) =~= view_elems(items@));
                }
                Value::Array(out)
            },
            Value::Record(entries) => {
                let mut out: Vec<(String, Value)> = Vec::new();
                let n = entries.len();
                let mut k: usize = 0;
                while k < n
                    invariant
                        n == entries@.len(),
                        k <= n,
                        self == Value::Record(*entries),
                        out@.len() == k,
                        forall|t: int|
                            0 <= t < k ==> #[trigger] out@[t].0@ == entries@[t].0@ && out@[t].1@
                                == entries@[t].1@,
                    decreases n - k,
                {
                    proof {
                        assert(decreases_to!(*self => self->Record_0));
                        assert(decreases_to!(*entries => entries@));
                        assert(decreases_to!(entries@ => entries@[k as int]));
                        assert(decreases_to!(entries@[k as int] => entries@[k as int].1));
                    }
                    let key = entries[k].0.clone();
                    let val = entries[k].1.clone();
                    out.push((key, val));
                    k += 1;
                }
                proof {
                    lemma_view_entries(out@);
                    lemma_view_entries(entries@);
                    assert(view_entries(out@) =~= view_entries(entries@));
                }
                Value::Record(out)
            },
        }
    }
}



/// A character sequence's UTF-8 encoding takes at most four bytes per
/// character.
pub proof fn lemma_encode_utf8_len(chars: Seq<char>)
    ensures
        vstd::utf8::encode_utf8(chars).len() <= 4 * chars.len(),
    decreases chars.len(),
{
    if chars.len() > 0 {
        lemma_encode_utf8_len(chars.drop_first());
    }
}

} // verus!
