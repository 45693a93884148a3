//! Packed handles: the sole mechanism for passing variable-length data across
//! the guest/host boundary.
//!
//! A handle is a single 64-bit integer holding a 32-bit address in its high
//! half and a 32-bit byte length in its low half (each conceptually stored
//! big-endian, so the address occupies the most significant bits). This exact
//! bit layout is part of the wire contract with the host.

use crate::message::Encodable;
use crate::value::dec_full;
use crate::value::enc;
use crate::value::wf;
use crate::value::decode_value;
use crate::value::encode_value;

use vstd::prelude::*;

verus! {

broadcast use vstd::seq::group_seq_axioms;

/// The handle for address `addr` and byte length `len`: the address in the
/// high 32 bits, the length in the low 32 bits.
pub open spec fn spec_pack(addr: u32, len: u32) -> u64 {
    ((addr as u64) * 0x1_0000_0000 + (len as u64)) as u64
}

/// The (address, length) pair a handle describes.
pub open spec fn spec_unpack(handle: u64) -> (u32, u32) {
    (((handle / 0x1_0000_0000) as u32), ((handle % 0x1_0000_0000) as u32))
}

/// Packs a buffer address and byte length into one 64-bit handle.
pub fn pack(addr: u32, len: u32) -> (handle: u64)
    ensures
        handle == spec_pack(addr, len),
{
    let handle = ((addr as u64) << 32) | (len as u64);
    proof {
        assert(((addr as u64) << 32) | (len as u64) == (addr as u64) * 0x1_0000_0000 + (
        len as u64)) by (bit_vector);
    }
    handle
}

/// Splits a 64-bit handle back into the buffer address and byte length.
pub fn unpack(handle: u64) -> (r: (u32, u32))
    ensures
        r == spec_unpack(handle),
{
    let addr = (handle >> 32) as u32;
    let len = (handle & 0xFFFF_FFFF) as u32;
    proof {
        assert((handle >> 32) as u32 == (handle / 0x1_0000_0000) as u32) by (bit_vector);
        assert((handle & 0xFFFF_FFFF) as u32 == (handle % 0x1_0000_0000) as u32) by (bit_vector);
    }
    (addr, len)
}

/// Law: packing and unpacking are mutually inverse, for every representable
/// (address, length) pair and every handle.
pub proof fn lemma_handle_bijection(addr: u32, len: u32, handle: u64)
    ensures
        spec_unpack(spec_pack(addr, len)) == (addr, len),
        spec_pack(spec_unpack(handle).0, spec_unpack(handle).1) == handle,
{
    assert(((addr as u64) * 0x1_0000_0000 + (len as u64)) / 0x1_0000_0000 == (addr as u64)
        && ((addr as u64) * 0x1_0000_0000 + (len as u64)) % 0x1_0000_0000 == (len as u64))
        by (bit_vector);
    assert(((handle / 0x1_0000_0000) as u32 as u64) * 0x1_0000_0000 + ((handle
        % 0x1_0000_0000) as u32 as u64) == handle) by (bit_vector);
}


/// The mathematical form of an [`FfiObject`]: its bytes, its address, and
/// its ownership tag.
pub struct FfiObjectV {
    pub data: Seq<u8>,
    pub addr: u32,
    pub owned: bool,
}

/// A byte buffer exchanged across the boundary, together with the address
/// the other side will see and an ownership tag.
///
/// An owned buffer was filled by this side for a value of its own; a
/// borrowed one is a view over bytes the other side wrote, reconstructed
/// from a packed handle. Every handle has exactly one party responsible for
/// eventually freeing the backing memory; the tag records which role this
/// object plays, and the call-site convention does the rest.
pub struct FfiObject {
    data: Vec<u8>,
    addr: u32,
    owned: bool,
}

impl View for FfiObject {
    type V = FfiObjectV;

    closed spec fn view(&self) -> FfiObjectV {
        FfiObjectV { data: self.data@, addr: self.addr, owned: self.owned }
    }
}

/// Relies on Vec::as_ptr: the address of the buffer's first byte. The
/// address is machine-chosen, so nothing is promised of it.
#[verifier::external_body]
fn data_address(data: &Vec<u8>) -> u32 {
    data.as_ptr() as usize as u32
}

/// Whether a buffer's bytes decode as a value of type `T`.
pub open spec fn deserializable<T: Encodable>(data: Seq<u8>) -> bool {
    match dec_full(data) {
        Some(v) => T::parse_rep(v) is Some,
        None => false,
    }
}

impl FfiObject {
    /// Serializes a value into a fresh, exclusively owned buffer.
    pub fn new<T: Encodable>(value: &T) -> (o: FfiObject)
        requires
            wf(T::rep_of(value@)),
        ensures
            o@.data == enc(T::rep_of(value@)),
            o@.owned == true,
    {
        let tree = value.to_value();
        let data = encode_value(&tree);
        let addr = data_address(&data);
        FfiObject { data, addr, owned: true }
    }

    /// Wraps already encoded bytes in an owned buffer.
    pub fn from_bytes(data: Vec<u8>) -> (o: FfiObject)
        ensures
            o@.data == data@,
            o@.owned == true,
    {
        let addr = data_address(&data);
        FfiObject { data, addr, owned: true }
    }

    /// Decodes the buffer as a value of type `T`.
    ///
    /// Decode failure at this layer is an internal protocol defect between
    /// version-matched sides, not a recoverable error: the precondition
    /// demands bytes that decode, and no failure path exists.
    pub fn deserialize<T: Encodable>(&self) -> (t: T)
        requires
            deserializable::<T>(self@.data),
        ensures
            match dec_full(self@.data) {
                Some(v) => T::parse_rep(v) == Some(t@),
                None => false,
            },
    {
        match decode_value(&self.data) {
            Some(tree) => match T::from_value(&tree) {
                Ok(t) => t,
                Err(_) => vstd::pervasive::unreached(),
            },
            None => vstd::pervasive::unreached(),
        }
    }

    /// The buffer's bytes.
    pub fn bytes(&self) -> (d: &Vec<u8>)
        ensures
            d@ == self@.data,
    {
        &self.data
    }

    /// The packed handle for this buffer: its address in the high half, its
    /// byte length in the low half. Ownership does not change.
    pub fn packed(&self) -> (h: u64)
        ensures
            h == spec_pack(self@.addr, self@.data.len() as u32),
    {
        pack(self.addr, self.data.len() as u32)
    }

    /// Packs the buffer and hands it off: the caller of the resulting
    /// handle's consumer takes over the duty to free the memory, with the
    /// same address and length.
    pub fn forget(self) -> (h: u64)
        ensures
            h == spec_pack(self@.addr, self@.data.len() as u32),
    {
        self.packed()
    }

    /// Reconstructs a non-owning view over the bytes a handle describes.
    /// The raw memory read happens at the boundary; this takes the handle
    /// together with the bytes read from its address.
    pub fn from_packed(packed: u64, data: Vec<u8>) -> (o: FfiObject)
        requires
            data@.len() == spec_unpack(packed).1,
        ensures
            o@.data == data@,
            o@.addr == spec_unpack(packed).0,
            o@.owned == false,
    {
        let (addr, _len) = unpack(packed);
        FfiObject { data, addr, owned: false }
    }
}


/// Law: a buffer freshly serialized from a value deserializes back to that
/// value. With [`FfiObject::new`] and [`FfiObject::deserialize`], a value
/// sent through an owned buffer comes back unchanged.
pub proof fn lemma_buffer_roundtrip<T: Encodable>(tv: T::V)
    requires
        wf(T::rep_of(tv)),
    ensures
        deserializable::<T>(enc(T::rep_of(tv))),
        match dec_full(enc(T::rep_of(tv))) {
            Some(v) => T::parse_rep(v) == Some(tv),
            None => false,
        },
{
    crate::value::lemma_codec_roundtrip(T::rep_of(tv));
    T::lemma_parse_rep_of(tv);
}

} // verus!
