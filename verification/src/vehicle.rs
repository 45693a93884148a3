//! Vehicle physics addressing and the closed error set the host's
//! out-of-band sentinels map to.
//!
//! Physics queries answer through plain numbers, and the host signals
//! "object not found" out of band: a not-a-number result means the vehicle
//! itself is missing, an infinite result means the queried sub-component is
//! missing, with the concrete meaning fixed per query. The mapping into a
//! closed error set happens at the first guest-side touchpoint, here.

use vstd::prelude::*;

verus! {

/// Why a physics query could not answer: which object was not found.
#[derive(Debug, Clone, Copy, PartialEq, Eq, Structural, Hash)]
pub enum VehicleError {
    /// No vehicle is attached at all.
    VehicleNotFound,
    /// The addressed bogie does not exist.
    BogieNotFound,
    /// The addressed axle does not exist.
    AxleNotFound,
    /// The addressed pantograph does not exist.
    PantographNotFound,
    /// An error code this set does not name.
    Unknown,
}

/// The wire code each error answers to.
pub open spec fn spec_error_code(code: u32) -> VehicleError {
    if code == 256 {
        VehicleError::VehicleNotFound
    } else if code == 512 {
        VehicleError::BogieNotFound
    } else if code == 1024 {
        VehicleError::AxleNotFound
    } else if code == 2048 {
        VehicleError::PantographNotFound
    } else {
        VehicleError::Unknown
    }
}

impl From<u32> for VehicleError {
    /// Maps a host error code to the error it names; codes outside the set
    /// map to [`VehicleError::Unknown`].
    fn from(value: u32) -> (e: Self)
        ensures
            e == spec_error_code(value),
    {
        if value == 256 {
            VehicleError::VehicleNotFound
        } else if value == 512 {
            VehicleError::BogieNotFound
        } else if value == 1024 {
            VehicleError::AxleNotFound
        } else if value == 2048 {
            VehicleError::PantographNotFound
        } else {
            VehicleError::Unknown
        }
    }
}

impl vstd::std_specs::convert::FromSpecImpl<u32> for VehicleError {
    open spec fn obeys_from_spec() -> bool {
        true
    }

    open spec fn from_spec(value: u32) -> VehicleError {
        spec_error_code(value)
    }
}

/// Whether a 32-bit float bit pattern is a not-a-number value.
pub open spec fn spec_is_nan_bits(bits: u32) -> bool {
    bits & 0x7F80_0000 == 0x7F80_0000 && bits & 0x007F_FFFF != 0
}

/// Whether a 32-bit float bit pattern is a positive or negative infinity.
pub open spec fn spec_is_infinite_bits(bits: u32) -> bool {
    bits == 0x7F80_0000 || bits == 0xFF80_0000
}

/// Maps one physics answer, given as the raw bit pattern of its 32-bit
/// float, to the closed error set: not-a-number means the vehicle was not
/// found, an infinity means the queried sub-component was not found (which
/// one depends on the query and is passed in), and every finite answer
/// passes through unchanged.
pub fn map_physics_sentinels(bits: u32, missing_part: VehicleError) -> (r: Result<
    u32,
    VehicleError,
>)
    ensures
        spec_is_nan_bits(bits) ==> r == Err::<u32, VehicleError>(VehicleError::VehicleNotFound),
        spec_is_infinite_bits(bits) ==> r == Err::<u32, VehicleError>(missing_part),
        !spec_is_nan_bits(bits) && !spec_is_infinite_bits(bits) ==> r == Ok::<
            u32,
            VehicleError,
        >(bits),
{
    proof {
        assert((bits == 0x7F80_0000u32 || bits == 0xFF80_0000u32) ==> (bits & 0x7F80_0000u32
            == 0x7F80_0000u32 && bits & 0x007F_FFFFu32 == 0)) by (bit_vector);
    }
    if bits & 0x7F80_0000 == 0x7F80_0000 {
        if bits & 0x007F_FFFF != 0 {
            Err(VehicleError::VehicleNotFound)
        } else if bits == 0x7F80_0000 || bits == 0xFF80_0000 {
            Err(missing_part)
        } else {
            proof {
                assert((bits & 0x7F80_0000u32 == 0x7F80_0000u32 && bits & 0x007F_FFFFu32 == 0)
                    ==> (bits == 0x7F80_0000u32 || bits == 0xFF80_0000u32)) by (bit_vector);
            }
            Ok(bits)
        }
    } else {
        Ok(bits)
    }
}

/// One bogie of the vehicle, addressed by index. A value exists only for an
/// index the host has confirmed.
#[derive(Debug, Clone, Copy, PartialEq, Eq, Structural)]
pub struct Bogie {
    index: usize,
}

impl Bogie {
    /// The bogie's index, at the specification level.
    pub closed spec fn spec_index(&self) -> usize {
        self.index
    }

    /// Interprets the host's validity answer for a bogie index: zero means
    /// the bogie exists, any other code names the missing object.
    pub fn get(index: usize, validity_code: u32) -> (r: Result<Bogie, VehicleError>)
        ensures
            validity_code == 0 ==> (r matches Ok(b) && b.spec_index() == index),
            validity_code != 0 ==> r == Err::<Bogie, VehicleError>(
                spec_error_code(validity_code),
            ),
    {
        if validity_code == 0 {
            Ok(Bogie { index })
        } else {
            Err(VehicleError::from(validity_code))
        }
    }

    /// The bogie's index.
    pub fn index(&self) -> (i: usize)
        ensures
            i == self.spec_index(),
    {
        self.index
    }
}

/// One axle of one bogie, addressed by both indices. A value exists only
/// for a pair the host has confirmed.
#[derive(Debug, Clone, Copy, PartialEq, Eq, Structural)]
pub struct Axle {
    bogie_index: usize,
    axle_index: usize,
}

impl Axle {
    /// The index of the bogie this axle belongs to, at the specification
    /// level.
    pub closed spec fn spec_bogie_index(&self) -> usize {
        self.bogie_index
    }

    /// The axle's index within its bogie, at the specification level.
    pub closed spec fn spec_axle_index(&self) -> usize {
        self.axle_index
    }

    /// Interprets the host's validity answer for an axle address: zero
    /// means the axle exists, any other code names the missing object.
    pub fn get(bogie_index: usize, axle_index: usize, validity_code: u32) -> (r: Result<
        Axle,
        VehicleError,
    >)
        ensures
            validity_code == 0 ==> (r matches Ok(a) && a.spec_bogie_index() == bogie_index
                && a.spec_axle_index() == axle_index),
            validity_code != 0 ==> r == Err::<Axle, VehicleError>(
                spec_error_code(validity_code),
            ),
    {
        if validity_code == 0 {
            Ok(Axle { bogie_index, axle_index })
        } else {
            Err(VehicleError::from(validity_code))
        }
    }

    /// The bogie this axle belongs to.
    pub fn bogie(self) -> (b: Bogie)
        ensures
            b.spec_index() == self.spec_bogie_index(),
    {
        Bogie { index: self.bogie_index }
    }

    /// The axle's index within its bogie.
    pub fn axle_index(&self) -> (i: usize)
        ensures
            i == self.spec_axle_index(),
    {
        self.axle_index
    }

    /// The index of the bogie this axle belongs to.
    pub fn bogie_index(&self) -> (i: usize)
        ensures
            i == self.spec_bogie_index(),
    {
        self.bogie_index
    }
}

/// The quality of the rails under an axle.
#[derive(Debug, Clone, Copy, PartialEq, Eq, Structural, Hash)]
pub enum RailQuality {
    Smooth,
    Rough,
    FroggySmooth,
    FroggyRough,
    FlatGroove,
    HighSpeedSmooth,
    SmoothDirt,
    RoughDirt,
}

impl RailQuality {
    /// The quality a host answer names, or the error its code maps to.
    pub fn try_from(value: u32) -> (r: Result<RailQuality, VehicleError>)
        ensures
            value == 0 ==> r == Ok::<RailQuality, VehicleError>(RailQuality::Smooth),
            value == 1 ==> r == Ok::<RailQuality, VehicleError>(RailQuality::Rough),
            value == 2 ==> r == Ok::<RailQuality, VehicleError>(RailQuality::FroggySmooth),
            value == 3 ==> r == Ok::<RailQuality, VehicleError>(RailQuality::FroggyRough),
            value == 4 ==> r == Ok::<RailQuality, VehicleError>(RailQuality::FlatGroove),
            value == 5 ==> r == Ok::<RailQuality, VehicleError>(RailQuality::HighSpeedSmooth),
            value == 6 ==> r == Ok::<RailQuality, VehicleError>(RailQuality::SmoothDirt),
            value == 7 ==> r == Ok::<RailQuality, VehicleError>(RailQuality::RoughDirt),
            value > 7 ==> r == Err::<RailQuality, VehicleError>(spec_error_code(value)),
    {
        match value {
            0 => Ok(RailQuality::Smooth),
            1 => Ok(RailQuality::Rough),
            2 => Ok(RailQuality::FroggySmooth),
            3 => Ok(RailQuality::FroggyRough),
            4 => Ok(RailQuality::FlatGroove),
            5 => Ok(RailQuality::HighSpeedSmooth),
            6 => Ok(RailQuality::SmoothDirt),
            7 => Ok(RailQuality::RoughDirt),
            _ => Err(VehicleError::from(value)),
        }
    }
}

/// The surface under an axle.
#[derive(Debug, Clone, Copy, PartialEq, Eq, Structural, Hash)]
pub enum SurfaceType {
    Gravel,
    Street,
    Grass,
}

impl SurfaceType {
    /// The surface a host answer names, or the error its code maps to.
    pub fn try_from(value: u32) -> (r: Result<SurfaceType, VehicleError>)
        ensures
            value == 0 ==> r == Ok::<SurfaceType, VehicleError>(SurfaceType::Gravel),
            value == 1 ==> r == Ok::<SurfaceType, VehicleError>(SurfaceType::Street),
            value == 2 ==> r == Ok::<SurfaceType, VehicleError>(SurfaceType::Grass),
            value > 2 ==> r == Err::<SurfaceType, VehicleError>(spec_error_code(value)),
    {
        match value {
            0 => Ok(SurfaceType::Gravel),
            1 => Ok(SurfaceType::Street),
            2 => Ok(SurfaceType::Grass),
            _ => Err(VehicleError::from(value)),
        }
    }
}


/// The character of one decimal digit.
pub open spec fn spec_digit(d: nat) -> char {
    if d == 0 {
        '0'
    } else if d == 1 {
        '1'
    } else if d == 2 {
        '2'
    } else if d == 3 {
        '3'
    } else if d == 4 {
        '4'
    } else if d == 5 {
        '5'
    } else if d == 6 {
        '6'
    } else if d == 7 {
        '7'
    } else if d == 8 {
        '8'
    } else {
        '9'
    }
}

/// The decimal digits of `n`, most significant first.
pub open spec fn spec_decimal(n: nat) -> Seq<char>
    decreases n,
{
    if n < 10 {
        seq![spec_digit(n)]
    } else {
        spec_decimal(n / 10).push(spec_digit(n % 10))
    }
}

/// The decimal digits of `n` as their single UTF-8 bytes, most significant
/// first.
spec fn spec_decimal_bytes(n: nat) -> Seq<u8>
    decreases n,
{
    if n < 10 {
        seq![(48 + n) as u8]
    } else {
        spec_decimal_bytes(n / 10).push((48 + n % 10) as u8)
    }
}

/// A digit's character sits at the digit's offset past '0', inside the
/// one-byte UTF-8 range.
proof fn lemma_digit_char(d: nat)
    requires
        d < 10,
    ensures
        spec_digit(d) as u32 == 48 + d,
        (spec_digit(d) as u32) < 0x80,
{
}

/// UTF-8 encoding distributes over concatenation.
proof fn lemma_encode_utf8_concat(a: Seq<char>, b: Seq<char>)
    ensures
        vstd::utf8::encode_utf8(a + b) == vstd::utf8::encode_utf8(a) + vstd::utf8::encode_utf8(
            b,
        ),
    decreases a.len(),
{
    if a.len() == 0 {
        assert(a + b =~= b);
        assert(vstd::utf8::encode_utf8(a) =~= Seq::<u8>::empty());
        assert(vstd::utf8::encode_utf8(a) + vstd::utf8::encode_utf8(b) =~= vstd::utf8::encode_utf8(
        b));
    } else {
        assert((a + b).drop_first() =~= a.drop_first() + b);
        assert((a + b)[0] == a[0]);
        lemma_encode_utf8_concat(a.drop_first(), b);
        assert(vstd::utf8::encode_utf8(a + b) =~= vstd::utf8::encode_utf8(a)
            + vstd::utf8::encode_utf8(b));
    }
}

/// A character below 128 encodes as its own single byte.
proof fn lemma_ascii_char_bytes(c: char)
    requires
        (c as u32) < 0x80,
    ensures
        vstd::utf8::encode_utf8(seq![c]) == seq![(c as u32) as u8],
{
    let v = c as u32;
    assert(seq![c].drop_first() =~= Seq::<char>::empty());
    assert(v & 0x7F == v) by (bit_vector)
        requires
            v < 0x80,
    ;
    assert(vstd::utf8::encode_utf8(seq![c]) == vstd::utf8::encode_scalar(v)
        + vstd::utf8::encode_utf8(Seq::<char>::empty()));
    assert(vstd::utf8::encode_utf8(Seq::<char>::empty()) =~= Seq::<u8>::empty());
    assert(vstd::utf8::encode_scalar(v) =~= seq![(v & 0x7F) as u8]);
    assert(vstd::utf8::encode_scalar(v) + Seq::<u8>::empty() =~= seq![(c as u32) as u8]);
}

/// The digit characters of `n` encode as the digit bytes of `n`.
proof fn lemma_decimal_utf8(n: nat)
    ensures
        vstd::utf8::encode_utf8(spec_decimal(n)) == spec_decimal_bytes(n),
    decreases n,
{
    if n < 10 {
        lemma_digit_char(n);
        lemma_ascii_char_bytes(spec_digit(n));
        assert(vstd::utf8::encode_utf8(spec_decimal(n)) =~= spec_decimal_bytes(n));
    } else {
        lemma_decimal_utf8(n / 10);
        lemma_digit_char(n % 10);
        lemma_ascii_char_bytes(spec_digit(n % 10));
        assert(spec_decimal(n) =~= spec_decimal(n / 10) + seq![spec_digit(n % 10)]);
        lemma_encode_utf8_concat(spec_decimal(n / 10), seq![spec_digit(n % 10)]);
        assert(vstd::utf8::encode_utf8(spec_decimal(n)) =~= spec_decimal_bytes(n));
    }
}

/// Appends the decimal digit bytes of `n`, most significant first.
fn push_decimal(n: usize, out: &mut Vec<u8>)
    ensures
        final(out)@ == old(out)@ + spec_decimal_bytes(n as nat),
    decreases n,
{
    if n >= 10 {
        push_decimal(n / 10, out);
    }
    out.push(48 + (n % 10) as u8);
    assert(out@ =~= old(out)@ + spec_decimal_bytes(n as nat));
}

impl Axle {
    /// The name of the host variable holding this axle's velocity in
    /// meters per second.
    pub fn velocity_var_name(self) -> (s: String)
        ensures
            s@ == "v_Axle_mps_"@ + spec_decimal(self.spec_bogie_index() as nat) + "_"@
                + spec_decimal(self.spec_axle_index() as nat),
    {
        let ghost target: Seq<char> = "v_Axle_mps_"@ + spec_decimal(
            self.spec_bogie_index() as nat,
        ) + "_"@ + spec_decimal(self.spec_axle_index() as nat);
        let mut bytes: Vec<u8> = Vec::new();
        bytes.extend_from_slice("v_Axle_mps_".as_bytes());
        proof {
            assert(bytes@ =~= vstd::utf8::encode_utf8("v_Axle_mps_"@));
        }
        push_decimal(self.bogie_index, &mut bytes);
        bytes.extend_from_slice("_".as_bytes());
        proof {
            assert(bytes@ =~= vstd::utf8::encode_utf8("v_Axle_mps_"@) + spec_decimal_bytes(
                self.spec_bogie_index() as nat,
            ) + vstd::utf8::encode_utf8("_"@));
        }
        push_decimal(self.axle_index, &mut bytes);
        proof {
            lemma_decimal_utf8(self.spec_bogie_index() as nat);
            lemma_decimal_utf8(self.spec_axle_index() as nat);
            lemma_encode_utf8_concat("v_Axle_mps_"@, spec_decimal(
                self.spec_bogie_index() as nat,
            ));
            lemma_encode_utf8_concat(
                "v_Axle_mps_"@ + spec_decimal(self.spec_bogie_index() as nat),
                "_"@,
            );
            lemma_encode_utf8_concat(
                "v_Axle_mps_"@ + spec_decimal(self.spec_bogie_index() as nat) + "_"@,
                spec_decimal(self.spec_axle_index() as nat),
            );
            assert(bytes@ =~= vstd::utf8::encode_utf8(target));
            vstd::utf8::encode_utf8_valid_utf8(target);
        }
        match crate::value::string_from_utf8(bytes) {
            Some(s) => {
                proof {
                    vstd::utf8::encode_utf8_decode_utf8(s@);
                    vstd::utf8::encode_utf8_decode_utf8(target);
                }
                s
            },
            None => vstd::pervasive::unreached(),
        }
    }
}

} // verus!
