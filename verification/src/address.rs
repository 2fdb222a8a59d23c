//! Addresses: a 20-byte hash with its kind, and the text that shows it.

use crate::hash::{hash160, spec_hash160};
use vstd::arithmetic::div_mod::{
    lemma_fundamental_div_mod_converse, lemma_mod_breakdown, lemma_small_mod,
};
use vstd::arithmetic::power2::{
    lemma2_to64, lemma_pow2_adds, lemma_pow2_pos, lemma_pow2_unfold, pow2,
};
use vstd::bits::{
    lemma_u32_low_bits_mask_is_mod, lemma_u32_pow2_no_overflow, lemma_u32_shl_is_mul,
    lemma_u32_shr_is_div, low_bits_mask,
};
use vstd::prelude::*;
use vstd::string::*;
use vstd::utf8::*;

verus! {

/// Why a text is no address.
#[derive(Clone, Copy, Debug, PartialEq, Eq, Structural)]
pub enum AddressError {
    /// The check letters at the end do not fit the rest.
    InvalidChecksum,
    /// The byte at this place behind the colon is no letter of the alphabet.
    InvalidBase32Letter(usize, u8),
    /// The version byte names no kind of address.
    InvalidAddressType(u8),
}

/// The kind of an address.
#[derive(Clone, Copy, Debug, PartialEq, Eq, Structural, Hash)]
pub enum AddressType {
    P2PKH,
    P2SH,
}

impl AddressType {
    /// The version byte of the kind: 0 for a key hash, 8 for a script hash.
    pub open spec fn spec_version(self) -> u8 {
        match self {
            AddressType::P2PKH => 0,
            AddressType::P2SH => 8,
        }
    }

    /// The version byte of the kind.
    pub fn version(self) -> (version: u8)
        ensures
            version == self.spec_version(),
    {
        match self {
            AddressType::P2PKH => 0,
            AddressType::P2SH => 8,
        }
    }
}

/// What an [`Address`] is.
pub struct AddressView {
    pub addr_type: AddressType,
    pub bytes: Seq<u8>,
    pub cash_addr: Seq<char>,
    pub prefix: Seq<char>,
}

/// A hash of 20 bytes with its kind, the prefix of its network, and the
/// text that shows all three.
#[derive(Debug, PartialEq, Eq, Hash)]
pub struct Address {
    addr_type: AddressType,
    bytes: [u8; 20],
    cash_addr: String,
    prefix: String,
}

impl View for Address {
    type V = AddressView;

    closed spec fn view(&self) -> AddressView {
        AddressView {
            addr_type: self.addr_type,
            bytes: self.bytes@,
            cash_addr: self.cash_addr@,
            prefix: self.prefix@,
        }
    }
}

impl Clone for Address {
    fn clone(&self) -> (address: Self)
        ensures
            address == *self,
    {
        Address {
            addr_type: self.addr_type,
            bytes: self.bytes,
            cash_addr: self.cash_addr.clone(),
            prefix: self.prefix.clone(),
        }
    }
}

/// The prefix of the main network.
pub open spec fn spec_default_prefix() -> Seq<char> {
    "bitcoincash"@
}

/// The letter of a five-bit value in the address alphabet
/// `qpzry9x8gf2tvdw0s3jn54khce6mua7l`.
pub open spec fn spec_b32_letter(value: u8) -> u8 {
    match value {
        0 => 0x71,
        1 => 0x70,
        2 => 0x7a,
        3 => 0x72,
        4 => 0x79,
        5 => 0x39,
        6 => 0x78,
        7 => 0x38,
        8 => 0x67,
        9 => 0x66,
        10 => 0x32,
        11 => 0x74,
        12 => 0x76,
        13 => 0x64,
        14 => 0x77,
        15 => 0x30,
        16 => 0x73,
        17 => 0x33,
        18 => 0x6a,
        19 => 0x6e,
        20 => 0x35,
        21 => 0x34,
        22 => 0x6b,
        23 => 0x68,
        24 => 0x63,
        25 => 0x65,
        26 => 0x36,
        27 => 0x6d,
        28 => 0x75,
        29 => 0x61,
        30 => 0x37,
        31 => 0x6c,
        _ => 0,
    }
}

/// The five-bit value of a letter of the address alphabet.
pub open spec fn spec_b32_value(letter: u8) -> Option<u8> {
    match letter {
        0x71 => Some(0u8),
        0x70 => Some(1u8),
        0x7a => Some(2u8),
        0x72 => Some(3u8),
        0x79 => Some(4u8),
        0x39 => Some(5u8),
        0x78 => Some(6u8),
        0x38 => Some(7u8),
        0x67 => Some(8u8),
        0x66 => Some(9u8),
        0x32 => Some(10u8),
        0x74 => Some(11u8),
        0x76 => Some(12u8),
        0x64 => Some(13u8),
        0x77 => Some(14u8),
        0x30 => Some(15u8),
        0x73 => Some(16u8),
        0x33 => Some(17u8),
        0x6a => Some(18u8),
        0x6e => Some(19u8),
        0x35 => Some(20u8),
        0x34 => Some(21u8),
        0x6b => Some(22u8),
        0x68 => Some(23u8),
        0x63 => Some(24u8),
        0x65 => Some(25u8),
        0x36 => Some(26u8),
        0x6d => Some(27u8),
        0x75 => Some(28u8),
        0x61 => Some(29u8),
        0x37 => Some(30u8),
        0x6c => Some(31u8),
        _ => None,
    }
}

/// The letter of a five-bit value.
fn b32_letter(value: u8) -> (letter: u8)
    requires
        value < 32,
    ensures
        letter == spec_b32_letter(value),
        letter < 128,
{
    match value {
        0 => 0x71,
        1 => 0x70,
        2 => 0x7a,
        3 => 0x72,
        4 => 0x79,
        5 => 0x39,
        6 => 0x78,
        7 => 0x38,
        8 => 0x67,
        9 => 0x66,
        10 => 0x32,
        11 => 0x74,
        12 => 0x76,
        13 => 0x64,
        14 => 0x77,
        15 => 0x30,
        16 => 0x73,
        17 => 0x33,
        18 => 0x6a,
        19 => 0x6e,
        20 => 0x35,
        21 => 0x34,
        22 => 0x6b,
        23 => 0x68,
        24 => 0x63,
        25 => 0x65,
        26 => 0x36,
        27 => 0x6d,
        28 => 0x75,
        29 => 0x61,
        30 => 0x37,
        31 => 0x6c,
        _ => 0,
    }
}

/// The five-bit value of a letter; `None` for a byte that is no letter.
fn b32_value(letter: u8) -> (value: Option<u8>)
    ensures
        value == spec_b32_value(letter),
        value matches Some(v) ==> v < 32,
{
    match letter {
        0x71 => Some(0),
        0x70 => Some(1),
        0x7a => Some(2),
        0x72 => Some(3),
        0x79 => Some(4),
        0x39 => Some(5),
        0x78 => Some(6),
        0x38 => Some(7),
        0x67 => Some(8),
        0x66 => Some(9),
        0x32 => Some(10),
        0x74 => Some(11),
        0x76 => Some(12),
        0x64 => Some(13),
        0x77 => Some(14),
        0x30 => Some(15),
        0x73 => Some(16),
        0x33 => Some(17),
        0x6a => Some(18),
        0x6e => Some(19),
        0x35 => Some(20),
        0x34 => Some(21),
        0x6b => Some(22),
        0x68 => Some(23),
        0x63 => Some(24),
        0x65 => Some(25),
        0x36 => Some(26),
        0x6d => Some(27),
        0x75 => Some(28),
        0x61 => Some(29),
        0x37 => Some(30),
        0x6c => Some(31),
        _ => None,
    }
}

/// Each five-bit value is the value of its letter.
pub proof fn lemma_b32_letter_value(value: u8)
    requires
        value < 32,
    ensures
        spec_b32_value(spec_b32_letter(value)) == Some(value),
{
}

/// The `n` low bits set.
pub open spec fn low_mask(n: u32) -> u32 {
    ((1u32 << n) - 1) as u32
}

/// The `width` low bits of `value`, highest first.
pub open spec fn bits_of_value(value: nat, width: nat) -> Seq<bool>
    decreases width,
{
    if width == 0 {
        Seq::empty()
    } else {
        bits_of_value(value / 2, (width - 1) as nat).push(value % 2 == 1)
    }
}

/// The bits of `values`, each written as `width` bits, highest first.
pub open spec fn bits_of(values: Seq<u8>, width: nat) -> Seq<bool>
    decreases values.len(),
{
    if values.len() == 0 {
        Seq::empty()
    } else {
        bits_of(values.drop_last(), width) + bits_of_value(values.last() as nat, width)
    }
}

/// The number that bits denote, highest first.
pub open spec fn value_of_bits(bits: Seq<bool>) -> nat
    decreases bits.len(),
{
    if bits.len() == 0 {
        0
    } else {
        2 * value_of_bits(bits.drop_last()) + if bits.last() {
            1nat
        } else {
            0nat
        }
    }
}

/// The whole groups of `width` bits at the start of `bits`, each as a number.
pub open spec fn groups(bits: Seq<bool>, width: nat) -> Seq<u8>
    decreases bits.len(),
{
    if width == 0 || bits.len() < width {
        Seq::empty()
    } else {
        seq![value_of_bits(bits.take(width as int)) as u8] + groups(bits.skip(width as int), width)
    }
}

/// The bits behind the whole groups of `width` bits: fewer than `width`.
pub open spec fn left_over(bits: Seq<bool>, width: nat) -> Seq<bool>
    decreases bits.len(),
{
    if width == 0 || bits.len() < width {
        bits
    } else {
        left_over(bits.skip(width as int), width)
    }
}

/// The group that bits which are left over make when zeros fill them up to
/// `width` bits.
pub open spec fn padded_group(rest: Seq<bool>, width: nat) -> u8 {
    value_of_bits(rest + Seq::new((width - rest.len()) as nat, |i: int| false)) as u8
}

/// Whether every value fits in `width` bits.
pub open spec fn all_fit(values: Seq<u8>, width: nat) -> bool {
    forall|i: int| 0 <= i < values.len() ==> (#[trigger] values[i]) < pow2(width)
}

/// The bits of `data`, taken as groups of `from_bits` bits, as groups of
/// `to_bits` bits: all values are written as bits, highest first, one behind
/// the other, and the bits are cut into groups. With `pad` the bits left over
/// at the end are filled up with zeros to a last group; without it they must
/// be fewer than `from_bits` and all zero. `None` where a value does not fit in
/// `from_bits` bits, or where the bits left over are not as they must be.
pub open spec fn spec_convert_bits(data: Seq<u8>, from_bits: u32, to_bits: u32, pad: bool) -> Option<
    Seq<u8>,
> {
    let bits = bits_of(data, from_bits as nat);
    let rest = left_over(bits, to_bits as nat);
    if !all_fit(data, from_bits as nat) {
        None
    } else if pad {
        if rest.len() != 0 {
            Some(groups(bits, to_bits as nat).push(padded_group(rest, to_bits as nat)))
        } else {
            Some(groups(bits, to_bits as nat))
        }
    } else if rest.len() >= from_bits || padded_group(rest, to_bits as nat) != 0 {
        None
    } else {
        Some(groups(bits, to_bits as nat))
    }
}

/// Bits denote a number below 2 to the power of their count.
pub proof fn lemma_value_of_bits_bound(bits: Seq<bool>)
    ensures
        value_of_bits(bits) < pow2(bits.len()),
    decreases bits.len(),
{
    if bits.len() == 0 {
        lemma2_to64();
    } else {
        lemma_value_of_bits_bound(bits.drop_last());
        lemma_pow2_unfold(bits.len());
    }
}

/// The number of bits behind other bits: the number of the first, moved up
/// by the count of the second, and the number of the second.
pub proof fn lemma_value_of_bits_append(x: Seq<bool>, y: Seq<bool>)
    ensures
        value_of_bits(x + y) == value_of_bits(x) * pow2(y.len()) + value_of_bits(y),
    decreases y.len(),
{
    if y.len() == 0 {
        lemma2_to64();
        assert(x + y =~= x);
        assert(value_of_bits(x) * 1 == value_of_bits(x)) by (nonlinear_arith);
    } else {
        lemma_value_of_bits_append(x, y.drop_last());
        assert((x + y).drop_last() =~= x + y.drop_last());
        assert((x + y).last() == y.last());
        lemma_pow2_unfold(y.len());
        let vx = value_of_bits(x);
        let p = pow2((y.len() - 1) as nat);
        assert(2 * (vx * p) == vx * (2 * p)) by (nonlinear_arith);
    }
}

/// The `width` low bits of a value are `width` bits and denote the value
/// below 2 to the power of `width`.
pub proof fn lemma_bits_of_value(value: nat, width: nat)
    ensures
        bits_of_value(value, width).len() == width,
        value_of_bits(bits_of_value(value, width)) == value % pow2(width),
    decreases width,
{
    if width == 0 {
        lemma2_to64();
    } else {
        lemma_bits_of_value(value / 2, (width - 1) as nat);
        let bits = bits_of_value(value, width);
        assert(bits.drop_last() =~= bits_of_value(value / 2, (width - 1) as nat));
        lemma_pow2_unfold(width);
        lemma_pow2_pos((width - 1) as nat);
        lemma_mod_breakdown(value as int, 2, pow2((width - 1) as nat) as int);
    }
}

/// Left-over bits are fewer than a group.
pub proof fn lemma_left_over_len(bits: Seq<bool>, width: nat)
    requires
        width > 0,
    ensures
        left_over(bits, width).len() < width,
    decreases bits.len(),
{
    if bits.len() >= width {
        lemma_left_over_len(bits.skip(width as int), width);
    }
}

/// More bits behind: the groups are those of the first bits, and then those
/// of what the first left over with the new bits behind it.
pub proof fn lemma_groups_append(b: Seq<bool>, c: Seq<bool>, width: nat)
    requires
        width > 0,
    ensures
        groups(b + c, width) == groups(b, width) + groups(left_over(b, width) + c, width),
        left_over(b + c, width) == left_over(left_over(b, width) + c, width),
    decreases b.len(),
{
    if b.len() < width {
        assert(groups(b, width) + groups(left_over(b, width) + c, width) =~= groups(
            b + c,
            width,
        ));
    } else {
        lemma_groups_append(b.skip(width as int), c, width);
        assert((b + c).take(width as int) =~= b.take(width as int));
        assert((b + c).skip(width as int) =~= b.skip(width as int) + c);
        assert(groups(b + c, width) =~= groups(b, width) + groups(
            left_over(b, width) + c,
            width,
        ));
    }
}

/// One step of the checksum: `value` is taken into the state `c`.
pub open spec fn poly_mod_step(c: u64, value: u8) -> u64 {
    let c0 = (c >> 35) as u8;
    let c1 = ((c & 0x07_ffff_ffffu64) << 5) ^ (value as u64);
    let c2 = if c0 & 0x01 != 0 {
        c1 ^ 0x98_f2bc_8e61
    } else {
        c1
    };
    let c3 = if c0 & 0x02 != 0 {
        c2 ^ 0x79_b76d_99e2
    } else {
        c2
    };
    let c4 = if c0 & 0x04 != 0 {
        c3 ^ 0xf3_3e5f_b3c4
    } else {
        c3
    };
    let c5 = if c0 & 0x08 != 0 {
        c4 ^ 0xae_2eab_e2a8
    } else {
        c4
    };
    if c0 & 0x10 != 0 {
        c5 ^ 0x1e_4f43_e470
    } else {
        c5
    }
}

/// The state of the checksum after `values`, from the state `c`.
pub open spec fn poly_mod_from(c: u64, values: Seq<u8>) -> u64
    decreases values.len(),
{
    if values.len() == 0 {
        c
    } else {
        poly_mod_step(poly_mod_from(c, values.drop_last()), values.last())
    }
}

/// The state of the checksum after `values`, from the state 1.
pub open spec fn poly_mod_state(values: Seq<u8>) -> u64 {
    poly_mod_from(1, values)
}

/// The checksum of `values`: the remainder of their polynomial, which is 0 for
/// a text with its check letters.
pub open spec fn spec_poly_mod(values: Seq<u8>) -> u64 {
    poly_mod_state(values) ^ 1
}

/// What the checksum of an address covers: the low five bits of each byte
/// of the prefix, a zero, and the payload.
pub open spec fn checksum_input(prefix: Seq<u8>, payload: Seq<u8>) -> Seq<u8> {
    Seq::new(prefix.len(), |i: int| prefix[i] & 0x1f) + seq![0u8] + payload
}

/// The eight check values of a payload under a prefix.
pub open spec fn spec_checksum(prefix: Seq<u8>, payload: Seq<u8>) -> Seq<u8> {
    let poly = spec_poly_mod(checksum_input(prefix, payload) + Seq::new(8, |i: int| 0u8));
    Seq::new(8, |i: int| ((poly >> ((5 * (7 - i)) as u64)) & 0x1f) as u8)
}

/// Whether a payload with its check values fits the prefix.
pub open spec fn spec_verify_checksum(prefix: Seq<u8>, payload: Seq<u8>) -> bool {
    spec_poly_mod(checksum_input(prefix, payload)) == 0
}

/// The letters of five-bit values, as text.
pub open spec fn spec_b32_encode(values: Seq<u8>) -> Seq<char> {
    Seq::new(values.len(), |i: int| spec_b32_letter(values[i]) as char)
}

/// The five-bit values of letters; the error names the first byte that is no
/// letter and its place.
pub open spec fn spec_b32_decode(letters: Seq<u8>) -> Result<Seq<u8>, AddressError>
    decreases letters.len(),
{
    if letters.len() == 0 {
        Ok(Seq::empty())
    } else {
        match spec_b32_decode(letters.drop_last()) {
            Err(e) => Err(e),
            Ok(values) => match spec_b32_value(letters.last()) {
                None => Err(
                    AddressError::InvalidBase32Letter(
                        (letters.len() - 1) as usize,
                        letters.last(),
                    ),
                ),
                Some(value) => Ok(values.push(value)),
            },
        }
    }
}

/// The text of an address: the prefix, a colon, and the letters of the
/// payload and its check values. The payload is the version byte and the hash
/// as groups of five bits.
pub open spec fn spec_to_cash_addr(prefix: Seq<char>, addr_type: AddressType, bytes: Seq<u8>) -> Seq<
    char,
> {
    let payload = spec_convert_bits(seq![addr_type.spec_version()] + bytes, 8, 5, true).unwrap();
    prefix + seq![':'] + spec_b32_encode(payload + spec_checksum(encode_utf8(prefix), payload))
}

/// Bytes with the capital letters of ASCII made small.
pub open spec fn spec_ascii_lowercase(text: Seq<u8>) -> Seq<u8> {
    Seq::new(
        text.len(),
        |i: int|
            if 0x41 <= text[i] <= 0x5a {
                (text[i] + 0x20) as u8
            } else {
                text[i]
            },
    )
}

/// The place of the first colon in `text`, or its length where there is none.
pub open spec fn first_colon(text: Seq<u8>) -> int
    decreases text.len(),
{
    if text.len() == 0 || text[0] == 0x3a {
        0
    } else {
        1 + first_colon(text.drop_first())
    }
}

/// The prefix and the letters of an address text, made small: what
/// stands before the first colon and what stands behind it. A text without a
/// colon is taken as a prefix, with the default prefix in the place of the
/// letters.
pub open spec fn cash_addr_parts(text: Seq<u8>) -> (Seq<u8>, Seq<u8>) {
    let lower = spec_ascii_lowercase(text);
    let colon = first_colon(lower);
    if colon < lower.len() {
        (lower.take(colon), lower.skip(colon + 1))
    } else {
        (lower, encode_utf8(spec_default_prefix()))
    }
}

/// Whether an address text, where its letters and check values are in order,
/// holds a version byte, a hash of 20 bytes and the check values, and nothing
/// else.
pub open spec fn cash_addr_sized(text: Seq<u8>) -> bool {
    let (prefix, letters) = cash_addr_parts(text);
    match spec_b32_decode(letters) {
        Err(_) => true,
        Ok(values) => spec_verify_checksum(prefix, values) ==> (spec_convert_bits(
            values,
            5,
            8,
            true,
        ) matches Some(converted) && converted.len() == 27),
    }
}

/// What an address text holds: the hash, the kind, and the prefix.
pub open spec fn spec_from_cash_addr(text: Seq<u8>) -> Result<
    (Seq<u8>, AddressType, Seq<u8>),
    AddressError,
> {
    let (prefix, letters) = cash_addr_parts(text);
    match spec_b32_decode(letters) {
        Err(e) => Err(e),
        Ok(values) => if !spec_verify_checksum(prefix, values) {
            Err(AddressError::InvalidChecksum)
        } else {
            let converted = spec_convert_bits(values, 5, 8, true).unwrap();
            let hash = converted.subrange(1, converted.len() - 6);
            if converted[0] == 0 {
                Ok((hash, AddressType::P2PKH, prefix))
            } else if converted[0] == 8 {
                Ok((hash, AddressType::P2SH, prefix))
            } else {
                Err(AddressError::InvalidAddressType(converted[0]))
            }
        },
    }
}

/// The mask of the `n` low bits is 2 to the power of `n`, less one.
proof fn lemma_low_mask(n: u32)
    requires
        n < 32,
    ensures
        low_mask(n) == pow2(n as nat) - 1,
        low_mask(n) == low_bits_mask(n as nat) as u32,
        0 < pow2(n as nat) <= 0x8000_0000,
{
    lemma_u32_pow2_no_overflow(n as nat);
    lemma_u32_shl_is_mul(1, n);
    lemma_pow2_strictly_increases_or_same(n as nat);
}

/// 2 to the power of at most 31 is at most 2 to the power of 31.
proof fn lemma_pow2_strictly_increases_or_same(n: nat)
    requires
        n < 32,
    ensures
        pow2(n) <= 0x8000_0000,
{
    lemma2_to64();
    if n < 31 {
        vstd::arithmetic::power2::lemma_pow2_strictly_increases(n, 31);
    }
}

/// Taking a value in: the bits that wait are those that waited, moved up,
/// and the value below them.
proof fn lemma_take_in(acc: u32, value: u32, from_bits: u32, to_bits: u32, bits: u32)
    requires
        1 <= from_bits,
        1 <= to_bits,
        from_bits + to_bits <= 32,
        bits < to_bits,
        value < pow2(from_bits as nat),
    ensures
        (((acc << from_bits) | value) & low_mask((from_bits + to_bits - 1) as u32)) as nat % pow2(
            (bits + from_bits) as nat,
        ) == (acc as nat % pow2(bits as nat)) * pow2(from_bits as nat) + value,
{
    let l = (bits + from_bits) as u32;
    let w = (from_bits + to_bits - 1) as u32;
    let taken = ((acc << from_bits) | value) & low_mask(w);
    let waited = acc & low_mask(bits);
    let moved = waited << from_bits;
    lemma_low_mask(from_bits);
    lemma_low_mask(bits);
    lemma_low_mask(l);
    lemma_low_mask(w);
    let m_w = low_mask(w);
    let m_l = low_mask(l);
    let m_b = low_mask(bits);
    let m_f = low_mask(from_bits);
    assert(taken & m_l == moved | value && moved & value == 0 && moved | value == moved + value) by (bit_vector)
        requires
            taken == ((acc << from_bits) | value) & m_w,
            waited == acc & m_b,
            moved == waited << from_bits,
            m_w == ((1u32 << w) - 1) as u32,
            m_l == ((1u32 << l) - 1) as u32,
            m_b == ((1u32 << bits) - 1) as u32,
            m_f == ((1u32 << from_bits) - 1) as u32,
            value <= m_f,
            l == bits + from_bits,
            l <= w,
            w <= 31,
            from_bits >= 1,
    ;
    lemma_u32_low_bits_mask_is_mod(acc, bits as nat);
    lemma_u32_low_bits_mask_is_mod(taken, l as nat);
    lemma_pow2_adds(bits as nat, from_bits as nat);
    assert(waited * pow2(from_bits as nat) <= u32::MAX) by (nonlinear_arith)
        requires
            waited < pow2(bits as nat),
            pow2(bits as nat) * pow2(from_bits as nat) <= 0x8000_0000,
            0 < pow2(from_bits as nat),
    ;
    lemma_u32_shl_is_mul(waited, from_bits);
}

/// Giving a group out: the group is the top of the bits that wait, and what
/// waits on is the rest of them.
proof fn lemma_take_out(acc: u32, bits: u32, to_bits: u32)
    requires
        1 <= to_bits <= bits <= 31,
    ensures
        ((acc >> ((bits - to_bits) as u32)) & low_mask(to_bits)) as nat == (acc as nat % pow2(
            bits as nat,
        )) / pow2((bits - to_bits) as nat),
        acc as nat % pow2((bits - to_bits) as nat) == (acc as nat % pow2(bits as nat)) % pow2(
            (bits - to_bits) as nat,
        ),
{
    let s = (bits - to_bits) as u32;
    let waiting = acc & low_mask(bits);
    lemma_low_mask(bits);
    lemma_low_mask(to_bits);
    lemma_low_mask(s);
    let m_b = low_mask(bits);
    let m_t = low_mask(to_bits);
    let m_s = low_mask(s);
    assert((acc >> s) & m_t == waiting >> s && acc & m_s == waiting & m_s) by (bit_vector)
        requires
            waiting == acc & m_b,
            m_b == ((1u32 << bits) - 1) as u32,
            m_t == ((1u32 << to_bits) - 1) as u32,
            m_s == ((1u32 << s) - 1) as u32,
            s + to_bits == bits,
            bits <= 31,
            to_bits >= 1,
    ;
    lemma_u32_low_bits_mask_is_mod(acc, bits as nat);
    lemma_u32_low_bits_mask_is_mod(acc, s as nat);
    lemma_u32_low_bits_mask_is_mod(waiting, s as nat);
    lemma_u32_shr_is_div(waiting, s);
}

/// Filling up: the last group is the bits that wait, moved up to the top of
/// the group.
proof fn lemma_fill_up(acc: u32, bits: u32, to_bits: u32)
    requires
        bits < to_bits <= 31,
    ensures
        ((acc << ((to_bits - bits) as u32)) & low_mask(to_bits)) as nat == (acc as nat % pow2(
            bits as nat,
        )) * pow2((to_bits - bits) as nat),
{
    let k = (to_bits - bits) as u32;
    let waiting = acc & low_mask(bits);
    lemma_low_mask(bits);
    lemma_low_mask(to_bits);
    lemma_low_mask(k);
    let m_b = low_mask(bits);
    let m_t = low_mask(to_bits);
    assert((acc << k) & m_t == waiting << k) by (bit_vector)
        requires
            waiting == acc & m_b,
            m_b == ((1u32 << bits) - 1) as u32,
            m_t == ((1u32 << to_bits) - 1) as u32,
            k + bits == to_bits,
            to_bits <= 31,
    ;
    lemma_u32_low_bits_mask_is_mod(acc, bits as nat);
    lemma_pow2_adds(bits as nat, k as nat);
    assert(waiting * pow2(k as nat) <= u32::MAX) by (nonlinear_arith)
        requires
            waiting < pow2(bits as nat),
            pow2(bits as nat) * pow2(k as nat) <= 0x8000_0000,
            0 < pow2(k as nat),
    ;
    lemma_u32_shl_is_mul(waiting, k);
}

/// A value is too wide for `from_bits` bits when bits are left above them.
proof fn lemma_too_wide(value: u32, from_bits: u32)
    requires
        from_bits < 32,
    ensures
        (value >> from_bits) != 0 <==> value >= pow2(from_bits as nat),
{
    lemma_u32_shr_is_div(value, from_bits);
    lemma_pow2_pos(from_bits as nat);
    if value < pow2(from_bits as nat) {
        vstd::arithmetic::div_mod::lemma_basic_div(value as int, pow2(from_bits as nat) as int);
    } else {
        vstd::arithmetic::div_mod::lemma_div_non_zero(value as int, pow2(from_bits as nat) as int);
    }
}

/// Regroups the bits of `data`, taken as groups of `from_bits` bits, into
/// groups of `to_bits` bits.
fn convert_bits(data: &[u8], from_bits: u32, to_bits: u32, pad: bool) -> (r: Option<Vec<u8>>)
    requires
        1 <= from_bits,
        1 <= to_bits <= 8,
        from_bits + to_bits <= 32,
    ensures
        match spec_convert_bits(data@, from_bits, to_bits, pad) {
            Some(out) => r matches Some(v) && v@ == out,
            None => r is None,
        },
{
    let mut acc: u32 = 0;
    let mut bits: u32 = 0;
    let mut ret: Vec<u8> = Vec::new();
    assert(1u32 << to_bits >= 1 && 1u32 << ((from_bits + to_bits - 1) as u32) >= 1)
        by (bit_vector)
        requires
            1 <= from_bits,
            1 <= to_bits,
            from_bits + to_bits <= 32,
    ;
    let maxv: u32 = (1u32 << to_bits) - 1;
    let max_acc: u32 = (1u32 << (from_bits + to_bits - 1)) - 1;
    let mut idx: usize = 0;
    let ghost from = from_bits as nat;
    let ghost to = to_bits as nat;
    proof {
        assert(data@.take(0) =~= Seq::<u8>::empty());
        lemma2_to64();
    }
    while idx < data.len()
        invariant
            idx <= data.len(),
            1 <= from_bits,
            1 <= to_bits <= 8,
            from_bits + to_bits <= 32,
            from == from_bits,
            to == to_bits,
            maxv == low_mask(to_bits),
            max_acc == low_mask((from_bits + to_bits - 1) as u32),
            bits < to_bits,
            all_fit(data@.take(idx as int), from),
            ret@ == groups(bits_of(data@.take(idx as int), from), to),
            left_over(bits_of(data@.take(idx as int), from), to).len() == bits,
            acc as nat % pow2(bits as nat) == value_of_bits(
                left_over(bits_of(data@.take(idx as int), from), to),
            ),
        decreases data.len() - idx,
    {
        let value = data[idx] as u32;
        let ghost before = bits_of(data@.take(idx as int), from);
        let ghost waited = left_over(before, to);
        let ghost new_bits = bits_of_value(value as nat, from);
        let ghost after = bits_of(data@.take(idx + 1), from);
        let ghost ret_before = ret@;
        proof {
            assert(data@.take(idx + 1).drop_last() =~= data@.take(idx as int));
            assert(data@.take(idx + 1).last() == data[idx as int]);
            assert(after == before + new_bits);
            lemma_too_wide(value, from_bits);
        }
        if (value >> from_bits) != 0 {
            proof {
                assert(data@[idx as int] >= pow2(from));
                assert(!all_fit(data@, from));
            }
            return None;
        }
        proof {
            lemma_take_in(acc, value, from_bits, to_bits, bits);
            lemma_bits_of_value(value as nat, from);
            lemma_small_mod(value as nat, pow2(from));
            lemma_value_of_bits_append(waited, new_bits);
            lemma_groups_append(before, new_bits, to);
            assert forall|i: int| 0 <= i < data@.take(idx + 1).len() implies (
            #[trigger] data@.take(idx + 1)[i]) < pow2(from) by {
                if i < idx {
                    assert(data@.take(idx as int)[i] < pow2(from));
                }
            }
        }
        acc = ((acc << from_bits) | value) & max_acc;
        bits += from_bits;
        let ghost pending = waited + new_bits;
        assert(pending.skip(0) =~= pending);
        assert(ret@ + groups(pending, to) =~= ret_before + groups(pending, to));
        while bits >= to_bits
            invariant
                1 <= to_bits <= 8,
                to == to_bits,
                bits <= 31,
                bits <= pending.len(),
                maxv == low_mask(to_bits),
                ret@ + groups(pending.skip(pending.len() - bits), to) == ret_before + groups(
                    pending,
                    to,
                ),
                left_over(pending.skip(pending.len() - bits), to) == left_over(pending, to),
                acc as nat % pow2(bits as nat) == value_of_bits(
                    pending.skip(pending.len() - bits),
                ),
            decreases bits,
        {
            let ghost waiting = pending.skip(pending.len() - bits);
            let ghost ret_now = ret@;
            proof {
                let top = waiting.take(to as int);
                let low = waiting.skip(to as int);
                assert(waiting =~= top + low);
                lemma_value_of_bits_append(top, low);
                lemma_value_of_bits_bound(top);
                lemma_value_of_bits_bound(low);
                lemma_take_out(acc, bits, to_bits);
                lemma_pow2_pos((bits - to_bits) as nat);
                lemma_fundamental_div_mod_converse(
                    value_of_bits(waiting) as int,
                    pow2((bits - to_bits) as nat) as int,
                    value_of_bits(top) as int,
                    value_of_bits(low) as int,
                );
                assert(low =~= pending.skip(pending.len() - (bits - to_bits)));
                lemma2_to64();
                if to < 8 {
                    vstd::arithmetic::power2::lemma_pow2_strictly_increases(to, 8);
                }
            }
            bits -= to_bits;
            let group = (acc >> bits) & maxv;
            ret.push(group as u8);
            proof {
                let top = waiting.take(to as int);
                let low = waiting.skip(to as int);
                assert(ret@ + groups(low, to) =~= ret_now + groups(waiting, to));
            }
        }
        idx += 1;
    }
    proof {
        assert(data@.take(idx as int) =~= data@);
    }
    let ghost rest = left_over(bits_of(data@, from), to);
    proof {
        lemma_fill_up(acc, bits, to_bits);
        let zeros = Seq::new((to - rest.len()) as nat, |i: int| false);
        lemma_value_of_bits_append(rest, zeros);
        lemma_all_false(zeros);
        lemma_value_of_bits_bound(rest + zeros);
        lemma2_to64();
        if to < 8 {
            vstd::arithmetic::power2::lemma_pow2_strictly_increases(to, 8);
        }
    }
    let last = (acc << (to_bits - bits)) & maxv;
    if pad {
        if bits != 0 {
            ret.push(last as u8);
        }
    } else if bits >= from_bits || last != 0 {
        return None;
    }
    Some(ret)
}

/// Bits that are all zero denote zero.
proof fn lemma_all_false(bits: Seq<bool>)
    requires
        forall|i: int| 0 <= i < bits.len() ==> !bits[i],
    ensures
        value_of_bits(bits) == 0,
    decreases bits.len(),
{
    if bits.len() > 0 {
        lemma_all_false(bits.drop_last());
    }
}

/// The checksum of `values`.
fn poly_mod(values: &[u8]) -> (poly: u64)
    ensures
        poly == spec_poly_mod(values@),
{
    let mut c: u64 = 1;
    let mut idx: usize = 0;
    proof {
        assert(values@.take(0) =~= Seq::<u8>::empty());
    }
    while idx < values.len()
        invariant
            idx <= values.len(),
            c == poly_mod_state(values@.take(idx as int)),
        decreases values.len() - idx,
    {
        proof {
            assert(values@.take(idx + 1).drop_last() =~= values@.take(idx as int));
        }
        let value = values[idx];
        let c0 = #[verifier::truncate]
        ((c >> 35) as u8);
        c = ((c & 0x07_ffff_ffffu64) << 5u64) ^ (value as u64);
        if c0 & 0x01 != 0 {
            c ^= 0x98_f2bc_8e61
        }
        if c0 & 0x02 != 0 {
            c ^= 0x79_b76d_99e2
        }
        if c0 & 0x04 != 0 {
            c ^= 0xf3_3e5f_b3c4
        }
        if c0 & 0x08 != 0 {
            c ^= 0xae_2eab_e2a8
        }
        if c0 & 0x10 != 0 {
            c ^= 0x1e_4f43_e470
        }
        idx += 1;
    }
    proof {
        assert(values@.take(idx as int) =~= values@);
    }
    c ^ 1
}

/// What the checksum covers: the low five bits of each byte of the prefix, a
/// zero, and the payload.
fn checksum_values(prefix: &[u8], payload: &[u8]) -> (values: Vec<u8>)
    ensures
        values@ == checksum_input(prefix@, payload@),
{
    let mut values: Vec<u8> = Vec::new();
    let mut idx: usize = 0;
    while idx < prefix.len()
        invariant
            idx <= prefix.len(),
            values.len() == idx,
            forall|i: int| 0 <= i < idx ==> values[i] == prefix[i] & 0x1f,
        decreases prefix.len() - idx,
    {
        values.push(prefix[idx] & 0x1f);
        idx += 1;
    }
    values.push(0);
    values.extend_from_slice(payload);
    assert(values@ =~= checksum_input(prefix@, payload@));
    values
}

/// The eight check values of a payload under a prefix.
fn calculate_checksum(prefix: &[u8], payload: &[u8]) -> (checksum: Vec<u8>)
    ensures
        checksum@ == spec_checksum(prefix@, payload@),
        forall|i: int| 0 <= i < checksum.len() ==> checksum[i] < 32,
{
    let mut values = checksum_values(prefix, payload);
    let mut k: usize = 0;
    while k < 8
        invariant
            k <= 8,
            values@ == checksum_input(prefix@, payload@) + Seq::new(k as nat, |i: int| 0u8),
        decreases 8 - k,
    {
        values.push(0);
        k += 1;
        assert(values@ =~= checksum_input(prefix@, payload@) + Seq::new(k as nat, |i: int| 0u8));
    }
    let poly = poly_mod(values.as_slice());
    let mut checksum: Vec<u8> = Vec::new();
    let mut i: u64 = 0;
    while i < 8
        invariant
            i <= 8,
            checksum.len() == i,
            forall|j: int|
                0 <= j < i ==> checksum[j] == ((poly >> ((5 * (7 - j)) as u64)) & 0x1f) as u8,
            forall|j: int| 0 <= j < i ==> checksum[j] < 32,
        decreases 8 - i,
    {
        let shift: u64 = 5 * (7 - i);
        let value = (poly >> shift) & 0x1f;
        assert(value < 32) by (bit_vector)
            requires
                value == (poly >> shift) & 0x1f,
        ;
        checksum.push(value as u8);
        i += 1;
    }
    assert(checksum@ =~= spec_checksum(prefix@, payload@));
    checksum
}

/// Whether a payload with its check values fits the prefix.
fn verify_checksum(prefix: &[u8], payload: &[u8]) -> (fits: bool)
    ensures
        fits == spec_verify_checksum(prefix@, payload@),
{
    let values = checksum_values(prefix, payload);
    poly_mod(values.as_slice()) == 0
}

/// The text of bytes that are all ASCII, by `String::from_utf8`, which takes
/// each such byte as the character of that number.
#[verifier::external_body]
fn string_from_ascii(bytes: Vec<u8>) -> (text: String)
    requires
        forall|i: int| 0 <= i < bytes.len() ==> bytes[i] < 128,
    ensures
        text@ == Seq::new(bytes@.len(), |i: int| bytes@[i] as char),
{
    String::from_utf8(bytes).unwrap()
}

/// A copy of `text` with the capital letters of ASCII made small, by
/// `str::to_ascii_lowercase`, which leaves every other byte as it is.
#[verifier::external_body]
fn ascii_lowercase(text: &str) -> (lower: String)
    ensures
        encode_utf8(lower@) == spec_ascii_lowercase(encode_utf8(text@)),
{
    text.to_ascii_lowercase()
}

/// The letters of five-bit values, as text.
fn b32_encode(data: &[u8]) -> (text: String)
    requires
        forall|i: int| 0 <= i < data.len() ==> data[i] < 32,
    ensures
        text@ == spec_b32_encode(data@),
{
    let mut letters: Vec<u8> = Vec::new();
    let mut idx: usize = 0;
    while idx < data.len()
        invariant
            idx <= data.len(),
            letters.len() == idx,
            forall|i: int| 0 <= i < data.len() ==> data[i] < 32,
            forall|i: int| 0 <= i < idx ==> letters[i] == spec_b32_letter(data[i]),
            forall|i: int| 0 <= i < idx ==> letters[i] < 128,
        decreases data.len() - idx,
    {
        letters.push(b32_letter(data[idx]));
        idx += 1;
    }
    let text = string_from_ascii(letters);
    assert(text@ =~= spec_b32_encode(data@));
    text
}

/// The five-bit values of letters.
fn b32_decode(letters: &[u8]) -> (r: Result<Vec<u8>, AddressError>)
    ensures
        match spec_b32_decode(letters@) {
            Ok(values) => r matches Ok(v) && v@ == values,
            Err(e) => r matches Err(x) && x == e,
        },
        r matches Ok(v) ==> forall|i: int| 0 <= i < v.len() ==> v[i] < 32,
{
    let mut values: Vec<u8> = Vec::new();
    let mut idx: usize = 0;
    proof {
        assert(letters@.take(0) =~= Seq::<u8>::empty());
    }
    while idx < letters.len()
        invariant
            idx <= letters.len(),
            spec_b32_decode(letters@.take(idx as int)) == Ok::<Seq<u8>, AddressError>(values@),
            forall|i: int| 0 <= i < values.len() ==> values[i] < 32,
        decreases letters.len() - idx,
    {
        proof {
            assert(letters@.take(idx + 1).drop_last() =~= letters@.take(idx as int));
        }
        match b32_value(letters[idx]) {
            Some(value) => {
                values.push(value);
            },
            None => {
                proof {
                    lemma_b32_decode_err(letters@, idx + 1);
                }
                return Err(AddressError::InvalidBase32Letter(idx, letters[idx]));
            },
        }
        idx += 1;
    }
    proof {
        assert(letters@.take(idx as int) =~= letters@);
    }
    Ok(values)
}

/// Where the first `k` letters do not decode, the error stays.
proof fn lemma_b32_decode_err(letters: Seq<u8>, k: int)
    requires
        0 <= k <= letters.len(),
        spec_b32_decode(letters.take(k)) is Err,
    ensures
        spec_b32_decode(letters) == spec_b32_decode(letters.take(k)),
    decreases letters.len() - k,
{
    if k < letters.len() {
        assert(letters.take(k + 1).drop_last() =~= letters.take(k));
        lemma_b32_decode_err(letters, k + 1);
    } else {
        assert(letters.take(k) =~= letters);
    }
}

/// Every whole group is a number below 2 to the power of its width.
pub proof fn lemma_groups_fit(bits: Seq<bool>, width: nat)
    requires
        0 < width <= 8,
    ensures
        forall|i: int|
            0 <= i < groups(bits, width).len() ==> (#[trigger] groups(bits, width)[i]) < pow2(
                width,
            ),
    decreases bits.len(),
{
    if bits.len() >= width {
        lemma_groups_fit(bits.skip(width as int), width);
        lemma_value_of_bits_bound(bits.take(width as int));
        lemma2_to64();
        if width < 8 {
            vstd::arithmetic::power2::lemma_pow2_strictly_increases(width, 8);
        }
        let first = value_of_bits(bits.take(width as int)) as u8;
        let rest = groups(bits.skip(width as int), width);
        assert forall|i: int| 0 <= i < groups(bits, width).len() implies (#[trigger] groups(
            bits,
            width,
        )[i]) < pow2(width) by {
            if i > 0 {
                assert(groups(bits, width)[i] == rest[i - 1]);
            }
        }
    }
}

/// The last group, filled up with zeros, is a number below 2 to the power of
/// its width.
pub proof fn lemma_padded_group_fits(rest: Seq<bool>, width: nat)
    requires
        rest.len() <= width <= 8,
    ensures
        padded_group(rest, width) < pow2(width),
{
    let zeros = Seq::new((width - rest.len()) as nat, |i: int| false);
    lemma_value_of_bits_bound(rest + zeros);
    lemma2_to64();
    if width < 8 {
        vstd::arithmetic::power2::lemma_pow2_strictly_increases(width, 8);
    }
}

/// The text of an address.
fn to_cash_addr(prefix: &str, addr_type: AddressType, addr_bytes: &[u8; 20]) -> (text: String)
    ensures
        text@ == spec_to_cash_addr(prefix@, addr_type, addr_bytes@),
{
    let mut input: Vec<u8> = Vec::new();
    input.push(addr_type.version());
    input.extend_from_slice(addr_bytes.as_slice());
    assert(input@ =~= seq![addr_type.spec_version()] + addr_bytes@);
    proof {
        lemma2_to64();
        assert(all_fit(input@, 8));
    }
    let payload = convert_bits(input.as_slice(), 8, 5, true).unwrap();
    proof {
        lemma_groups_fit(bits_of(input@, 8), 5);
        lemma_left_over_len(bits_of(input@, 8), 5);
        lemma_padded_group_fits(left_over(bits_of(input@, 8), 5), 5);
    }
    let checksum = calculate_checksum(prefix.as_bytes(), payload.as_slice());
    let mut values: Vec<u8> = Vec::new();
    values.extend_from_slice(payload.as_slice());
    values.extend_from_slice(checksum.as_slice());
    assert(values@ =~= payload@ + checksum@);
    let letters = b32_encode(values.as_slice());
    proof {
        reveal_strlit(":");
        assert(":"@ =~= seq![':']);
    }
    String::from_str(prefix).concat(":").concat(letters.as_str())
}

/// Splits the text of an address, made small, at its first colon.
fn find_colon(text: &[u8]) -> (colon: usize)
    ensures
        colon == first_colon(text@),
        colon <= text.len(),
        colon < text.len() ==> text[colon as int] == 0x3a,
{
    let mut idx: usize = 0;
    proof {
        assert(text@.skip(0) =~= text@);
    }
    while idx < text.len() && text[idx] != 0x3a
        invariant
            idx <= text.len(),
            first_colon(text@) == idx + first_colon(text@.skip(idx as int)),
        decreases text.len() - idx,
    {
        proof {
            assert(text@.skip(idx as int).drop_first() =~= text@.skip(idx + 1));
        }
        idx += 1;
    }
    idx
}

/// Reads the text of an address: the hash, the kind, and the prefix; `None`
/// where the letters and check values are in order and hold anything but a
/// version byte and a hash of 20 bytes.
fn from_cash_addr(addr_string: &str) -> (r: Option<
    Result<([u8; 20], AddressType, String), AddressError>,
>)
    ensures
        !cash_addr_sized(encode_utf8(addr_string@)) ==> r is None,
        cash_addr_sized(encode_utf8(addr_string@)) ==> match spec_from_cash_addr(
            encode_utf8(addr_string@),
        ) {
            Ok((bytes, addr_type, prefix)) => r matches Some(Ok((b, t, p))) && b@ == bytes && t
                == addr_type && encode_utf8(p@) == prefix,
            Err(e) => r matches Some(Err(x)) && x == e,
        },
{
    let lower = ascii_lowercase(addr_string);
    let text = lower.as_str().as_bytes();
    let colon = find_colon(text);
    let prefix: &str;
    let letters: &[u8];
    if colon < text.len() {
        proof {
            encode_utf8_valid_utf8(lower@);
            is_char_boundary_iff_not_is_continuation_byte(text@, colon as int);
        }
        let (before, _) = lower.as_str().split_at(colon);
        prefix = before;
        letters = vstd::slice::slice_subrange(text, colon + 1, text.len());
        assert(letters@ =~= text@.skip(colon + 1));
        assert(text@.take(colon as int) =~= text@.subrange(0, colon as int));
    } else {
        prefix = lower.as_str();
        letters = "bitcoincash".as_bytes();
    }
    let decoded = match b32_decode(letters) {
        Ok(decoded) => decoded,
        Err(e) => {
            return Some(Err(e));
        },
    };
    if !verify_checksum(prefix.as_bytes(), decoded.as_slice()) {
        return Some(Err(AddressError::InvalidChecksum));
    }
    proof {
        lemma2_to64();
        assert(all_fit(decoded@, 5));
    }
    let converted = convert_bits(decoded.as_slice(), 5, 8, true).unwrap();
    if converted.len() != 27 {
        return None;
    }
    let addr = crate::tx::array_from_slice::<20>(converted.as_slice(), 1);
    assert(addr@ =~= converted@.subrange(1, converted.len() - 6));
    let version = converted[0];
    let addr_type = if version == 0 {
        AddressType::P2PKH
    } else if version == 8 {
        AddressType::P2SH
    } else {
        return Some(Err(AddressError::InvalidAddressType(version)));
    };
    Some(Ok((addr, addr_type, String::from_str(prefix))))
}

impl Address {
    /// The address of a hash on the main network.
    pub fn from_bytes(addr_type: AddressType, bytes: [u8; 20]) -> (address: Self)
        ensures
            address@ == (AddressView {
                addr_type,
                bytes: bytes@,
                cash_addr: spec_to_cash_addr(spec_default_prefix(), addr_type, bytes@),
                prefix: spec_default_prefix(),
            }),
    {
        Self::from_bytes_prefix("bitcoincash", addr_type, bytes)
    }

    /// The address of a hash given as a slice, which must have 20 bytes.
    pub fn from_slice_prefix(prefix: &str, addr_type: AddressType, slice: &[u8]) -> (address:
        Option<Self>)
        ensures
            slice.len() == 20 ==> (address matches Some(a) && a@ == (AddressView {
                addr_type,
                bytes: slice@,
                cash_addr: spec_to_cash_addr(prefix@, addr_type, slice@),
                prefix: prefix@,
            })),
            slice.len() != 20 ==> address is None,
    {
        if slice.len() != 20 {
            return None;
        }
        let bytes = crate::tx::array_from_slice::<20>(slice, 0);
        assert(bytes@ =~= slice@);
        Some(Self::from_bytes_prefix(prefix, addr_type, bytes))
    }

    /// The address on the main network of a hash given as a slice, which must
    /// have 20 bytes.
    pub fn from_slice(addr_type: AddressType, slice: &[u8]) -> (address: Option<Self>)
        ensures
            slice.len() == 20 ==> (address matches Some(a) && a@ == (AddressView {
                addr_type,
                bytes: slice@,
                cash_addr: spec_to_cash_addr(spec_default_prefix(), addr_type, slice@),
                prefix: spec_default_prefix(),
            })),
            slice.len() != 20 ==> address is None,
    {
        Self::from_slice_prefix("bitcoincash", addr_type, slice)
    }

    /// The address of a hash under a prefix.
    pub fn from_bytes_prefix(prefix: &str, addr_type: AddressType, bytes: [u8; 20]) -> (address:
        Self)
        ensures
            address@ == (AddressView {
                addr_type,
                bytes: bytes@,
                cash_addr: spec_to_cash_addr(prefix@, addr_type, bytes@),
                prefix: prefix@,
            }),
    {
        Address {
            cash_addr: to_cash_addr(prefix, addr_type, &bytes),
            addr_type,
            prefix: String::from_str(prefix),
            bytes,
        }
    }

    /// Reads an address from its text, which it keeps as it is. The text
    /// must hold a hash of 20 bytes where its letters and check values are in
    /// order.
    pub fn from_cash_addr(cash_addr: String) -> (r: Result<Self, AddressError>)
        requires
            cash_addr_sized(encode_utf8(cash_addr@)),
        ensures
            match spec_from_cash_addr(encode_utf8(cash_addr@)) {
                Ok((bytes, addr_type, prefix)) => r matches Ok(a) && a@.bytes == bytes
                    && a@.addr_type == addr_type && encode_utf8(a@.prefix) == prefix
                    && a@.cash_addr == cash_addr@,
                Err(e) => r matches Err(x) && x == e,
            },
    {
        match Self::try_from_cash_addr(cash_addr) {
            Some(r) => r,
            None => {
                proof {
                    assert(false);
                }
                Err(AddressError::InvalidChecksum)
            },
        }
    }

    /// Reads an address from any text, which it keeps as it is; `None` where
    /// the letters and check values are in order and hold anything but a
    /// version byte and a hash of 20 bytes.
    pub fn try_from_cash_addr(cash_addr: String) -> (r: Option<Result<Self, AddressError>>)
        ensures
            !cash_addr_sized(encode_utf8(cash_addr@)) ==> r is None,
            cash_addr_sized(encode_utf8(cash_addr@)) ==> match spec_from_cash_addr(
                encode_utf8(cash_addr@),
            ) {
                Ok((bytes, addr_type, prefix)) => r matches Some(Ok(a)) && a@.bytes == bytes
                    && a@.addr_type == addr_type && encode_utf8(a@.prefix) == prefix
                    && a@.cash_addr == cash_addr@,
                Err(e) => r matches Some(Err(x)) && x == e,
            },
    {
        match from_cash_addr(cash_addr.as_str()) {
            Some(Ok((bytes, addr_type, prefix))) => Some(
                Ok(Address { bytes, addr_type, cash_addr, prefix }),
            ),
            Some(Err(e)) => Some(Err(e)),
            None => None,
        }
    }

    /// The address of a public key: that of the RIPEMD-160 of the SHA-256 of
    /// its bytes.
    pub fn from_serialized_pub_key(prefix: &str, addr_type: AddressType, pub_key: &[u8]) -> (address:
        Self)
        ensures
            address@ == (AddressView {
                addr_type,
                bytes: spec_hash160(pub_key@)@,
                cash_addr: spec_to_cash_addr(prefix@, addr_type, spec_hash160(pub_key@)@),
                prefix: prefix@,
            }),
    {
        Address::from_bytes_prefix(prefix, addr_type, hash160(pub_key))
    }

    /// An address holds a hash of 20 bytes.
    pub proof fn lemma_hash_len(&self)
        ensures
            self@.bytes.len() == 20,
    {
    }

    /// The hash.
    pub fn bytes(&self) -> (bytes: &[u8; 20])
        ensures
            bytes@ == self@.bytes,
            self@.bytes.len() == 20,
    {
        &self.bytes
    }

    /// The text that shows the address.
    pub fn cash_addr(&self) -> (text: &str)
        ensures
            text@ == self@.cash_addr,
    {
        self.cash_addr.as_str()
    }

    /// The kind.
    pub fn addr_type(&self) -> (addr_type: AddressType)
        ensures
            addr_type == self@.addr_type,
    {
        self.addr_type
    }

    /// The prefix of the network.
    pub fn prefix(&self) -> (prefix: &str)
        ensures
            prefix@ == self@.prefix,
    {
        self.prefix.as_str()
    }

    /// The same hash and kind under another prefix.
    pub fn with_prefix(&self, prefix: String) -> (address: Self)
        ensures
            address@ == (AddressView {
                addr_type: self@.addr_type,
                bytes: self@.bytes,
                cash_addr: spec_to_cash_addr(prefix@, self@.addr_type, self@.bytes),
                prefix: prefix@,
            }),
    {
        Address {
            cash_addr: to_cash_addr(prefix.as_str(), self.addr_type, &self.bytes),
            addr_type: self.addr_type,
            prefix,
            bytes: self.bytes,
        }
    }
}

} // verus!
