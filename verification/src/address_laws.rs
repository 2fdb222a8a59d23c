//! That the text of an address is read back as the address.

use crate::address::{
    bits_of, bits_of_value, cash_addr_parts, cash_addr_sized, checksum_input, first_colon,
    groups, left_over, lemma_b32_letter_value, lemma_bits_of_value, lemma_left_over_len,
    lemma_value_of_bits_bound, padded_group, poly_mod_from, poly_mod_state, poly_mod_step,
    spec_ascii_lowercase, spec_b32_decode, spec_b32_encode, spec_b32_letter, spec_checksum,
    spec_convert_bits, spec_from_cash_addr, spec_poly_mod, spec_to_cash_addr,
    spec_verify_checksum, value_of_bits, AddressError, AddressType,
};
use vstd::arithmetic::power2::lemma2_to64;
use vstd::prelude::*;
use vstd::utf8::*;

verus! {

/// Five-bit values as one number, the first value highest.
pub open spec fn pack5(values: Seq<u8>) -> u64
    decreases values.len(),
{
    if values.len() == 0 {
        0
    } else {
        (pack5(values.drop_last()) << 5) ^ (values.last() as u64)
    }
}

/// `n` zero values.
pub open spec fn zero_values(n: nat) -> Seq<u8> {
    Seq::new(n, |i: int| 0u8)
}

/// A step of the checksum takes a value in apart from the rest: a state that
/// differs in its low 35 bits gives a state that differs in those bits, moved
/// up by five, and in the value.
proof fn lemma_step_apart(a: u64, p: u64, value: u8)
    by (bit_vector)
    requires
        p < 0x8_0000_0000,
        value < 32,
    ensures
        poly_mod_step(a ^ p, value) == poly_mod_step(a, 0) ^ ((p << 5) ^ (value as u64)),
        poly_mod_step(a, 0) < 0x100_0000_0000,
{
}

/// Values taken in from a state change it by the number they make, apart
/// from what zeros in their place would give; for up to eight values.
proof fn lemma_values_apart(c: u64, values: Seq<u8>)
    requires
        values.len() <= 8,
        forall|i: int| 0 <= i < values.len() ==> (#[trigger] values[i]) < 32,
    ensures
        poly_mod_from(c, values) == poly_mod_from(c, zero_values(values.len())) ^ pack5(values),
        pack5(values) < (1u64 << ((5 * values.len()) as u64)),
    decreases values.len(),
{
    if values.len() == 0 {
        assert(c == c ^ 0) by (bit_vector);
        assert(0 < (1u64 << 0u64)) by (bit_vector);
    } else {
        let fewer = values.drop_last();
        lemma_values_apart(c, fewer);
        let k = values.len();
        let before = poly_mod_from(c, zero_values(fewer.len()));
        let p = pack5(fewer);
        let s = (5 * fewer.len()) as u64;
        let last = values.last();
        assert(zero_values(k).drop_last() =~= zero_values(fewer.len()));
        assert(zero_values(k).last() == 0);
        assert(p < 0x8_0000_0000 && (((p << 5) ^ (last as u64)) < (1u64 << ((s + 5) as u64))))
            by (bit_vector)
            requires
                p < (1u64 << s),
                s <= 35,
                last < 32,
        ;
        lemma_step_apart(before, p, last);
    }
}

/// The eight check values of a number below 2 to the power of 40 make that
/// number.
proof fn lemma_pack5_of_check_values(poly: u64)
    requires
        poly < 0x100_0000_0000,
    ensures
        pack5(Seq::new(8, |i: int| ((poly >> ((5 * (7 - i)) as u64)) & 0x1f) as u8)) == poly,
{
    let values = Seq::new(8, |i: int| ((poly >> ((5 * (7 - i)) as u64)) & 0x1f) as u8);
    let v0 = values[0];
    let v1 = values[1];
    let v2 = values[2];
    let v3 = values[3];
    let v4 = values[4];
    let v5 = values[5];
    let v6 = values[6];
    let v7 = values[7];
    let s0 = values.take(0);
    let s1 = values.take(1);
    let s2 = values.take(2);
    let s3 = values.take(3);
    let s4 = values.take(4);
    let s5 = values.take(5);
    let s6 = values.take(6);
    let s7 = values.take(7);
    assert(s1.drop_last() =~= s0 && s2.drop_last() =~= s1 && s3.drop_last() =~= s2);
    assert(s4.drop_last() =~= s3 && s5.drop_last() =~= s4 && s6.drop_last() =~= s5);
    assert(s7.drop_last() =~= s6 && values.drop_last() =~= s7);
    assert(pack5(s0) == 0);
    assert(pack5(s1) == (pack5(s0) << 5) ^ (v0 as u64));
    assert(pack5(s2) == (pack5(s1) << 5) ^ (v1 as u64));
    assert(pack5(s3) == (pack5(s2) << 5) ^ (v2 as u64));
    assert(pack5(s4) == (pack5(s3) << 5) ^ (v3 as u64));
    assert(pack5(s5) == (pack5(s4) << 5) ^ (v4 as u64));
    assert(pack5(s6) == (pack5(s5) << 5) ^ (v5 as u64));
    assert(pack5(s7) == (pack5(s6) << 5) ^ (v6 as u64));
    assert(pack5(values) == (pack5(s7) << 5) ^ (v7 as u64));
    let p7 = pack5(s7);
    let p6 = pack5(s6);
    let p5 = pack5(s5);
    let p4 = pack5(s4);
    let p3 = pack5(s3);
    let p2 = pack5(s2);
    let p1 = pack5(s1);
    assert(((p7 << 5) ^ (v7 as u64)) == poly) by (bit_vector)
        requires
            poly < 0x100_0000_0000,
            v0 == ((poly >> 35) & 0x1f) as u8,
            v1 == ((poly >> 30) & 0x1f) as u8,
            v2 == ((poly >> 25) & 0x1f) as u8,
            v3 == ((poly >> 20) & 0x1f) as u8,
            v4 == ((poly >> 15) & 0x1f) as u8,
            v5 == ((poly >> 10) & 0x1f) as u8,
            v6 == ((poly >> 5) & 0x1f) as u8,
            v7 == ((poly >> 0) & 0x1f) as u8,
            p1 == (0u64 << 5) ^ (v0 as u64),
            p2 == (p1 << 5) ^ (v1 as u64),
            p3 == (p2 << 5) ^ (v2 as u64),
            p4 == (p3 << 5) ^ (v3 as u64),
            p5 == (p4 << 5) ^ (v4 as u64),
            p6 == (p5 << 5) ^ (v5 as u64),
            p7 == (p6 << 5) ^ (v6 as u64),
    ;
}

/// Values behind values: the state goes on from where the first left it.
proof fn lemma_poly_mod_from_append(c: u64, a: Seq<u8>, b: Seq<u8>)
    ensures
        poly_mod_from(c, a + b) == poly_mod_from(poly_mod_from(c, a), b),
    decreases b.len(),
{
    if b.len() == 0 {
        assert(a + b =~= a);
    } else {
        lemma_poly_mod_from_append(c, a, b.drop_last());
        assert((a + b).drop_last() =~= a + b.drop_last());
        assert((a + b).last() == b.last());
    }
}

/// A payload with the check values that are reckoned for it fits them: the
/// checksum of both is zero.
pub proof fn lemma_checksum_fits(prefix: Seq<u8>, payload: Seq<u8>)
    ensures
        spec_verify_checksum(prefix, payload + spec_checksum(prefix, payload)),
        spec_checksum(prefix, payload).len() == 8,
        forall|i: int| 0 <= i < 8 ==> (#[trigger] spec_checksum(prefix, payload)[i]) < 32,
{
    let covered = checksum_input(prefix, payload);
    let zeros = Seq::new(8, |i: int| 0u8);
    let state = poly_mod_state(covered);
    let after_zeros = poly_mod_from(state, zeros);
    let poly = spec_poly_mod(covered + zeros);
    let check = spec_checksum(prefix, payload);
    lemma_poly_mod_from_append(1, covered, zeros);
    lemma_poly_mod_from_append(1, covered, check);
    assert(zeros =~= zero_values(8));
    assert(zeros.drop_last() =~= zero_values(7));
    lemma_step_apart(poly_mod_from(state, zero_values(7)), 0, 0);
    assert(after_zeros < 0x100_0000_0000);
    assert(poly == after_zeros ^ 1);
    assert(poly < 0x100_0000_0000 && after_zeros ^ poly == 1 && 1u64 ^ 1 == 0) by (bit_vector)
        requires
            poly == after_zeros ^ 1,
            after_zeros < 0x100_0000_0000,
    ;
    assert forall|i: int| 0 <= i < 8 implies (#[trigger] check[i]) < 32 by {
        let shift = (5 * (7 - i)) as u64;
        let value = (poly >> shift) & 0x1f;
        assert(value < 32) by (bit_vector)
            requires
                value == (poly >> shift) & 0x1f,
        ;
    }
    lemma_values_apart(state, check);
    lemma_pack5_of_check_values(poly);
    assert(checksum_input(prefix, payload + check) =~= covered + check);
}

/// The bits of values behind values are the bits of the first and then
/// those of the second.
pub proof fn lemma_bits_of_append(x: Seq<u8>, y: Seq<u8>, width: nat)
    ensures
        bits_of(x + y, width) == bits_of(x, width) + bits_of(y, width),
    decreases y.len(),
{
    if y.len() == 0 {
        assert(x + y =~= x);
        assert(bits_of(x, width) + bits_of(y, width) =~= bits_of(x, width));
    } else {
        lemma_bits_of_append(x, y.drop_last(), width);
        assert((x + y).drop_last() =~= x + y.drop_last());
        assert((x + y).last() == y.last());
        assert(bits_of(x + y, width) =~= bits_of(x, width) + bits_of(y, width));
    }
}

/// Values written as `width` bits each are `width` bits for each value.
pub proof fn lemma_bits_of_len(values: Seq<u8>, width: nat)
    ensures
        bits_of(values, width).len() == values.len() * width,
    decreases values.len(),
{
    if values.len() == 0 {
        assert(0 * width == 0) by (nonlinear_arith);
    } else {
        lemma_bits_of_len(values.drop_last(), width);
        lemma_bits_of_value(values.last() as nat, width);
        assert((values.len() - 1) * width + width == values.len() * width) by (nonlinear_arith);
    }
}

/// The bits of one value are its bits.
proof fn lemma_bits_of_one(value: u8, width: nat)
    ensures
        bits_of(seq![value], width) == bits_of_value(value as nat, width),
{
    let one = seq![value];
    assert(one.drop_last() =~= Seq::<u8>::empty());
    assert(one.last() == value);
    assert(bits_of(one.drop_last(), width) =~= Seq::<bool>::empty());
    assert(bits_of(one, width) == bits_of(one.drop_last(), width) + bits_of_value(
        value as nat,
        width,
    ));
    assert(bits_of(one, width) =~= bits_of_value(value as nat, width));
}

/// The bits of the number that bits denote are those bits.
pub proof fn lemma_bits_of_value_of_bits(bits: Seq<bool>)
    ensures
        bits_of_value(value_of_bits(bits), bits.len()) == bits,
    decreases bits.len(),
{
    if bits.len() > 0 {
        lemma_bits_of_value_of_bits(bits.drop_last());
        let value = value_of_bits(bits);
        let fewer = value_of_bits(bits.drop_last());
        assert(value / 2 == fewer && (value % 2 == 1) == bits.last());
        assert(bits_of_value(value, bits.len()) =~= bits);
    }
}

/// Whole groups and what is left over take all the bits.
pub proof fn lemma_groups_len(bits: Seq<bool>, width: nat)
    requires
        width > 0,
    ensures
        groups(bits, width).len() * width + left_over(bits, width).len() == bits.len(),
    decreases bits.len(),
{
    if bits.len() >= width {
        lemma_groups_len(bits.skip(width as int), width);
        let fewer = groups(bits.skip(width as int), width).len();
        assert((fewer + 1) * width == fewer * width + width) by (nonlinear_arith);
    } else {
        assert(0 * width == 0) by (nonlinear_arith);
    }
}

/// The bits of the whole groups, and then what is left over, are the bits
/// that were cut.
pub proof fn lemma_bits_of_groups(bits: Seq<bool>, width: nat)
    requires
        0 < width <= 8,
    ensures
        bits_of(groups(bits, width), width) + left_over(bits, width) == bits,
    decreases bits.len(),
{
    if bits.len() < width {
        assert(bits_of(groups(bits, width), width) + left_over(bits, width) =~= bits);
    } else {
        let first = bits.take(width as int);
        let rest = bits.skip(width as int);
        let group = value_of_bits(first) as u8;
        lemma_bits_of_groups(rest, width);
        lemma_value_of_bits_bound(first);
        lemma2_to64();
        if width < 8 {
            vstd::arithmetic::power2::lemma_pow2_strictly_increases(width, 8);
        }
        assert(group as nat == value_of_bits(first));
        lemma_bits_of_value_of_bits(first);
        lemma_bits_of_one(group, width);
        lemma_bits_of_append(seq![group], groups(rest, width), width);
        assert(bits_of(groups(bits, width), width) + left_over(bits, width) =~= first + (bits_of(
            groups(rest, width),
            width,
        ) + left_over(rest, width)));
        assert(first + rest =~= bits);
    }
}

/// The bits of the last group are what was left over and the zeros that fill
/// it up.
pub proof fn lemma_bits_of_padded_group(rest: Seq<bool>, width: nat)
    requires
        rest.len() <= width <= 8,
    ensures
        bits_of(seq![padded_group(rest, width)], width) == rest + Seq::new(
            (width - rest.len()) as nat,
            |i: int| false,
        ),
{
    let filled = rest + Seq::new((width - rest.len()) as nat, |i: int| false);
    lemma_value_of_bits_bound(filled);
    lemma2_to64();
    if width < 8 {
        vstd::arithmetic::power2::lemma_pow2_strictly_increases(width, 8);
    }
    lemma_bits_of_value_of_bits(filled);
    lemma_bits_of_one(padded_group(rest, width), width);
}

/// The bits of bytes, with more bits behind them, cut into groups of eight
/// are the bytes, and then the groups of the bits behind them.
pub proof fn lemma_groups_of_bytes(data: Seq<u8>, more: Seq<bool>)
    ensures
        groups(bits_of(data, 8) + more, 8) == data + groups(more, 8),
        left_over(bits_of(data, 8) + more, 8) == left_over(more, 8),
    decreases data.len(),
{
    if data.len() == 0 {
        assert(bits_of(data, 8) + more =~= more);
        assert(data + groups(more, 8) =~= groups(more, 8));
    } else {
        let first = data[0];
        let rest = data.drop_first();
        assert(data =~= seq![first] + rest);
        lemma_bits_of_append(seq![first], rest, 8);
        lemma_bits_of_one(first, 8);
        lemma_bits_of_value(first as nat, 8);
        lemma2_to64();
        let all = bits_of(data, 8) + more;
        assert(all.take(8) =~= bits_of_value(first as nat, 8));
        assert(all.skip(8) =~= bits_of(rest, 8) + more);
        lemma_groups_of_bytes(rest, more);
        vstd::arithmetic::div_mod::lemma_small_mod(first as nat, 256);
        assert(groups(all, 8) =~= data + groups(more, 8));
    }
}

/// The letters of five-bit values are read back as the values.
pub proof fn lemma_b32_round_trip(values: Seq<u8>)
    requires
        forall|i: int| 0 <= i < values.len() ==> (#[trigger] values[i]) < 32,
    ensures
        spec_b32_decode(Seq::new(values.len(), |i: int| spec_b32_letter(values[i]))) == Ok::<
            Seq<u8>,
            AddressError,
        >(values),
    decreases values.len(),
{
    let letters = Seq::new(values.len(), |i: int| spec_b32_letter(values[i]));
    if values.len() > 0 {
        let fewer = values.drop_last();
        lemma_b32_round_trip(fewer);
        assert(letters.drop_last() =~= Seq::new(fewer.len(), |i: int| spec_b32_letter(fewer[i])));
        lemma_b32_letter_value(values.last());
        assert(fewer.push(values.last()) =~= values);
    } else {
        assert(values =~= Seq::<u8>::empty());
    }
}

/// The first colon behind bytes that hold none stands right behind them.
pub proof fn lemma_first_colon(before: Seq<u8>, behind: Seq<u8>)
    requires
        forall|i: int| 0 <= i < before.len() ==> (#[trigger] before[i]) != 0x3a,
    ensures
        first_colon(before + seq![0x3au8] + behind) == before.len(),
    decreases before.len(),
{
    let text = before + seq![0x3au8] + behind;
    if before.len() > 0 {
        assert(text[0] == before[0]);
        assert(text.drop_first() =~= before.drop_first() + seq![0x3au8] + behind);
        lemma_first_colon(before.drop_first(), behind);
    } else {
        assert(text[0] == 0x3a);
    }
}

/// A letter of the alphabet is a small letter or a digit of ASCII.
pub proof fn lemma_b32_letter_is_small(value: u8)
    requires
        value < 32,
    ensures
        spec_b32_letter(value) < 128,
        !(0x41 <= spec_b32_letter(value) <= 0x5a),
        spec_b32_letter(value) != 0x3a,
{
}

/// The bytes of the text of an address: the bytes of the prefix, a colon,
/// and the letters of the payload and its check values.
pub open spec fn cash_addr_bytes(prefix: Seq<u8>, addr_type: AddressType, bytes: Seq<u8>) -> Seq<
    u8,
> {
    let payload = spec_convert_bits(seq![addr_type.spec_version()] + bytes, 8, 5, true).unwrap();
    let values = payload + spec_checksum(prefix, payload);
    prefix + seq![0x3au8] + Seq::new(values.len(), |i: int| spec_b32_letter(values[i]))
}

/// Whether bytes hold no colon and no capital letter of ASCII.
pub open spec fn plain_prefix(prefix: Seq<u8>) -> bool {
    forall|i: int|
        0 <= i < prefix.len() ==> (#[trigger] prefix[i]) != 0x3a && !(0x41 <= prefix[i] <= 0x5a)
}

/// The payload of a version byte and a hash of 20 bytes: 34 values of five
/// bits, whose bits are those of the 21 bytes and two zeros.
proof fn lemma_payload(input: Seq<u8>)
    requires
        input.len() == 21,
    ensures
        spec_convert_bits(input, 8, 5, true) matches Some(payload) && payload.len() == 34
            && bits_of(payload, 5) == bits_of(input, 8) + Seq::new(2, |i: int| false) && (forall|
            i: int,
        | 0 <= i < 34 ==> (#[trigger] payload[i]) < 32),
{
    let bits = bits_of(input, 8);
    let rest = left_over(bits, 5);
    let whole = groups(bits, 5);
    lemma2_to64();
    assert(crate::address::all_fit(input, 8));
    lemma_bits_of_len(input, 8);
    lemma_groups_len(bits, 5);
    lemma_left_over_len(bits, 5);
    assert(whole.len() == 33 && rest.len() == 3);
    let payload = whole.push(padded_group(rest, 5));
    assert(payload =~= whole + seq![padded_group(rest, 5)]);
    lemma_bits_of_append(whole, seq![padded_group(rest, 5)], 5);
    lemma_bits_of_padded_group(rest, 5);
    lemma_bits_of_groups(bits, 5);
    let zeros = Seq::new(2, |i: int| false);
    assert(bits_of(payload, 5) =~= bits_of(whole, 5) + rest + zeros);
    crate::address::lemma_groups_fit(bits, 5);
    crate::address::lemma_padded_group_fits(rest, 5);
    assert forall|i: int| 0 <= i < 34 implies (#[trigger] payload[i]) < 32 by {
        if i < 33 {
            assert(payload[i] == whole[i]);
        }
    }
}

/// The text of an address, as bytes, is read back as the address: for a hash
/// of 20 bytes and a prefix without a colon and without capital letters.
pub proof fn lemma_cash_addr_bytes_round_trip(
    prefix: Seq<u8>,
    addr_type: AddressType,
    bytes: Seq<u8>,
)
    requires
        bytes.len() == 20,
        plain_prefix(prefix),
    ensures
        cash_addr_sized(cash_addr_bytes(prefix, addr_type, bytes)),
        spec_from_cash_addr(cash_addr_bytes(prefix, addr_type, bytes)) == Ok::<
            (Seq<u8>, AddressType, Seq<u8>),
            AddressError,
        >((bytes, addr_type, prefix)),
{
    let input = seq![addr_type.spec_version()] + bytes;
    lemma_payload(input);
    let payload = spec_convert_bits(input, 8, 5, true).unwrap();
    let check = spec_checksum(prefix, payload);
    lemma_checksum_fits(prefix, payload);
    let values = payload + check;
    let letters = Seq::new(values.len(), |i: int| spec_b32_letter(values[i]));
    let text = cash_addr_bytes(prefix, addr_type, bytes);
    assert(text == prefix + seq![0x3au8] + letters);
    assert forall|i: int| 0 <= i < values.len() implies (#[trigger] values[i]) < 32 by {
        if i < 34 {
            assert(values[i] == payload[i]);
        } else {
            assert(values[i] == check[i - 34]);
        }
    }
    // the text is in small letters already
    assert forall|i: int| 0 <= i < text.len() implies !(0x41 <= #[trigger] text[i] <= 0x5a) by {
        if i < prefix.len() {
            assert(text[i] == prefix[i]);
        } else if i > prefix.len() {
            assert(text[i] == letters[i - prefix.len() - 1]);
            lemma_b32_letter_is_small(values[i - prefix.len() - 1]);
        }
    }
    assert(spec_ascii_lowercase(text) =~= text);
    // its parts are the prefix and the letters
    lemma_first_colon(prefix, letters);
    assert(text.take(prefix.len() as int) =~= prefix);
    assert(text.skip(prefix.len() as int + 1) =~= letters);
    assert(cash_addr_parts(text) == (prefix, letters));
    // the letters are read as the values, and the check values fit
    lemma_b32_round_trip(values);
    // the values hold the version byte, the hash and the check values
    lemma2_to64();
    assert(crate::address::all_fit(values, 5));
    lemma_bits_of_append(payload, check, 5);
    lemma_bits_of_len(check, 5);
    let behind = Seq::new(2, |i: int| false) + bits_of(check, 5);
    let all = bits_of(values, 5);
    assert(all =~= bits_of(input, 8) + behind);
    lemma_groups_of_bytes(input, behind);
    lemma_groups_len(behind, 8);
    lemma_left_over_len(behind, 8);
    let whole = groups(all, 8);
    let rest = left_over(all, 8);
    assert(groups(behind, 8).len() == 5 && rest.len() == 2);
    let converted = whole.push(padded_group(rest, 8));
    assert(spec_convert_bits(values, 5, 8, true) == Some(converted));
    assert(converted.len() == 27);
    assert(converted[0] == input[0]);
    assert(converted.subrange(1, 21) =~= bytes) by {
        assert forall|i: int| 0 <= i < 20 implies converted.subrange(1, 21)[i] == bytes[i] by {
            assert(converted[i + 1] == whole[i + 1]);
            assert(whole[i + 1] == input[i + 1]);
        }
    }
}

/// Whether a prefix is made of ASCII without a colon and without capital
/// letters.
pub open spec fn plain_prefix_text(prefix: Seq<char>) -> bool {
    forall|i: int|
        0 <= i < prefix.len() ==> {
            let c = #[trigger] prefix[i];
            '\0' <= c <= '\u{7f}' && c != ':' && !('A' <= c <= 'Z')
        }
}

/// The text of an address is read back as the address: for every kind, every
/// hash of 20 bytes and every prefix of ASCII without a colon and without
/// capital letters, reading the text that is written for them gives the hash,
/// the kind and the prefix.
pub proof fn lemma_cash_addr_round_trip(prefix: Seq<char>, addr_type: AddressType, bytes: Seq<u8>)
    requires
        bytes.len() == 20,
        plain_prefix_text(prefix),
    ensures
        cash_addr_sized(encode_utf8(spec_to_cash_addr(prefix, addr_type, bytes))),
        spec_from_cash_addr(encode_utf8(spec_to_cash_addr(prefix, addr_type, bytes))) == Ok::<
            (Seq<u8>, AddressType, Seq<u8>),
            AddressError,
        >((bytes, addr_type, encode_utf8(prefix))),
{
    let chars = spec_to_cash_addr(prefix, addr_type, bytes);
    let input = seq![addr_type.spec_version()] + bytes;
    lemma_payload(input);
    let payload = spec_convert_bits(input, 8, 5, true).unwrap();
    let p = encode_utf8(prefix);
    let check = spec_checksum(p, payload);
    lemma_checksum_fits(p, payload);
    let values = payload + check;
    let letters = spec_b32_encode(values);
    assert(chars == prefix + seq![':'] + letters);
    assert forall|i: int| 0 <= i < values.len() implies (#[trigger] values[i]) < 32 by {
        if i < 34 {
            assert(values[i] == payload[i]);
        } else {
            assert(values[i] == check[i - 34]);
        }
    }
    assert(is_ascii_chars(prefix)) by {
        assert forall|i: int| 0 <= i < prefix.len() implies '\0' <= #[trigger] prefix[i]
            <= '\u{7f}' by {
        }
    }
    assert(is_ascii_chars(chars)) by {
        assert forall|i: int| 0 <= i < chars.len() implies '\0' <= #[trigger] chars[i]
            <= '\u{7f}' by {
            if i < prefix.len() {
                assert(chars[i] == prefix[i]);
            } else if i > prefix.len() {
                let k = i - prefix.len() - 1;
                assert(chars[i] == letters[k]);
                lemma_b32_letter_is_small(values[k]);
            }
        }
    }
    is_ascii_chars_encode_utf8(prefix);
    is_ascii_chars_encode_utf8(chars);
    let text = encode_utf8(chars);
    let expected = cash_addr_bytes(p, addr_type, bytes);
    assert(text.len() == expected.len());
    assert forall|i: int| 0 <= i < text.len() implies text[i] == expected[i] by {
        assert(chars[i] as u8 == text[i]);
        if i < prefix.len() {
            assert(chars[i] == prefix[i]);
            assert(prefix[i] as u8 == p[i]);
        } else if i > prefix.len() {
            let k = i - prefix.len() - 1;
            assert(chars[i] == letters[k]);
            lemma_b32_letter_is_small(values[k]);
        }
    }
    assert(text =~= expected);
    assert(plain_prefix(p)) by {
        assert forall|i: int| 0 <= i < p.len() implies (#[trigger] p[i]) != 0x3a && !(0x41 <= p[i]
            <= 0x5a) by {
            assert(prefix[i] as u8 == p[i]);
            let c = prefix[i];
            assert('\0' <= c <= '\u{7f}' && c != ':' && !('A' <= c <= 'Z'));
        }
    }
    lemma_cash_addr_bytes_round_trip(p, addr_type, bytes);
}

} // verus!
