//! Byte-level encodings: fixed-width integers, compact sizes and script numbers.

use byteorder::{BigEndian, LittleEndian, ReadBytesExt, WriteBytesExt};
use vstd::prelude::*;

verus! {

/// Why a byte string could not be read.
#[derive(Clone, Copy, Debug, PartialEq, Eq, Structural)]
pub enum InvalidData {
    /// The bytes end before the value does.
    Truncated,
    /// A script inside the value is cut off in the middle of a push.
    BadScript,
}

/// `256^k`.
pub open spec fn pow256(k: nat) -> nat
    decreases k,
{
    if k == 0 {
        1
    } else {
        256 * pow256((k - 1) as nat)
    }
}

/// The `len` low-order base-256 digits of `n`, least significant first.
pub open spec fn le_bytes(n: nat, len: nat) -> Seq<u8>
    decreases len,
{
    if len == 0 {
        Seq::empty()
    } else {
        seq![(n % 256) as u8] + le_bytes(n / 256, (len - 1) as nat)
    }
}

/// The `len` low-order base-256 digits of `n`, most significant first.
pub open spec fn be_bytes(n: nat, len: nat) -> Seq<u8> {
    le_bytes(n, len).reverse()
}

/// The number whose base-256 digits, least significant first, are `s`.
pub open spec fn le_value(s: Seq<u8>) -> nat
    decreases s.len(),
{
    if s.len() == 0 {
        0
    } else {
        s[0] as nat + 256 * le_value(s.drop_first())
    }
}

/// The unsigned 32-bit number with the same two's complement bits as `n`.
pub open spec fn i32_bits(n: i32) -> nat {
    if n >= 0 {
        n as nat
    } else {
        (n + 0x1_0000_0000) as nat
    }
}

/// The signed 32-bit number with the same two's complement bits as `n`.
pub open spec fn bits_i32(n: nat) -> i32 {
    if n < 0x8000_0000 {
        n as i32
    } else {
        (n - 0x1_0000_0000) as i32
    }
}

/// The powers of 256 that the widths of numbers need.
pub proof fn lemma_pow256_values()
    ensures
        pow256(0) == 1,
        pow256(1) == 0x100,
        pow256(2) == 0x1_0000,
        pow256(3) == 0x100_0000,
        pow256(4) == 0x1_0000_0000,
        pow256(8) == 0x1_0000_0000_0000_0000,
{
    reveal_with_fuel(pow256, 9);
}

/// `len` digits are `len` bytes.
pub proof fn lemma_le_bytes_len(n: nat, len: nat)
    ensures
        le_bytes(n, len).len() == len,
    decreases len,
{
    if len > 0 {
        lemma_le_bytes_len(n / 256, (len - 1) as nat);
    }
}

/// Digits denote a number below 256 to the power of their count.
pub proof fn lemma_le_value_bound(s: Seq<u8>)
    ensures
        le_value(s) < pow256(s.len()),
    decreases s.len(),
{
    if s.len() > 0 {
        lemma_le_value_bound(s.drop_first());
    }
}

/// Digits written for a number that fits read back as that number.
pub proof fn lemma_le_value_le_bytes(n: nat, len: nat)
    requires
        n < pow256(len),
    ensures
        le_value(le_bytes(n, len)) == n,
    decreases len,
{
    if len > 0 {
        let rest = le_bytes(n / 256, (len - 1) as nat);
        let s = le_bytes(n, len);
        lemma_le_bytes_len(n / 256, (len - 1) as nat);
        assert(s.drop_first() =~= rest);
        lemma_le_value_le_bytes(n / 256, (len - 1) as nat);
    }
}

/// One more digit than a number needs is a zero at the top.
pub proof fn lemma_le_bytes_extend(n: nat, len: nat)
    requires
        n < pow256(len),
    ensures
        le_bytes(n, len + 1) == le_bytes(n, len).push(0u8),
    decreases len,
{
    if len == 0 {
        reveal_with_fuel(le_bytes, 2);
        assert(le_bytes(n, 1) =~= le_bytes(n, 0).push(0u8));
    } else {
        lemma_le_bytes_extend(n / 256, (len - 1) as nat);
        assert(le_bytes(n, len + 1) =~= le_bytes(n, len).push(0u8));
    }
}

/// A zero digit at the top does not change the number.
pub proof fn lemma_le_value_push_zero(s: Seq<u8>)
    ensures
        le_value(s.push(0u8)) == le_value(s),
    decreases s.len(),
{
    if s.len() == 0 {
        reveal_with_fuel(le_value, 2);
        assert(s.push(0u8).drop_first() =~= s);
    } else {
        lemma_le_value_push_zero(s.drop_first());
        assert(s.push(0u8).drop_first() =~= s.drop_first().push(0u8));
    }
}

/// Adding a digit at the top adds its weight.
pub proof fn lemma_le_value_push(s: Seq<u8>, b: u8)
    ensures
        le_value(s.push(b)) == le_value(s) + b as nat * pow256(s.len()),
    decreases s.len(),
{
    let t = s.push(b);
    if s.len() == 0 {
        assert(t.drop_first() =~= s);
        assert(le_value(t) == b as nat + 256 * le_value(t.drop_first()));
        assert(le_value(s) == 0);
        assert(pow256(0) == 1);
        assert(b as nat * 1 == b as nat) by (nonlinear_arith);
    } else {
        let rest = s.drop_first();
        lemma_le_value_push(rest, b);
        assert(t.drop_first() =~= rest.push(b));
        let w = pow256(rest.len());
        assert(pow256(s.len()) == 256 * w);
        assert(256 * (b as nat * w) == b as nat * (256 * w)) by (nonlinear_arith);
        assert(le_value(t) == t[0] as nat + 256 * le_value(t.drop_first()));
        assert(le_value(s) == s[0] as nat + 256 * le_value(rest));
    }
}

/// Appends the two bytes of `n`, least significant first, by `byteorder`'s
/// `WriteBytesExt::write_u16::<LittleEndian>`, which on a vector cannot fail.
#[verifier::external_body]
pub(crate) fn put_u16_le(buf: &mut Vec<u8>, n: u16)
    ensures
        final(buf)@ == old(buf)@ + le_bytes(n as nat, 2),
{
    buf.write_u16::<LittleEndian>(n).unwrap();
}

/// Appends the four bytes of `n`, least significant first, by `byteorder`'s
/// `WriteBytesExt::write_u32::<LittleEndian>`, which on a vector cannot fail.
#[verifier::external_body]
pub(crate) fn put_u32_le(buf: &mut Vec<u8>, n: u32)
    ensures
        final(buf)@ == old(buf)@ + le_bytes(n as nat, 4),
{
    buf.write_u32::<LittleEndian>(n).unwrap();
}

/// Appends the four bytes of the two's complement form of `n`, least
/// significant first, by `byteorder`'s `WriteBytesExt::write_i32::<LittleEndian>`,
/// which on a vector cannot fail.
#[verifier::external_body]
pub(crate) fn put_i32_le(buf: &mut Vec<u8>, n: i32)
    ensures
        final(buf)@ == old(buf)@ + le_bytes(i32_bits(n), 4),
{
    buf.write_i32::<LittleEndian>(n).unwrap();
}

/// Appends the eight bytes of `n`, least significant first, by `byteorder`'s
/// `WriteBytesExt::write_u64::<LittleEndian>`, which on a vector cannot fail.
#[verifier::external_body]
pub(crate) fn put_u64_le(buf: &mut Vec<u8>, n: u64)
    ensures
        final(buf)@ == old(buf)@ + le_bytes(n as nat, 8),
{
    buf.write_u64::<LittleEndian>(n).unwrap();
}

/// Appends the four bytes of `n`, most significant first, by `byteorder`'s
/// `WriteBytesExt::write_u32::<BigEndian>`, which on a vector cannot fail.
#[verifier::external_body]
pub(crate) fn put_u32_be(buf: &mut Vec<u8>, n: u32)
    ensures
        final(buf)@ == old(buf)@ + be_bytes(n as nat, 4),
{
    buf.write_u32::<BigEndian>(n).unwrap();
}

/// Appends the eight bytes of `n`, most significant first, by `byteorder`'s
/// `WriteBytesExt::write_u64::<BigEndian>`, which on a vector cannot fail.
#[verifier::external_body]
pub(crate) fn put_u64_be(buf: &mut Vec<u8>, n: u64)
    ensures
        final(buf)@ == old(buf)@ + be_bytes(n as nat, 8),
{
    buf.write_u64::<BigEndian>(n).unwrap();
}

/// Reads the two bytes at `at` as a number, least significant first, by
/// `byteorder`'s `ReadBytesExt::read_u16::<LittleEndian>` on a cursor over the
/// rest of `data`; `None` when fewer than two bytes are left.
#[verifier::external_body]
pub(crate) fn get_u16_le(data: &[u8], at: usize) -> (r: Option<u16>)
    requires
        at <= data.len(),
    ensures
        r is Some <==> at + 2 <= data.len(),
        r matches Some(v) ==> v as nat == le_value(data@.subrange(at as int, at + 2)),
{
    std::io::Cursor::new(&data[at..]).read_u16::<LittleEndian>().ok()
}

/// Reads the four bytes at `at` as a number, least significant first, by
/// `byteorder`'s `ReadBytesExt::read_u32::<LittleEndian>` on a cursor over the
/// rest of `data`; `None` when fewer than four bytes are left.
#[verifier::external_body]
pub(crate) fn get_u32_le(data: &[u8], at: usize) -> (r: Option<u32>)
    requires
        at <= data.len(),
    ensures
        r is Some <==> at + 4 <= data.len(),
        r matches Some(v) ==> v as nat == le_value(data@.subrange(at as int, at + 4)),
{
    std::io::Cursor::new(&data[at..]).read_u32::<LittleEndian>().ok()
}

/// Reads the four bytes at `at` as a two's complement number, least
/// significant first, by `byteorder`'s `ReadBytesExt::read_i32::<LittleEndian>`
/// on a cursor over the rest of `data`; `None` when fewer than four bytes are
/// left.
#[verifier::external_body]
pub(crate) fn get_i32_le(data: &[u8], at: usize) -> (r: Option<i32>)
    requires
        at <= data.len(),
    ensures
        r is Some <==> at + 4 <= data.len(),
        r matches Some(v) ==> v == bits_i32(le_value(data@.subrange(at as int, at + 4))),
{
    std::io::Cursor::new(&data[at..]).read_i32::<LittleEndian>().ok()
}

/// Reads the eight bytes at `at` as a number, least significant first, by
/// `byteorder`'s `ReadBytesExt::read_u64::<LittleEndian>` on a cursor over the
/// rest of `data`; `None` when fewer than eight bytes are left.
#[verifier::external_body]
pub(crate) fn get_u64_le(data: &[u8], at: usize) -> (r: Option<u64>)
    requires
        at <= data.len(),
    ensures
        r is Some <==> at + 8 <= data.len(),
        r matches Some(v) ==> v as nat == le_value(data@.subrange(at as int, at + 8)),
{
    std::io::Cursor::new(&data[at..]).read_u64::<LittleEndian>().ok()
}

/// The compact-size encoding of `n`.
pub open spec fn spec_var_int(n: u64) -> Seq<u8> {
    if n <= 0xfc {
        seq![n as u8]
    } else if n <= 0xffff {
        seq![0xfdu8] + le_bytes(n as nat, 2)
    } else if n <= 0xffff_ffff {
        seq![0xfeu8] + le_bytes(n as nat, 4)
    } else {
        seq![0xffu8] + le_bytes(n as nat, 8)
    }
}

/// The number that a compact size at the start of `s` denotes and the count of
/// bytes it takes; `None` when `s` ends too early. Any width is read, also one
/// wider than the number needs.
pub open spec fn spec_read_var_int(s: Seq<u8>) -> Option<(u64, nat)> {
    if s.len() == 0 {
        None
    } else if s[0] <= 0xfc {
        Some((s[0] as u64, 1nat))
    } else {
        let width: int = if s[0] == 0xfd {
            2
        } else if s[0] == 0xfe {
            4
        } else {
            8
        };
        if s.len() < 1 + width {
            None
        } else {
            Some((le_value(s.subrange(1, 1 + width)) as u64, (1 + width) as nat))
        }
    }
}

/// A byte string behind its length as a compact size.
pub open spec fn spec_var_str(string: Seq<u8>) -> Seq<u8> {
    spec_var_int(string.len() as u64) + string
}

/// The string behind a compact size at the start of `s`, and the count of
/// bytes that both take.
pub open spec fn spec_read_var_str(s: Seq<u8>) -> Option<(Seq<u8>, nat)> {
    match spec_read_var_int(s) {
        None => None,
        Some((n, used)) => if s.len() < used + n {
            None
        } else {
            Some((s.subrange(used as int, used + n), (used + n) as nat))
        },
    }
}

/// Appends the compact size of `number` to `write`.
pub fn write_var_int(write: &mut Vec<u8>, number: u64)
    ensures
        final(write)@ == old(write)@ + spec_var_int(number),
{
    if number <= 0xfc {
        write.push(number as u8);
        assert(write@ =~= old(write)@ + spec_var_int(number));
    } else if number <= 0xffff {
        write.push(0xfd);
        put_u16_le(write, number as u16);
        assert(write@ =~= old(write)@ + spec_var_int(number));
    } else if number <= 0xffff_ffff {
        write.push(0xfe);
        put_u32_le(write, number as u32);
        assert(write@ =~= old(write)@ + spec_var_int(number));
    } else {
        write.push(0xff);
        put_u64_le(write, number);
        assert(write@ =~= old(write)@ + spec_var_int(number));
    }
}

/// The compact size of `number` as a vector of its own.
pub fn var_int_to_vec(number: u64) -> (vec: Vec<u8>)
    ensures
        vec@ == spec_var_int(number),
        vec@.len() <= 9,
{
    let mut vec = Vec::new();
    write_var_int(&mut vec, number);
    proof {
        lemma_le_bytes_len(number as nat, 2);
        lemma_le_bytes_len(number as nat, 4);
        lemma_le_bytes_len(number as nat, 8);
        assert(vec@ =~= spec_var_int(number));
    }
    vec
}

/// Reads the compact size that starts at `pos`; gives the number and the
/// position behind it.
pub fn read_var_int(data: &[u8], pos: usize) -> (r: Result<(u64, usize), InvalidData>)
    requires
        pos <= data.len(),
    ensures
        match spec_read_var_int(data@.skip(pos as int)) {
            Some((n, used)) => r == Ok::<(u64, usize), InvalidData>((n, (pos + used) as usize))
                && pos + used <= data.len(),
            None => r == Err::<(u64, usize), InvalidData>(InvalidData::Truncated),
        },
{
    let ghost s = data@.skip(pos as int);
    if pos >= data.len() {
        return Err(InvalidData::Truncated);
    }
    let first_byte = data[pos];
    assert(s[0] == first_byte);
    if first_byte <= 0xfc {
        Ok((first_byte as u64, pos + 1))
    } else if first_byte == 0xfd {
        proof {
            if pos + 3 <= data.len() {
                assert(s.subrange(1, 3) =~= data@.subrange(pos + 1, pos + 3));
            }
        }
        match get_u16_le(data, pos + 1) {
            Some(v) => Ok((v as u64, pos + 3)),
            None => Err(InvalidData::Truncated),
        }
    } else if first_byte == 0xfe {
        proof {
            if pos + 5 <= data.len() {
                assert(s.subrange(1, 5) =~= data@.subrange(pos + 1, pos + 5));
            }
        }
        match get_u32_le(data, pos + 1) {
            Some(v) => Ok((v as u64, pos + 5)),
            None => Err(InvalidData::Truncated),
        }
    } else {
        proof {
            if pos + 9 <= data.len() {
                assert(s.subrange(1, 9) =~= data@.subrange(pos + 1, pos + 9));
            }
        }
        match get_u64_le(data, pos + 1) {
            Some(v) => Ok((v, pos + 9)),
            None => Err(InvalidData::Truncated),
        }
    }
}

/// Reading a compact size that was written from `n` gives `n` back, whatever
/// follows it.
pub proof fn lemma_var_int_round_trip(n: u64, rest: Seq<u8>)
    ensures
        spec_read_var_int(spec_var_int(n) + rest) == Some((n, spec_var_int(n).len())),
{
    let enc = spec_var_int(n);
    let s = enc + rest;
    lemma_pow256_values();
    if n <= 0xfc {
    } else if n <= 0xffff {
        lemma_le_bytes_len(n as nat, 2);
        lemma_le_value_le_bytes(n as nat, 2);
        assert(s.subrange(1, 3) =~= le_bytes(n as nat, 2));
    } else if n <= 0xffff_ffff {
        lemma_le_bytes_len(n as nat, 4);
        lemma_le_value_le_bytes(n as nat, 4);
        assert(s.subrange(1, 5) =~= le_bytes(n as nat, 4));
    } else {
        lemma_le_bytes_len(n as nat, 8);
        lemma_le_value_le_bytes(n as nat, 8);
        assert(s.subrange(1, 9) =~= le_bytes(n as nat, 8));
    }
}

/// Reading a string that was written behind its compact size gives the string
/// back, whatever follows it.
pub proof fn lemma_var_str_round_trip(string: Seq<u8>, rest: Seq<u8>)
    requires
        string.len() <= u64::MAX,
    ensures
        spec_read_var_str(spec_var_str(string) + rest) == Some(
            (string, spec_var_str(string).len()),
        ),
{
    let n = string.len() as u64;
    let enc = spec_var_int(n);
    let s = spec_var_str(string) + rest;
    assert(s =~= enc + (string + rest));
    lemma_var_int_round_trip(n, string + rest);
    assert(s.subrange(enc.len() as int, enc.len() + n) =~= string);
}

/// Reads the string behind the compact size that starts at `pos`; gives the
/// string and the position behind it.
pub fn read_var_str(data: &[u8], pos: usize) -> (r: Result<(Vec<u8>, usize), InvalidData>)
    requires
        pos <= data.len(),
    ensures
        match spec_read_var_str(data@.skip(pos as int)) {
            Some((string, used)) => r matches Ok((v, end)) && v@ == string && end == pos + used
                && end <= data.len(),
            None => r matches Err(e) && e == InvalidData::Truncated,
        },
{
    match read_var_int(data, pos) {
        Err(e) => Err(e),
        Ok((n, at)) => {
            if n > (data.len() - at) as u64 {
                return Err(InvalidData::Truncated);
            }
            let end = at + n as usize;
            let v = vstd::slice::slice_to_vec(vstd::slice::slice_subrange(data, at, end));
            assert(v@ =~= data@.skip(pos as int).subrange(at - pos, at - pos + n));
            Ok((v, end))
        },
    }
}

/// Appends `string` behind its length as a compact size.
pub fn write_var_str(write: &mut Vec<u8>, string: &[u8])
    ensures
        final(write)@ == old(write)@ + spec_var_str(string@),
{
    write_var_int(write, string.len() as u64);
    write.extend_from_slice(string);
    assert(write@ =~= old(write)@ + spec_var_str(string@));
}

/// The base-256 digits of `n`, least significant first, as many as it needs.
pub open spec fn le_min_bytes(n: nat) -> Seq<u8>
    decreases n,
{
    if n == 0 {
        Seq::empty()
    } else {
        seq![(n % 256) as u8] + le_min_bytes(n / 256)
    }
}

/// The magnitude of a script number that is not empty: its digits with the
/// sign bit of the last byte cleared.
pub open spec fn script_num_magnitude(s: Seq<u8>) -> nat {
    le_value(s.drop_last().push((s.last() % 128) as u8))
}

/// The integer that a script number denotes: little-endian magnitude, with
/// the top bit of the last byte as the sign. The empty string is zero.
pub open spec fn script_num_value(s: Seq<u8>) -> int {
    if s.len() == 0 {
        0
    } else if s.last() >= 128 {
        -(script_num_magnitude(s) as int)
    } else {
        script_num_magnitude(s) as int
    }
}

/// The minimal script number of `v`: the digits of its magnitude, with the
/// sign in the top bit of the last one, or in a byte of its own where that
/// bit is taken.
pub open spec fn script_num(v: int) -> Seq<u8> {
    let body = le_min_bytes((if v < 0 { -v } else { v }) as nat);
    if body.len() == 0 {
        body
    } else if body.last() >= 128 {
        body.push(if v < 0 { 0x80u8 } else { 0u8 })
    } else if v < 0 {
        body.update(body.len() - 1, (body.last() + 128) as u8)
    } else {
        body
    }
}

/// The fixed-width script number of `v` in `n_bytes` bytes: the magnitude in
/// all but the last, the sign in the last.
pub open spec fn script_num_n(v: int, n_bytes: nat) -> Seq<u8> {
    le_bytes((if v < 0 { -v } else { v }) as nat, (n_bytes - 1) as nat).push(
        if v < 0 { 0x80u8 } else { 0u8 },
    )
}

/// The script encoding of a boolean: `[1]` for true, the empty string for false.
pub open spec fn spec_encode_bool(b: bool) -> Seq<u8> {
    if b {
        seq![1u8]
    } else {
        Seq::empty()
    }
}

/// The digits that a number needs denote the number, and the last of them is
/// not zero.
pub proof fn lemma_le_min_bytes(n: nat)
    ensures
        le_value(le_min_bytes(n)) == n,
        n > 0 ==> le_min_bytes(n).len() > 0 && le_min_bytes(n).last() != 0,
        n == 0 ==> le_min_bytes(n).len() == 0,
    decreases n,
{
    if n > 0 {
        lemma_le_min_bytes(n / 256);
        let rest = le_min_bytes(n / 256);
        let s = le_min_bytes(n);
        assert(s.drop_first() =~= rest);
        if rest.len() > 0 {
            assert(s.last() == rest.last());
        }
    }
}

/// Digits whose last is not zero are the digits that their number needs.
pub proof fn lemma_le_min_bytes_of_value(t: Seq<u8>)
    requires
        t.len() == 0 || t.last() != 0,
    ensures
        le_min_bytes(le_value(t)) == t,
        t.len() > 0 ==> le_value(t) > 0,
    decreases t.len(),
{
    if t.len() > 0 {
        let rest = t.drop_first();
        if rest.len() > 0 {
            assert(rest.last() == t.last());
        }
        lemma_le_min_bytes_of_value(rest);
        let n = le_value(t);
        assert(n % 256 == t[0] as nat && n / 256 == le_value(rest));
        assert(le_min_bytes(n) =~= t);
    }
}

/// Zero digits at the top do not change the number.
pub proof fn lemma_le_value_take(t: Seq<u8>, k: int)
    requires
        0 <= k <= t.len(),
        forall|i: int| k <= i < t.len() ==> t[i] == 0,
    ensures
        le_value(t.take(k)) == le_value(t),
    decreases t.len() - k,
{
    if k < t.len() {
        lemma_le_value_take(t, k + 1);
        assert(t.take(k + 1) =~= t.take(k).push(0u8));
        lemma_le_value_push_zero(t.take(k));
    } else {
        assert(t.take(k) =~= t);
    }
}

/// For every integer, decoding its minimal script number gives the integer
/// back.
pub proof fn lemma_script_num_value(v: int)
    ensures
        script_num_value(script_num(v)) == v,
{
    let mag = (if v < 0 { -v } else { v }) as nat;
    let body = le_min_bytes(mag);
    lemma_le_min_bytes(mag);
    let s = script_num(v);
    if body.len() > 0 {
        if body.last() >= 128 {
            assert(s.drop_last() =~= body);
            lemma_le_value_push_zero(body);
        } else {
            assert(s.drop_last().push((s.last() % 128) as u8) =~= body);
        }
    }
}

/// Decoding the fixed-width script number of `v` gives `v`, if the width has
/// room for the magnitude.
pub proof fn lemma_script_num_n_value(v: int, n_bytes: nat)
    requires
        n_bytes >= 1,
        (if v < 0 { -v } else { v }) < pow256((n_bytes - 1) as nat),
    ensures
        script_num_n(v, n_bytes).len() == n_bytes,
        script_num_value(script_num_n(v, n_bytes)) == v,
{
    let mag = (if v < 0 { -v } else { v }) as nat;
    let body = le_bytes(mag, (n_bytes - 1) as nat);
    lemma_le_bytes_len(mag, (n_bytes - 1) as nat);
    lemma_le_value_le_bytes(mag, (n_bytes - 1) as nat);
    let s = script_num_n(v, n_bytes);
    assert(s.drop_last() =~= body);
    lemma_le_value_push_zero(body);
}

/// A greater power of 256 is a greater number.
pub proof fn lemma_pow256_grows(a: nat, b: nat)
    requires
        a <= b,
    ensures
        pow256(a) <= pow256(b),
    decreases b,
{
    if a < b {
        lemma_pow256_grows(a, (b - 1) as nat);
    }
}

/// For every integer of 32 bits and every width of at least five bytes, the
/// fixed-width script number has that width and denotes the integer.
pub proof fn lemma_encode_int_n_round_trip(value: i32, n_bytes: nat)
    requires
        n_bytes >= 5,
    ensures
        script_num_n(value as int, n_bytes).len() == n_bytes,
        script_num_value(script_num_n(value as int, n_bytes)) == value,
{
    lemma_pow256_values();
    lemma_pow256_grows(4, (n_bytes - 1) as nat);
    lemma_script_num_n_value(value as int, n_bytes);
}

/// A script number of at most four bytes denotes an integer of 32 bits.
pub proof fn lemma_short_script_num_fits(s: Seq<u8>)
    requires
        s.len() <= 4,
    ensures
        -0x8000_0000 < script_num_value(s) < 0x8000_0000,
{
    if s.len() > 0 {
        let low = s.drop_last();
        let top = (s.last() % 128) as u8;
        lemma_le_value_push(low, top);
        lemma_le_value_bound(low);
        lemma_pow256_values();
        let w = pow256(low.len());
        assert(w <= 0x100_0000) by {
            reveal_with_fuel(pow256, 5);
        }
        assert(top as nat * w <= 127 * w) by (nonlinear_arith)
            requires
                top <= 127,
        ;
    }
}

/// Encodes a boolean as a script number.
pub fn encode_bool(b: bool) -> (out: Vec<u8>)
    ensures
        out@ == spec_encode_bool(b),
{
    if b {
        vec![0x01]
    } else {
        Vec::new()
    }
}

/// The digits from `k` on denote no more than all of them do, and the
/// number they denote follows from the digit at `k` and those behind it.
pub proof fn lemma_le_value_skip(s: Seq<u8>, k: int)
    requires
        0 <= k <= s.len(),
    ensures
        le_value(s.skip(k)) <= le_value(s),
        k < s.len() ==> le_value(s.skip(k)) == s[k] as nat + 256 * le_value(s.skip(k + 1)),
    decreases k,
{
    if k < s.len() {
        assert(s.skip(k).drop_first() =~= s.skip(k + 1));
    }
    if k == 0 {
        assert(s.skip(0) =~= s);
    } else {
        lemma_le_value_skip(s.drop_first(), k - 1);
        assert(s.drop_first().skip(k - 1) =~= s.skip(k));
    }
}

/// Brings a script number into its minimal form, keeping the integer it
/// denotes: bytes at the top that hold no digit are dropped and the sign moves
/// down; zero, also negative zero, becomes the empty string.
pub fn encode_minimally(vec: &mut Vec<u8>)
    ensures
        final(vec)@ == script_num(script_num_value(old(vec)@)),
        final(vec)@.len() <= old(vec)@.len(),
{
    let n = vec.len();
    let ghost s = vec@;
    if n == 0 {
        return ;
    }
    let last = vec[n - 1];
    let ghost low = s.drop_last();
    let ghost masked = low.push((last % 128) as u8);
    assert(last & 0x7f == last % 128) by (bit_vector);
    assert((last & 0x80 != 0) == (last >= 128)) by (bit_vector);
    // If the last byte is not 0x00 or 0x80, the number is minimal.
    if last & 0x7f != 0 {
        proof {
            lemma_le_min_bytes_of_value(masked);
            assert(script_num(script_num_value(s)) =~= s);
        }
        return ;
    }
    proof {
        assert(masked =~= low.push(0u8));
        lemma_le_value_push_zero(low);
    }
    // A single byte is then zero, which is the empty string.
    if n == 1 {
        vec.clear();
        proof {
            assert(low =~= Seq::<u8>::empty());
        }
        return ;
    }
    let below = vec[n - 2];
    assert((below & 0x80 != 0) == (below >= 128)) by (bit_vector);
    // If the byte below has its top bit set, the sign byte is needed.
    if below & 0x80 != 0 {
        proof {
            lemma_le_min_bytes_of_value(low);
            assert(script_num(script_num_value(s)) =~= s);
        }
        return ;
    }
    let mut i = n - 1;
    while i > 0
        invariant
            vec@ == s,
            s == old(vec)@,
            s.len() == n,
            low == s.drop_last(),
            last == s[n - 1],
            last % 128 == 0,
            i <= n - 1,
            script_num_magnitude(s) == le_value(low),
            forall|k: int| i <= k < n - 1 ==> s[k] == 0,
        decreases i,
    {
        let digit = vec[i - 1];
        if digit != 0 {
            let ghost body = low.take(i as int);
            proof {
                lemma_le_value_take(low, i as int);
                lemma_le_min_bytes_of_value(body);
                assert(last == 0 || last == 128);
            }
            assert((digit & 0x80 != 0) == (digit >= 128)) by (bit_vector);
            if digit & 0x80 != 0 {
                // The top bit is taken: the sign gets the byte above.
                vec[i] = last;
                i += 1;
                vec.truncate(i);
                assert(vec@ =~= body.push(last));
            } else {
                // The top bit is free: the sign moves into it.
                let merged = digit | last;
                assert(merged == digit + last) by (bit_vector)
                    requires
                        merged == digit | last,
                        digit < 128,
                        last == 0 || last == 128,
                ;
                vec[i - 1] = merged;
                vec.truncate(i);
                assert(vec@ =~= body.update(body.len() - 1, merged));
                assert(last == 0 ==> vec@ =~= body);
            }
            return ;
        }
        i -= 1;
    }
    proof {
        lemma_le_value_take(low, 0);
        assert(low.take(0) =~= Seq::<u8>::empty());
    }
    vec.truncate(i);
}

/// The magnitude of `value`.
fn magnitude(value: i32) -> (m: u32)
    ensures
        m == (if value < 0 { -value } else { value as int }),
{
    if value < 0 {
        (-(value as i64)) as u32
    } else {
        value as u32
    }
}

/// The minimal script number of `value`.
pub fn encode_int(value: i32) -> (vec: Vec<u8>)
    ensures
        vec@ == script_num(value as int),
        vec@.len() <= 5,
{
    let mut vec = Vec::new();
    let m = magnitude(value);
    put_u32_le(&mut vec, m);
    if value < 0 {
        vec.push(0x80);
    }
    proof {
        let digits = le_bytes(m as nat, 4);
        lemma_pow256_values();
        lemma_le_bytes_len(m as nat, 4);
        lemma_le_value_le_bytes(m as nat, 4);
        if value < 0 {
            assert(vec@ =~= digits.push(0x80u8));
            assert(vec@.drop_last() =~= digits);
            lemma_le_value_push_zero(digits);
        } else {
            assert(vec@ =~= digits);
            reveal_with_fuel(le_bytes, 5);
            assert(digits[3] < 128);
            assert(digits.drop_last().push((digits.last() % 128) as u8) =~= digits);
        }
        assert(script_num_value(vec@) == value);
    }
    encode_minimally(&mut vec);
    vec
}

/// The script number of `value` in `n_bytes` bytes, which must leave room for
/// the four bytes of the magnitude and the byte of the sign.
pub fn encode_int_n(value: i32, n_bytes: usize) -> (vec: Vec<u8>)
    requires
        n_bytes >= 5,
    ensures
        vec@ == script_num_n(value as int, n_bytes as nat),
        vec@.len() == n_bytes,
{
    let mut vec = Vec::with_capacity(n_bytes);
    let m = magnitude(value);
    put_u32_le(&mut vec, m);
    proof {
        lemma_le_bytes_len(m as nat, 4);
        lemma_pow256_values();
        assert(vec@ =~= le_bytes(m as nat, 4));
    }
    let mut k: usize = 4;
    while k < n_bytes - 1
        invariant
            4 <= k <= n_bytes - 1,
            vec@ == le_bytes(m as nat, k as nat),
            vec@.len() == k,
            m < pow256(k as nat),
        decreases n_bytes - k,
    {
        proof {
            lemma_le_bytes_extend(m as nat, k as nat);
            assert(pow256((k + 1) as nat) == 256 * pow256(k as nat));
        }
        vec.push(0);
        k += 1;
    }
    vec.push(if value < 0 { 0x80 } else { 0 });
    vec
}

/// The integer that the script number `vec` denotes, which must be one of
/// 32 bits; every script number of at most four bytes is.
pub fn vec_to_int(vec: &[u8]) -> (value: i32)
    requires
        i32::MIN <= script_num_value(vec@) <= i32::MAX,
    ensures
        value == script_num_value(vec@),
{
    let n = vec.len();
    if n == 0 {
        return 0;
    }
    let top = vec[n - 1];
    let sign_bit = top & 0x80;
    assert((sign_bit != 0) == (top >= 128) && top ^ sign_bit == top % 128) by (bit_vector)
        requires
            sign_bit == top & 0x80,
    ;
    let ghost masked = vec@.drop_last().push((top % 128) as u8);
    let mut magnitude: u64 = 0;
    let mut i = n;
    proof {
        assert(masked.skip(n as int) =~= Seq::<u8>::empty());
    }
    while i > 0
        invariant
            i <= n,
            n == vec.len(),
            n > 0,
            top == vec[n - 1],
            masked == vec@.drop_last().push((top % 128) as u8),
            magnitude == le_value(masked.skip(i as int)),
            le_value(masked) <= 0x8000_0000,
        decreases i,
    {
        i -= 1;
        let byte = if i == n - 1 {
            assert(top ^ (top & 0x80) == top % 128) by (bit_vector);
            vec[i] ^ (top & 0x80)
        } else {
            vec[i]
        };
        proof {
            lemma_le_value_skip(masked, i as int);
            lemma_le_value_skip(masked, i + 1);
            assert(byte == masked[i as int]);
        }
        magnitude = magnitude * 256 + byte as u64;
    }
    proof {
        assert(masked.skip(0) =~= masked);
    }
    if sign_bit != 0 {
        (-(magnitude as i64)) as i32
    } else {
        magnitude as i32
    }
}

/// The low 32 bits of `n` as a signed number.
pub(crate) fn low_i32(n: u64) -> (low: i32)
    ensures
        low == n as i32,
{
    #[verifier::truncate]
    (n as i32)
}

/// The low 32 bits of `n`.
pub(crate) fn low_u32(n: u64) -> (low: u32)
    ensures
        low == n as u32,
{
    #[verifier::truncate]
    (n as u32)
}

/// The four bytes of `n`, least significant first.
pub(crate) fn u32_le(n: u32) -> (bytes: Vec<u8>)
    ensures
        bytes@ == le_bytes(n as nat, 4),
        bytes@.len() == 4,
{
    let mut bytes = Vec::new();
    put_u32_le(&mut bytes, n);
    proof {
        lemma_le_bytes_len(n as nat, 4);
        assert(bytes@ =~= le_bytes(n as nat, 4));
    }
    bytes
}

/// The four bytes of `n`, most significant first.
pub(crate) fn u32_be(n: u32) -> (bytes: Vec<u8>)
    ensures
        bytes@ == be_bytes(n as nat, 4),
        bytes@.len() == 4,
{
    let mut bytes = Vec::new();
    put_u32_be(&mut bytes, n);
    proof {
        lemma_le_bytes_len(n as nat, 4);
        assert(bytes@ =~= be_bytes(n as nat, 4));
    }
    bytes
}

/// The eight bytes of `n`, most significant first.
pub(crate) fn u64_be(n: u64) -> (bytes: Vec<u8>)
    ensures
        bytes@ == be_bytes(n as nat, 8),
        bytes@.len() == 8,
{
    let mut bytes = Vec::new();
    put_u64_be(&mut bytes, n);
    proof {
        lemma_le_bytes_len(n as nat, 8);
        assert(bytes@ =~= be_bytes(n as nat, 8));
    }
    bytes
}

} // verus!
