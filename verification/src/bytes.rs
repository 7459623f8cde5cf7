//! The primitive readers of the binary replay format: little-endian
//! integers, base-128 lengths and length-prefixed text.
//!
//! Every reader takes the whole buffer and a position, and gives the value
//! together with the position after it.

use vstd::prelude::*;
use vstd::utf8::{decode_utf8, valid_utf8};
use crate::error::{invalid, truncated, DecodeError, Field};

verus! {

/// A value that was read, and the position after it.
pub type Read<T> = Result<(T, usize), DecodeError>;

/// The marker byte of a text that is present.
pub const TEXT_PRESENT: u8 = 0x0b;

/// The number that the two bytes at `pos` stand for, least significant first.
pub open spec fn u16_at(data: Seq<u8>, pos: int) -> u16 {
    (data[pos] as int + data[pos + 1] as int * 0x100) as u16
}

/// The number that the four bytes at `pos` stand for, least significant first.
pub open spec fn u32_at(data: Seq<u8>, pos: int) -> u32 {
    (data[pos] as int + data[pos + 1] as int * 0x100 + data[pos + 2] as int * 0x1_0000 + data[pos
        + 3] as int * 0x100_0000) as u32
}

/// The number that the eight bytes at `pos` stand for, least significant first.
pub open spec fn u64_at(data: Seq<u8>, pos: int) -> u64 {
    (u32_at(data, pos) as int + u32_at(data, pos + 4) as int * 0x1_0000_0000) as u64
}

/// One byte at `pos`.
pub open spec fn byte_read(data: Seq<u8>, pos: usize, field: Field) -> Read<u8> {
    if pos + 1 <= data.len() {
        Ok((data[pos as int], (pos + 1) as usize))
    } else {
        Err(truncated(field))
    }
}

/// Two bytes at `pos`, least significant first.
pub open spec fn short_read(data: Seq<u8>, pos: usize, field: Field) -> Read<u16> {
    if pos + 2 <= data.len() {
        Ok((u16_at(data, pos as int), (pos + 2) as usize))
    } else {
        Err(truncated(field))
    }
}

/// Four bytes at `pos`, least significant first.
pub open spec fn int_read(data: Seq<u8>, pos: usize, field: Field) -> Read<u32> {
    if pos + 4 <= data.len() {
        Ok((u32_at(data, pos as int), (pos + 4) as usize))
    } else {
        Err(truncated(field))
    }
}

/// Eight bytes at `pos`, least significant first.
pub open spec fn long_read(data: Seq<u8>, pos: usize, field: Field) -> Read<u64> {
    if pos + 8 <= data.len() {
        Ok((u64_at(data, pos as int), (pos + 8) as usize))
    } else {
        Err(truncated(field))
    }
}

/// The index of the first byte at or after `pos` whose high bit is clear:
/// the last byte of the base-128 number that starts at `pos`. The length of
/// `data` where every byte from `pos` on has its high bit set.
pub open spec fn varint_last(data: Seq<u8>, pos: int) -> int
    decreases data.len() - pos,
{
    if pos < 0 || pos >= data.len() {
        data.len() as int
    } else if data[pos] < 0x80 {
        pos
    } else {
        varint_last(data, pos + 1)
    }
}

/// 128 to the power of `n`.
pub open spec fn pow128(n: nat) -> nat
    decreases n,
{
    if n == 0 {
        1
    } else {
        128 * pow128((n - 1) as nat)
    }
}

/// The number that the first `n` bytes from `pos` on stand for in base 128:
/// seven bits a byte, the least significant group first.
pub open spec fn varint_value(data: Seq<u8>, pos: int, n: nat) -> nat
    decreases n,
{
    if n == 0 {
        0
    } else {
        varint_value(data, pos, (n - 1) as nat) + (data[pos + n - 1] % 0x80) as nat * pow128(
            (n - 1) as nat,
        )
    }
}

/// A number in base 128 at `pos`. A number that does not fit in 64 bits has
/// no value here: no buffer is that long, and its only use is as a length.
pub open spec fn varint_read(data: Seq<u8>, pos: usize, field: Field) -> Read<Option<u64>> {
    let last = varint_last(data, pos as int);
    if last >= data.len() {
        Err(truncated(field))
    } else {
        let v = varint_value(data, pos as int, (last - pos + 1) as nat);
        Ok(
            (
                if v <= u64::MAX {
                    Some(v as u64)
                } else {
                    None
                },
                (last + 1) as usize,
            ),
        )
    }
}

/// A text at `pos`: a marker byte; where the marker says that a text is
/// present, its length in bytes as a number in base 128, then that many
/// bytes of UTF-8. An absent text is empty.
pub open spec fn text_read(data: Seq<u8>, pos: usize, field: Field) -> Read<Seq<char>> {
    match byte_read(data, pos, field) {
        Err(e) => Err(e),
        Ok((marker, start)) => if marker != TEXT_PRESENT {
            Ok((Seq::empty(), start))
        } else {
            match varint_read(data, start, field) {
                Err(e) => Err(e),
                Ok((None, _)) => Err(truncated(field)),
                Ok((Some(n), from)) => if from + n > data.len() {
                    Err(truncated(field))
                } else {
                    let raw = data.subrange(from as int, from + n);
                    if valid_utf8(raw) {
                        Ok((decode_utf8(raw), (from + n) as usize))
                    } else {
                        Err(invalid(field))
                    }
                },
            }
        },
    }
}

/// The last byte of a base-128 number lies at or after its first, and no byte
/// before it has its high bit clear.
pub(crate) proof fn lemma_varint_last(data: Seq<u8>, pos: int)
    requires
        0 <= pos <= data.len(),
    ensures
        pos <= varint_last(data, pos) <= data.len(),
        varint_last(data, pos) < data.len() ==> data[varint_last(data, pos)] < 0x80,
        forall|k: int| pos <= k < varint_last(data, pos) ==> data[k] >= 0x80,
    decreases data.len() - pos,
{
    if pos < data.len() && data[pos] >= 0x80 {
        lemma_varint_last(data, pos + 1);
    }
}

/// The powers of 128 grow, from one on.
proof fn lemma_pow128_grows(a: nat, b: nat)
    requires
        a <= b,
    ensures
        pow128(a) <= pow128(b),
        pow128(a) >= 1,
    decreases b,
{
    if a < b {
        lemma_pow128_grows(a, (b - 1) as nat);
    } else if a > 0 {
        lemma_pow128_grows((a - 1) as nat, (a - 1) as nat);
    }
}

/// `String::from_utf8` gives the text that the bytes encode, and refuses
/// exactly the byte sequences that are no UTF-8.
#[verifier::external_body]
pub(crate) fn text_from_utf8(raw: Vec<u8>) -> (r: Option<String>)
    ensures
        r is Some <==> valid_utf8(raw@),
        r is Some ==> r->0@ == decode_utf8(raw@),
{
    match String::from_utf8(raw) {
        Ok(text) => Some(text),
        Err(_) => None,
    }
}

/// A copy of the bytes of `data` from index `from` up to, not including, `to`.
pub fn copy_bytes(data: &[u8], from: usize, to: usize) -> (r: Vec<u8>)
    requires
        from <= to <= data.len(),
    ensures
        r@ == data@.subrange(from as int, to as int),
{
    let mut out: Vec<u8> = Vec::new();
    let mut i: usize = from;
    while i < to
        invariant
            from <= i <= to <= data.len(),
            out@ == data@.subrange(from as int, i as int),
        decreases to - i,
    {
        out.push(data[i]);
        i += 1;
    }
    out
}

/// One byte at `pos`.
pub fn read_byte(data: &[u8], pos: usize, field: Field) -> (r: Read<u8>)
    ensures
        r == byte_read(data@, pos, field),
{
    if pos < data.len() {
        Ok((data[pos], pos + 1))
    } else {
        Err(DecodeError::truncated(field))
    }
}

/// Two bytes at `pos`, least significant first.
pub fn read_short(data: &[u8], pos: usize, field: Field) -> (r: Read<u16>)
    ensures
        r == short_read(data@, pos, field),
{
    if data.len() >= 2 && pos <= data.len() - 2 {
        let v: u16 = data[pos] as u16 + data[pos + 1] as u16 * 0x100;
        Ok((v, pos + 2))
    } else {
        Err(DecodeError::truncated(field))
    }
}

/// Four bytes at `pos`, least significant first.
pub fn read_int(data: &[u8], pos: usize, field: Field) -> (r: Read<u32>)
    ensures
        r == int_read(data@, pos, field),
{
    if data.len() >= 4 && pos <= data.len() - 4 {
        let v: u32 = data[pos] as u32 + data[pos + 1] as u32 * 0x100 + data[pos + 2] as u32
            * 0x1_0000 + data[pos + 3] as u32 * 0x100_0000;
        Ok((v, pos + 4))
    } else {
        Err(DecodeError::truncated(field))
    }
}

/// Eight bytes at `pos`, least significant first.
pub fn read_long(data: &[u8], pos: usize, field: Field) -> (r: Read<u64>)
    ensures
        r == long_read(data@, pos, field),
{
    if data.len() >= 8 && pos <= data.len() - 8 {
        let lo: u32 = data[pos] as u32 + data[pos + 1] as u32 * 0x100 + data[pos + 2] as u32
            * 0x1_0000 + data[pos + 3] as u32 * 0x100_0000;
        let hi: u32 = data[pos + 4] as u32 + data[pos + 5] as u32 * 0x100 + data[pos + 6] as u32
            * 0x1_0000 + data[pos + 7] as u32 * 0x100_0000;
        let v: u64 = lo as u64 + hi as u64 * 0x1_0000_0000;
        Ok((v, pos + 8))
    } else {
        Err(DecodeError::truncated(field))
    }
}

/// A number that fits in 64 bits, or nothing.
pub open spec fn within_u64(v: nat) -> Option<u64> {
    if v <= u64::MAX {
        Some(v as u64)
    } else {
        None
    }
}

fn pow128_of(n: usize) -> (r: u64)
    requires
        n <= 9,
    ensures
        r == pow128(n as nat),
{
    proof {
        reveal_with_fuel(pow128, 11);
    }
    match n {
        0 => 1,
        1 => 0x80,
        2 => 0x4000,
        3 => 0x20_0000,
        4 => 0x1000_0000,
        5 => 0x8_0000_0000,
        6 => 0x400_0000_0000,
        7 => 0x2_0000_0000_0000,
        8 => 0x100_0000_0000_0000,
        _ => 0x8000_0000_0000_0000,
    }
}

proof fn lemma_pow128_ten(n: nat)
    requires
        n >= 10,
    ensures
        pow128(n) > u64::MAX,
{
    assert(pow128(10) == 0x40_0000_0000_0000_0000) by {
        reveal_with_fuel(pow128, 11);
    }
    lemma_pow128_grows(10, n);
}

/// Adds the group of place `n` to a running total.
fn add_group(total: Option<u64>, group: u8, n: usize, Ghost(before): Ghost<nat>) -> (r: Option<
    u64,
>)
    requires
        group < 0x80,
        total == within_u64(before),
    ensures
        r == within_u64(before + group as nat * pow128(n as nat)),
{
    match total {
        None => {
            None
        },
        Some(acc) => {
            if group == 0 {
                assert(group as nat * pow128(n as nat) == 0) by (nonlinear_arith)
                    requires
                        group == 0,
                ;
                Some(acc)
            } else if n >= 10 {
                proof {
                    lemma_pow128_ten(n as nat);
                    assert(group as nat * pow128(n as nat) > u64::MAX) by (nonlinear_arith)
                        requires
                            group >= 1,
                            pow128(n as nat) > u64::MAX,
                    ;
                }
                None
            } else {
                let scale = pow128_of(n);
                proof {
                    lemma_pow128_grows(n as nat, 9);
                    reveal_with_fuel(pow128, 11);
                    assert(group as nat * scale as nat <= 0x7f * 0x8000_0000_0000_0000)
                        by (nonlinear_arith)
                        requires
                            group <= 0x7f,
                            scale <= 0x8000_0000_0000_0000,
                    ;
                }
                let term: u128 = group as u128 * scale as u128;
                if acc as u128 + term > u64::MAX as u128 {
                    None
                } else {
                    Some((acc as u128 + term) as u64)
                }
            }
        },
    }
}

/// A number in base 128 at `pos`; nothing for a number that does not fit in
/// 64 bits.
pub fn read_varint(data: &[u8], pos: usize, field: Field) -> (r: Read<Option<u64>>)
    ensures
        r == varint_read(data@, pos, field),
        r is Ok ==> pos < r->Ok_0.1 <= data.len(),
{
    if pos >= data.len() {
        return Err(DecodeError::truncated(field));
    }
    let mut p: usize = pos;
    let mut total: Option<u64> = Some(0);
    while p < data.len() && data[p] >= 0x80
        invariant
            pos <= p,
            pos <= data.len(),
            varint_last(data@, pos as int) == varint_last(data@, p as int),
            total == within_u64(varint_value(data@, pos as int, (p - pos) as nat)),
        decreases data.len() - p,
    {
        total = add_group(
            total,
            data[p] % 0x80,
            p - pos,
            Ghost(varint_value(data@, pos as int, (p - pos) as nat)),
        );
        p += 1;
    }
    if p >= data.len() {
        return Err(DecodeError::truncated(field));
    }
    total = add_group(
        total,
        data[p] % 0x80,
        p - pos,
        Ghost(varint_value(data@, pos as int, (p - pos) as nat)),
    );
    Ok((total, p + 1))
}

/// A text at `pos`: empty where the marker says that it is absent.
pub fn read_text(data: &[u8], pos: usize, field: Field) -> (r: Result<
    (String, usize),
    DecodeError,
>)
    ensures
        match r {
            Ok((text, next)) => text_read(data@, pos, field) == Ok::<
                (Seq<char>, usize),
                DecodeError,
            >((text@, next)),
            Err(e) => text_read(data@, pos, field) == Err::<(Seq<char>, usize), DecodeError>(e),
        },
{
    let (marker, start) = read_byte(data, pos, field)?;
    if marker != TEXT_PRESENT {
        return Ok((String::new(), start));
    }
    let (length, from) = read_varint(data, start, field)?;
    match length {
        None => Err(DecodeError::truncated(field)),
        Some(n) => {
            if n > (data.len() - from) as u64 {
                return Err(DecodeError::truncated(field));
            }
            let raw = copy_bytes(data, from, from + n as usize);
            match text_from_utf8(raw) {
                Some(text) => Ok((text, from + n as usize)),
                None => Err(DecodeError::invalid(field)),
            }
        },
    }
}

} // verus!
