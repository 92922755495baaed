//! The wire encoding of integers and byte strings.
//!
//! Integers are big-endian and of fixed width. A byte string of variable
//! length follows its length, which is itself such an integer.

use crate::text::{decimal, push_decimal};
use vstd::prelude::*;
use vstd::string::StringExecFns;

verus! {

/// Why decoding failed.
#[derive(Clone, Copy, Debug, PartialEq, Eq)]
pub enum CodecError {
    /// The input ends before the value does.
    Io,
    /// This many bytes are left over after the value.
    BytesLeftOver(usize),
    /// A length prefix counts more bytes than the input holds.
    LengthPrefixTooBig(usize),
    /// A byte that selects a variant has no variant to select.
    UnexpectedValue,
}

impl CodecError {
    /// What the error displays as.
    pub open spec fn text(self) -> Seq<char> {
        match self {
            CodecError::Io => "I/O error"@,
            CodecError::BytesLeftOver(n) => decimal(n as nat)
                + " bytes left in buffer after decoding value"@,
            CodecError::LengthPrefixTooBig(n) => "length prefix of encoded vector overflows buffer: "@
                + decimal(n as nat),
            CodecError::UnexpectedValue => "unexpected value"@,
        }
    }

    /// The error as text.
    pub fn to_string(&self) -> (s: String)
        ensures
            s@ == self.text(),
    {
        match self {
            CodecError::Io => String::from_str("I/O error"),
            CodecError::BytesLeftOver(n) => {
                let mut s = String::new();
                push_decimal(&mut s, *n as u64);
                s.append(" bytes left in buffer after decoding value");
                assert(s@ =~= self.text());
                s
            },
            CodecError::LengthPrefixTooBig(n) => {
                let mut s = String::from_str("length prefix of encoded vector overflows buffer: ");
                push_decimal(&mut s, *n as u64);
                s
            },
            CodecError::UnexpectedValue => String::from_str("unexpected value"),
        }
    }
}

/// The two-byte big-endian encoding of `x`.
pub open spec fn u16_be(x: u16) -> Seq<u8> {
    seq![(x / 0x100) as u8, (x % 0x100) as u8]
}

/// The four-byte big-endian encoding of `x`.
pub open spec fn u32_be(x: u32) -> Seq<u8> {
    seq![
        (x / 0x100_0000) as u8,
        (x / 0x1_0000 % 0x100) as u8,
        (x / 0x100 % 0x100) as u8,
        (x % 0x100) as u8,
    ]
}

/// The eight-byte big-endian encoding of `x`.
pub open spec fn u64_be(x: u64) -> Seq<u8> {
    seq![
        (x / 0x100_0000_0000_0000) as u8,
        (x / 0x1_0000_0000_0000 % 0x100) as u8,
        (x / 0x100_0000_0000 % 0x100) as u8,
        (x / 0x1_0000_0000 % 0x100) as u8,
        (x / 0x100_0000 % 0x100) as u8,
        (x / 0x1_0000 % 0x100) as u8,
        (x / 0x100 % 0x100) as u8,
        (x % 0x100) as u8,
    ]
}

/// The integer that the first two bytes of `b` encode.
pub open spec fn u16_from_be(b: Seq<u8>) -> u16 {
    (b[0] * 0x100 + b[1]) as u16
}

/// The integer that the first four bytes of `b` encode.
pub open spec fn u32_from_be(b: Seq<u8>) -> u32 {
    (b[0] * 0x100_0000 + b[1] * 0x1_0000 + b[2] * 0x100 + b[3]) as u32
}

/// The integer that the first eight bytes of `b` encode.
pub open spec fn u64_from_be(b: Seq<u8>) -> u64 {
    (b[0] * 0x100_0000_0000_0000 + b[1] * 0x1_0000_0000_0000 + b[2] * 0x100_0000_0000 + b[3]
        * 0x1_0000_0000 + b[4] * 0x100_0000 + b[5] * 0x1_0000 + b[6] * 0x100 + b[7]) as u64
}

/// Decoding what was encoded gives the integer back.
pub proof fn lemma_u16_roundtrip(x: u16)
    ensures
        u16_be(x).len() == 2,
        u16_from_be(u16_be(x)) == x,
{
}

/// Decoding what was encoded gives the integer back.
pub proof fn lemma_u32_roundtrip(x: u32)
    ensures
        u32_be(x).len() == 4,
        u32_from_be(u32_be(x)) == x,
{
    assert(x == (x / 0x100_0000) * 0x100_0000 + (x / 0x1_0000 % 0x100) * 0x1_0000 + (x / 0x100
        % 0x100) * 0x100 + (x % 0x100)) by (bit_vector);
    assert(x / 0x100_0000 < 0x100) by (bit_vector);
}

/// Decoding what was encoded gives the integer back.
pub proof fn lemma_u64_roundtrip(x: u64)
    ensures
        u64_be(x).len() == 8,
        u64_from_be(u64_be(x)) == x,
{
    assert(x == (x / 0x100_0000_0000_0000) * 0x100_0000_0000_0000 + (x / 0x1_0000_0000_0000
        % 0x100) * 0x1_0000_0000_0000 + (x / 0x100_0000_0000 % 0x100) * 0x100_0000_0000 + (x
        / 0x1_0000_0000 % 0x100) * 0x1_0000_0000 + (x / 0x100_0000 % 0x100) * 0x100_0000 + (x
        / 0x1_0000 % 0x100) * 0x1_0000 + (x / 0x100 % 0x100) * 0x100 + (x % 0x100))
        by (bit_vector);
    assert(x / 0x100_0000_0000_0000 < 0x100) by (bit_vector);
}

/// Encoding what was decoded gives the bytes back.
pub proof fn lemma_u16_bytes_roundtrip(b: Seq<u8>)
    requires
        b.len() == 2,
    ensures
        u16_be(u16_from_be(b)) == b,
{
    assert(u16_be(u16_from_be(b)) =~= b);
}

/// Encoding what was decoded gives the bytes back.
pub proof fn lemma_u32_bytes_roundtrip(b: Seq<u8>)
    requires
        b.len() == 4,
    ensures
        u32_be(u32_from_be(b)) == b,
{
    let b0 = b[0];
    let b1 = b[1];
    let b2 = b[2];
    let b3 = b[3];
    let x = u32_from_be(b);
    assert(x == b0 * 0x100_0000 + b1 * 0x1_0000 + b2 * 0x100 + b3);
    assert(x == (b0 as u32) * 0x100_0000 + (b1 as u32) * 0x1_0000 + (b2 as u32) * 0x100 + (b3 as u32) ==> {
        &&& x / 0x100_0000 == b0 as u32
        &&& x / 0x1_0000 % 0x100 == b1 as u32
        &&& x / 0x100 % 0x100 == b2 as u32
        &&& x % 0x100 == b3 as u32
    }) by (bit_vector);
    assert(u32_be(x) =~= b);
}

/// Encoding what was decoded gives the bytes back.
pub proof fn lemma_u64_bytes_roundtrip(b: Seq<u8>)
    requires
        b.len() == 8,
    ensures
        u64_be(u64_from_be(b)) == b,
{
    let b0 = b[0];
    let b1 = b[1];
    let b2 = b[2];
    let b3 = b[3];
    let b4 = b[4];
    let b5 = b[5];
    let b6 = b[6];
    let b7 = b[7];
    let x = u64_from_be(b);
    assert(x == b0 * 0x100_0000_0000_0000 + b1 * 0x1_0000_0000_0000 + b2 * 0x100_0000_0000 + b3
        * 0x1_0000_0000 + b4 * 0x100_0000 + b5 * 0x1_0000 + b6 * 0x100 + b7);
    assert(x == (b0 as u64) * 0x100_0000_0000_0000 + (b1 as u64) * 0x1_0000_0000_0000 + (b2 as u64)
        * 0x100_0000_0000 + (b3 as u64) * 0x1_0000_0000 + (b4 as u64) * 0x100_0000 + (b5 as u64)
        * 0x1_0000 + (b6 as u64) * 0x100 + (b7 as u64) ==> {
        &&& x / 0x100_0000_0000_0000 == b0 as u64
        &&& x / 0x1_0000_0000_0000 % 0x100 == b1 as u64
        &&& x / 0x100_0000_0000 % 0x100 == b2 as u64
        &&& x / 0x1_0000_0000 % 0x100 == b3 as u64
        &&& x / 0x100_0000 % 0x100 == b4 as u64
        &&& x / 0x1_0000 % 0x100 == b5 as u64
        &&& x / 0x100 % 0x100 == b6 as u64
        &&& x % 0x100 == b7 as u64
    }) by (bit_vector);
    assert(u64_be(x) =~= b);
}

/// Append `data` to `bytes`.
pub fn put_bytes(bytes: &mut Vec<u8>, data: &[u8])
    ensures
        final(bytes)@ == old(bytes)@ + data@,
{
    let mut i: usize = 0;
    while i < data.len()
        invariant
            i <= data@.len(),
            bytes@ == old(bytes)@ + data@.subrange(0, i as int),
        decreases data@.len() - i,
    {
        bytes.push(data[i]);
        assert(bytes@ =~= old(bytes)@ + data@.subrange(0, i + 1));
        i += 1;
    }
    assert(data@.subrange(0, i as int) =~= data@);
}

/// Append the encoding of `x` to `bytes`.
pub fn put_u16(bytes: &mut Vec<u8>, x: u16)
    ensures
        final(bytes)@ == old(bytes)@ + u16_be(x),
{
    bytes.push((x / 0x100) as u8);
    bytes.push((x % 0x100) as u8);
    assert(bytes@ =~= old(bytes)@ + u16_be(x));
}

/// Append the encoding of `x` to `bytes`.
pub fn put_u32(bytes: &mut Vec<u8>, x: u32)
    ensures
        final(bytes)@ == old(bytes)@ + u32_be(x),
{
    bytes.push((x / 0x100_0000) as u8);
    bytes.push((x / 0x1_0000 % 0x100) as u8);
    bytes.push((x / 0x100 % 0x100) as u8);
    bytes.push((x % 0x100) as u8);
    assert(bytes@ =~= old(bytes)@ + u32_be(x));
}

/// Append the encoding of `x` to `bytes`.
pub fn put_u64(bytes: &mut Vec<u8>, x: u64)
    ensures
        final(bytes)@ == old(bytes)@ + u64_be(x),
{
    bytes.push((x / 0x100_0000_0000_0000) as u8);
    bytes.push((x / 0x1_0000_0000_0000 % 0x100) as u8);
    bytes.push((x / 0x100_0000_0000 % 0x100) as u8);
    bytes.push((x / 0x1_0000_0000 % 0x100) as u8);
    bytes.push((x / 0x100_0000 % 0x100) as u8);
    bytes.push((x / 0x1_0000 % 0x100) as u8);
    bytes.push((x / 0x100 % 0x100) as u8);
    bytes.push((x % 0x100) as u8);
    assert(bytes@ =~= old(bytes)@ + u64_be(x));
}

/// Read one byte at `pos`.
pub fn take_u8(bytes: &[u8], pos: usize) -> (r: Result<(u8, usize), CodecError>)
    requires
        pos <= bytes@.len(),
    ensures
        match r {
            Ok((x, next)) => pos < bytes@.len() && next == pos + 1 && x == bytes@[pos as int],
            Err(e) => pos == bytes@.len() && e is Io,
        },
{
    if pos < bytes.len() {
        Ok((bytes[pos], pos + 1))
    } else {
        Err(CodecError::Io)
    }
}

/// Read a two-byte integer at `pos`.
pub fn take_u16(bytes: &[u8], pos: usize) -> (r: Result<(u16, usize), CodecError>)
    requires
        pos <= bytes@.len(),
    ensures
        match r {
            Ok((x, next)) => {
                &&& pos + 2 <= bytes@.len()
                &&& next == pos + 2
                &&& x == u16_from_be(bytes@.subrange(pos as int, pos + 2))
            },
            Err(e) => pos + 2 > bytes@.len() && e is Io,
        },
{
    if bytes.len() - pos < 2 {
        return Err(CodecError::Io);
    }
    let x: u16 = (bytes[pos] as u16) * 0x100 + (bytes[pos + 1] as u16);
    Ok((x, pos + 2))
}

/// Read a four-byte integer at `pos`.
pub fn take_u32(bytes: &[u8], pos: usize) -> (r: Result<(u32, usize), CodecError>)
    requires
        pos <= bytes@.len(),
    ensures
        match r {
            Ok((x, next)) => {
                &&& pos + 4 <= bytes@.len()
                &&& next == pos + 4
                &&& x == u32_from_be(bytes@.subrange(pos as int, pos + 4))
            },
            Err(e) => pos + 4 > bytes@.len() && e is Io,
        },
{
    if bytes.len() - pos < 4 {
        return Err(CodecError::Io);
    }
    let x: u32 = (bytes[pos] as u32) * 0x100_0000 + (bytes[pos + 1] as u32) * 0x1_0000 + (bytes[pos
        + 2] as u32) * 0x100 + (bytes[pos + 3] as u32);
    Ok((x, pos + 4))
}

/// Read an eight-byte integer at `pos`.
pub fn take_u64(bytes: &[u8], pos: usize) -> (r: Result<(u64, usize), CodecError>)
    requires
        pos <= bytes@.len(),
    ensures
        match r {
            Ok((x, next)) => {
                &&& pos + 8 <= bytes@.len()
                &&& next == pos + 8
                &&& x == u64_from_be(bytes@.subrange(pos as int, pos + 8))
            },
            Err(e) => pos + 8 > bytes@.len() && e is Io,
        },
{
    if bytes.len() - pos < 8 {
        return Err(CodecError::Io);
    }
    let x: u64 = (bytes[pos] as u64) * 0x100_0000_0000_0000 + (bytes[pos + 1] as u64)
        * 0x1_0000_0000_0000 + (bytes[pos + 2] as u64) * 0x100_0000_0000 + (bytes[pos + 3] as u64)
        * 0x1_0000_0000 + (bytes[pos + 4] as u64) * 0x100_0000 + (bytes[pos + 5] as u64) * 0x1_0000
        + (bytes[pos + 6] as u64) * 0x100 + (bytes[pos + 7] as u64);
    Ok((x, pos + 8))
}

/// Read `n` bytes at `pos`.
pub fn take_bytes(bytes: &[u8], pos: usize, n: usize) -> (r: Result<(Vec<u8>, usize), CodecError>)
    requires
        pos <= bytes@.len(),
    ensures
        match r {
            Ok((data, next)) => {
                &&& pos + n <= bytes@.len()
                &&& next == pos + n
                &&& data@ == bytes@.subrange(pos as int, pos + n)
            },
            Err(e) => pos + n > bytes@.len() && e is Io,
        },
{
    if bytes.len() - pos < n {
        return Err(CodecError::Io);
    }
    let mut data: Vec<u8> = Vec::new();
    let mut i: usize = 0;
    while i < n
        invariant
            i <= n,
            pos + n <= bytes@.len() <= usize::MAX,
            data@ == bytes@.subrange(pos as int, pos + i),
        decreases n - i,
    {
        data.push(bytes[pos + i]);
        assert(data@ =~= bytes@.subrange(pos as int, pos + i + 1));
        i += 1;
    }
    Ok((data, pos + n))
}

} // verus!
