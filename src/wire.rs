//! The byte layout of the wire format, as spec functions over byte sequences.
use vstd::prelude::*;
use vstd::utf8::{valid_utf8, decode_utf8, encode_utf8, encode_utf8_valid_utf8, encode_utf8_decode_utf8};
use crate::endian::{le_bytes, le_value, lemma_le_round_trip, lemma_pow256_values};

verus! {

/// The zero bytes that bring a span of `n` bytes up to a multiple of four.
pub open spec fn pad_len(n: nat) -> nat {
    ((4 - (n % 4) as int) % 4) as nat
}

pub open spec fn zeros(n: nat) -> Seq<u8> {
    Seq::new(n, |i: int| 0u8)
}

/// Strings longer than this cannot be framed: their length takes three bytes.
pub open spec fn max_str_len() -> nat {
    0xff_ffff
}

/// The frame of a string whose bytes are `b`: a short or a long length header,
/// the bytes, and zero padding up to a multiple of four.
pub open spec fn str_frame(b: Seq<u8>) -> Seq<u8> {
    if b.len() <= 253 {
        seq![b.len() as u8] + b + zeros(pad_len(1 + b.len()))
    } else {
        seq![254u8] + le_bytes(b.len(), 3) + b + zeros(pad_len(4 + b.len()))
    }
}

/// What a reader takes from the front of `s` as a string: its bytes and the
/// number of bytes that the frame spans, or `None` where `s` is too short.
pub open spec fn str_span(s: Seq<u8>) -> Option<(Seq<u8>, nat)> {
    if s.len() < 1 {
        None
    } else if s[0] == 254 {
        if s.len() < 4 {
            None
        } else {
            let l = le_value(s.subrange(1, 4));
            let total = 4 + l + pad_len(4 + l);
            if s.len() < total {
                None
            } else {
                Some((s.subrange(4, 4 + l as int), total))
            }
        }
    } else {
        let l = s[0] as nat;
        let total = 1 + l + pad_len(1 + l);
        if s.len() < total {
            None
        } else {
            Some((s.subrange(1, 1 + l as int), total))
        }
    }
}

pub open spec fn u16_bytes(v: u16) -> Seq<u8> {
    le_bytes(v as nat, 2)
}

pub open spec fn u32_bytes(v: u32) -> Seq<u8> {
    le_bytes(v as nat, 4)
}

pub open spec fn u64_bytes(v: u64) -> Seq<u8> {
    le_bytes(v as nat, 8)
}

pub open spec fn i8_bytes(v: i8) -> Seq<u8> {
    seq![v as u8]
}

pub open spec fn i16_bytes(v: i16) -> Seq<u8> {
    u16_bytes(v as u16)
}

pub open spec fn i32_bytes(v: i32) -> Seq<u8> {
    u32_bytes(v as u32)
}

pub open spec fn i64_bytes(v: i64) -> Seq<u8> {
    u64_bytes(v as u64)
}

pub open spec fn u16_of(s: Seq<u8>) -> u16 {
    le_value(s) as u16
}

pub open spec fn u32_of(s: Seq<u8>) -> u32 {
    le_value(s) as u32
}

pub open spec fn u64_of(s: Seq<u8>) -> u64 {
    le_value(s) as u64
}

pub open spec fn i8_of(s: Seq<u8>) -> i8 {
    s[0] as i8
}

pub open spec fn i16_of(s: Seq<u8>) -> i16 {
    u16_of(s) as i16
}

pub open spec fn i32_of(s: Seq<u8>) -> i32 {
    u32_of(s) as i32
}

pub open spec fn i64_of(s: Seq<u8>) -> i64 {
    u64_of(s) as i64
}

/// Every fixed-width number reads back as the value written, from exactly
/// as many bytes as its width.
pub proof fn lemma_numeric_round_trip(a: u8, b: u16, c: u32, d: u64, e: i8, f: i16, g: i32, h: i64)
    ensures
        seq![a][0] == a,
        u16_bytes(b).len() == 2 && u16_of(u16_bytes(b)) == b,
        u32_bytes(c).len() == 4 && u32_of(u32_bytes(c)) == c,
        u64_bytes(d).len() == 8 && u64_of(u64_bytes(d)) == d,
        i8_bytes(e).len() == 1 && i8_of(i8_bytes(e)) == e,
        i16_bytes(f).len() == 2 && i16_of(i16_bytes(f)) == f,
        i32_bytes(g).len() == 4 && i32_of(i32_bytes(g)) == g,
        i64_bytes(h).len() == 8 && i64_of(i64_bytes(h)) == h,
{
    lemma_pow256_values();
    lemma_le_round_trip(b as nat, 2);
    lemma_le_round_trip(c as nat, 4);
    lemma_le_round_trip(d as nat, 8);
    lemma_le_round_trip((f as u16) as nat, 2);
    lemma_le_round_trip((g as u32) as nat, 4);
    lemma_le_round_trip((h as u64) as nat, 8);
    assert((e as u8) as i8 == e) by (bit_vector);
    assert((f as u16) as i16 == f) by (bit_vector);
    assert((g as u32) as i32 == g) by (bit_vector);
    assert((h as u64) as i64 == h) by (bit_vector);
}

/// A framed string spans a multiple of four bytes, starts with the short
/// header exactly when it is at most 253 bytes long, and reads back as its
/// bytes whatever follows it.
pub proof fn lemma_str_round_trip(b: Seq<u8>, rest: Seq<u8>)
    requires
        b.len() <= max_str_len(),
    ensures
        str_frame(b).len() % 4 == 0,
        b.len() <= 253 ==> str_frame(b).len() == 1 + b.len() + pad_len(1 + b.len()) && str_frame(
            b,
        )[0] == b.len(),
        b.len() > 253 ==> str_frame(b).len() == 4 + b.len() + pad_len(4 + b.len()) && str_frame(
            b,
        )[0] == 254,
        str_span(str_frame(b) + rest) == Some((b, str_frame(b).len())),
{
    let f = str_frame(b);
    let s = f + rest;
    let l = b.len();
    if l <= 253 {
        assert(f.len() == 1 + l + pad_len(1 + l));
        assert(s[0] == l as u8);
        assert(s.subrange(1, 1 + l as int) =~= b);
    } else {
        lemma_pow256_values();
        lemma_le_round_trip(l, 3);
        let h = le_bytes(l, 3);
        assert(f.len() == 4 + l + pad_len(4 + l));
        assert(s[0] == 254u8);
        assert(s.subrange(1, 4) =~= h);
        assert(s.subrange(4, 4 + l as int) =~= b);
    }
}

/// The UTF-8 bytes of any text decode back to the text; together with the
/// frame law, a string read back is the string written.
pub proof fn lemma_text_round_trip(c: Seq<char>)
    ensures
        valid_utf8(encode_utf8(c)),
        decode_utf8(encode_utf8(c)) == c,
{
    encode_utf8_valid_utf8(c);
    encode_utf8_decode_utf8(c);
}

} // verus!
