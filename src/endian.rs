//! Little-endian unsigned integers of one to eight bytes.
use vstd::prelude::*;

verus! {

/// `256` raised to `w`: the number of distinct values in `w` bytes.
pub open spec fn pow256(w: nat) -> nat
    decreases w,
{
    if w == 0 {
        1
    } else {
        256 * pow256((w - 1) as nat)
    }
}

/// The `w` bytes of `n`, least significant first.
pub open spec fn le_bytes(n: nat, w: nat) -> Seq<u8>
    decreases w,
{
    if w == 0 {
        Seq::empty()
    } else {
        seq![(n % 256) as u8] + le_bytes(n / 256, (w - 1) as nat)
    }
}

/// The number whose bytes, least significant first, are `s`.
pub open spec fn le_value(s: Seq<u8>) -> nat
    decreases s.len(),
{
    if s.len() == 0 {
        0
    } else {
        s[0] as nat + 256 * le_value(s.drop_first())
    }
}

pub proof fn lemma_le_bytes_len(n: nat, w: nat)
    ensures
        le_bytes(n, w).len() == w,
    decreases w,
{
    if w > 0 {
        lemma_le_bytes_len(n / 256, (w - 1) as nat);
    }
}

/// Reading back the bytes of a number that fits gives the number.
pub proof fn lemma_le_round_trip(n: nat, w: nat)
    requires
        n < pow256(w),
    ensures
        le_bytes(n, w).len() == w,
        le_value(le_bytes(n, w)) == n,
    decreases w,
{
    lemma_le_bytes_len(n, w);
    if w > 0 {
        let rest = le_bytes(n / 256, (w - 1) as nat);
        assert(n / 256 < pow256((w - 1) as nat)) by (nonlinear_arith)
            requires
                n < 256 * pow256((w - 1) as nat),
        ;
        lemma_le_round_trip(n / 256, (w - 1) as nat);
        assert(le_bytes(n, w).drop_first() =~= rest);
        assert(n == n % 256 + 256 * (n / 256)) by (nonlinear_arith);
    } else {
        assert(n == 0);
    }
}

/// The value of `w` bytes is below `256` raised to `w`.
pub proof fn lemma_le_value_bound(s: Seq<u8>)
    ensures
        le_value(s) < pow256(s.len()),
    decreases s.len(),
{
    if s.len() > 0 {
        lemma_le_value_bound(s.drop_first());
        let r = le_value(s.drop_first());
        let p = pow256((s.len() - 1) as nat);
        assert(s[0] as nat + 256 * r < 256 * p) by (nonlinear_arith)
            requires
                r < p,
                s[0] < 256,
        ;
    }
}

pub proof fn lemma_pow256_values()
    ensures
        pow256(1) == 0x100,
        pow256(2) == 0x1_0000,
        pow256(3) == 0x100_0000,
        pow256(4) == 0x1_0000_0000,
        pow256(8) == 0x1_0000_0000_0000_0000,
{
    reveal_with_fuel(pow256, 9);
}

/// Relies on byteorder's `LittleEndian::write_uint`: it stores the low
/// `width` bytes of `v`, least significant first.
#[verifier::external_body]
fn write_uint_le(v: u64, width: usize) -> (r: Vec<u8>)
    requires
        1 <= width <= 8,
        (v as nat) < pow256(width as nat),
    ensures
        r@ == le_bytes(v as nat, width as nat),
{
    let mut buf = vec![0u8; width];
    <byteorder::LittleEndian as byteorder::ByteOrder>::write_uint(&mut buf, v, width);
    buf
}

/// Relies on byteorder's `LittleEndian::read_uint`: it reads the first
/// `width` bytes of `buf` as an unsigned number, least significant first.
#[verifier::external_body]
fn read_uint_le(buf: &[u8], width: usize) -> (r: u64)
    requires
        1 <= width <= 8,
        width <= buf@.len(),
    ensures
        r as nat == le_value(buf@.subrange(0, width as int)),
{
    <byteorder::LittleEndian as byteorder::ByteOrder>::read_uint(buf, width)
}

/// Appends the `width` bytes of `v`, least significant first.
pub fn put_uint(out: &mut Vec<u8>, v: u64, width: usize)
    requires
        1 <= width <= 8,
        (v as nat) < pow256(width as nat),
    ensures
        final(out)@ == old(out)@ + le_bytes(v as nat, width as nat),
{
    let mut bytes = write_uint_le(v, width);
    out.append(&mut bytes);
}

/// Reads `width` bytes at `pos` as a little-endian number.
pub fn get_uint(buf: &[u8], pos: usize, width: usize) -> (r: u64)
    requires
        1 <= width <= 8,
        pos + width <= buf@.len(),
    ensures
        r as nat == le_value(buf@.subrange(pos as int, pos + width)),
{
    let tail = slice_from(buf, pos);
    assert(tail@.subrange(0, width as int) =~= buf@.subrange(pos as int, pos + width));
    read_uint_le(tail, width)
}

fn slice_from(buf: &[u8], pos: usize) -> (r: &[u8])
    requires
        pos <= buf@.len(),
    ensures
        r@ == buf@.subrange(pos as int, buf@.len() as int),
{
    buf.split_at(pos).1
}

} // verus!
