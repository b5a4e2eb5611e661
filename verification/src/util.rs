//! Alignment arithmetic, zero padding and little-endian encoding.

use vstd::prelude::*;

verus! {

/// How far `value` lies below the next multiple of `box_size`.
pub open spec fn spec_alignment_needed(value: int, box_size: int) -> int {
    (box_size - value % box_size) % box_size
}

/// The smallest multiple of `box_size` that is not below `value`.
pub open spec fn spec_align_to(value: int, box_size: int) -> int {
    value + spec_alignment_needed(value, box_size)
}

/// The largest multiple of `box_size` that is not above `value`.
pub open spec fn spec_align_down(value: int, box_size: int) -> int {
    value - value % box_size
}

/// A run of `n` zero bytes.
pub open spec fn zeros(n: nat) -> Seq<u8> {
    Seq::new(n, |i: int| 0u8)
}

/// For a non-negative value and a positive box, the padding is below the box
/// and brings the value onto a multiple of the box; no smaller amount does.
pub proof fn lemma_alignment_needed(value: int, box_size: int)
    requires
        0 <= value,
        0 < box_size,
    ensures
        0 <= spec_alignment_needed(value, box_size) < box_size,
        spec_align_to(value, box_size) % box_size == 0,
        value % box_size == 0 ==> spec_alignment_needed(value, box_size) == 0,
        forall|m: int|
            value <= m < spec_align_to(value, box_size) ==> #[trigger] (m % box_size) != 0,
{
    let r = value % box_size;
    let q = value / box_size;
    assert(value == box_size * q + r && 0 <= r < box_size) by (nonlinear_arith)
        requires
            r == value % box_size,
            q == value / box_size,
            0 < box_size,
    ;
    if r == 0 {
        assert((box_size - r) % box_size == 0) by (nonlinear_arith)
            requires
                r == 0,
                0 < box_size,
        ;
    } else {
        assert((box_size - r) % box_size == box_size - r) by (nonlinear_arith)
            requires
                0 < r < box_size,
        ;
        assert((value + (box_size - r)) % box_size == 0) by (nonlinear_arith)
            requires
                value == box_size * q + r,
                0 < box_size,
        ;
        assert forall|m: int| value <= m < value + (box_size - r) implies #[trigger] (m % box_size)
            != 0 by {
            assert(m % box_size == r + (m - value)) by (nonlinear_arith)
                requires
                    value == box_size * q + r,
                    0 <= r + (m - value) < box_size,
            ;
        }
    }
}

/// Alignment never moves a value down, and keeps the order of two values.
pub proof fn lemma_align_to_monotonic(a: int, b: int, box_size: int)
    requires
        0 <= a <= b,
        0 < box_size,
    ensures
        a <= spec_align_to(a, box_size),
        spec_align_to(a, box_size) <= spec_align_to(b, box_size),
{
    lemma_alignment_needed(a, box_size);
    lemma_alignment_needed(b, box_size);
    let pa = spec_alignment_needed(a, box_size);
    let ub = spec_align_to(b, box_size);
    if ub < a + pa {
        // `ub` would be a multiple of the box in `[a, a + pa)`, which holds none.
        assert(ub % box_size != 0);
    }
}

/// Rounds `value` up to the next multiple of `box_size`.
pub fn align_to(value: u32, box_size: u32) -> (aligned: u32)
    requires
        box_size > 0,
        spec_align_to(value as int, box_size as int) <= u32::MAX,
    ensures
        aligned == spec_align_to(value as int, box_size as int),
        aligned % box_size == 0,
        value <= aligned < value + box_size,
{
    proof {
        lemma_alignment_needed(value as int, box_size as int);
    }
    value + ((box_size - (value % box_size)) % box_size)
}

/// Rounds `value` up to the next multiple of `box_size`, or reports that
/// the result does not fit in 32 bits.
pub fn checked_align_to(value: u32, box_size: u32) -> (aligned: Option<u32>)
    requires
        box_size > 0,
    ensures
        aligned == if spec_align_to(value as int, box_size as int) <= u32::MAX {
            Some(spec_align_to(value as int, box_size as int) as u32)
        } else {
            None
        },
{
    let pad: u32 = amount_alignment_needed(value, box_size);
    if pad <= u32::MAX - value {
        Some(value + pad)
    } else {
        None
    }
}

/// Rounds `value` down to a multiple of `box_size`.
pub fn align_down(value: u32, box_size: u32) -> (aligned: u32)
    requires
        box_size > 0,
    ensures
        aligned == spec_align_down(value as int, box_size as int),
        aligned % box_size == 0,
        aligned <= value < aligned + box_size,
{
    proof {
        let v = value as int;
        let b = box_size as int;
        assert((v - v % b) % b == 0 && 0 <= v % b < b && v % b <= v) by (nonlinear_arith)
            requires
                0 <= v,
                0 < b,
        ;
    }
    value - (value % box_size)
}

/// The number of bytes that bring `value` onto a multiple of `box_size`.
pub fn amount_alignment_needed(value: u32, box_size: u32) -> (pad: u32)
    requires
        box_size > 0,
    ensures
        pad == spec_alignment_needed(value as int, box_size as int),
        pad < box_size,
        (value + pad) % (box_size as int) == 0,
{
    proof {
        lemma_alignment_needed(value as int, box_size as int);
    }
    (box_size - (value % box_size)) % box_size
}

/// Joining sequences does not depend on where the brackets stand.
pub proof fn lemma_concat_assoc(a: Seq<u8>, b: Seq<u8>, c: Seq<u8>)
    ensures
        (a + b) + c == a + (b + c),
{
    assert((a + b) + c =~= a + (b + c));
}

/// Appends `length` zero bytes to `output`.
pub fn do_pad(output: &mut Vec<u8>, length: usize)
    ensures
        final(output)@ == old(output)@ + zeros(length as nat),
{
    let mut written: usize = 0;
    while written < length
        invariant
            written <= length,
            output@ == old(output)@ + zeros(written as nat),
        decreases length - written,
    {
        output.push(0u8);
        written += 1;
        assert(output@ =~= old(output)@ + zeros(written as nat));
    }
}

/// Appends a copy of `bytes` to `output`.
pub fn append_bytes(output: &mut Vec<u8>, bytes: &[u8])
    ensures
        final(output)@ == old(output)@ + bytes@,
{
    output.extend_from_slice(bytes);
    assert(output@ =~= old(output)@ + bytes@);
}

/// The two bytes of `value`, least significant first.
pub open spec fn le_u16(value: u16) -> Seq<u8> {
    seq![(value & 0xff) as u8, ((value >> 8) & 0xff) as u8]
}

/// The four bytes of `value`, least significant first.
pub open spec fn le_u32(value: u32) -> Seq<u8> {
    seq![
        (value & 0xff) as u8,
        ((value >> 8) & 0xff) as u8,
        ((value >> 16) & 0xff) as u8,
        ((value >> 24) & 0xff) as u8,
    ]
}

/// The eight bytes of `value`, least significant first.
pub open spec fn le_u64(value: u64) -> Seq<u8> {
    le_u32((value & 0xffff_ffff) as u32) + le_u32((value >> 32) as u32)
}

/// Appends `value` as two little-endian bytes.
pub fn put_u16(output: &mut Vec<u8>, value: u16)
    ensures
        final(output)@ == old(output)@ + le_u16(value),
{
    output.push((value & 0xff) as u8);
    output.push(((value >> 8) & 0xff) as u8);
    assert(output@ =~= old(output)@ + le_u16(value));
}

/// Appends `value` as four little-endian bytes.
pub fn put_u32(output: &mut Vec<u8>, value: u32)
    ensures
        final(output)@ == old(output)@ + le_u32(value),
{
    output.push((value & 0xff) as u8);
    output.push(((value >> 8) & 0xff) as u8);
    output.push(((value >> 16) & 0xff) as u8);
    output.push(((value >> 24) & 0xff) as u8);
    assert(output@ =~= old(output)@ + le_u32(value));
}

/// Appends `value` as eight little-endian bytes.
pub fn put_u64(output: &mut Vec<u8>, value: u64)
    ensures
        final(output)@ == old(output)@ + le_u64(value),
{
    let low: u32 = (value & 0xffff_ffff) as u32;
    let high: u32 = (value >> 32) as u32;
    put_u32(output, low);
    put_u32(output, high);
    assert(output@ =~= old(output)@ + le_u64(value));
}

} // verus!
