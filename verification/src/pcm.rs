//! Decoding of PCM payloads into sample codes.
//!
//! A sample code is the integer a sample stands for on the wire. For the
//! integer encodings the amplitude is the code divided by
//! [`BitDepth::full_scale`], so the most negative code lies slightly below
//! -1.0. For `FloatingPoint` the code is the IEEE 754 bit pattern of the
//! amplitude, read as a two's complement integer.
//!
//! A payload is cut into chunks of one sample width. A last chunk that is
//! shorter than a sample is completed with zero bytes at its end.

use vstd::prelude::*;
use crate::descriptor::BitDepth;

verus! {

/// The byte at position `i`, or zero past the end of the payload.
pub open spec fn byte_or_zero(bytes: Seq<u8>, i: int) -> int {
    if 0 <= i < bytes.len() {
        bytes[i] as int
    } else {
        0
    }
}

/// Two bytes, most significant first, as a two's complement number.
pub open spec fn signed16(hi: int, lo: int) -> int {
    let u = hi * 0x100 + lo;
    if u >= 0x8000 {
        u - 0x1_0000
    } else {
        u
    }
}

/// Four bytes, most significant first, as a two's complement number.
pub open spec fn signed32(b0: int, b1: int, b2: int, b3: int) -> int {
    let u = b0 * 0x100_0000 + b1 * 0x1_0000 + b2 * 0x100 + b3;
    if u >= 0x8000_0000 {
        u - 0x1_0000_0000
    } else {
        u
    }
}

/// Number of chunks of `width` bytes that `len` bytes are cut into, the
/// last one possibly short.
pub open spec fn chunk_count(len: nat, width: nat) -> nat
    recommends
        width > 0,
{
    ((len + width - 1) / (width as int)) as nat
}

/// The code of the sample that starts at byte `base` of the payload.
pub open spec fn sample_code(depth: BitDepth, bytes: Seq<u8>, base: int) -> int {
    match depth {
        BitDepth::L16 => signed16(byte_or_zero(bytes, base), byte_or_zero(bytes, base + 1)),
        BitDepth::L24 => signed32(
            byte_or_zero(bytes, base),
            byte_or_zero(bytes, base + 1),
            byte_or_zero(bytes, base + 2),
            0,
        ),
        BitDepth::L32 | BitDepth::FloatingPoint => signed32(
            byte_or_zero(bytes, base),
            byte_or_zero(bytes, base + 1),
            byte_or_zero(bytes, base + 2),
            byte_or_zero(bytes, base + 3),
        ),
    }
}

/// The sample codes that a payload decodes to.
pub open spec fn decoded(depth: BitDepth, bytes: Seq<u8>) -> Seq<i32> {
    Seq::new(
        chunk_count(bytes.len(), depth.spec_bytes_per_sample() as nat),
        |k: int| sample_code(depth, bytes, k * depth.spec_bytes_per_sample()) as i32,
    )
}

/// Every sample code fits the 32 bits it is stored in.
pub proof fn lemma_sample_code_range(depth: BitDepth, bytes: Seq<u8>, base: int)
    ensures
        i32::MIN <= sample_code(depth, bytes, base) <= i32::MAX,
        depth == BitDepth::L16 ==> -0x8000 <= sample_code(depth, bytes, base) <= 0x7fff,
{
}

/// A payload decodes to one code for each whole sample, and one more for a
/// partial sample at its end.
pub proof fn lemma_decoded_len(depth: BitDepth, bytes: Seq<u8>)
    ensures
        decoded(depth, bytes).len() == bytes.len() / (depth.spec_bytes_per_sample() as nat) + (if bytes.len()
            % (depth.spec_bytes_per_sample() as nat) == 0 {
            0nat
        } else {
            1nat
        }),
{
    let width = depth.spec_bytes_per_sample() as int;
    let len = bytes.len() as int;
    assert((len + width - 1) / width == len / width + (if len % width == 0 {
        0int
    } else {
        1int
    })) by (nonlinear_arith)
        requires
            2 <= width <= 4,
            len >= 0,
    ;
}

/// A payload of whole samples that holds nothing but zero bytes decodes to
/// silence: one zero code for each sample, in every encoding.
pub proof fn lemma_silence(depth: BitDepth, bytes: Seq<u8>)
    requires
        forall|i: int| 0 <= i < bytes.len() ==> bytes[i] == 0,
        bytes.len() % (depth.spec_bytes_per_sample() as nat) == 0,
    ensures
        decoded(depth, bytes).len() == bytes.len() / (depth.spec_bytes_per_sample() as nat),
        forall|k: int| 0 <= k < decoded(depth, bytes).len() ==> decoded(depth, bytes)[k] == 0,
{
    lemma_decoded_len(depth, bytes);
}

fn chunks(len: usize, width: usize) -> (n: usize)
    requires
        2 <= width <= 4,
    ensures
        n == chunk_count(len as nat, width as nat),
        n <= len,
        n * width < len + width,
{
    let whole: usize = len / width;
    assert(whole * width + len % width == len && 0 <= len % width < width) by (nonlinear_arith)
        requires
            2 <= width <= 4,
            whole == len / width,
    ;
    assert(whole * 2 <= whole * width) by (nonlinear_arith)
        requires
            2 <= width,
    ;
    let n: usize = if len % width == 0 {
        whole
    } else {
        whole + 1
    };
    assert(n == chunk_count(len as nat, width as nat) && n * width < len + width)
        by (nonlinear_arith)
        requires
            2 <= width <= 4,
            whole * width + len % width == len,
            0 <= len % width < width,
            n == if len % width == 0 {
                whole as int
            } else {
                whole + 1
            },
    ;
    n
}

fn padded(bytes: &[u8], i: usize) -> (b: u8)
    ensures
        b == byte_or_zero(bytes@, i as int),
{
    if i < bytes.len() {
        bytes[i]
    } else {
        0
    }
}

fn word16(hi: u8, lo: u8) -> (v: i32)
    ensures
        v == signed16(hi as int, lo as int),
{
    let u: i32 = hi as i32 * 0x100 + lo as i32;
    if u >= 0x8000 {
        u - 0x1_0000
    } else {
        u
    }
}

fn word32(b0: u8, b1: u8, b2: u8, b3: u8) -> (v: i32)
    ensures
        v == signed32(b0 as int, b1 as int, b2 as int, b3 as int),
{
    let u: i64 = b0 as i64 * 0x100_0000 + b1 as i64 * 0x1_0000 + b2 as i64 * 0x100 + b3 as i64;
    if u >= 0x8000_0000 {
        (u - 0x1_0000_0000) as i32
    } else {
        u as i32
    }
}

/// Decodes 16-bit signed big-endian samples.
pub fn l16_samples(bytes: &[u8]) -> (out: Vec<i32>)
    ensures
        out@ == decoded(BitDepth::L16, bytes@),
{
    let len: usize = bytes.len();
    let count: usize = chunks(len, 2);
    let mut out: Vec<i32> = Vec::with_capacity(count);
    let mut k: usize = 0;
    while k < count
        invariant
            k <= count,
            len == bytes@.len(),
            count * 2 < len + 2,
            out@.len() == k,
            forall|j: int| 0 <= j < k ==> out@[j] == sample_code(BitDepth::L16, bytes@, j * 2) as i32,
        decreases count - k,
    {
        let base: usize = k * 2;
        let hi: u8 = padded(bytes, base);
        let lo: u8 = if base < len - 1 {
            bytes[base + 1]
        } else {
            0
        };
        out.push(word16(hi, lo));
        k = k + 1;
    }
    assert(out@ =~= decoded(BitDepth::L16, bytes@));
    out
}

/// Decodes samples of three or four bytes into 32-bit codes. A three-byte
/// sample fills the upper three bytes of its code.
fn wide_samples(depth: BitDepth, bytes: &[u8]) -> (out: Vec<i32>)
    requires
        depth != BitDepth::L16,
    ensures
        out@ == decoded(depth, bytes@),
{
    let len: usize = bytes.len();
    let width: usize = depth.bytes_per_sample();
    let count: usize = chunks(len, width);
    let mut out: Vec<i32> = Vec::with_capacity(count);
    let mut k: usize = 0;
    while k < count
        invariant
            k <= count,
            depth != BitDepth::L16,
            width == depth.spec_bytes_per_sample(),
            len == bytes@.len(),
            count * width < len + width,
            out@.len() == k,
            forall|j: int| 0 <= j < k ==> out@[j] == sample_code(depth, bytes@, j * width) as i32,
        decreases count - k,
    {
        assert(k * width < len) by (nonlinear_arith)
            requires
                k < count,
                count * width < len + width,
                width > 0,
        ;
        let base: usize = k * width;
        let b0: u8 = bytes[base];
        let b1: u8 = if 1 < len - base {
            bytes[base + 1]
        } else {
            0
        };
        let b2: u8 = if 2 < len - base {
            bytes[base + 2]
        } else {
            0
        };
        let b3: u8 = if width == 4 && 3 < len - base {
            bytes[base + 3]
        } else {
            0
        };
        out.push(word32(b0, b1, b2, b3));
        k = k + 1;
    }
    assert(out@ =~= decoded(depth, bytes@));
    out
}

/// Decodes 24-bit signed big-endian samples.
pub fn l24_samples(bytes: &[u8]) -> (out: Vec<i32>)
    ensures
        out@ == decoded(BitDepth::L24, bytes@),
{
    wide_samples(BitDepth::L24, bytes)
}

/// Decodes 32-bit signed big-endian samples.
pub fn l32_samples(bytes: &[u8]) -> (out: Vec<i32>)
    ensures
        out@ == decoded(BitDepth::L32, bytes@),
{
    wide_samples(BitDepth::L32, bytes)
}

/// Reads 32-bit IEEE 754 big-endian samples as bit patterns.
pub fn f32_samples(bytes: &[u8]) -> (out: Vec<i32>)
    ensures
        out@ == decoded(BitDepth::FloatingPoint, bytes@),
{
    wide_samples(BitDepth::FloatingPoint, bytes)
}

/// Decodes a payload in the given encoding.
pub fn convert(depth: BitDepth, bytes: &[u8]) -> (out: Vec<i32>)
    ensures
        out@ == decoded(depth, bytes@),
{
    match depth {
        BitDepth::L16 => l16_samples(bytes),
        BitDepth::L24 => l24_samples(bytes),
        BitDepth::L32 => l32_samples(bytes),
        BitDepth::FloatingPoint => f32_samples(bytes),
    }
}

} // verus!
