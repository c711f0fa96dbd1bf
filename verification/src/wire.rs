//! Byte-level primitives of the wire format: big-endian integer reads,
//! two's-complement reinterpretation, NUL truncation of text runs, and the
//! 4-byte alignment padding rule.

use vstd::prelude::*;

verus! {

// --- Big-endian unsigned reads ------------------------------------------

/// The unsigned 16-bit value stored big-endian at `pos`.
pub open spec fn spec_be_u16(data: Seq<u8>, pos: int) -> u16
    recommends
        0 <= pos,
        pos + 2 <= data.len(),
{
    (data[pos] * 0x100 + data[pos + 1]) as u16
}

/// The unsigned 32-bit value stored big-endian at `pos`.
pub open spec fn spec_be_u32(data: Seq<u8>, pos: int) -> u32
    recommends
        0 <= pos,
        pos + 4 <= data.len(),
{
    (data[pos] * 0x100_0000 + data[pos + 1] * 0x1_0000 + data[pos + 2] * 0x100 + data[pos + 3]) as u32
}

/// The unsigned 64-bit value stored big-endian at `pos`.
pub open spec fn spec_be_u64(data: Seq<u8>, pos: int) -> u64
    recommends
        0 <= pos,
        pos + 8 <= data.len(),
{
    (spec_be_u32(data, pos) * 0x1_0000_0000 + spec_be_u32(data, pos + 4)) as u64
}

/// The unsigned 128-bit value stored big-endian at `pos`.
pub open spec fn spec_be_u128(data: Seq<u8>, pos: int) -> u128
    recommends
        0 <= pos,
        pos + 16 <= data.len(),
{
    (spec_be_u64(data, pos) * 0x1_0000_0000_0000_0000 + spec_be_u64(data, pos + 8)) as u128
}

/// Read an unsigned 16-bit big-endian value.
pub fn read_be_u16(data: &[u8], pos: usize) -> (v: u16)
    requires
        pos + 2 <= data@.len(),
    ensures
        v == spec_be_u16(data@, pos as int),
{
    (data[pos] as u16) * 0x100 + (data[pos + 1] as u16)
}

/// Read an unsigned 32-bit big-endian value.
pub fn read_be_u32(data: &[u8], pos: usize) -> (v: u32)
    requires
        pos + 4 <= data@.len(),
    ensures
        v == spec_be_u32(data@, pos as int),
{
    (data[pos] as u32) * 0x100_0000 + (data[pos + 1] as u32) * 0x1_0000 + (data[pos + 2] as u32)
        * 0x100 + (data[pos + 3] as u32)
}

/// Read an unsigned 64-bit big-endian value.
pub fn read_be_u64(data: &[u8], pos: usize) -> (v: u64)
    requires
        pos + 8 <= data@.len(),
    ensures
        v == spec_be_u64(data@, pos as int),
{
    let n = data.len();
    proof {
        assert(pos + 8 <= n);
    }
    let hi = read_be_u32(data, pos);
    let lo = read_be_u32(data, pos + 4);
    (hi as u64) * 0x1_0000_0000 + (lo as u64)
}

/// Read an unsigned 128-bit big-endian value.
pub fn read_be_u128(data: &[u8], pos: usize) -> (v: u128)
    requires
        pos + 16 <= data@.len(),
    ensures
        v == spec_be_u128(data@, pos as int),
{
    let n = data.len();
    proof {
        assert(pos + 16 <= n);
    }
    let hi = read_be_u64(data, pos);
    let lo = read_be_u64(data, pos + 8);
    (hi as u128) * 0x1_0000_0000_0000_0000 + (lo as u128)
}

// --- Two's-complement reinterpretation ----------------------------------

/// The signed value whose two's-complement 8-bit pattern is `u`.
pub open spec fn spec_as_i8(u: u8) -> i8 {
    if u < 0x80 {
        u as i8
    } else {
        (u - 0x100) as i8
    }
}

/// The signed value whose two's-complement 16-bit pattern is `u`.
pub open spec fn spec_as_i16(u: u16) -> i16 {
    if u < 0x8000 {
        u as i16
    } else {
        (u - 0x1_0000) as i16
    }
}

/// The signed value whose two's-complement 32-bit pattern is `u`.
pub open spec fn spec_as_i32(u: u32) -> i32 {
    if u < 0x8000_0000 {
        u as i32
    } else {
        (u - 0x1_0000_0000) as i32
    }
}

/// The signed value whose two's-complement 64-bit pattern is `u`.
pub open spec fn spec_as_i64(u: u64) -> i64 {
    if u < 0x8000_0000_0000_0000 {
        u as i64
    } else {
        (u - 0x1_0000_0000_0000_0000) as i64
    }
}

/// Reinterpret an 8-bit pattern as its two's-complement signed value.
pub fn as_i8(u: u8) -> (v: i8)
    ensures
        v == spec_as_i8(u),
{
    if u < 0x80 {
        u as i8
    } else {
        -1 - ((0xff - u) as i8)
    }
}

/// Reinterpret a 16-bit pattern as its two's-complement signed value.
pub fn as_i16(u: u16) -> (v: i16)
    ensures
        v == spec_as_i16(u),
{
    if u < 0x8000 {
        u as i16
    } else {
        -1 - ((0xffff - u) as i16)
    }
}

/// Reinterpret a 32-bit pattern as its two's-complement signed value.
pub fn as_i32(u: u32) -> (v: i32)
    ensures
        v == spec_as_i32(u),
{
    if u < 0x8000_0000 {
        u as i32
    } else {
        -1 - ((0xffff_ffff - u) as i32)
    }
}

/// Reinterpret a 64-bit pattern as its two's-complement signed value.
pub fn as_i64(u: u64) -> (v: i64)
    ensures
        v == spec_as_i64(u),
{
    if u < 0x8000_0000_0000_0000 {
        u as i64
    } else {
        -1 - ((0xffff_ffff_ffff_ffff - u) as i64)
    }
}

// --- NUL truncation of text runs ----------------------------------------

/// The index of the first NUL byte of `b`, or `b.len()` if none occurs.
pub open spec fn first_nul(b: Seq<u8>) -> int
    decreases b.len(),
{
    if b.len() == 0 {
        0
    } else if b[0] == 0 {
        0
    } else {
        1 + first_nul(b.drop_first())
    }
}

/// The prefix of `b` before its first NUL byte; all of `b` if none occurs.
pub open spec fn take_until_nul(b: Seq<u8>) -> Seq<u8> {
    b.take(first_nul(b))
}

/// `first_nul` names an index within the run, every byte before it is
/// non-NUL, and the byte at it (when inside the run) is NUL.
pub proof fn lemma_first_nul(b: Seq<u8>)
    ensures
        0 <= first_nul(b) <= b.len(),
        first_nul(b) < b.len() ==> b[first_nul(b)] == 0,
        forall|j: int| 0 <= j < first_nul(b) ==> b[j] != 0,
    decreases b.len(),
{
    if b.len() == 0 {
    } else if b[0] == 0 {
    } else {
        lemma_first_nul(b.drop_first());
        assert forall|j: int| 0 <= j < first_nul(b) implies b[j] != 0 by {
            if j > 0 {
                assert(b.drop_first()[j - 1] == b[j]);
            }
        }
    }
}

/// Any index with NUL-free bytes before it and a NUL (or the end of the
/// run) at it is `first_nul`.
pub proof fn lemma_first_nul_is(b: Seq<u8>, i: int)
    requires
        0 <= i <= b.len(),
        forall|j: int| 0 <= j < i ==> b[j] != 0,
        i < b.len() ==> b[i] == 0,
    ensures
        first_nul(b) == i,
    decreases b.len(),
{
    if b.len() == 0 {
    } else if b[0] == 0 {
        assert(i == 0);
    } else {
        assert(forall|j: int| 0 <= j < i - 1 ==> b.drop_first()[j] == b[j + 1]);
        lemma_first_nul_is(b.drop_first(), i - 1);
    }
}

/// Truncating at the first NUL is idempotent: the kept prefix holds no NUL,
/// so truncating it again keeps it whole.
pub proof fn lemma_take_until_nul_idempotent(b: Seq<u8>)
    ensures
        take_until_nul(take_until_nul(b)) == take_until_nul(b),
{
    lemma_first_nul(b);
    let p = take_until_nul(b);
    lemma_first_nul_is(p, p.len() as int);
    assert(p.take(p.len() as int) =~= p);
}

/// Decoding a text run is idempotent under re-encoding: writing the
/// decoded text back and filling the rest of the run with NUL bytes (as
/// the padding rule does, or with any other fill count) decodes to the
/// same text again.
pub proof fn lemma_text_reencode_idempotent(b: Seq<u8>, fill: nat)
    ensures
        take_until_nul(take_until_nul(b) + Seq::new(fill, |i: int| 0u8)) == take_until_nul(b),
{
    lemma_first_nul(b);
    let p = take_until_nul(b);
    let w = p + Seq::new(fill, |i: int| 0u8);
    lemma_first_nul_is(w, p.len() as int);
    assert(w.take(p.len() as int) =~= p);
}

/// The characters of a byte run, each byte read as the character with that
/// code point.
pub open spec fn chars_of(b: Seq<u8>) -> Seq<char> {
    b.map_values(|x: u8| x as char)
}

/// Relies on `String::push`: appends exactly one character.
#[verifier::external_body]
pub(crate) fn push_char(s: &mut String, c: char)
    ensures
        final(s)@ == old(s)@.push(c),
{
    s.push(c)
}

/// Collect the text of a byte run up to (and not including) its first NUL
/// byte, reading each byte as the character with that code point.
pub fn text_until_nul(b: &[u8]) -> (s: String)
    ensures
        s@ == chars_of(take_until_nul(b@)),
{
    let mut s = String::new();
    let mut i: usize = 0;
    loop
        invariant
            0 <= i <= b@.len(),
            forall|j: int| 0 <= j < i ==> b@[j] != 0,
            s@ == chars_of(b@.take(i as int)),
        decreases b@.len() - i,
    {
        if i == b.len() {
            proof {
                lemma_first_nul_is(b@, i as int);
                assert(b@.take(i as int) =~= take_until_nul(b@));
            }
            return s;
        }
        let c = b[i];
        if c == 0 {
            proof {
                lemma_first_nul_is(b@, i as int);
                assert(b@.take(i as int) =~= take_until_nul(b@));
            }
            return s;
        }
        push_char(&mut s, c as char);
        i = i + 1;
        proof {
            assert(b@.take(i as int) =~= b@.take(i - 1).push(b@[i - 1]));
            assert(chars_of(b@.take(i as int)) =~= chars_of(b@.take(i - 1)).push(
                b@[i - 1] as char,
            ));
        }
    }
}

// --- Alignment padding ---------------------------------------------------

/// The number of padding bytes after a payload of `n` bytes: what rounds
/// `n` up to the next multiple of 4.
pub open spec fn spec_padding(n: int) -> int {
    (4 - n % 4) % 4
}

/// The number of padding bytes after a payload of `n` bytes.
pub fn padding_of(n: usize) -> (p: usize)
    ensures
        p as int == spec_padding(n as int),
{
    (4 - n % 4) % 4
}

/// The padding rule: an empty payload takes no padding, padding never
/// exceeds 3 bytes, and payload plus padding is always 4-byte aligned.
pub proof fn lemma_padding(n: int)
    requires
        n >= 0,
    ensures
        spec_padding(0) == 0,
        0 <= spec_padding(n) <= 3,
        (n + spec_padding(n)) % 4 == 0,
        n % 4 == 0 ==> spec_padding(n) == 0,
{
}

/// The number of whole elements of `width` bytes in a declared size:
/// integer division, with a zero width read as zero elements rather than a
/// division by zero.
pub open spec fn spec_element_count(size: nat, width: nat) -> nat {
    if width == 0 {
        0
    } else {
        size / width
    }
}

/// The number of whole elements of `width` bytes in a declared size.
pub fn element_count(size: usize, width: usize) -> (c: usize)
    ensures
        c as nat == spec_element_count(size as nat, width as nat),
{
    if width == 0 {
        0
    } else {
        size / width
    }
}

/// Element counting is exact integer division: with a positive width the
/// counted elements fit in the declared size and a further whole element
/// would not, so a fractional element is never counted.
pub proof fn lemma_element_count(size: nat, width: nat)
    requires
        width > 0,
    ensures
        spec_element_count(size, width) == size / width,
        spec_element_count(size, width) * width <= size,
        size < (spec_element_count(size, width) + 1) * width,
{
    let c = size / width;
    assert(c * width <= size < (c + 1) * width) by (nonlinear_arith)
        requires
            width > 0 && c == size / width,
    ;
}

} // verus!
