//! Element-wise conversion of little-endian weight bytes.

use crate::formats::{
    f16_plus_one, f32_to_f16_bits_with_payload, half_bits_with_payload, half_plus_one,
};
use vstd::prelude::*;

verus! {

/// The little-endian 16-bit word at element `i`.
pub open spec fn word16(s: Seq<u8>, i: int) -> nat {
    s[2 * i] as nat + 0x100 * s[2 * i + 1] as nat
}

/// The little-endian 32-bit word at element `i`.
pub open spec fn word32(s: Seq<u8>, i: int) -> nat {
    s[4 * i] as nat + 0x100 * s[4 * i + 1] as nat + 0x1_0000 * s[4 * i + 2] as nat + 0x100_0000
        * s[4 * i + 3] as nat
}

fn join16(lo: u8, hi: u8) -> (r: u16)
    ensures
        r == lo as nat + 0x100 * hi as nat,
{
    lo as u16 + 0x100 * (hi as u16)
}

/// bf16 bytes to half-precision bytes, element by element. An odd last byte
/// is dropped.
pub fn bf16_bytes_to_f16_bytes(raw: &[u8]) -> (r: Vec<u8>)
    ensures
        r@.len() == 2 * (raw@.len() / 2),
        forall|i: int|
            0 <= i < raw@.len() / 2 ==> #[trigger] word16(r@, i) == half_bits_with_payload(
                (0x1_0000 * word16(raw@, i)) as u32,
            ),
{
    let n: usize = raw.len() / 2;
    let mut r: Vec<u8> = Vec::new();
    let mut i: usize = 0;
    while i < n
        invariant
            i <= n,
            n == raw@.len() / 2,
            raw@.len() <= usize::MAX,
            r@.len() == 2 * i,
            forall|j: int|
                0 <= j < i ==> #[trigger] word16(r@, j) == half_bits_with_payload(
                (0x1_0000 * word16(raw@, j)) as u32,
            ),
        decreases n - i,
    {
        let h: u16 = join16(raw[2 * i], raw[2 * i + 1]);
        let v: u16 = f32_to_f16_bits_with_payload(h as u32 * 0x1_0000);
        let ghost before = r@;
        r.push((v % 0x100) as u8);
        r.push((v / 0x100) as u8);
        assert(word16(r@, i as int) == v);
        assert forall|j: int| 0 <= j < i + 1 implies #[trigger] word16(r@, j) == half_bits_with_payload(
                (0x1_0000 * word16(raw@, j)) as u32,
            ) by {
            if j < i {
                assert(word16(r@, j) == word16(before, j));
            }
        }
        i = i + 1;
    }
    r
}

/// bf16 bytes to 32-bit bytes, element by element: each word moves into the
/// upper half of a 32-bit word.
pub fn bf16_bytes_to_f32_bytes(raw: &[u8]) -> (r: Vec<u8>)
    requires
        2 * raw@.len() <= usize::MAX,
    ensures
        r@.len() == 4 * (raw@.len() / 2),
        forall|i: int|
            0 <= i < raw@.len() / 2 ==> #[trigger] word32(r@, i) == 0x1_0000 * word16(raw@, i),
{
    let n: usize = raw.len() / 2;
    let mut r: Vec<u8> = Vec::new();
    let mut i: usize = 0;
    while i < n
        invariant
            i <= n,
            n == raw@.len() / 2,
            2 * raw@.len() <= usize::MAX,
            r@.len() == 4 * i,
            forall|j: int|
                0 <= j < i ==> #[trigger] word32(r@, j) == 0x1_0000 * word16(raw@, j),
        decreases n - i,
    {
        let ghost before = r@;
        r.push(0);
        r.push(0);
        r.push(raw[2 * i]);
        r.push(raw[2 * i + 1]);
        assert forall|j: int| 0 <= j < i + 1 implies #[trigger] word32(r@, j) == 0x1_0000 * word16(
            raw@,
            j,
        ) by {
            if j < i {
                assert(word32(r@, j) == word32(before, j));
            }
        }
        i = i + 1;
    }
    r
}

/// 32-bit bytes to half-precision bytes, element by element. One to three
/// last bytes are dropped.
pub fn f32_bytes_to_f16_bytes(raw: &[u8]) -> (r: Vec<u8>)
    ensures
        r@.len() == 2 * (raw@.len() / 4),
        forall|i: int|
            0 <= i < raw@.len() / 4 ==> #[trigger] word16(r@, i) == half_bits_with_payload(
                word32(raw@, i) as u32,
            ),
{
    let n: usize = raw.len() / 4;
    let mut r: Vec<u8> = Vec::new();
    let mut i: usize = 0;
    while i < n
        invariant
            i <= n,
            n == raw@.len() / 4,
            raw@.len() <= usize::MAX,
            r@.len() == 2 * i,
            forall|j: int|
                0 <= j < i ==> #[trigger] word16(r@, j) == half_bits_with_payload(
                    word32(raw@, j) as u32,
                ),
        decreases n - i,
    {
        let b: u32 = raw[4 * i] as u32 + 0x100 * (raw[4 * i + 1] as u32) + 0x1_0000 * (raw[4 * i
            + 2] as u32) + 0x100_0000 * (raw[4 * i + 3] as u32);
        let v: u16 = f32_to_f16_bits_with_payload(b);
        let ghost before = r@;
        r.push((v % 0x100) as u8);
        r.push((v / 0x100) as u8);
        assert(word16(r@, i as int) == v);
        assert forall|j: int| 0 <= j < i + 1 implies #[trigger] word16(r@, j)
            == half_bits_with_payload(word32(raw@, j) as u32) by {
            if j < i {
                assert(word16(r@, j) == word16(before, j));
            }
        }
        i = i + 1;
    }
    r
}

/// Adds one to every half-precision element: norm weights that a checkpoint
/// stores centred at zero are used centred at one. An odd last byte stays as
/// it is.
pub fn f16_bytes_plus_one(raw: &[u8]) -> (r: Vec<u8>)
    ensures
        r@.len() == raw@.len(),
        raw@.len() % 2 == 1 ==> r@.last() == raw@.last(),
        forall|i: int|
            0 <= i < raw@.len() / 2 ==> #[trigger] word16(r@, i) == half_plus_one(
                word16(raw@, i) as u16,
            ),
{
    let n: usize = raw.len() / 2;
    let mut r: Vec<u8> = Vec::new();
    let mut i: usize = 0;
    while i < n
        invariant
            i <= n,
            n == raw@.len() / 2,
            raw@.len() <= usize::MAX,
            r@.len() == 2 * i,
            forall|j: int|
                0 <= j < i ==> #[trigger] word16(r@, j) == half_plus_one(
                word16(raw@, j) as u16,
            ),
        decreases n - i,
    {
        let v: u16 = f16_plus_one(join16(raw[2 * i], raw[2 * i + 1]));
        let ghost before = r@;
        r.push((v % 0x100) as u8);
        r.push((v / 0x100) as u8);
        assert(word16(r@, i as int) == v);
        assert forall|j: int| 0 <= j < i + 1 implies #[trigger] word16(r@, j) == half_plus_one(
                word16(raw@, j) as u16,
            ) by {
            if j < i {
                assert(word16(r@, j) == word16(before, j));
            }
        }
        i = i + 1;
    }
    let ghost before = r@;
    if raw.len() % 2 == 1 {
        r.push(raw[raw.len() - 1]);
        assert forall|j: int| 0 <= j < n implies #[trigger] word16(r@, j) == half_plus_one(
                word16(raw@, j) as u16,
            ) by {
            assert(word16(r@, j) == word16(before, j));
        }
    }
    r
}

/// Little-endian bytes of 16-bit words.
pub fn words_to_bytes(xs: &[u16]) -> (r: Vec<u8>)
    requires
        2 * xs@.len() <= usize::MAX,
    ensures
        r@.len() == 2 * xs@.len(),
        forall|i: int| 0 <= i < xs@.len() ==> #[trigger] word16(r@, i) == xs@[i],
{
    let mut r: Vec<u8> = Vec::new();
    let mut i: usize = 0;
    while i < xs.len()
        invariant
            i <= xs@.len(),
            2 * xs@.len() <= usize::MAX,
            r@.len() == 2 * i,
            forall|j: int| 0 <= j < i ==> #[trigger] word16(r@, j) == xs@[j],
        decreases xs@.len() - i,
    {
        let v: u16 = xs[i];
        let ghost before = r@;
        r.push((v % 0x100) as u8);
        r.push((v / 0x100) as u8);
        assert forall|j: int| 0 <= j < i + 1 implies #[trigger] word16(r@, j) == xs@[j] by {
            if j < i {
                assert(word16(r@, j) == word16(before, j));
            }
        }
        i = i + 1;
    }
    r
}

/// The 16-bit words of little-endian bytes. An odd last byte is dropped.
pub open spec fn words_of(s: Seq<u8>) -> Seq<u16> {
    Seq::new(s.len() / 2, |i: int| word16(s, i) as u16)
}

/// The 16-bit words of little-endian bytes.
pub fn bytes_to_words(raw: &[u8]) -> (r: Vec<u16>)
    ensures
        r@ == words_of(raw@),
{
    let n: usize = raw.len() / 2;
    let mut r: Vec<u16> = Vec::new();
    let mut i: usize = 0;
    while i < n
        invariant
            i <= n,
            n == raw@.len() / 2,
            raw@.len() <= usize::MAX,
            r@ =~= words_of(raw@).take(i as int),
        decreases n - i,
    {
        r.push(join16(raw[2 * i], raw[2 * i + 1]));
        i = i + 1;
    }
    assert(words_of(raw@).take(n as int) =~= words_of(raw@));
    r
}

/// The 32-bit words of little-endian bytes. Up to three last bytes are
/// dropped.
pub open spec fn wide_words_of(s: Seq<u8>) -> Seq<u32> {
    Seq::new(s.len() / 4, |i: int| word32(s, i) as u32)
}

/// The 32-bit words of little-endian bytes.
pub fn bytes_to_wide_words(raw: &[u8]) -> (r: Vec<u32>)
    ensures
        r@ == wide_words_of(raw@),
{
    let n: usize = raw.len() / 4;
    let mut r: Vec<u32> = Vec::new();
    let mut i: usize = 0;
    while i < n
        invariant
            i <= n,
            n == raw@.len() / 4,
            raw@.len() <= usize::MAX,
            r@ =~= wide_words_of(raw@).take(i as int),
        decreases n - i,
    {
        let low: u16 = join16(raw[4 * i], raw[4 * i + 1]);
        let high: u16 = join16(raw[4 * i + 2], raw[4 * i + 3]);
        r.push(low as u32 + 0x1_0000 * (high as u32));
        i = i + 1;
    }
    assert(wide_words_of(raw@).take(n as int) =~= wide_words_of(raw@));
    r
}

/// Reading the bytes of words gives the words back.
pub proof fn law_words_round_trip(xs: Seq<u16>, bytes: Seq<u8>)
    requires
        bytes.len() == 2 * xs.len(),
        forall|i: int| 0 <= i < xs.len() ==> #[trigger] word16(bytes, i) == xs[i],
    ensures
        words_of(bytes) == xs,
{
    assert(words_of(bytes) =~= xs);
}

/// Widening to 32 bits loses nothing: the upper half of every widened
/// element is the element, the lower half is zero.
pub proof fn law_widened_bytes_determine_source(raw: Seq<u8>, out: Seq<u8>, i: int)
    requires
        out.len() == 4 * (raw.len() / 2),
        0 <= i < raw.len() / 2,
        word32(out, i) == 0x1_0000 * word16(raw, i),
    ensures
        out[4 * i] == 0,
        out[4 * i + 1] == 0,
        out[4 * i + 2] == raw[2 * i],
        out[4 * i + 3] == raw[2 * i + 1],
{
}

} // verus!
