//! Decoding of inbound frames: little-endian signed 16-bit mono samples.

use vstd::prelude::*;

verus! {

/// The signed 16-bit sample whose little-endian bytes are `lo`, `hi`.
pub open spec fn sample_of(lo: u8, hi: u8) -> int {
    let v = lo as int + 256 * hi as int;
    if v >= 32768 {
        v - 65536
    } else {
        v
    }
}

/// The samples a frame holds; a trailing odd byte is ignored.
pub open spec fn decoded(bytes: Seq<u8>) -> Seq<i16> {
    Seq::new(bytes.len() / 2, |i: int| sample_of(bytes[2 * i], bytes[2 * i + 1]) as i16)
}

/// Decodes a frame into its PCM16 samples, two bytes per sample.
pub fn decode_pcm16(bytes: &Vec<u8>) -> (r: Vec<i16>)
    ensures
        r@ == decoded(bytes@),
        r@.len() == bytes@.len() / 2,
        forall|i: int|
            0 <= i < r@.len() ==> #[trigger] r@[i] as int == sample_of(
                bytes@[2 * i],
                bytes@[2 * i + 1],
            ),
{
    let n: usize = bytes.len() / 2;
    let mut r: Vec<i16> = Vec::new();
    let mut i: usize = 0;
    while i < n
        invariant
            n == bytes@.len() / 2,
            bytes@.len() <= usize::MAX,
            i <= n,
            r@.len() == i,
            forall|j: int|
                0 <= j < i ==> #[trigger] r@[j] as int == sample_of(bytes@[2 * j], bytes@[2 * j + 1]),
        decreases n - i,
    {
        let lo = bytes[2 * i];
        let hi = bytes[2 * i + 1];
        let v: i32 = lo as i32 + 256 * (hi as i32);
        let s: i16 = if v >= 32768 {
            (v - 65536) as i16
        } else {
            v as i16
        };
        r.push(s);
        i = i + 1;
    }
    proof {
        assert(r@ =~= decoded(bytes@));
    }
    r
}

} // verus!
