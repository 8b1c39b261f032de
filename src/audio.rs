//! Raw audio chunks: 16-bit signed little-endian PCM.

use vstd::prelude::*;

verus! {

/// Samples whose magnitude stays below this level count as quiet.
pub const QUIET_LEVEL: i16 = 60;

/// The signed 16-bit value of the little-endian byte pair `lo`, `hi`.
pub open spec fn le_i16(lo: u8, hi: u8) -> int {
    let v = lo as int + 256 * hi as int;
    if v >= 32768 {
        v - 65536
    } else {
        v
    }
}

/// The bytes of a stream position: a byte carried over from the previous
/// read, if any, followed by the bytes just read.
pub open spec fn joined(carry: Option<u8>, bytes: Seq<u8>) -> Seq<u8> {
    match carry {
        Some(b) => seq![b] + bytes,
        None => bytes,
    }
}

/// Byte `j` of `joined(carry, bytes)`.
fn joined_byte(carry: Option<u8>, bytes: &[u8], j: usize) -> (r: u8)
    requires
        j < joined(carry, bytes@).len(),
    ensures
        r == joined(carry, bytes@)[j as int],
{
    match carry {
        Some(b) => {
            if j == 0 {
                b
            } else {
                bytes[j - 1]
            }
        },
        None => bytes[j],
    }
}

/// Decodes a read from a PCM stream. `carry` is the odd byte left over by
/// the previous read. The samples are the consecutive byte pairs of the
/// carried byte followed by `bytes`; a last unpaired byte is handed back, to
/// be carried into the next read.
pub fn decode_pcm(carry: Option<u8>, bytes: &[u8]) -> (r: (Vec<i16>, Option<u8>))
    requires
        bytes@.len() < usize::MAX,
    ensures
        r.0@.len() == joined(carry, bytes@).len() / 2,
        forall|k: int| #![trigger r.0@[k]] 0 <= k < r.0@.len() ==> r.0@[k] as int == le_i16(
            joined(carry, bytes@)[2 * k],
            joined(carry, bytes@)[2 * k + 1],
        ),
        r.1 == if joined(carry, bytes@).len() % 2 == 1 {
            Some(joined(carry, bytes@).last())
        } else {
            None::<u8>
        },
{
    let ghost all = joined(carry, bytes@);
    let len: usize = if carry.is_some() {
        bytes.len() + 1
    } else {
        bytes.len()
    };
    assert(len == all.len());
    let n = len / 2;
    let mut r: Vec<i16> = Vec::new();
    let mut k: usize = 0;
    while k < n
        invariant
            all == joined(carry, bytes@),
            len == all.len(),
            n == len / 2,
            k <= n,
            r@.len() == k,
            forall|j: int| #![trigger r@[j]] 0 <= j < k ==> r@[j] as int == le_i16(all[2 * j], all[2 * j + 1]),
        decreases n - k,
    {
        assert(2 * k + 1 < len) by (nonlinear_arith)
            requires
                k < n,
                n == len / 2,
        ;
        let lo = joined_byte(carry, bytes, 2 * k);
        let hi = joined_byte(carry, bytes, 2 * k + 1);
        let v: u32 = lo as u32 + 256 * (hi as u32);
        let s: i16 = if v >= 32768 {
            (v as i32 - 65536) as i16
        } else {
            v as i16
        };
        r.push(s);
        k += 1;
    }
    let rest = if len % 2 == 1 {
        Some(joined_byte(carry, bytes, len - 1))
    } else {
        None
    };
    (r, rest)
}

/// Every sample has a magnitude below the quiet level.
pub open spec fn all_quiet(samples: Seq<i16>) -> bool {
    forall|k: int| 0 <= k < samples.len() ==> -QUIET_LEVEL < #[trigger] samples[k] < QUIET_LEVEL
}

/// Whether a chunk holds nothing but quiet samples (such a chunk is skipped).
pub fn is_quiet(samples: &Vec<i16>) -> (r: bool)
    ensures
        r == all_quiet(samples@),
{
    let mut k: usize = 0;
    while k < samples.len()
        invariant
            k <= samples@.len(),
            forall|j: int| 0 <= j < k ==> -QUIET_LEVEL < #[trigger] samples@[j] < QUIET_LEVEL,
        decreases samples.len() - k,
    {
        let x = samples[k];
        if x <= -QUIET_LEVEL || x >= QUIET_LEVEL {
            return false;
        }
        k += 1;
    }
    true
}

} // verus!
