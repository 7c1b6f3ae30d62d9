//! SPIR-V binary decoding.
//!
//! A shader binary is a whole number of 32-bit words whose first word is the
//! SPIR-V magic number. Words are read little-endian; when the first word
//! matches the byte-swapped magic number instead, the binary was written
//! big-endian and every word is byte-swapped while decoding. Anything else
//! is rejected, and rejection is fatal to pipeline construction.

use vstd::prelude::*;

verus! {

/// The SPIR-V magic number.
pub const SPV_MAGIC: u32 = 0x0723_0203;

/// A 32-bit word read little-endian from four bytes.
pub open spec fn word_le(b0: u8, b1: u8, b2: u8, b3: u8) -> u32 {
    (b0 as int + b1 as int * 0x100 + b2 as int * 0x1_0000 + b3 as int * 0x100_0000) as u32
}

/// A 32-bit word read big-endian from four bytes.
pub open spec fn word_be(b0: u8, b1: u8, b2: u8, b3: u8) -> u32 {
    word_le(b3, b2, b1, b0)
}

/// All words of the byte string, read little-endian.
pub open spec fn words_le(bytes: Seq<u8>) -> Seq<u32> {
    Seq::new(
        bytes.len() / 4,
        |i: int| word_le(bytes[4 * i], bytes[4 * i + 1], bytes[4 * i + 2], bytes[4 * i + 3]),
    )
}

/// All words of the byte string, read big-endian.
pub open spec fn words_be(bytes: Seq<u8>) -> Seq<u32> {
    Seq::new(
        bytes.len() / 4,
        |i: int| word_be(bytes[4 * i], bytes[4 * i + 1], bytes[4 * i + 2], bytes[4 * i + 3]),
    )
}

/// What decoding a SPIR-V binary yields: the word sequence in native order,
/// or nothing when the bytes are not a whole number of words or the first
/// word is not the magic number in either byte order.
pub open spec fn spv_decodes(bytes: Seq<u8>) -> Option<Seq<u32>> {
    if bytes.len() % 4 != 0 || bytes.len() == 0 {
        None
    } else if word_le(bytes[0], bytes[1], bytes[2], bytes[3]) == SPV_MAGIC {
        Some(words_le(bytes))
    } else if word_be(bytes[0], bytes[1], bytes[2], bytes[3]) == SPV_MAGIC {
        Some(words_be(bytes))
    } else {
        None
    }
}

/// Reads every 32-bit word of the byte string, in the given byte order.
fn read_words(bytes: &Vec<u8>, big_endian: bool) -> (w: Vec<u32>)
    requires
        bytes@.len() % 4 == 0,
    ensures
        w@ == if big_endian {
            words_be(bytes@)
        } else {
            words_le(bytes@)
        },
{
    let n = bytes.len() / 4;
    let mut w: Vec<u32> = Vec::new();
    let mut i: usize = 0;
    while i < n
        invariant
            bytes@.len() % 4 == 0,
            bytes@.len() <= usize::MAX,
            n == bytes@.len() / 4,
            0 <= i <= n,
            w@.len() == i,
            forall|k: int|
                0 <= k < i ==> w@[k] == (if big_endian {
                    words_be(bytes@)[k]
                } else {
                    words_le(bytes@)[k]
                }),
        decreases n - i,
    {
        assert(4 * i + 3 < bytes@.len());
        let b0 = bytes[4 * i];
        let b1 = bytes[4 * i + 1];
        let b2 = bytes[4 * i + 2];
        let b3 = bytes[4 * i + 3];
        let word: u32 = if big_endian {
            b3 as u32 + b2 as u32 * 0x100 + b1 as u32 * 0x1_0000 + b0 as u32 * 0x100_0000
        } else {
            b0 as u32 + b1 as u32 * 0x100 + b2 as u32 * 0x1_0000 + b3 as u32 * 0x100_0000
        };
        w.push(word);
        i += 1;
    }
    if big_endian {
        assert(w@ =~= words_be(bytes@));
    } else {
        assert(w@ =~= words_le(bytes@));
    }
    w
}

/// Decodes a SPIR-V shader binary into its 32-bit words.
///
/// Succeeds iff the length is a nonzero multiple of four and the first word
/// is the magic number read little- or big-endian; the result is the full
/// word sequence in native order.
pub fn decode_spv(bytes: &Vec<u8>) -> (r: Option<Vec<u32>>)
    ensures
        r matches Some(w) ==> spv_decodes(bytes@) == Some(w@),
        r is None <==> spv_decodes(bytes@) is None,
{
    if bytes.len() % 4 != 0 {
        return None;
    }
    if bytes.len() == 0 {
        return None;
    }
    let b0 = bytes[0];
    let b1 = bytes[1];
    let b2 = bytes[2];
    let b3 = bytes[3];
    let first_le: u32 = b0 as u32 + b1 as u32 * 0x100 + b2 as u32 * 0x1_0000 + b3 as u32
        * 0x100_0000;
    let first_be: u32 = b3 as u32 + b2 as u32 * 0x100 + b1 as u32 * 0x1_0000 + b0 as u32
        * 0x100_0000;
    if first_le == SPV_MAGIC {
        Some(read_words(bytes, false))
    } else if first_be == SPV_MAGIC {
        Some(read_words(bytes, true))
    } else {
        None
    }
}

} // verus!
