//! Decoding a program image: a byte stream of 16-bit little-endian words.
//!
//! The word sequence an image decodes to becomes the machine's initial
//! memory, so the image's byte length must be even; an odd trailing byte
//! is rejected at load time.

use vstd::prelude::*;

verus! {

/// The 16-bit word whose low byte is `lo` and whose high byte is `hi`.
pub open spec fn le_word(lo: u8, hi: u8) -> u16 {
    (lo as int + 256 * (hi as int)) as u16
}

/// Why a byte stream is not a program image.
#[derive(Clone, Copy, Debug, PartialEq, Eq, Structural)]
pub enum ImageError {
    /// The stream's byte length is odd, so its last byte pairs with
    /// nothing.
    OddLength,
}

/// Decode a program image: each consecutive pair of bytes, in order,
/// becomes one word, low byte first. Succeeds exactly on streams of even
/// length.
pub fn words_from_bytes(bytes: &[u8]) -> (r: Result<Vec<u16>, ImageError>)
    ensures
        match r {
            Ok(words) => {
                &&& bytes@.len() % 2 == 0
                &&& words@.len() == bytes@.len() / 2
                &&& forall|i: int|
                    0 <= i < words@.len() ==> words@[i] == le_word(bytes@[2 * i], bytes@[2 * i + 1])
            },
            Err(e) => bytes@.len() % 2 != 0 && e == ImageError::OddLength,
        },
{
    let len = bytes.len();
    if len % 2 != 0 {
        return Err(ImageError::OddLength);
    }
    let mut words: Vec<u16> = Vec::new();
    let mut j: usize = 0;
    while j < len / 2
        invariant
            len == bytes@.len(),
            len % 2 == 0,
            j <= len / 2,
            words@.len() == j,
            forall|i: int|
                0 <= i < j ==> words@[i] == le_word(bytes@[2 * i], bytes@[2 * i + 1]),
        decreases len / 2 - j,
    {
        let lo = bytes[2 * j];
        let hi = bytes[2 * j + 1];
        words.push(lo as u16 + 256 * (hi as u16));
        j += 1;
    }
    Ok(words)
}

} // verus!
