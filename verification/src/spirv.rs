use vstd::prelude::*;

use crate::words::words_of;
use crate::words::words_from_bytes;

verus! {

/// The magic number that opens every SPIR-V module.
pub const SPIRV_MAGIC: u32 = 0x0723_0203;

/// The magic number as it appears when the module was written with the
/// opposite byte order.
pub const SPIRV_MAGIC_SWAPPED: u32 = 0x0302_2307;

/// Why a byte buffer is not a loadable SPIR-V module.
#[derive(Clone, Copy, PartialEq, Eq, Structural, Debug)]
pub enum SpirvError {
    /// The input length is not divisible by four.
    LengthNotMultipleOfFour,
    /// The input is empty or its first word is not the magic number in
    /// either byte order.
    MissingMagic,
}

/// A word with its four bytes reversed.
pub open spec fn swap_bytes_spec(w: u32) -> u32 {
    (w >> 24) | ((w >> 8) & 0xff00) | ((w << 8) & 0xff0000) | (w << 24)
}

/// A buffer is loadable when its length is a multiple of four and its first
/// word is the magic number in the native or the opposite byte order.
pub open spec fn spirv_ok(b: Seq<u8>) -> bool {
    &&& b.len() % 4 == 0
    &&& words_of(b).len() > 0
    &&& (words_of(b)[0] == SPIRV_MAGIC || words_of(b)[0] == SPIRV_MAGIC_SWAPPED)
}

/// The words of a loadable module: the raw words, byte-swapped as a whole
/// when the module was written in the opposite byte order.
pub open spec fn spirv_words_spec(b: Seq<u8>) -> Seq<u32> {
    let ws = words_of(b);
    if ws.len() > 0 && ws[0] == SPIRV_MAGIC_SWAPPED {
        ws.map(|i: int, w: u32| swap_bytes_spec(w))
    } else {
        ws
    }
}

/// Reverses the byte order of one word.
pub fn swap_word_bytes(w: u32) -> (r: u32)
    ensures
        r == swap_bytes_spec(w),
{
    (w >> 24) | ((w >> 8) & 0xff00) | ((w << 8) & 0xff0000) | (w << 24)
}

/// Parses a precompiled shader module out of its raw bytes: the length must
/// be a multiple of four and the first word must be the SPIR-V magic number;
/// a module written in the opposite byte order is byte-swapped whole. On
/// success the first word of the result is the magic number in native order.
pub fn spirv_words(bytes: &[u8]) -> (r: Result<Vec<u32>, SpirvError>)
    ensures
        (bytes@.len() % 4 != 0) <==> r == Err::<Vec<u32>, SpirvError>(SpirvError::LengthNotMultipleOfFour),
        (bytes@.len() % 4 == 0 && !spirv_ok(bytes@)) <==> r == Err::<Vec<u32>, SpirvError>(SpirvError::MissingMagic),
        spirv_ok(bytes@) <==> r is Ok,
        r matches Ok(v) ==> {
            &&& v@ == spirv_words_spec(bytes@)
            &&& v@.len() == bytes@.len() / 4
            &&& v@[0] == SPIRV_MAGIC
        },
{
    let ws = match words_from_bytes(bytes) {
        None => {
            return Err(SpirvError::LengthNotMultipleOfFour);
        },
        Some(ws) => ws,
    };
    if ws.len() == 0 {
        return Err(SpirvError::MissingMagic);
    }
    let first = ws[0];
    if first == SPIRV_MAGIC {
        Ok(ws)
    } else if first == SPIRV_MAGIC_SWAPPED {
        let mut swapped: Vec<u32> = Vec::new();
        let mut k: usize = 0;
        while k < ws.len()
            invariant
                k <= ws@.len(),
                swapped@.len() == k,
                forall|i: int| 0 <= i < k ==> swapped@[i] == swap_bytes_spec(ws@[i]),
            decreases ws@.len() - k,
        {
            let w = swap_word_bytes(ws[k]);
            swapped.push(w);
            k = k + 1;
        }
        proof {
            assert(swapped@ =~= spirv_words_spec(bytes@));
            assert(swap_bytes_spec(0x0302_2307u32) == 0x0723_0203u32) by (bit_vector);
        }
        Ok(swapped)
    } else {
        Err(SpirvError::MissingMagic)
    }
}

} // verus!
