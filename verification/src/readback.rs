use vstd::prelude::*;

use crate::config::RunConfig;
use crate::words::words_from_bytes;
use crate::words::words_of;

verus! {

/// What the final readback produced: the words read out of the mapped
/// staging buffer, or the explicit signal that mapping failed. A failed
/// mapping is reported, never swallowed.
#[derive(PartialEq, Eq, Debug)]
pub enum ReadbackOutcome {
    /// The mapping succeeded; these are the 32-bit words read back.
    Received { data: Vec<u32> },
    /// The mapping failed; nothing was read.
    MappingFailed,
}

/// Interprets the result of mapping the staging buffer: `None` stands for a
/// failed mapping and yields the explicit failure signal; a successful
/// mapping of the full byte range yields exactly `entries` words, read
/// least-significant byte first.
pub fn finish_readback(cfg: &RunConfig, mapping: Option<&[u8]>) -> (r: ReadbackOutcome)
    requires
        cfg.valid(),
        mapping matches Some(b) ==> b@.len() == cfg.entries * 4,
    ensures
        mapping is None <==> r is MappingFailed,
        mapping matches Some(b) ==> (r matches ReadbackOutcome::Received { data }
            && data@ == words_of(b@) && data@.len() == cfg.entries),
{
    match mapping {
        None => ReadbackOutcome::MappingFailed,
        Some(b) => {
            proof {
                assert(b@.len() % 4 == 0);
                assert((cfg.entries * 4) / 4 == cfg.entries);
            }
            let data = words_from_bytes(b).unwrap();
            ReadbackOutcome::Received { data }
        },
    }
}

/// The byte count a successful readback reports: four bytes per word.
pub fn received_byte_count(data: &Vec<u32>) -> (r: u64)
    requires
        data@.len() * 4 <= u64::MAX,
    ensures
        r == data@.len() * 4,
{
    (data.len() as u64) * 4
}

} // verus!
