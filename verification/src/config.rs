use vstd::prelude::*;

verus! {

/// The parameters of one run: how many 32-bit elements the buffers hold, how
/// many dispatch rounds are submitted, and the synchronization policy.
/// `sync_interval == 0` relies on queue submission order alone (no completion
/// wait between dispatches); `sync_interval == k > 0` inserts a wait for
/// device completion after every `k` dispatches.
#[derive(Clone, Copy, PartialEq, Eq, Structural, Debug)]
pub struct RunConfig {
    pub entries: usize,
    pub iterations: usize,
    pub sync_interval: usize,
}

impl RunConfig {
    /// A run is meaningful when there is at least one element and the dispatch
    /// width fits the device's 32-bit workgroup count.
    pub open spec fn valid(self) -> bool {
        1 <= self.entries <= u32::MAX
    }

    /// The byte size shared by every buffer allocation and every copy.
    pub open spec fn data_size_spec(self) -> int {
        self.entries * 4
    }

    /// The byte size of the buffers: exactly `entries * 4`.
    pub fn data_size(&self) -> (r: u64)
        requires
            self.valid(),
        ensures
            r == self.data_size_spec(),
    {
        (self.entries as u64) * 4
    }

    /// Executable check of `valid`, for callers outside verified code.
    pub fn is_valid(&self) -> (r: bool)
        ensures
            r == self.valid(),
    {
        1 <= self.entries && self.entries <= u32::MAX as usize
    }
}

} // verus!
