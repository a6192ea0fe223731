//! The fixed-capacity store of cached lighting samples.

use vstd::prelude::*;

verus! {

/// Cells along each of the four axes of the cache's grid.
pub const GRID_RESOLUTION: usize = 16;

/// Number of entries of every cache: the grid resolution to the fourth power.
pub const CAPACITY: usize = 65536;

/// Bytes one entry takes in the storage buffer.
pub const ENTRY_SIZE: usize = 16;

/// One cached sample: frames since it was last refreshed, and the accumulated
/// colour as the bit patterns of its three channels.
#[derive(Clone, Copy, Debug, PartialEq, Eq)]
pub struct Entry {
    pub lifetime: u32,
    pub color: [u32; 3],
}

/// The host's side of the irradiance cache. Its capacity is fixed when it is
/// made; the host hands the entries out to be uploaded once and never writes
/// to them afterwards.
#[derive(Clone, Debug)]
pub struct IrradianceCache {
    entries: Vec<Entry>,
}

impl Entry {
    /// The entry every slot starts from: never refreshed, black.
    pub open spec fn cleared(self) -> bool {
        self.lifetime == 0 && self.color@ == seq![0u32, 0u32, 0u32]
    }
}

impl View for IrradianceCache {
    type V = Seq<Entry>;

    closed spec fn view(&self) -> Seq<Entry> {
        self.entries@
    }
}

impl IrradianceCache {
    /// A cache of `CAPACITY` cleared entries.
    pub fn new() -> (cache: Self)
        ensures
            cache@.len() == CAPACITY,
            forall|i: int| 0 <= i < cache@.len() ==> (#[trigger] cache@[i]).cleared(),
    {
        assert(GRID_RESOLUTION * GRID_RESOLUTION * GRID_RESOLUTION * GRID_RESOLUTION == CAPACITY);
        let mut entries: Vec<Entry> = Vec::new();
        let mut i: usize = 0;
        while i < CAPACITY
            invariant
                i <= CAPACITY,
                entries@.len() == i,
                forall|k: int| 0 <= k < entries@.len() ==> (#[trigger] entries@[k]).cleared(),
            decreases CAPACITY - i,
        {
            let entry = Entry { lifetime: 0, color: [0, 0, 0] };
            assert(entry.color@ =~= seq![0u32, 0u32, 0u32]);
            entries.push(entry);
            i = i + 1;
        }
        IrradianceCache { entries }
    }

    /// The number of entries.
    pub fn capacity(&self) -> (n: usize)
        ensures
            n == self@.len(),
    {
        self.entries.len()
    }

    /// The entries, in slot order.
    pub fn entries(&self) -> (entries: &Vec<Entry>)
        ensures
            entries@ == self@,
    {
        &self.entries
    }
}

} // verus!
