//! Instance parameters and the byte range each registered mesh gets in a
//! buffer of instance transforms.

use std::ops::Range;
use vstd::prelude::*;

verus! {

/// Bytes one instance transform takes: a 4 by 4 matrix of 32-bit numbers.
pub const INST_SIZE: u32 = 64;

/// What a caller asks for when it registers a mesh: how many instances, and
/// optionally instance data, a buffer and a byte range of its own. Without a
/// range the instances are appended to the shared transform buffer.
#[derive(Debug)]
pub struct Params {
    pub amt: u32,
    pub bin: Option<Box<[u8]>>,
    pub buffer: Option<usize>,
    pub range: Option<[u32; 2]>,
}

/// What the scene keeps for a registered mesh: the instance count, the
/// caller's data and buffer, and the `[start, end)` byte range that holds the
/// instance transforms.
#[derive(Debug)]
pub struct Properties {
    pub amt: u32,
    pub bin: Option<Box<[u8]>>,
    pub buffer: Option<usize>,
    pub range: [u32; 2],
}

/// The byte range of `amt` instances appended to a buffer that holds `count`.
pub open spec fn appended(count: int, amt: int) -> (int, int) {
    (count * INST_SIZE, count * INST_SIZE + amt * INST_SIZE)
}

/// The byte range of `amt` instances appended to a buffer that holds `count`
/// instances: it starts where the buffer ends. `None` where the end of the
/// range lies beyond what 32 bits hold.
pub fn append_range(count: usize, amt: u32) -> (range: Option<[u32; 2]>)
    ensures
        range is Some <==> appended(count as int, amt as int).1 <= u32::MAX,
        range matches Some(r) ==> r[0] == appended(count as int, amt as int).0 && r[1] == appended(
            count as int,
            amt as int,
        ).1,
{
    let limit: u64 = u32::MAX as u64;
    if count as u64 > limit / (INST_SIZE as u64) {
        return None;
    }
    let start: u64 = count as u64 * (INST_SIZE as u64);
    let length: u64 = amt as u64 * (INST_SIZE as u64);
    if length > limit - start {
        return None;
    }
    Some([start as u32, (start + length) as u32])
}

impl Properties {
    /// First byte of the instance range.
    pub open spec fn start(&self) -> int {
        self.range[0] as int
    }

    /// First byte after the instance range.
    pub open spec fn end(&self) -> int {
        self.range[1] as int
    }

    /// The instance range as a half-open range of 64-bit buffer addresses.
    pub fn range(&self) -> (r: Range<u64>)
        ensures
            r.start == self.start(),
            r.end == self.end(),
    {
        self.range[0] as u64..self.range[1] as u64
    }
}

} // verus!
