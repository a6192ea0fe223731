//! Byte ranges of a mesh inside its shared geometry buffer.

use std::ops::Range;
use vstd::prelude::*;

verus! {

/// The `[start, end)` byte ranges of a mesh's index, vertex and texture
/// coordinate data inside the buffer that holds them.
#[derive(Clone, Copy, Debug, PartialEq, Eq)]
pub struct Ranges {
    pub index: [u32; 2],
    pub vertex: [u32; 2],
    pub uv: [u32; 2],
}

impl Ranges {
    /// The six bounds as the words of a uniform: the index, vertex and
    /// texture coordinate range, start before end.
    pub fn words(&self) -> (words: [u32; 6])
        ensures
            words@ == seq![
                self.index[0],
                self.index[1],
                self.vertex[0],
                self.vertex[1],
                self.uv[0],
                self.uv[1],
            ],
    {
        let words = [
            self.index[0],
            self.index[1],
            self.vertex[0],
            self.vertex[1],
            self.uv[0],
            self.uv[1],
        ];
        assert(words@ =~= seq![
            self.index[0],
            self.index[1],
            self.vertex[0],
            self.vertex[1],
            self.uv[0],
            self.uv[1],
        ]);
        words
    }

    /// The index data as a half-open range of 64-bit buffer addresses.
    pub fn index(&self) -> (r: Range<u64>)
        ensures
            r.start == self.index[0],
            r.end == self.index[1],
    {
        self.index[0] as u64..self.index[1] as u64
    }

    /// The vertex data as a half-open range of 64-bit buffer addresses.
    pub fn vertex(&self) -> (r: Range<u64>)
        ensures
            r.start == self.vertex[0],
            r.end == self.vertex[1],
    {
        self.vertex[0] as u64..self.vertex[1] as u64
    }

    /// The texture coordinates as a half-open range of 64-bit buffer
    /// addresses.
    pub fn uv(&self) -> (r: Range<u64>)
        ensures
            r.start == self.uv[0],
            r.end == self.uv[1],
    {
        self.uv[0] as u64..self.uv[1] as u64
    }
}

/// Where a buffer view lies in its buffer: `length` bytes from `offset`.
#[derive(Clone, Copy, Debug, PartialEq, Eq, Structural)]
pub struct ViewSpan {
    pub offset: usize,
    pub length: usize,
}

impl ViewSpan {
    /// The span ends at an address that a 32-bit range can hold.
    pub open spec fn fits(self) -> bool {
        self.offset + self.length <= u32::MAX
    }

    /// The span as a pair of 32-bit bounds, or `None` where its end lies
    /// beyond what 32 bits hold.
    pub fn range(&self) -> (r: Option<[u32; 2]>)
        ensures
            r is Some <==> self.fits(),
            r matches Some(b) ==> b[0] == self.offset && b[1] == self.offset + self.length,
    {
        if self.offset > u32::MAX as usize {
            return None;
        }
        if self.length > u32::MAX as usize - self.offset {
            return None;
        }
        let start: u32 = self.offset as u32;
        let end: u32 = (self.offset + self.length) as u32;
        Some([start, end])
    }
}

/// Immutable geometry of a mesh: how many elements one draw covers and where
/// its data lies. The buffer and the optional pipelines of its own are named
/// by their index in the caller's tables.
#[derive(Clone, Copy, Debug, PartialEq, Eq)]
pub struct Geometry {
    pub elm_amt: u32,
    pub ranges: Ranges,
    pub buffer: usize,
    pub g_pipeline: Option<usize>,
    pub ray_pipeline: Option<usize>,
}

impl Geometry {
    /// What `from_views` returns where every span fits.
    pub open spec fn of_views(
        vertex: ViewSpan,
        index: Option<ViewSpan>,
        uv: Option<ViewSpan>,
        buffer: usize,
    ) -> Geometry {
        Geometry {
            elm_amt: match index {
                Some(i) => i.length as u32,
                None => vertex.length as u32,
            },
            ranges: Ranges {
                vertex: [vertex.offset as u32, (vertex.offset + vertex.length) as u32],
                index: match index {
                    Some(i) => [i.offset as u32, (i.offset + i.length) as u32],
                    None => [0u32, 0u32],
                },
                uv: match uv {
                    Some(u) => [u.offset as u32, (u.offset + u.length) as u32],
                    None => [0u32, 0u32],
                },
            },
            buffer,
            g_pipeline: None,
            ray_pipeline: None,
        }
    }

    /// The geometry of one primitive, from the buffer views of its position,
    /// index and first texture-coordinate accessors. An absent index or
    /// texture-coordinate view leaves its range at `[0, 0]`. One draw covers
    /// the index view's length, or the vertex view's where there is no index
    /// view. `None` where a span does not fit 32-bit ranges.
    pub fn from_views(
        vertex: ViewSpan,
        index: Option<ViewSpan>,
        uv: Option<ViewSpan>,
        buffer: usize,
    ) -> (g: Option<Geometry>)
        ensures
            g is Some <==> vertex.fits() && (index matches Some(i) ==> i.fits()) && (uv matches Some(
                u,
            ) ==> u.fits()),
            g matches Some(geometry) ==> geometry == Self::of_views(vertex, index, uv, buffer),
    {
        let vertex_range = match vertex.range() {
            Some(r) => r,
            None => { return None; },
        };
        let mut ranges = Ranges { vertex: vertex_range, index: [0, 0], uv: [0, 0] };
        let elm_amt: u32 = match index {
            Some(view) => {
                match view.range() {
                    Some(r) => {
                        ranges.index = r;
                        view.length as u32
                    },
                    None => { return None; },
                }
            },
            None => vertex.length as u32,
        };
        match uv {
            Some(view) => {
                match view.range() {
                    Some(r) => { ranges.uv = r; },
                    None => { return None; },
                }
            },
            None => {},
        }
        let g = Geometry { elm_amt, ranges, buffer, g_pipeline: None, ray_pipeline: None };
        proof {
            let want = Self::of_views(vertex, index, uv, buffer);
            assert(g.ranges.vertex =~= want.ranges.vertex);
            assert(g.ranges.index =~= want.ranges.index);
            assert(g.ranges.uv =~= want.ranges.uv);
        }
        Some(g)
    }
}

} // verus!
