//! The ray buffer: two attachment sets that trade places after every
//! dispatch, the ray attachments, and the world transforms of all instances.

use crate::g_buffer::GBuffer;
use crate::graphics::Graphics;
use crate::texture::{Texture, Usage, TX_FORMAT_NORMAL, TX_FORMAT_POSITION};
use vstd::prelude::*;

verus! {

/// Two symmetric attachment sets, of which `g_buffer_ind` selects the one
/// that is read, the ray origin and direction attachments, and one world
/// transform for each instance slot.
#[derive(Debug)]
pub struct RayBuffer<T> {
    pub g_buffer_ind: usize,
    pub g_buffers: [GBuffer; 2],
    pub origin_texture: Texture,
    pub direction_texture: Texture,
    pub world_tsfs: Vec<T>,
}

impl<T: Copy> RayBuffer<T> {
    /// Usage of the ray origin and direction attachments.
    pub open spec fn ray_usage() -> Usage {
        Usage {
            storage_binding: true,
            render_attachment: false,
            texture_binding: true,
            copy_dst: false,
        }
    }

    /// The ray origin attachment for a surface of `width` by `height`.
    pub open spec fn origin_sized(width: u32, height: u32) -> Texture {
        Texture { width, height, format: TX_FORMAT_POSITION, usage: Self::ray_usage() }
    }

    /// The ray direction attachment for a surface of `width` by `height`.
    pub open spec fn direction_sized(width: u32, height: u32) -> Texture {
        Texture { width, height, format: TX_FORMAT_NORMAL, usage: Self::ray_usage() }
    }

    /// Slots a buffer for `amt` instances has: a buffer is never empty.
    pub open spec fn slots(amt: int) -> int {
        if amt != 0 {
            amt
        } else {
            1
        }
    }

    /// The index selects one of the two attachment sets.
    pub open spec fn wf(&self) -> bool {
        self.g_buffer_ind < 2
    }

    /// The attachment set that a dispatch writes: the one that is not read.
    pub open spec fn other(ind: int) -> int {
        1 - ind
    }

    /// A fresh ray buffer for a surface and `amt` instances: both attachment
    /// sets and the ray attachments of the surface's extent, set 0 selected,
    /// and every slot at `identity`.
    pub fn new(graphics: &Graphics, amt: usize, identity: T) -> (rb: Self)
        ensures
            rb.g_buffer_ind == 0,
            rb.g_buffers[0] == GBuffer::sized(graphics.width, graphics.height),
            rb.g_buffers[1] == GBuffer::sized(graphics.width, graphics.height),
            rb.origin_texture == Self::origin_sized(graphics.width, graphics.height),
            rb.direction_texture == Self::direction_sized(graphics.width, graphics.height),
            rb.world_tsfs@.len() == Self::slots(amt as int),
            forall|i: int| 0 <= i < rb.world_tsfs@.len() ==> rb.world_tsfs@[i] == identity,
    {
        let ray_usage = Usage {
            storage_binding: true,
            render_attachment: false,
            texture_binding: true,
            copy_dst: false,
        };
        let origin_texture = Texture::create_texture(
            graphics.width,
            graphics.height,
            TX_FORMAT_POSITION,
            ray_usage,
        );
        let direction_texture = Texture::create_texture(
            graphics.width,
            graphics.height,
            TX_FORMAT_NORMAL,
            ray_usage,
        );
        let slots: usize = if amt != 0 {
            amt
        } else {
            1
        };
        let mut world_tsfs: Vec<T> = Vec::new();
        let mut i: usize = 0;
        while i < slots
            invariant
                i <= slots,
                world_tsfs@.len() == i,
                forall|k: int| 0 <= k < world_tsfs@.len() ==> world_tsfs@[k] == identity,
            decreases slots - i,
        {
            world_tsfs.push(identity);
            i = i + 1;
        }
        RayBuffer {
            g_buffer_ind: 0,
            g_buffers: [GBuffer::new(graphics), GBuffer::new(graphics)],
            origin_texture,
            direction_texture,
            world_tsfs,
        }
    }

    /// The attachment set that the next dispatch writes.
    pub fn write_index(&self) -> (ind: usize)
        requires
            self.wf(),
        ensures
            ind == Self::other(self.g_buffer_ind as int),
    {
        let read: u64 = self.g_buffer_ind as u64;
        assert(read < 2 ==> read ^ 1 == 1 - read) by (bit_vector);
        (read ^ 1) as usize
    }

    /// Trades the places of the two attachment sets: what was written is
    /// read next.
    pub fn toggle(&mut self)
        requires
            old(self).wf(),
        ensures
            final(self).g_buffer_ind == Self::other(old(self).g_buffer_ind as int),
            final(self).g_buffers == old(self).g_buffers,
            final(self).origin_texture == old(self).origin_texture,
            final(self).direction_texture == old(self).direction_texture,
            final(self).world_tsfs == old(self).world_tsfs,
    {
        self.g_buffer_ind = self.write_index();
    }
}

} // verus!
