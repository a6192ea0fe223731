//! The attachment set that rasterisation and the ray pass exchange.

use crate::graphics::Graphics;
use crate::texture::{
    Texture, Usage, TX_FORMAT_COLOR, TX_FORMAT_DEPTH, TX_FORMAT_NORMAL, TX_FORMAT_POSITION,
};
use vstd::prelude::*;

verus! {

/// One complete set of off-screen attachments: per-pixel albedo, emission,
/// world-space position and normal, and depth.
#[derive(Clone, Copy, Debug, PartialEq, Eq, Structural)]
pub struct GBuffer {
    pub albedo_texture: Texture,
    pub emission_texture: Texture,
    pub position_texture: Texture,
    pub normal_texture: Texture,
    pub depth_texture: Texture,
}

impl GBuffer {
    /// Usage of the four colour attachments: written by rasterisation and by
    /// compute, and read by both.
    pub open spec fn color_usage() -> Usage {
        Usage {
            storage_binding: true,
            render_attachment: true,
            texture_binding: true,
            copy_dst: false,
        }
    }

    /// Usage of the depth attachment.
    pub open spec fn depth_usage() -> Usage {
        Usage {
            storage_binding: false,
            render_attachment: true,
            texture_binding: true,
            copy_dst: false,
        }
    }

    /// The attachment set for a surface of `width` by `height`.
    pub open spec fn sized(width: u32, height: u32) -> GBuffer {
        GBuffer {
            albedo_texture: Texture {
                width,
                height,
                format: TX_FORMAT_COLOR,
                usage: Self::color_usage(),
            },
            emission_texture: Texture {
                width,
                height,
                format: TX_FORMAT_COLOR,
                usage: Self::color_usage(),
            },
            position_texture: Texture {
                width,
                height,
                format: TX_FORMAT_POSITION,
                usage: Self::color_usage(),
            },
            normal_texture: Texture {
                width,
                height,
                format: TX_FORMAT_NORMAL,
                usage: Self::color_usage(),
            },
            depth_texture: Texture {
                width,
                height,
                format: TX_FORMAT_DEPTH,
                usage: Self::depth_usage(),
            },
        }
    }

    /// A fresh attachment set of the surface's extent.
    pub fn new(graphics: &Graphics) -> (g: GBuffer)
        ensures
            g == Self::sized(graphics.width, graphics.height),
    {
        let g_usage = Usage {
            storage_binding: true,
            render_attachment: true,
            texture_binding: true,
            copy_dst: false,
        };
        let depth_usage = Usage {
            storage_binding: false,
            render_attachment: true,
            texture_binding: true,
            copy_dst: false,
        };
        let width = graphics.width;
        let height = graphics.height;
        GBuffer {
            albedo_texture: Texture::create_texture(width, height, TX_FORMAT_COLOR, g_usage),
            emission_texture: Texture::create_texture(width, height, TX_FORMAT_COLOR, g_usage),
            position_texture: Texture::create_texture(width, height, TX_FORMAT_POSITION, g_usage),
            normal_texture: Texture::create_texture(width, height, TX_FORMAT_NORMAL, g_usage),
            depth_texture: Texture::create_texture(width, height, TX_FORMAT_DEPTH, depth_usage),
        }
    }
}

} // verus!
