//! Texture descriptions, and the decoding of image assets into pixels.

use vstd::prelude::*;

verus! {

/// The texel formats the renderer uses.
#[derive(Clone, Copy, Debug, PartialEq, Eq, Structural)]
pub enum Format {
    Rgba8Unorm,
    Rgba8UnormSrgb,
    Rgba16Float,
    Depth32Float,
}

/// Format of the albedo and emission attachments.
pub const TX_FORMAT_COLOR: Format = Format::Rgba8Unorm;

/// Format of the world-space position attachment and of ray origins.
pub const TX_FORMAT_POSITION: Format = Format::Rgba16Float;

/// Format of the normal attachment and of ray directions.
pub const TX_FORMAT_NORMAL: Format = Format::Rgba8Unorm;

/// Format of the depth attachment.
pub const TX_FORMAT_DEPTH: Format = Format::Depth32Float;

/// What a texture may be used for.
#[derive(Clone, Copy, Debug, PartialEq, Eq, Structural)]
pub struct Usage {
    pub storage_binding: bool,
    pub render_attachment: bool,
    pub texture_binding: bool,
    pub copy_dst: bool,
}

/// A two-dimensional texture with one mip level and one sample per texel.
#[derive(Clone, Copy, Debug, PartialEq, Eq, Structural)]
pub struct Texture {
    pub width: u32,
    pub height: u32,
    pub format: Format,
    pub usage: Usage,
}

/// A sampled texture together with the pixels to copy into it, row after row.
#[derive(Clone, Debug, PartialEq, Eq)]
pub struct ImageTexture {
    pub texture: Texture,
    pub rgba: Vec<u8>,
    pub bytes_per_row: u64,
    pub rows_per_image: u32,
}

/// A decoding result with its pixels as a sequence.
pub open spec fn decoded_view(decoded: Option<(u32, u32, Vec<u8>)>) -> Option<(u32, u32, Seq<u8>)> {
    match decoded {
        Some((width, height, pixels)) => Some((width, height, pixels@)),
        None => None,
    }
}

/// The bytes begin as a JPEG stream does.
pub open spec fn is_jpeg(bytes: Seq<u8>) -> bool {
    bytes.len() >= 3 && bytes[0] == 0xFF && bytes[1] == 0xD8 && bytes[2] == 0xFF
}

/// At `i` stands what reads as the header of a lossless frame whose samples
/// are not 8 bits wide: the marker `FF C3`, two bytes of length, and a
/// precision other than 8.
pub open spec fn wide_lossless_frame_at(bytes: Seq<u8>, i: int) -> bool {
    &&& 0 <= i
    &&& i + 4 < bytes.len()
    &&& bytes[i] == 0xFF
    &&& bytes[i + 1] == 0xC3
    &&& bytes[i + 4] != 8
}

/// The bytes are a JPEG stream in which, somewhere, stands what reads as the
/// header of a lossless frame with samples that are not 8 bits wide. The
/// decoder is not handed such bytes: for some of them it reports a pixel
/// format that does not fit the samples it then emits.
pub open spec fn holds_wide_lossless_frame(bytes: Seq<u8>) -> bool {
    is_jpeg(bytes) && exists|i: int| wide_lossless_frame_at(bytes, i)
}

/// Whether the bytes are a JPEG stream that holds what reads as the header of
/// a lossless frame with samples that are not 8 bits wide.
pub fn finds_wide_lossless_frame(bytes: &[u8]) -> (found: bool)
    ensures
        found == holds_wide_lossless_frame(bytes@),
{
    let len = bytes.len();
    if len < 5 {
        return false;
    }
    if bytes[0] != 0xFF || bytes[1] != 0xD8 || bytes[2] != 0xFF {
        return false;
    }
    let mut i: usize = 0;
    while i < len - 4
        invariant
            len == bytes@.len(),
            len >= 5,
            i <= len - 4,
            is_jpeg(bytes@),
            forall|j: int| 0 <= j < i ==> !wide_lossless_frame_at(bytes@, j),
        decreases len - i,
    {
        if bytes[i] == 0xFF && bytes[i + 1] == 0xC3 && bytes[i + 4] != 8 {
            assert(wide_lossless_frame_at(bytes@, i as int));
            return true;
        }
        i = i + 1;
    }
    false
}

/// Decodes an image with `image::load_from_memory`, which guesses the format
/// from the leading bytes, and converts what that yields to 8-bit RGBA with
/// `DynamicImage::to_rgba8`; an error of the decoder becomes `None`.
///
/// Trusted: on bytes that hold no wide lossless frame the two calls return,
/// and the converted buffer holds four bytes for each of its
/// `width * height` pixels. Nothing is claimed of the pixels themselves: the
/// JPEG decoder picks its arithmetic by the machine it runs on, so the same
/// bytes need not give the same pixels everywhere.
#[verifier::external_body]
fn decode_rgba8(bytes: &[u8]) -> (decoded: Option<(u32, u32, Vec<u8>)>)
    requires
        !holds_wide_lossless_frame(bytes@),
    ensures
        decoded matches Some((width, height, pixels)) ==> pixels@.len() == 4 * width * height,
{
    match image::load_from_memory(bytes) {
        Ok(img) => {
            let rgba = img.to_rgba8();
            let (width, height) = rgba.dimensions();
            Some((width, height, rgba.into_raw()))
        },
        Err(_) => None,
    }
}

impl Usage {
    /// A texture that is sampled and filled by copies.
    pub open spec fn sampled() -> Usage {
        Usage {
            storage_binding: false,
            render_attachment: false,
            texture_binding: true,
            copy_dst: true,
        }
    }
}

impl ImageTexture {
    /// The texture that stands in for an image that could not be decoded:
    /// one opaque black pixel.
    pub open spec fn blank(self) -> bool {
        &&& self.texture == (Texture {
            width: 1,
            height: 1,
            format: Format::Rgba8UnormSrgb,
            usage: Usage::sampled(),
        })
        &&& self.rgba@ == seq![0u8, 0u8, 0u8, 255u8]
        &&& self.bytes_per_row == 4
        &&& self.rows_per_image == 1
    }

    /// The texture for a decoded image of `width` by `height` pixels.
    pub open spec fn holds(self, width: u32, height: u32, pixels: Seq<u8>) -> bool {
        &&& self.texture == (Texture {
            width,
            height,
            format: Format::Rgba8UnormSrgb,
            usage: Usage::sampled(),
        })
        &&& self.rgba@ == pixels
        &&& self.bytes_per_row == 4 * width
        &&& self.rows_per_image == height
    }

    /// The texture for a decoding result: the image where there is one, the
    /// blank texture where there is none.
    pub open spec fn matches_decoded(self, decoded: Option<(u32, u32, Seq<u8>)>) -> bool {
        match decoded {
            Some((width, height, pixels)) => self.holds(width, height, pixels),
            None => self.blank(),
        }
    }
}

impl Texture {
    /// An empty texture of the given extent, format and usage.
    pub fn create_texture(width: u32, height: u32, format: Format, usage: Usage) -> (t: Texture)
        ensures
            t == (Texture { width, height, format, usage }),
    {
        Texture { width, height, format, usage }
    }

    /// The one-pixel texture that replaces an image that cannot be decoded.
    pub fn create_blank_texture() -> (t: ImageTexture)
        ensures
            t.blank(),
    {
        let mut rgba: Vec<u8> = Vec::new();
        rgba.push(0);
        rgba.push(0);
        rgba.push(0);
        rgba.push(255);
        assert(rgba@ =~= seq![0u8, 0u8, 0u8, 255u8]);
        ImageTexture {
            texture: Texture {
                width: 1,
                height: 1,
                format: Format::Rgba8UnormSrgb,
                usage: Usage {
                    storage_binding: false,
                    render_attachment: false,
                    texture_binding: true,
                    copy_dst: true,
                },
            },
            rgba,
            bytes_per_row: 4,
            rows_per_image: 1,
        }
    }

    /// The texture for the outcome of decoding an image: an sRGB texture of
    /// the image's extent that holds its pixels, each row `4 * width` bytes
    /// long, or the blank texture where decoding failed.
    pub fn from_decoded(decoded: Option<(u32, u32, Vec<u8>)>) -> (t: ImageTexture)
        ensures
            t.matches_decoded(decoded_view(decoded)),
    {
        match decoded {
            Some((width, height, pixels)) => ImageTexture {
                texture: Texture {
                    width,
                    height,
                    format: Format::Rgba8UnormSrgb,
                    usage: Usage {
                        storage_binding: false,
                        render_attachment: false,
                        texture_binding: true,
                        copy_dst: true,
                    },
                },
                rgba: pixels,
                bytes_per_row: 4 * (width as u64),
                rows_per_image: height,
            },
            None => Self::create_blank_texture(),
        }
    }

    /// Decodes an encoded image into a texture: an sRGB texture of the
    /// image's extent with its pixels, four bytes each, row after row. Bytes
    /// that cannot be decoded, and bytes that are not handed to the decoder
    /// because they hold a wide lossless frame, yield the blank texture in
    /// their place.
    pub fn create_image_texture(bytes: &[u8]) -> (t: ImageTexture)
        ensures
            t.blank() || exists|width: u32, height: u32, pixels: Seq<u8>|
                #[trigger] t.holds(width, height, pixels) && pixels.len() == 4 * width * height,
            holds_wide_lossless_frame(bytes@) ==> t.blank(),
            t.rgba@.len() == t.bytes_per_row * t.rows_per_image,
    {
        if finds_wide_lossless_frame(bytes) {
            return Self::create_blank_texture();
        }
        let decoded = decode_rgba8(bytes);
        let ghost outcome = decoded_view(decoded);
        let t = Self::from_decoded(decoded);
        proof {
            if let Some((width, height, pixels)) = outcome {
                assert(4 * width * height == (4 * width) * height) by (nonlinear_arith);
                assert(t.holds(width, height, pixels));
            }
        }
        t
    }
}

} // verus!
