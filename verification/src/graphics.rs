//! The extent of the presentation surface.

use vstd::prelude::*;

verus! {

/// What the renderer reads of the graphics context: the extent, in pixels, of
/// the surface it presents to.
#[derive(Clone, Copy, Debug, PartialEq, Eq, Structural)]
pub struct Graphics {
    pub width: u32,
    pub height: u32,
}

impl Graphics {
    /// An extent has no pixel: nothing can be built for it.
    pub open spec fn degenerate(width: u32, height: u32) -> bool {
        width == 0 || height == 0
    }

    /// `choice` is the format to present in, among formats of which `srgb`
    /// says which are sRGB: the first sRGB format, or the very first format
    /// where none is sRGB.
    pub open spec fn is_surface_format(srgb: Seq<bool>, choice: int) -> bool {
        &&& 0 <= choice < srgb.len()
        &&& forall|j: int| 0 <= j < choice ==> !srgb[j]
        &&& !srgb[choice] ==> choice == 0 && forall|j: int| 0 <= j < srgb.len() ==> !srgb[j]
    }

    /// Picks the format to present in among those a surface offers, in the
    /// order in which it offers them: the first sRGB format, or the very
    /// first format where none is sRGB. `None` where the surface offers no
    /// format at all.
    pub fn surface_format(srgb: &Vec<bool>) -> (choice: Option<usize>)
        ensures
            choice is None <==> srgb@.len() == 0,
            choice matches Some(i) ==> Self::is_surface_format(srgb@, i as int),
    {
        if srgb.len() == 0 {
            return None;
        }
        let mut i: usize = 0;
        while i < srgb.len()
            invariant
                i <= srgb@.len(),
                forall|j: int| 0 <= j < i ==> !srgb@[j],
            decreases srgb@.len() - i,
        {
            if srgb[i] {
                return Some(i);
            }
            i = i + 1;
        }
        Some(0)
    }

    /// Takes over a new surface extent. A degenerate extent is ignored: the
    /// context keeps the extent it has. Returns whether the extent was taken
    /// over, that is, whether the surface is to be configured anew.
    pub fn resize(&mut self, width: u32, height: u32) -> (applied: bool)
        ensures
            applied == !Self::degenerate(width, height),
            applied ==> *final(self) == (Graphics { width, height }),
            !applied ==> *final(self) == *old(self),
    {
        if width == 0 || height == 0 {
            return false;
        }
        self.width = width;
        self.height = height;
        true
    }
}

} // verus!
