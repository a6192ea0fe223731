//! A mesh: a name, shared geometry and a material.

use crate::geometry::Geometry;
use std::sync::Arc;
use vstd::prelude::*;

verus! {

/// A named piece of geometry with the material it is drawn with. The geometry
/// is shared by every instance of the mesh; the material is named by its index
/// in the caller's table.
#[derive(Clone, Debug)]
pub struct Mesh {
    pub name: String,
    pub geometry: Arc<Geometry>,
    pub material: usize,
}

} // verus!
