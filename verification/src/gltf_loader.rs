//! Meshes from the buffer views of a loaded model.
//!
//! Reading and parsing the model is the caller's work. What comes here is
//! what the caller found: for each mesh at the root of a scene its name and,
//! for each primitive, where its accessors' views lie in the binary buffer.

use crate::geometry::{Geometry, ViewSpan};
use crate::mesh::Mesh;
use std::sync::Arc;
use vstd::prelude::*;

verus! {

/// The buffer views of one primitive: of its positions, of its indices where
/// the index accessor has a view, and of its first set of texture
/// coordinates where it has one; and the index of its material, where it
/// names one.
#[derive(Clone, Copy, Debug, PartialEq, Eq)]
pub struct PrimitiveViews {
    pub positions: ViewSpan,
    pub indices: Option<ViewSpan>,
    pub tex_coords: Option<ViewSpan>,
    pub material: Option<usize>,
}

/// A mesh of the model: its name, empty where it has none, and its
/// primitives.
#[derive(Debug)]
pub struct MeshViews {
    pub name: String,
    pub primitives: Vec<PrimitiveViews>,
}

impl PrimitiveViews {
    /// Every view fits 32-bit ranges, and the material index, where there is
    /// one, names one of `materials` materials.
    pub open spec fn valid(self, materials: int) -> bool {
        &&& self.positions.fits()
        &&& self.indices matches Some(view) ==> view.fits()
        &&& self.tex_coords matches Some(view) ==> view.fits()
        &&& self.material matches Some(index) ==> index < materials
    }

    /// Whether the primitive is valid for a model with `materials`
    /// materials.
    pub fn is_valid(&self, materials: usize) -> (ok: bool)
        ensures
            ok == self.valid(materials as int),
    {
        if self.positions.range().is_none() {
            return false;
        }
        match self.indices {
            Some(view) => {
                if view.range().is_none() {
                    return false;
                }
            },
            None => {},
        }
        match self.tex_coords {
            Some(view) => {
                if view.range().is_none() {
                    return false;
                }
            },
            None => {},
        }
        match self.material {
            Some(index) => index < materials,
            None => true,
        }
    }
}

impl MeshViews {
    /// Every primitive of the mesh is valid.
    pub open spec fn valid(self, materials: int) -> bool {
        forall|i: int|
            0 <= i < self.primitives@.len() ==> (#[trigger] self.primitives@[i]).valid(materials)
    }

    /// Whether every primitive of the mesh is valid for a model with
    /// `materials` materials.
    pub fn is_valid(&self, materials: usize) -> (ok: bool)
        ensures
            ok == self.valid(materials as int),
    {
        let mut i: usize = 0;
        while i < self.primitives.len()
            invariant
                i <= self.primitives@.len(),
                forall|k: int|
                    0 <= k < i ==> (#[trigger] self.primitives@[k]).valid(materials as int),
            decreases self.primitives@.len() - i,
        {
            if !self.primitives[i].is_valid(materials) {
                return false;
            }
            i = i + 1;
        }
        true
    }
}

/// The mesh of one primitive: the name of the mesh it belongs to, its
/// geometry in the buffer `buffer`, and its material, or the default
/// material where it names none.
pub open spec fn mesh_of(
    name: String,
    primitive: PrimitiveViews,
    buffer: usize,
    default_material: usize,
    materials: Seq<usize>,
) -> Mesh {
    Mesh {
        name,
        geometry: Arc::new(
            Geometry::of_views(
                primitive.positions,
                primitive.indices,
                primitive.tex_coords,
                buffer,
            ),
        ),
        material: match primitive.material {
            Some(index) => materials[index as int],
            None => default_material,
        },
    }
}

/// The meshes of the first `k` primitives of a mesh of the model.
pub open spec fn meshes_of(
    mesh: MeshViews,
    buffer: usize,
    default_material: usize,
    materials: Seq<usize>,
    k: int,
) -> Seq<Mesh> {
    Seq::new(
        k as nat,
        |i: int| mesh_of(mesh.name, mesh.primitives@[i], buffer, default_material, materials),
    )
}

/// The meshes of all primitives of the first `k` meshes of the model, mesh
/// after mesh.
pub open spec fn meshes_of_all(
    model: Seq<MeshViews>,
    buffer: usize,
    default_material: usize,
    materials: Seq<usize>,
    k: int,
) -> Seq<Mesh>
    decreases k,
{
    if k <= 0 {
        Seq::empty()
    } else {
        meshes_of_all(model, buffer, default_material, materials, k - 1) + meshes_of(
            model[k - 1],
            buffer,
            default_material,
            materials,
            model[k - 1].primitives@.len() as int,
        )
    }
}

/// Every mesh of the model is valid.
pub open spec fn model_valid(model: Seq<MeshViews>, materials: int) -> bool {
    forall|i: int| 0 <= i < model.len() ==> (#[trigger] model[i]).valid(materials)
}

/// Appends one mesh for each primitive of `mesh` to `out`.
pub fn parse_meshes(
    mesh: &MeshViews,
    buffer: usize,
    default_material: usize,
    materials: &Vec<usize>,
    out: &mut Vec<Mesh>,
)
    requires
        mesh.valid(materials@.len() as int),
    ensures
        final(out)@ == old(out)@ + meshes_of(
            *mesh,
            buffer,
            default_material,
            materials@,
            mesh.primitives@.len() as int,
        ),
{
    let mut i: usize = 0;
    assert(out@ =~= old(out)@ + meshes_of(*mesh, buffer, default_material, materials@, 0));
    while i < mesh.primitives.len()
        invariant
            i <= mesh.primitives@.len(),
            mesh.valid(materials@.len() as int),
            out@ == old(out)@ + meshes_of(*mesh, buffer, default_material, materials@, i as int),
        decreases mesh.primitives@.len() - i,
    {
        let primitive = mesh.primitives[i];
        assert(primitive.valid(materials@.len() as int));
        let geometry = Geometry::from_views(
            primitive.positions,
            primitive.indices,
            primitive.tex_coords,
            buffer,
        ).unwrap();
        let material = match primitive.material {
            Some(index) => materials[index],
            None => default_material,
        };
        let made = Mesh { name: mesh.name.clone(), geometry: Arc::new(geometry), material };
        out.push(made);
        proof {
            let before = meshes_of(*mesh, buffer, default_material, materials@, i as int);
            let after = meshes_of(*mesh, buffer, default_material, materials@, i + 1);
            assert(made == mesh_of(mesh.name, primitive, buffer, default_material, materials@));
            assert(after =~= before.push(made));
            assert(out@ =~= old(out)@ + after);
        }
        i = i + 1;
    }
}

/// The meshes of a model: one for each primitive of each of its meshes, in
/// the order of the model.
pub fn meshes_from_gltf(
    model: &Vec<MeshViews>,
    buffer: usize,
    default_material: usize,
    materials: &Vec<usize>,
) -> (meshes: Vec<Mesh>)
    requires
        model_valid(model@, materials@.len() as int),
    ensures
        meshes@ == meshes_of_all(
            model@,
            buffer,
            default_material,
            materials@,
            model@.len() as int,
        ),
{
    let mut meshes: Vec<Mesh> = Vec::new();
    let mut k: usize = 0;
    while k < model.len()
        invariant
            k <= model@.len(),
            model_valid(model@, materials@.len() as int),
            meshes@ == meshes_of_all(model@, buffer, default_material, materials@, k as int),
        decreases model@.len() - k,
    {
        parse_meshes(&model[k], buffer, default_material, materials, &mut meshes);
        k = k + 1;
    }
    meshes
}

/// Whether every mesh of the model is valid for `materials` materials.
pub fn is_model_valid(model: &Vec<MeshViews>, materials: usize) -> (ok: bool)
    ensures
        ok == model_valid(model@, materials as int),
{
    let mut k: usize = 0;
    while k < model.len()
        invariant
            k <= model@.len(),
            forall|i: int| 0 <= i < k ==> (#[trigger] model@[i]).valid(materials as int),
        decreases model@.len() - k,
    {
        if !model[k].is_valid(materials) {
            return false;
        }
        k = k + 1;
    }
    true
}

/// The meshes of a model that was loaded from its files, or no mesh at all
/// where loading failed (`None`) or the model is not valid: a scene lives
/// with assets that are missing or broken.
pub fn meshes_from_separated(
    loaded: Option<Vec<MeshViews>>,
    buffer: usize,
    default_material: usize,
    materials: &Vec<usize>,
) -> (meshes: Vec<Mesh>)
    ensures
        match loaded {
            Some(model) => if model_valid(model@, materials@.len() as int) {
                meshes@ == meshes_of_all(
                    model@,
                    buffer,
                    default_material,
                    materials@,
                    model@.len() as int,
                )
            } else {
                meshes@.len() == 0
            },
            None => meshes@.len() == 0,
        },
{
    match loaded {
        Some(model) => {
            if is_model_valid(&model, materials.len()) {
                meshes_from_gltf(&model, buffer, default_material, materials)
            } else {
                Vec::new()
            }
        },
        None => Vec::new(),
    }
}

} // verus!
