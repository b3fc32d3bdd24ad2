use vstd::prelude::*;
use crate::fbits::Vec3Bits;
use crate::draw::BufferId;

verus! {

// The scene collaborator hands the pipeline plain values: mesh layout facts,
// world transforms and bounding spheres. These types carry exactly what the
// shadow pass reads of them.

/// How a mesh's vertices are assembled into primitives.
#[derive(Clone, Copy, Debug, PartialEq, Eq, Structural)]
pub enum PrimitiveTopology {
    PointList,
    LineList,
    LineStrip,
    TriangleList,
    TriangleStrip,
}

/// The width of a mesh's indices.
#[derive(Clone, Copy, Debug, PartialEq, Eq, Structural)]
pub enum IndexFormat {
    Uint16,
    Uint32,
}

/// A mesh's index data: how many indices there are and how wide each is.
#[derive(Clone, Copy, Debug, PartialEq, Eq, Structural)]
pub struct IndexInfo {
    pub count: u32,
    pub format: IndexFormat,
}

/// A bounding sphere in world space: a center and a radius, both carried as
/// binary32 bit patterns.
#[derive(Clone, Copy, Debug, PartialEq, Eq, Structural)]
pub struct Sphere {
    pub center: Vec3Bits,
    pub radius: u32,
}

/// What the shadow pass reads of a loaded mesh.
#[derive(Clone, Copy, Debug, PartialEq, Eq, Structural)]
pub struct MeshInfo {
    pub topology: PrimitiveTopology,
    /// Stands for the mesh's vertex buffer layout, which specializes the
    /// depth pipeline.
    pub vertex_layout: u64,
    pub vertex_count: u32,
    pub indices: Option<IndexInfo>,
    pub index_buffer: Option<BufferId>,
    pub vertex_buffer: Option<BufferId>,
    /// The mesh's own bounding sphere, in world space, as the bounds
    /// collaborator computes it from the geometry.
    pub bound: Sphere,
}

/// The marker a scene puts on an entity to keep it out of shadow casting;
/// the scene collaborator reflects it in `Renderable::shadowless`.
#[derive(Default, Clone, Copy, Debug, PartialEq, Eq, Structural)]
pub struct Shadowless;

/// One renderable entity of the scene, as the shadow pass sees it.
#[derive(Clone, Copy, Debug, PartialEq, Eq, Structural)]
pub struct Renderable {
    /// True when the entity opted out of shadow casting.
    pub shadowless: bool,
    /// The entity's mesh; absent while the asset is still loading.
    pub mesh: Option<MeshInfo>,
    /// The bounding sphere attached to the entity, in world space.
    pub bounding_sphere: Option<Sphere>,
}

impl Renderable {
    /// An entity casts shadows when it is not opted out and its mesh is
    /// loaded; others are silently skipped, never an error.
    pub open spec fn spec_casts_shadows(self) -> bool {
        !self.shadowless && self.mesh is Some
    }

    pub fn casts_shadows(&self) -> (r: bool)
        ensures
            r == self.spec_casts_shadows(),
    {
        !self.shadowless && self.mesh.is_some()
    }
}

} // verus!
