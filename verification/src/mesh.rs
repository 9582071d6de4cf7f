//! Triangle meshes, as geometry resolves to them.

use vstd::prelude::*;

use crate::bits::{Vec2, Vec3};

verus! {

/// A triangle mesh: vertex arrays of one length, and triangles by index.
#[derive(Clone, Debug, PartialEq, Eq)]
pub struct Mesh {
    /// Where the vertices are.
    pub positions: Vec<Vec3>,
    /// The shading normal at each.
    pub normals: Vec<Vec3>,
    /// The texture coordinates at each.
    pub uvs: Vec<Vec2>,
    /// The triangles, counter-clockwise from outside.
    pub triangles: Vec<[u32; 3]>,
}

/// All three corners are vertices.
pub open spec fn within(triangle: [u32; 3], vertices: int) -> bool {
    triangle[0] < vertices && triangle[1] < vertices && triangle[2] < vertices
}

impl Mesh {
    /// Every vertex has a normal and coordinates, and every triangle's
    /// corners are vertices.
    pub open spec fn wf(self) -> bool {
        &&& self.normals@.len() == self.positions@.len()
        &&& self.uvs@.len() == self.positions@.len()
        &&& forall|i: int|
            0 <= i < self.triangles@.len() ==> within(
                #[trigger] self.triangles@[i],
                self.positions@.len() as int,
            )
    }
}

} // verus!
