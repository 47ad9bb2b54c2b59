//! Geometry validation: the three flat mesh sequences are checked before any
//! GPU upload, so that no triangle index can ever read outside the vertex
//! buffers. Positions and normals are flat sequences of three floats per
//! vertex; only their lengths matter here, the coordinates themselves never
//! enter the checks.

use vstd::prelude::*;

verus! {

/// Why a mesh was rejected.
#[derive(Clone, Copy, PartialEq, Eq, Structural, Debug)]
pub enum GeometryError {
    /// The position sequence is not a whole number of three-value vertices.
    PositionsNotTriples,
    /// The normal sequence does not pair one normal with each vertex.
    NormalsMismatch,
    /// The index sequence is not a whole number of triangles.
    IndicesNotTriples,
    /// Some index is not strictly below the vertex count.
    IndexOutOfBounds,
}

/// A mesh the pipeline may upload: positions come in triples, normals pair
/// up with them, indices come in triangles, and every index value is
/// strictly less than the vertex count.
pub open spec fn valid_mesh(position_count: int, normal_count: int, indices: Seq<u32>) -> bool {
    &&& position_count % 3 == 0
    &&& normal_count == position_count
    &&& indices.len() % 3 == 0
    &&& forall|i: int| 0 <= i < indices.len() ==> (#[trigger] indices[i] as int) < position_count
        / 3
}

/// A validated mesh shape: the triangle indices together with the vertex
/// count they were checked against.
#[derive(Debug)]
pub struct Geometry {
    vertex_count: usize,
    indices: Vec<u32>,
}

impl Geometry {
    /// The number of vertices the indices were checked against.
    pub closed spec fn vertices(self) -> int {
        self.vertex_count as int
    }

    /// The validated triangle indices.
    pub closed spec fn index_seq(self) -> Seq<u32> {
        self.indices@
    }

    /// The indices form whole triangles and every one of them points at one
    /// of the vertices.
    pub open spec fn well_formed(self) -> bool {
        &&& self.index_seq().len() % 3 == 0
        &&& forall|i: int|
            0 <= i < self.index_seq().len() ==> (#[trigger] self.index_seq()[i] as int)
                < self.vertices()
    }

    /// Checks the mesh sequences, in this order: positions are triples, one
    /// normal per position value, indices are triangles, every index is in
    /// bounds. Returns the validated geometry exactly when all four hold,
    /// and otherwise the first failing check.
    pub fn new(position_count: usize, normal_count: usize, indices: Vec<u32>) -> (r: Result<
        Geometry,
        GeometryError,
    >)
        ensures
            r is Ok <==> valid_mesh(position_count as int, normal_count as int, indices@),
            r is Ok ==> {
                let g = r->Ok_0;
                &&& g.well_formed()
                &&& g.vertices() == position_count as int / 3
                &&& g.index_seq() == indices@
            },
            r == Result::<Geometry, GeometryError>::Err(GeometryError::PositionsNotTriples)
                <==> position_count as int % 3 != 0,
            r == Result::<Geometry, GeometryError>::Err(GeometryError::NormalsMismatch) <==> (
            position_count as int % 3 == 0 && normal_count != position_count),
            r == Result::<Geometry, GeometryError>::Err(GeometryError::IndicesNotTriples) <==> (
            position_count as int % 3 == 0 && normal_count == position_count && indices@.len() % 3
                != 0),
            r == Result::<Geometry, GeometryError>::Err(GeometryError::IndexOutOfBounds) <==> (
            position_count as int % 3 == 0 && normal_count == position_count && indices@.len() % 3
                == 0 && exists|i: int|
                0 <= i < indices@.len() && (#[trigger] indices@[i] as int) >= position_count as int
                    / 3),
    {
        if position_count % 3 != 0 {
            return Err(GeometryError::PositionsNotTriples);
        }
        if normal_count != position_count {
            return Err(GeometryError::NormalsMismatch);
        }
        if indices.len() % 3 != 0 {
            return Err(GeometryError::IndicesNotTriples);
        }
        let vertex_count: usize = position_count / 3;
        let mut i: usize = 0;
        while i < indices.len()
            invariant
                i <= indices@.len(),
                position_count as int % 3 == 0,
                normal_count == position_count,
                indices@.len() % 3 == 0,
                vertex_count as int == position_count as int / 3,
                forall|j: int| 0 <= j < i ==> (#[trigger] indices@[j] as int) < vertex_count as int,
            decreases indices@.len() - i,
        {
            if indices[i] as usize >= vertex_count {
                return Err(GeometryError::IndexOutOfBounds);
            }
            i += 1;
        }
        Ok(Geometry { vertex_count, indices })
    }

    /// The number of vertices the indices were checked against.
    pub fn vertex_count(&self) -> (n: usize)
        ensures
            n as int == self.vertices(),
    {
        self.vertex_count
    }

    /// The validated triangle indices, ready for upload.
    pub fn indices(&self) -> (v: &Vec<u32>)
        ensures
            v@ == self.index_seq(),
    {
        &self.indices
    }
}

} // verus!
