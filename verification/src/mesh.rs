use vstd::prelude::*;

verus! {

/// A point or direction in three dimensions. Each component holds the raw
/// IEEE-754 bit pattern of a 32-bit float, so that values compare
/// bit-for-bit and pass through every wire format unchanged.
#[derive(Clone, Copy, PartialEq, Eq, Structural, Debug)]
pub struct Vector3 {
    pub x: u32,
    pub y: u32,
    pub z: u32,
}

/// Three vertices and a normal. The normal is an independent value, not
/// derived from the vertices: the benchmark exercises the record shape,
/// not geometry.
#[derive(Clone, Copy, PartialEq, Eq, Structural, Debug)]
pub struct Triangle {
    pub v0: Vector3,
    pub v1: Vector3,
    pub v2: Vector3,
    pub normal: Vector3,
}

/// The root benchmarked value: an ordered sequence of triangles whose
/// length is decided at generation time.
#[derive(Clone, Debug)]
pub struct Mesh {
    pub triangles: Vec<Triangle>,
}

impl View for Mesh {
    type V = Seq<Triangle>;

    open spec fn view(&self) -> Seq<Triangle> {
        self.triangles@
    }
}

impl Mesh {
    /// A mesh with no triangles.
    pub fn new() -> (m: Mesh)
        ensures
            m@ == Seq::<Triangle>::empty(),
    {
        Mesh { triangles: Vec::new() }
    }

    /// How many triangles the mesh holds.
    pub fn triangle_count(&self) -> (n: usize)
        ensures
            n == self@.len(),
    {
        self.triangles.len()
    }
}

} // verus!
