use vstd::prelude::*;

verus! {

/// A mesh vertex as laid out in the vertex buffer. Every component is the bit
/// pattern of an IEEE-754 single-precision float.
#[derive(Clone, Copy, Debug)]
pub struct Vertex {
    pub pos: [u32; 3],
    pub tex_cords: [u32; 2],
    pub normals: [u32; 3],
    pub tangent: [u32; 4],
}

impl Default for Vertex {
    /// The vertex whose components are all `0.0`.
    fn default() -> (v: Vertex)
        ensures
            v.pos@ == seq![0u32, 0u32, 0u32],
            v.tex_cords@ == seq![0u32, 0u32],
            v.normals@ == seq![0u32, 0u32, 0u32],
            v.tangent@ == seq![0u32, 0u32, 0u32, 0u32],
    {
        Vertex { pos: [0, 0, 0], tex_cords: [0, 0], normals: [0, 0, 0], tangent: [0, 0, 0, 0] }
    }
}

} // verus!
