use crate::resources::{written, BufferHandle, PoolAllocBuffer, MAX_STORAGE_BUFF_SIZE};
use crate::vertex::Vertex;
use vstd::prelude::*;

verus! {

/// Where a mesh lives in the shared vertex and index buffers: half-open element
/// ranges `(start, end)`.
#[derive(Clone, Copy, Debug)]
pub struct Mesh {
    pub vertex_range: (u32, u32),
    pub index_range: (u32, u32),
}

impl Default for Mesh {
    /// The empty mesh at the start of both buffers.
    fn default() -> (m: Mesh)
        ensures
            m.vertex_range == (0u32, 0u32),
            m.index_range == (0u32, 0u32),
    {
        Mesh { vertex_range: (0, 0), index_range: (0, 0) }
    }
}

/// The vertex and index pools that every mesh is uploaded to.
pub struct MeshRegistry {
    pub vertices: PoolAllocBuffer<Vertex>,
    pub indices: PoolAllocBuffer<u32>,
}

impl MeshRegistry {
    pub open spec fn wf(&self) -> bool {
        self.vertices.wf() && self.indices.wf()
    }

    /// Empty pools for the GPU buffers `vertex_buffer` and `index_buffer`, each
    /// allowed `MAX_STORAGE_BUFF_SIZE` elements.
    pub fn new(vertex_buffer: BufferHandle, index_buffer: BufferHandle) -> (registry: MeshRegistry)
        ensures
            registry.wf(),
            registry.vertices.view().data.len() == 0,
            registry.vertices.view().free.is_empty(),
            registry.vertices.view().current_cap == 0,
            registry.vertices.view().max_cap == MAX_STORAGE_BUFF_SIZE,
            registry.vertices.view().handle == vertex_buffer,
            registry.indices.view().data.len() == 0,
            registry.indices.view().free.is_empty(),
            registry.indices.view().current_cap == 0,
            registry.indices.view().max_cap == MAX_STORAGE_BUFF_SIZE,
            registry.indices.view().handle == index_buffer,
    {
        let vertices: PoolAllocBuffer<Vertex> = PoolAllocBuffer::new(
            vertex_buffer,
            MAX_STORAGE_BUFF_SIZE as u32,
        );
        let indices: PoolAllocBuffer<u32> = PoolAllocBuffer::new(
            index_buffer,
            MAX_STORAGE_BUFF_SIZE as u32,
        );
        return MeshRegistry { vertices, indices };
    }

    /// Writes `vertices` and `indices` to the pools and returns the ranges they
    /// occupy.
    pub fn upload(&mut self, vertices: &[Vertex], indices: &[u32]) -> (mesh: Mesh)
        requires
            old(self).wf(),
            old(self).vertices.view().can_write(vertices@.len()),
            old(self).indices.view().can_write(indices@.len()),
        ensures
            final(self).wf(),
            written(old(self).vertices.view(), final(self).vertices.view(), vertices@, mesh.vertex_range.0),
            written(old(self).indices.view(), final(self).indices.view(), indices@, mesh.index_range.0),
            mesh.vertex_range.1 == mesh.vertex_range.0 + vertices@.len(),
            mesh.index_range.1 == mesh.index_range.0 + indices@.len(),
            mesh.vertex_range.1 <= final(self).vertices.data@.len(),
            mesh.index_range.1 <= final(self).indices.data@.len(),
            forall|i: int|
                0 <= i < vertices@.len() ==> #[trigger] final(self).vertices.data@[mesh.vertex_range.0
                    + i] == vertices@[i],
            forall|i: int|
                0 <= i < indices@.len() ==> #[trigger] final(self).indices.data@[mesh.index_range.0
                    + i] == indices@[i],
    {
        let ghost pre_v = self.vertices.view();
        let ghost pre_i = self.indices.view();
        let vertex_idx = self.vertices.alloc_and_write(vertices);
        let index_idx = self.indices.alloc_and_write(indices);
        proof {
            crate::resources::lemma_written_region_in_pool(pre_v, self.vertices.view(), vertices@, vertex_idx);
            crate::resources::lemma_written_region_in_pool(pre_i, self.indices.view(), indices@, index_idx);
        }
        return Mesh {
            vertex_range: (vertex_idx, vertex_idx + vertices.len() as u32),
            index_range: (index_idx, index_idx + indices.len() as u32),
        };
    }
}

} // verus!
