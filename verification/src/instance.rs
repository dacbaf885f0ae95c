use crate::mesh::Mesh;
use crate::resources::{written, BufferHandle, PoolAllocBuffer, MAX_STORAGE_BUFF_SIZE};
use vstd::prelude::*;

verus! {

/// One instance of a mesh as laid out in the instance buffer: a column-major
/// 4x4 transform, each entry the bit pattern of an IEEE-754 single-precision
/// float, and the material it is drawn with (-1 for none).
#[derive(Clone, Copy, Debug)]
pub struct Instance {
    pub transform: [[u32; 4]; 4],
    pub material_id: i32,
}

impl Default for Instance {
    /// The all-zero instance (zero transform, material 0).
    fn default() -> (inst: Instance)
        ensures
            forall|c: int, r: int| 0 <= c < 4 && 0 <= r < 4 ==> inst.transform@[c]@[r] == 0u32,
            inst.transform@.len() == 4,
            inst.material_id == 0,
    {
        Instance { transform: [[0, 0, 0, 0], [0, 0, 0, 0], [0, 0, 0, 0], [0, 0, 0, 0]], material_id: 0 }
    }
}

/// A mesh drawn once per instance in the half-open range `instance_range` of the
/// instance buffer.
#[derive(Clone, Copy, Debug)]
pub struct InstanceBatch {
    pub mesh: Mesh,
    pub instance_range: (u32, u32),
}

impl Default for InstanceBatch {
    /// An empty batch of the empty mesh.
    fn default() -> (b: InstanceBatch)
        ensures
            b.mesh.vertex_range == (0u32, 0u32),
            b.mesh.index_range == (0u32, 0u32),
            b.instance_range == (0u32, 0u32),
    {
        InstanceBatch { mesh: Mesh::default(), instance_range: (0, 0) }
    }
}

/// `inst` with its material replaced by `material_id`.
pub open spec fn with_material(inst: Instance, material_id: i32) -> Instance {
    Instance { transform: inst.transform, material_id }
}

/// The pool that every batch of instances is uploaded to.
pub struct InstanceRegistry {
    pub instance_buffer: PoolAllocBuffer<Instance>,
}

impl InstanceRegistry {
    pub open spec fn wf(&self) -> bool {
        self.instance_buffer.wf()
    }

    /// An empty pool for the GPU buffer `instance_buffer`, allowed
    /// `MAX_STORAGE_BUFF_SIZE` instances.
    pub fn new(instance_buffer: BufferHandle) -> (registry: InstanceRegistry)
        ensures
            registry.wf(),
            registry.instance_buffer.view().data.len() == 0,
            registry.instance_buffer.view().free.is_empty(),
            registry.instance_buffer.view().current_cap == 0,
            registry.instance_buffer.view().max_cap == MAX_STORAGE_BUFF_SIZE,
            registry.instance_buffer.view().handle == instance_buffer,
    {
        let instance_buffer = PoolAllocBuffer::new(instance_buffer, MAX_STORAGE_BUFF_SIZE as u32);
        return InstanceRegistry { instance_buffer };
    }

    /// Uploads copies of `instances` that all use material `mesh.1` (taken as an
    /// `i32`, wrapping), and returns the batch that draws them with `mesh.0`.
    pub fn build_batch_with_material(&mut self, instances: &[Instance], mesh: (Mesh, u32)) -> (batch:
        InstanceBatch)
        requires
            old(self).wf(),
            old(self).instance_buffer.view().can_write(instances@.len()),
        ensures
            final(self).wf(),
            written(
                old(self).instance_buffer.view(),
                final(self).instance_buffer.view(),
                instances@.map_values(|inst: Instance| with_material(inst, mesh.1 as i32)),
                batch.instance_range.0,
            ),
            batch.instance_range.1 == batch.instance_range.0 + instances@.len(),
            batch.mesh == mesh.0,
            batch.instance_range.1 <= final(self).instance_buffer.data@.len(),
            forall|i: int|
                0 <= i < instances@.len() ==> {
                    let written_inst = #[trigger] final(self).instance_buffer.data@[
                        batch.instance_range.0 + i];
                    &&& written_inst.material_id == mesh.1 as i32
                    &&& written_inst.transform == instances@[i].transform
                },
    {
        let material_id = mesh.1 as i32;
        let mut instances_with_material: Vec<Instance> = Vec::new();
        let mut i: usize = 0;
        while i < instances.len()
            invariant
                i <= instances@.len(),
                instances_with_material@ == instances@.subrange(0, i as int).map_values(
                    |inst: Instance| with_material(inst, material_id),
                ),
            decreases instances@.len() - i,
        {
            let mut instance = instances[i];
            instance.material_id = material_id;
            instances_with_material.push(instance);
            i = i + 1;
            assert(instances_with_material@ =~= instances@.subrange(0, i as int).map_values(
                |inst: Instance| with_material(inst, material_id),
            ));
        }
        assert(instances@.subrange(0, instances@.len() as int) =~= instances@);
        let ghost pre = self.instance_buffer.view();
        let idx = self.instance_buffer.alloc_and_write(instances_with_material.as_slice());
        proof {
            crate::resources::lemma_written_region_in_pool(
                pre,
                self.instance_buffer.view(),
                instances_with_material@,
                idx,
            );
            let post = self.instance_buffer.view();
            assert forall|i: int| 0 <= i < instances@.len() implies {
                let written_inst = #[trigger] post.data[idx + i];
                &&& written_inst.material_id == material_id
                &&& written_inst.transform == instances@[i].transform
            } by {
                assert(instances_with_material@[i] == with_material(instances@[i], material_id));
                assert(post.data[idx + i] == instances_with_material@[i]);
            }
        }
        let instance_range = (idx, idx + instances_with_material.len() as u32);
        return InstanceBatch { mesh: mesh.0, instance_range };
    }

    /// Uploads `instances` and returns the batch that draws them with `mesh`.
    pub fn build_batch(&mut self, instances: &[Instance], mesh: Mesh) -> (batch: InstanceBatch)
        requires
            old(self).wf(),
            old(self).instance_buffer.view().can_write(instances@.len()),
        ensures
            final(self).wf(),
            written(
                old(self).instance_buffer.view(),
                final(self).instance_buffer.view(),
                instances@,
                batch.instance_range.0,
            ),
            batch.instance_range.1 == batch.instance_range.0 + instances@.len(),
            batch.mesh == mesh,
            batch.instance_range.1 <= final(self).instance_buffer.data@.len(),
            forall|i: int|
                0 <= i < instances@.len() ==> #[trigger] final(self).instance_buffer.data@[
                    batch.instance_range.0 + i] == instances@[i],
    {
        let ghost pre = self.instance_buffer.view();
        let idx = self.instance_buffer.alloc_and_write(instances);
        proof {
            crate::resources::lemma_written_region_in_pool(pre, self.instance_buffer.view(), instances@, idx);
            let post = self.instance_buffer.view();
            assert forall|i: int| 0 <= i < instances@.len() implies #[trigger] post.data[idx + i]
                == instances@[i] by {
                assert(post.data[idx + i] == instances@[i]);
            }
        }
        let instance_range = (idx, idx + instances.len() as u32);
        return InstanceBatch { mesh, instance_range };
    }
}

/// Overriding the material changes the material only: the result has exactly
/// the given material and all sixteen transform entries of the input instance.
pub proof fn lemma_with_material(inst: Instance, material_id: i32)
    ensures
        with_material(inst, material_id).material_id == material_id,
        forall|c: int, r: int|
            0 <= c < 4 && 0 <= r < 4 ==> (#[trigger] with_material(inst, material_id).transform@[
                c]@[r]) == inst.transform@[c]@[r],
        with_material(inst, material_id).transform == inst.transform,
{
}

} // verus!
