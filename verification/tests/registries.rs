use framework::instance::{Instance, InstanceBatch, InstanceRegistry};
use framework::mesh::{Mesh, MeshRegistry};
use framework::resources::{BufferHandle, TextureResource};
use framework::store::Slab;
use framework::texture_array::TextureArray;
use framework::vertex::Vertex;

fn registry_buffer_handles() -> (BufferHandle, BufferHandle) {
    let (device, _queue) = wgpu::Device::noop(&wgpu::DeviceDescriptor::default());
    let mut buffers: Slab<wgpu::Buffer> = Slab::new();
    let mut make = || {
        buffers.insert(device.create_buffer(&wgpu::BufferDescriptor {
            label: None,
            size: 64,
            usage: wgpu::BufferUsages::VERTEX | wgpu::BufferUsages::COPY_DST,
            mapped_at_creation: false,
        }))
    };
    let a = make();
    let b = make();
    (a, b)
}

fn vertex(tag: u32) -> Vertex {
    Vertex { pos: [tag, 0, 0], tex_cords: [0, 0], normals: [0, 0, 0], tangent: [0, 0, 0, 0] }
}

fn instance(tag: u32, material_id: i32) -> Instance {
    let mut transform = [[0u32; 4]; 4];
    transform[3][0] = tag;
    Instance { transform, material_id }
}

#[test]
fn upload_returns_ranges_of_written_data() {
    let (v, i) = registry_buffer_handles();
    let mut registry = MeshRegistry::new(v, i);
    let first = registry.upload(&[vertex(1), vertex(2), vertex(3)], &[0, 1, 2]);
    assert_eq!(first.vertex_range, (0, 3));
    assert_eq!(first.index_range, (0, 3));
    let second = registry.upload(&[vertex(4)], &[0, 0, 0, 0, 0]);
    assert_eq!(second.vertex_range, (5, 6));
    assert_eq!(second.index_range, (5, 10));
    assert_eq!(registry.vertices.data[5].pos[0], 4);
    assert_eq!(registry.indices.data.len(), 5 + 9);
    assert_eq!(registry.vertices.data[3].pos, [0, 0, 0]);
}

#[test]
fn build_batch_keeps_instances() {
    let (handle, _) = registry_buffer_handles();
    let mut registry = InstanceRegistry::new(handle);
    let mesh = Mesh { vertex_range: (0, 3), index_range: (0, 3) };
    let batch = registry.build_batch(&[instance(1, -1), instance(2, 5)], mesh);
    assert_eq!(batch.instance_range, (0, 2));
    assert_eq!(batch.mesh.vertex_range, (0, 3));
    assert_eq!(registry.instance_buffer.data[1].material_id, 5);
    assert_eq!(registry.instance_buffer.data[1].transform[3][0], 2);
}

#[test]
fn build_batch_with_material_overrides_material() {
    let (handle, _) = registry_buffer_handles();
    let mut registry = InstanceRegistry::new(handle);
    let mesh = Mesh { vertex_range: (2, 4), index_range: (6, 9) };
    let source = [instance(1, -1), instance(2, 3), instance(3, 0)];
    let batch = registry.build_batch_with_material(&source, (mesh, 7));
    assert_eq!(batch.instance_range, (0, 3));
    assert_eq!(batch.mesh.index_range, (6, 9));
    for (k, inst) in registry.instance_buffer.data[0..3].iter().enumerate() {
        assert_eq!(inst.material_id, 7);
        assert_eq!(inst.transform, source[k].transform);
    }
    let wrapped = registry.build_batch_with_material(&source[..1], (mesh, u32::MAX));
    assert_eq!(wrapped.instance_range, (5, 6));
    assert_eq!(registry.instance_buffer.data[5].material_id, -1);
}

#[test]
fn defaults_are_empty() {
    let batch = InstanceBatch::default();
    assert_eq!(batch.instance_range, (0, 0));
    assert_eq!(batch.mesh.vertex_range, (0, 0));
    assert_eq!(Mesh::default().index_range, (0, 0));
    assert_eq!(Instance::default().material_id, 0);
    assert_eq!(Vertex::default().tangent, [0, 0, 0, 0]);
}

#[test]
fn texture_array_indices_and_bindings() {
    let (device, _queue) = wgpu::Device::noop(&wgpu::DeviceDescriptor::default());
    let mut samplers: Slab<wgpu::Sampler> = Slab::new();
    let mut textures: Slab<wgpu::Texture> = Slab::new();
    let mut views: Slab<wgpu::TextureView> = Slab::new();
    let sampler = samplers.insert(device.create_sampler(&wgpu::SamplerDescriptor::default()));
    let mut array = TextureArray::new(sampler);
    let mut expected = Vec::new();
    for k in 0..3u32 {
        let texture = device.create_texture(&wgpu::TextureDescriptor {
            label: None,
            size: wgpu::Extent3d { width: 2, height: 2, depth_or_array_layers: 1 },
            mip_level_count: 1,
            sample_count: 1,
            dimension: wgpu::TextureDimension::D2,
            format: wgpu::TextureFormat::Rgba8Unorm,
            usage: wgpu::TextureUsages::TEXTURE_BINDING,
            view_formats: &[],
        });
        let view = views.insert(texture.create_view(&wgpu::TextureViewDescriptor::default()));
        let texture_handle = textures.insert(texture);
        expected.push(view.clone());
        let idx = array.add_texture(TextureResource {
            texture_handle,
            texture_view_handle: view,
            format: wgpu::TextureFormat::Rgba8Unorm,
        });
        assert_eq!(idx, k);
    }
    let bindings = array.binding(4);
    assert_eq!(bindings.len(), 2);
    match &bindings[0] {
        framework::resources::Binding::TextureArray { binding, handles, format, count, .. } => {
            assert_eq!(*binding, 4);
            assert_eq!(*count, 3);
            assert_eq!(*format, wgpu::TextureFormat::Rgba8Unorm);
            assert_eq!(handles.len(), 3);
            for (h, e) in handles.iter().zip(expected.iter()) {
                assert!(views.get(h).is_some());
                assert_eq!(format!("{:?}", h), format!("{:?}", e));
            }
        }
        _ => panic!("expected the texture array binding"),
    }
    match &bindings[1] {
        framework::resources::Binding::Sampler { binding, handle } => {
            assert_eq!(*binding, 5);
            assert!(samplers.get(handle).is_some());
        }
        _ => panic!("expected the sampler binding"),
    }
}
