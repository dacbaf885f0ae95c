use framework::resources::{
    bind_group_layout_entries, resolve_bindings, ResolvedEntry, layout_entry, Binding, BufferBindingType, BufferHandle,
    LayoutBindingType, PoolAllocBuffer, TextureBindingType, TextureSampleType, TextureViewHandle,
};
use framework::store::Slab;

fn pool_buffer_handle() -> BufferHandle {
    let (device, _queue) = wgpu::Device::noop(&wgpu::DeviceDescriptor::default());
    let buffer = device.create_buffer(&wgpu::BufferDescriptor {
        label: None,
        size: 64,
        usage: wgpu::BufferUsages::VERTEX | wgpu::BufferUsages::COPY_DST,
        mapped_at_creation: false,
    });
    let mut buffers: Slab<wgpu::Buffer> = Slab::new();
    buffers.insert(buffer)
}

fn view_handles(n: usize) -> Vec<TextureViewHandle> {
    let (device, _queue) = wgpu::Device::noop(&wgpu::DeviceDescriptor::default());
    let mut views: Slab<wgpu::TextureView> = Slab::new();
    (0..n)
        .map(|_| {
            let texture = device.create_texture(&wgpu::TextureDescriptor {
                label: None,
                size: wgpu::Extent3d { width: 4, height: 4, depth_or_array_layers: 1 },
                mip_level_count: 1,
                sample_count: 1,
                dimension: wgpu::TextureDimension::D2,
                format: wgpu::TextureFormat::Rgba8Unorm,
                usage: wgpu::TextureUsages::TEXTURE_BINDING,
                view_formats: &[],
            });
            views.insert(texture.create_view(&wgpu::TextureViewDescriptor::default()))
        })
        .collect()
}

#[test]
fn allocate_rounds_up_to_power_of_two_plus_one() {
    let mut pool: PoolAllocBuffer<u32> = PoolAllocBuffer::new(pool_buffer_handle(), 1000);
    assert_eq!(pool.allocate(5), 0);
    assert_eq!(pool.data.len(), 9);
    assert_eq!(pool.allocate(1), 9);
    assert_eq!(pool.data.len(), 11);
    assert_eq!(pool.allocate(0), 11);
    assert_eq!(pool.data.len(), 13);
    assert_eq!(pool.allocate(8), 13);
    assert_eq!(pool.data.len(), 22);
    assert!(pool.data.iter().all(|&x| x == 0));
}

#[test]
fn freed_region_is_reused_by_same_size_class() {
    let mut pool: PoolAllocBuffer<u32> = PoolAllocBuffer::new(pool_buffer_handle(), 1000);
    let a = pool.allocate(6);
    let b = pool.allocate(6);
    assert_eq!((a, b), (0, 9));
    pool.free(a, 6);
    pool.free(b, 5);
    // both went to the size class 8; the last freed comes back first
    assert_eq!(pool.allocate(7), b);
    assert_eq!(pool.allocate(8), a);
    // the free list is empty again: a new region is appended
    assert_eq!(pool.allocate(8), 18);
    assert_eq!(pool.data.len(), 27);
}

#[test]
fn free_only_serves_its_own_size_class() {
    let mut pool: PoolAllocBuffer<u32> = PoolAllocBuffer::new(pool_buffer_handle(), 1000);
    let a = pool.allocate(4);
    pool.free(a, 4);
    // a request of class 8 does not take the freed region of class 4
    assert_eq!(pool.allocate(5), 5);
    assert_eq!(pool.allocate(3), a);
}

#[test]
fn alloc_and_write_copies_values() {
    let mut pool: PoolAllocBuffer<u32> = PoolAllocBuffer::new(pool_buffer_handle(), 1000);
    let a = pool.alloc_and_write(&[1, 2, 3]);
    let b = pool.alloc_and_write(&[4, 5]);
    assert_eq!((a, b), (0, 5));
    assert_eq!(pool.data, vec![1, 2, 3, 0, 0, 4, 5, 0]);
    pool.free(a, 3);
    let c = pool.alloc_and_write(&[9, 9, 9, 9]);
    assert_eq!(c, a);
    assert_eq!(pool.data, vec![9, 9, 9, 9, 0, 4, 5, 0]);
}

#[test]
fn flush_refuses_an_overgrown_pool() {
    let mut pool: PoolAllocBuffer<u32> = PoolAllocBuffer::new(pool_buffer_handle(), 10);
    pool.alloc_and_write(&[1, 2, 3, 4]);
    assert_eq!(pool.flush(), Some(&[1, 2, 3, 4, 0][..]));
    pool.alloc_and_write(&[5, 6, 7, 8]);
    assert_eq!(pool.data.len(), 10);
    assert!(pool.flush().is_some());
    pool.alloc_and_write(&[1]);
    assert_eq!(pool.data.len(), 12);
    assert_eq!(pool.flush(), None);
}

#[test]
fn layout_of_uniform_buffer_is_visible_to_vertex_shaders() {
    let entry = layout_entry(&Binding::Buffer {
        binding: 3,
        handle: pool_buffer_handle(),
        buffer_type: BufferBindingType::Uniform,
    });
    assert_eq!(entry.binding, 3);
    assert!(entry.visibility.compute && entry.visibility.fragment && entry.visibility.vertex);
    assert!(matches!(entry.ty, LayoutBindingType::Buffer { buffer_type: BufferBindingType::Uniform }));
    assert_eq!(entry.count, None);
}

#[test]
fn layout_of_storage_buffer_is_hidden_from_vertex_shaders() {
    let entry = layout_entry(&Binding::Buffer {
        binding: 0,
        handle: pool_buffer_handle(),
        buffer_type: BufferBindingType::Storage { read_only: true },
    });
    assert!(entry.visibility.compute && entry.visibility.fragment && !entry.visibility.vertex);
    assert!(matches!(
        entry.ty,
        LayoutBindingType::Buffer { buffer_type: BufferBindingType::Storage { read_only: true } }
    ));
}

#[test]
fn layout_of_textures_and_arrays() {
    let views = view_handles(2);
    let bindings = vec![
        Binding::Texture {
            binding: 0,
            handle: views[0].clone(),
            format: wgpu::TextureFormat::Rgba16Float,
            bind_type: TextureBindingType::Texture,
            sample_type: TextureSampleType::Float { filterable: true },
        },
        Binding::Texture {
            binding: 1,
            handle: views[1].clone(),
            format: wgpu::TextureFormat::Rgba16Float,
            bind_type: TextureBindingType::Storage,
            sample_type: TextureSampleType::Float { filterable: true },
        },
        Binding::TextureArray {
            binding: 2,
            handles: views.clone(),
            format: wgpu::TextureFormat::Rgba8Unorm,
            bind_type: TextureBindingType::Texture,
            sample_type: TextureSampleType::Float { filterable: false },
            count: 2,
        },
        Binding::TextureArray {
            binding: 3,
            handles: vec![],
            format: wgpu::TextureFormat::Rgba8Unorm,
            bind_type: TextureBindingType::Texture,
            sample_type: TextureSampleType::Uint,
            count: 0,
        },
    ];
    let entries = bind_group_layout_entries(&bindings);
    assert_eq!(entries.len(), 4);
    assert!(matches!(
        entries[0].ty,
        LayoutBindingType::Texture { sample_type: TextureSampleType::Float { filterable: true } }
    ));
    assert!(!entries[0].visibility.vertex);
    match entries[1].ty {
        LayoutBindingType::StorageTexture { format } => {
            assert_eq!(format, wgpu::TextureFormat::Rgba16Float)
        }
        _ => panic!("expected a storage texture"),
    }
    assert_eq!(entries[2].count, Some(2));
    assert_eq!(entries[2].binding, 2);
    assert_eq!(entries[3].count, None);
}

#[test]
fn layout_of_sampler() {
    let (device, _queue) = wgpu::Device::noop(&wgpu::DeviceDescriptor::default());
    let mut samplers: Slab<wgpu::Sampler> = Slab::new();
    let handle = samplers.insert(device.create_sampler(&wgpu::SamplerDescriptor::default()));
    let entry = layout_entry(&Binding::Sampler { binding: 9, handle });
    assert_eq!(entry.binding, 9);
    assert!(matches!(entry.ty, LayoutBindingType::Sampler));
    assert!(!entry.visibility.vertex);
}

#[test]
fn can_write_reports_what_alloc_and_write_accepts() {
    let mut pool: PoolAllocBuffer<u32> = PoolAllocBuffer::new(pool_buffer_handle(), 100);
    assert!(pool.can_write(0));
    assert!(pool.can_write(3));
    assert!(!pool.can_write(0x8000_0001));
    // a region returned that lies outside the pool cannot take the values
    pool.free(100, 4);
    assert!(!pool.can_write(4));
    assert!(pool.can_write(5));
    pool.alloc_and_write(&[1, 2, 3, 4, 5, 6, 7, 8]);
    pool.free(0, 8);
    assert!(pool.can_write(6));
}

#[test]
fn resolve_bindings_looks_up_every_handle() {
    let (device, _queue) = wgpu::Device::noop(&wgpu::DeviceDescriptor::default());
    let mut buffers: Slab<wgpu::Buffer> = Slab::new();
    let mut views: Slab<wgpu::TextureView> = Slab::new();
    let mut samplers: Slab<wgpu::Sampler> = Slab::new();
    let buffer = buffers.insert(device.create_buffer(&wgpu::BufferDescriptor {
        label: None,
        size: 16,
        usage: wgpu::BufferUsages::UNIFORM,
        mapped_at_creation: false,
    }));
    let mut view_handles = Vec::new();
    for _ in 0..3 {
        let texture = device.create_texture(&wgpu::TextureDescriptor {
            label: None,
            size: wgpu::Extent3d { width: 2, height: 2, depth_or_array_layers: 1 },
            mip_level_count: 1,
            sample_count: 1,
            dimension: wgpu::TextureDimension::D2,
            format: wgpu::TextureFormat::Rgba8Unorm,
            usage: wgpu::TextureUsages::TEXTURE_BINDING,
            view_formats: &[],
        });
        view_handles.push(views.insert(texture.create_view(&wgpu::TextureViewDescriptor::default())));
    }
    let sampler = samplers.insert(device.create_sampler(&wgpu::SamplerDescriptor::default()));
    let bindings = vec![
        Binding::Buffer { binding: 0, handle: buffer.clone(), buffer_type: BufferBindingType::Uniform },
        Binding::TextureArray {
            binding: 1,
            handles: vec![view_handles[0].clone(), view_handles[1].clone()],
            format: wgpu::TextureFormat::Rgba8Unorm,
            bind_type: TextureBindingType::Texture,
            sample_type: TextureSampleType::Float { filterable: false },
            count: 2,
        },
        Binding::Sampler { binding: 2, handle: sampler.clone() },
        Binding::TextureArray {
            binding: 3,
            handles: vec![view_handles[2].clone()],
            format: wgpu::TextureFormat::Rgba8Unorm,
            bind_type: TextureBindingType::Texture,
            sample_type: TextureSampleType::Float { filterable: false },
            count: 1,
        },
        Binding::Texture {
            binding: 4,
            handle: view_handles[1].clone(),
            format: wgpu::TextureFormat::Rgba8Unorm,
            bind_type: TextureBindingType::Texture,
            sample_type: TextureSampleType::Float { filterable: true },
        },
    ];
    let (entries, array) = resolve_bindings(&bindings, &buffers, &views, &samplers).unwrap();
    assert_eq!(entries.len(), 5);
    assert!(matches!(entries[0], ResolvedEntry::Buffer { binding: 0, buffer: b } if std::ptr::eq(b, buffers.get(&buffer).unwrap())));
    assert!(matches!(entries[1], ResolvedEntry::TextureArray { binding: 1 }));
    assert!(matches!(entries[2], ResolvedEntry::Sampler { binding: 2, sampler: s } if std::ptr::eq(s, samplers.get(&sampler).unwrap())));
    assert!(matches!(entries[3], ResolvedEntry::TextureArray { binding: 3 }));
    assert!(matches!(entries[4], ResolvedEntry::Texture { binding: 4, view: v } if std::ptr::eq(v, views.get(&view_handles[1]).unwrap())));
    // the views of both arrays, joined in order
    assert_eq!(array.len(), 3);
    for (k, h) in view_handles.iter().enumerate() {
        assert!(std::ptr::eq(array[k], views.get(h).unwrap()));
    }
}

#[test]
fn resolve_bindings_refuses_a_dangling_handle() {
    let (device, _queue) = wgpu::Device::noop(&wgpu::DeviceDescriptor::default());
    let buffers: Slab<wgpu::Buffer> = Slab::new();
    let mut views: Slab<wgpu::TextureView> = Slab::new();
    let mut samplers: Slab<wgpu::Sampler> = Slab::new();
    let sampler = samplers.insert(device.create_sampler(&wgpu::SamplerDescriptor::default()));
    let live = vec![Binding::Sampler { binding: 0, handle: sampler.clone() }];
    assert!(resolve_bindings(&live, &buffers, &views, &samplers).is_some());
    samplers.free(sampler.clone());
    assert!(resolve_bindings(&live, &buffers, &views, &samplers).is_none());
    let texture = device.create_texture(&wgpu::TextureDescriptor {
        label: None,
        size: wgpu::Extent3d { width: 2, height: 2, depth_or_array_layers: 1 },
        mip_level_count: 1,
        sample_count: 1,
        dimension: wgpu::TextureDimension::D2,
        format: wgpu::TextureFormat::Rgba8Unorm,
        usage: wgpu::TextureUsages::TEXTURE_BINDING,
        view_formats: &[],
    });
    let view = views.insert(texture.create_view(&wgpu::TextureViewDescriptor::default()));
    views.free(view.clone());
    let array = vec![Binding::TextureArray {
        binding: 0,
        handles: vec![view],
        format: wgpu::TextureFormat::Rgba8Unorm,
        bind_type: TextureBindingType::Texture,
        sample_type: TextureSampleType::Uint,
        count: 1,
    }];
    assert!(resolve_bindings(&array, &buffers, &views, &samplers).is_none());
}

#[test]
fn slab_can_insert_while_indices_fit() {
    let mut slab: Slab<u32> = Slab::new();
    assert!(slab.can_insert());
    slab.insert(1);
    assert!(slab.can_insert());
}
