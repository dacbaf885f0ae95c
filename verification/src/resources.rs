use crate::bits::{lemma_next_pow2, next_pow2};
use crate::store::{Handle, Slab, SlabView};
use std::collections::{HashMap, HashSet};
use vstd::prelude::*;

verus! {

broadcast use vstd::std_specs::hash::group_hash_axioms;

/// A GPU buffer (opaque here: the library only stores handles to it).
#[verifier::external_type_specification]
#[verifier::external_body]
pub struct ExBuffer(wgpu::Buffer);

/// A GPU texture view (opaque).
#[verifier::external_type_specification]
#[verifier::external_body]
pub struct ExTextureView(wgpu::TextureView);

/// A GPU texture (opaque).
#[verifier::external_type_specification]
#[verifier::external_body]
pub struct ExTexture(wgpu::Texture);

/// A GPU sampler (opaque).
#[verifier::external_type_specification]
#[verifier::external_body]
pub struct ExSampler(wgpu::Sampler);

/// A GPU bind group layout (opaque).
#[verifier::external_type_specification]
#[verifier::external_body]
pub struct ExBindGroupLayout(wgpu::BindGroupLayout);

pub type BufferHandle = Handle<wgpu::Buffer>;

pub type TextureViewHandle = Handle<wgpu::TextureView>;

pub type TextureHandle = Handle<wgpu::Texture>;

pub type SamplerHandle = Handle<wgpu::Sampler>;

pub type LayoutHandle = Handle<wgpu::BindGroupLayout>;

/// A texel format of the GPU API (opaque: bindings only carry it along).
#[verifier::external_type_specification]
#[verifier::external_body]
pub struct ExTextureFormat(wgpu::TextureFormat);

/// How a texture binding is accessed by shaders.
#[derive(Clone, Copy, Debug)]
pub enum TextureBindingType {
    /// A write-only storage texture.
    Storage,
    /// A sampled texture.
    Texture,
}

/// How a buffer binding is accessed by shaders.
#[derive(Clone, Copy, Debug)]
pub enum BufferBindingType {
    Uniform,
    Storage { read_only: bool },
}

/// What a sampled texture returns to shaders.
#[derive(Clone, Copy, Debug)]
pub enum TextureSampleType {
    Float { filterable: bool },
    Depth,
    Sint,
    Uint,
}

/// One resource of a bind group, with the slot it is bound to.
pub enum Binding {
    Buffer { binding: u32, handle: BufferHandle, buffer_type: BufferBindingType },
    Texture {
        binding: u32,
        handle: TextureViewHandle,
        format: wgpu::TextureFormat,
        bind_type: TextureBindingType,
        sample_type: TextureSampleType,
    },
    TextureArray {
        binding: u32,
        handles: Vec<TextureViewHandle>,
        format: wgpu::TextureFormat,
        bind_type: TextureBindingType,
        sample_type: TextureSampleType,
        count: u32,
    },
    Sampler { binding: u32, handle: SamplerHandle },
}

/// A texture together with its default view, as created on the GPU.
pub struct TextureResource {
    pub texture_handle: TextureHandle,
    pub texture_view_handle: TextureViewHandle,
    pub format: wgpu::TextureFormat,
}

/// The shader stages that see a binding.
#[derive(Clone, Copy, Debug)]
pub struct ShaderVisibility {
    pub compute: bool,
    pub fragment: bool,
    pub vertex: bool,
}

/// The kind of resource a bind group layout slot declares. Buffers are declared
/// without dynamic offsets or a minimum size; textures as two-dimensional and not
/// multisampled; storage textures as write-only; samplers as non-filtering.
#[derive(Clone, Copy, Debug)]
pub enum LayoutBindingType {
    Buffer { buffer_type: BufferBindingType },
    StorageTexture { format: wgpu::TextureFormat },
    Texture { sample_type: TextureSampleType },
    Sampler,
}

/// One slot of a bind group layout. `count` is the array length of a texture
/// array (never zero), `None` for a single resource.
#[derive(Clone, Copy, Debug)]
pub struct LayoutEntry {
    pub binding: u32,
    pub visibility: ShaderVisibility,
    pub ty: LayoutBindingType,
    pub count: Option<u32>,
}

/// Compute and fragment shaders see every binding; vertex shaders see uniform
/// buffers only.
pub open spec fn visibility_of(vertex: bool) -> ShaderVisibility {
    ShaderVisibility { compute: true, fragment: true, vertex }
}

/// The layout type of a texture binding.
pub open spec fn texture_layout_type(
    bind_type: TextureBindingType,
    format: wgpu::TextureFormat,
    sample_type: TextureSampleType,
) -> LayoutBindingType {
    match bind_type {
        TextureBindingType::Storage => LayoutBindingType::StorageTexture { format },
        TextureBindingType::Texture => LayoutBindingType::Texture { sample_type },
    }
}

/// The layout slot that a binding declares.
pub open spec fn layout_entry_of(b: Binding) -> LayoutEntry {
    match b {
        Binding::Buffer { binding, buffer_type, .. } => LayoutEntry {
            binding,
            visibility: visibility_of(buffer_type is Uniform),
            ty: LayoutBindingType::Buffer { buffer_type },
            count: None,
        },
        Binding::Texture { binding, format, bind_type, sample_type, .. } => LayoutEntry {
            binding,
            visibility: visibility_of(false),
            ty: texture_layout_type(bind_type, format, sample_type),
            count: None,
        },
        Binding::TextureArray { binding, format, bind_type, sample_type, count, .. } => LayoutEntry {
            binding,
            visibility: visibility_of(false),
            ty: texture_layout_type(bind_type, format, sample_type),
            count: if count == 0 {
                None
            } else {
                Some(count)
            },
        },
        Binding::Sampler { binding, .. } => LayoutEntry {
            binding,
            visibility: visibility_of(false),
            ty: LayoutBindingType::Sampler,
            count: None,
        },
    }
}

fn texture_layout(
    bind_type: &TextureBindingType,
    format: &wgpu::TextureFormat,
    sample_type: &TextureSampleType,
) -> (ty: LayoutBindingType)
    ensures
        ty == texture_layout_type(*bind_type, *format, *sample_type),
{
    match bind_type {
        TextureBindingType::Storage => LayoutBindingType::StorageTexture { format: *format },
        TextureBindingType::Texture => LayoutBindingType::Texture { sample_type: *sample_type },
    }
}

/// The layout slot that `binding` declares.
pub fn layout_entry(binding: &Binding) -> (entry: LayoutEntry)
    ensures
        entry == layout_entry_of(*binding),
        *binding matches Binding::Buffer { binding: slot, buffer_type, .. } ==> (entry.binding == slot
            && entry.ty == (LayoutBindingType::Buffer { buffer_type }) && entry.count is None
            && entry.visibility.compute && entry.visibility.fragment && (entry.visibility.vertex
            <==> buffer_type is Uniform)),
        *binding matches Binding::Texture { binding: slot, format, bind_type, sample_type, .. } ==> (
        entry.binding == slot && entry.count is None && entry.visibility.compute
            && entry.visibility.fragment && !entry.visibility.vertex && (bind_type is Storage
            ==> entry.ty == (LayoutBindingType::StorageTexture { format })) && (bind_type is Texture
            ==> entry.ty == (LayoutBindingType::Texture { sample_type }))),
        *binding matches Binding::TextureArray { binding: slot, format, bind_type, sample_type, count, .. }
            ==> (entry.binding == slot && entry.visibility.compute && entry.visibility.fragment
            && !entry.visibility.vertex && (bind_type is Storage ==> entry.ty == (
        LayoutBindingType::StorageTexture { format })) && (bind_type is Texture ==> entry.ty == (
        LayoutBindingType::Texture { sample_type })) && (count != 0 ==> entry.count == Some(count))
            && (count == 0 ==> entry.count is None)),
        *binding matches Binding::Sampler { binding: slot, .. } ==> (entry.binding == slot && entry.ty
            is Sampler && entry.count is None && entry.visibility.compute && entry.visibility.fragment
            && !entry.visibility.vertex),
{
    match binding {
        Binding::Buffer { binding, buffer_type, .. } => {
            let vertex = match buffer_type {
                BufferBindingType::Uniform => true,
                BufferBindingType::Storage { .. } => false,
            };
            LayoutEntry {
                binding: *binding,
                visibility: ShaderVisibility { compute: true, fragment: true, vertex },
                ty: LayoutBindingType::Buffer { buffer_type: *buffer_type },
                count: None,
            }
        },
        Binding::Texture { binding, format, bind_type, sample_type, .. } => LayoutEntry {
            binding: *binding,
            visibility: ShaderVisibility { compute: true, fragment: true, vertex: false },
            ty: texture_layout(bind_type, format, sample_type),
            count: None,
        },
        Binding::TextureArray { binding, format, bind_type, sample_type, count, .. } => LayoutEntry {
            binding: *binding,
            visibility: ShaderVisibility { compute: true, fragment: true, vertex: false },
            ty: texture_layout(bind_type, format, sample_type),
            count: if *count == 0 {
                None
            } else {
                Some(*count)
            },
        },
        Binding::Sampler { binding, .. } => LayoutEntry {
            binding: *binding,
            visibility: ShaderVisibility { compute: true, fragment: true, vertex: false },
            ty: LayoutBindingType::Sampler,
            count: None,
        },
    }
}

/// The layout slots that `entries` declare, in order.
pub fn bind_group_layout_entries(entries: &[Binding]) -> (layout: Vec<LayoutEntry>)
    ensures
        layout@.len() == entries@.len(),
        forall|i: int| 0 <= i < entries@.len() ==> layout@[i] == layout_entry_of(#[trigger] entries@[i]),
{
    let mut layout: Vec<LayoutEntry> = Vec::new();
    let mut i: usize = 0;
    while i < entries.len()
        invariant
            i <= entries@.len(),
            layout@.len() == i,
            forall|j: int| 0 <= j < i ==> layout@[j] == layout_entry_of(#[trigger] entries@[j]),
        decreases entries@.len() - i,
    {
        layout.push(layout_entry(&entries[i]));
        i = i + 1;
    }
    layout
}

/// A binding with its resource looked up. Texture arrays resolve to the shared
/// list of views that `resolve_bindings` returns beside the entries.
pub enum ResolvedEntry<'a> {
    Buffer { binding: u32, buffer: &'a wgpu::Buffer },
    Texture { binding: u32, view: &'a wgpu::TextureView },
    TextureArray { binding: u32 },
    Sampler { binding: u32, sampler: &'a wgpu::Sampler },
}

/// Every handle in `handles` names a stored view.
pub open spec fn views_live(
    handles: Seq<TextureViewHandle>,
    views: SlabView<wgpu::TextureView>,
) -> bool {
    forall|k: int| 0 <= k < handles.len() ==> (#[trigger] views.get(handles[k]@)) is Some
}

/// Every handle that binding `b` names is live in its store.
pub open spec fn binding_live(
    b: Binding,
    buffers: SlabView<wgpu::Buffer>,
    views: SlabView<wgpu::TextureView>,
    samplers: SlabView<wgpu::Sampler>,
) -> bool {
    match b {
        Binding::Buffer { handle, .. } => buffers.get(handle@) is Some,
        Binding::Texture { handle, .. } => views.get(handle@) is Some,
        Binding::TextureArray { handles, .. } => views_live(handles@, views),
        Binding::Sampler { handle, .. } => samplers.get(handle@) is Some,
    }
}

/// `e` is binding `b` with its resource looked up.
pub open spec fn entry_matches<'a>(
    e: ResolvedEntry<'a>,
    b: Binding,
    buffers: SlabView<wgpu::Buffer>,
    views: SlabView<wgpu::TextureView>,
    samplers: SlabView<wgpu::Sampler>,
) -> bool {
    match b {
        Binding::Buffer { binding, handle, .. } => e matches ResolvedEntry::Buffer {
            binding: eb,
            buffer,
        } && eb == binding && buffers.get(handle@) == Some(*buffer),
        Binding::Texture { binding, handle, .. } => e matches ResolvedEntry::Texture {
            binding: eb,
            view,
        } && eb == binding && views.get(handle@) == Some(*view),
        Binding::TextureArray { binding, .. } => e matches ResolvedEntry::TextureArray {
            binding: eb,
        } && eb == binding,
        Binding::Sampler { binding, handle } => e matches ResolvedEntry::Sampler {
            binding: eb,
            sampler,
        } && eb == binding && samplers.get(handle@) == Some(*sampler),
    }
}

/// The views of one binding's texture array (none for other bindings).
pub open spec fn array_part(b: Binding, views: SlabView<wgpu::TextureView>) -> Seq<
    wgpu::TextureView,
> {
    match b {
        Binding::TextureArray { handles, .. } => handles@.map_values(
            |h: TextureViewHandle| views.get(h@).unwrap(),
        ),
        _ => Seq::empty(),
    }
}

/// The views of all texture arrays among `bindings`, one array after the other.
pub open spec fn array_views(bindings: Seq<Binding>, views: SlabView<wgpu::TextureView>) -> Seq<
    wgpu::TextureView,
>
    decreases bindings.len(),
{
    if bindings.len() == 0 {
        Seq::empty()
    } else {
        array_views(bindings.drop_last(), views) + array_part(bindings.last(), views)
    }
}

/// Looks up the resources that `bindings` name. Returns `None` exactly when some
/// handle is dangling; otherwise one entry per binding, in order, and the views
/// of all texture arrays joined into one list (the list every texture-array
/// entry is bound to).
pub fn resolve_bindings<'a>(
    bindings: &[Binding],
    buffers: &'a Slab<wgpu::Buffer>,
    views: &'a Slab<wgpu::TextureView>,
    samplers: &'a Slab<wgpu::Sampler>,
) -> (r: Option<(Vec<ResolvedEntry<'a>>, Vec<&'a wgpu::TextureView>)>)
    ensures
        r is Some <==> forall|i: int|
            0 <= i < bindings@.len() ==> binding_live(
                #[trigger] bindings@[i],
                buffers@,
                views@,
                samplers@,
            ),
        r matches Some((entries, array)) ==> {
            &&& entries@.len() == bindings@.len()
            &&& forall|i: int|
                0 <= i < bindings@.len() ==> entry_matches(
                    #[trigger] entries@[i],
                    bindings@[i],
                    buffers@,
                    views@,
                    samplers@,
                )
            &&& array@.len() == array_views(bindings@, views@).len()
            &&& forall|k: int|
                0 <= k < array@.len() ==> *(#[trigger] array@[k]) == array_views(
                    bindings@,
                    views@,
                )[k]
        },
{
    let mut array: Vec<&'a wgpu::TextureView> = Vec::new();
    let mut i: usize = 0;
    while i < bindings.len()
        invariant
            i <= bindings@.len(),
            array@.len() == array_views(bindings@.take(i as int), views@).len(),
            forall|k: int|
                0 <= k < array@.len() ==> *(#[trigger] array@[k]) == array_views(
                    bindings@.take(i as int),
                    views@,
                )[k],
            forall|j: int|
                0 <= j < i ==> ((#[trigger] bindings@[j]) is TextureArray ==> binding_live(
                    bindings@[j],
                    buffers@,
                    views@,
                    samplers@,
                )),
        decreases bindings@.len() - i,
    {
        let ghost before = array_views(bindings@.take(i as int), views@);
        let ghost start = array@.len();
        proof {
            assert(bindings@.take(i + 1).drop_last() =~= bindings@.take(i as int));
            assert(bindings@.take(i + 1).last() == bindings@[i as int]);
        }
        match &bindings[i] {
            Binding::TextureArray { handles, .. } => {
                let mut k: usize = 0;
                while k < handles.len()
                    invariant
                        i < bindings@.len(),
                        bindings@[i as int] matches Binding::TextureArray { handles: hs, .. }
                            && hs == *handles,
                        k <= handles@.len(),
                        start == before.len(),
                        array@.len() == start + k,
                        forall|m: int|
                            0 <= m < start ==> *(#[trigger] array@[m]) == before[m],
                        forall|m: int|
                            0 <= m < k ==> (#[trigger] views@.get(handles@[m]@)) is Some
                                && *array@[start + m] == views@.get(handles@[m]@).unwrap(),
                    decreases handles@.len() - k,
                {
                    match views.get(&handles[k]) {
                        Some(v) => {
                            array.push(v);
                        },
                        None => {
                            proof {
                                assert(views@.get(handles@[k as int]@) is None);
                                assert(!binding_live(
                                    bindings@[i as int],
                                    buffers@,
                                    views@,
                                    samplers@,
                                ));
                            }
                            return None;
                        },
                    }
                    k = k + 1;
                }
                proof {
                    let part = array_part(bindings@[i as int], views@);
                    assert(part.len() == handles@.len());
                    assert forall|m: int| 0 <= m < array@.len() implies *(#[trigger] array@[m])
                        == (before + part)[m] by {
                        if m >= start {
                            assert(views@.get(handles@[m - start]@) is Some);
                        }
                    }
                    assert forall|k2: int| 0 <= k2 < handles@.len() implies (#[trigger] views@.get(
                        handles@[k2]@,
                    )) is Some by {
                        assert(views@.get(handles@[k2]@) is Some);
                    }
                }
            },
            _ => {
                proof {
                    assert(array_part(bindings@[i as int], views@) =~= Seq::empty());
                    assert(before + Seq::<wgpu::TextureView>::empty() =~= before);
                }
            },
        }
        i = i + 1;
    }
    proof {
        assert(bindings@.take(bindings@.len() as int) =~= bindings@);
    }
    let mut entries: Vec<ResolvedEntry<'a>> = Vec::new();
    let mut i: usize = 0;
    while i < bindings.len()
        invariant
            i <= bindings@.len(),
            entries@.len() == i,
            forall|j: int|
                0 <= j < bindings@.len() ==> ((#[trigger] bindings@[j]) is TextureArray
                    ==> binding_live(bindings@[j], buffers@, views@, samplers@)),
            forall|j: int|
                0 <= j < i ==> binding_live(#[trigger] bindings@[j], buffers@, views@, samplers@)
                    && entry_matches(entries@[j], bindings@[j], buffers@, views@, samplers@),
        decreases bindings@.len() - i,
    {
        let entry = match &bindings[i] {
            Binding::Buffer { binding, handle, .. } => match buffers.get(handle) {
                Some(buffer) => ResolvedEntry::Buffer { binding: *binding, buffer },
                None => {
                    return None;
                },
            },
            Binding::Texture { binding, handle, .. } => match views.get(handle) {
                Some(view) => ResolvedEntry::Texture { binding: *binding, view },
                None => {
                    return None;
                },
            },
            Binding::TextureArray { binding, .. } => ResolvedEntry::TextureArray {
                binding: *binding,
            },
            Binding::Sampler { binding, handle } => match samplers.get(handle) {
                Some(sampler) => ResolvedEntry::Sampler { binding: *binding, sampler },
                None => {
                    return None;
                },
            },
        };
        entries.push(entry);
        i = i + 1;
    }
    Some((entries, array))
}

/// The size of the renderer's pooled buffers: the GPU buffer is created with this
/// many bytes, and the pool is allowed this many elements.
pub const MAX_STORAGE_BUFF_SIZE: u64 = 134217728;

/// The size class that a request of `space` elements falls in: the next power of two.
pub open spec fn size_class(space: u32) -> u32 {
    next_pow2(space as nat) as u32
}

/// The abstract state of a `PoolAllocBuffer`.
pub struct PoolView<T> {
    /// The CPU copy of the buffer's elements.
    pub data: Seq<T>,
    /// For each size class, the stack of freed region starts (the last is reused first).
    pub free: Map<u32, Seq<u32>>,
    /// The number of elements handed out so far (the end of the used part).
    pub current_cap: u32,
    /// The number of elements the GPU buffer can hold.
    pub max_cap: u32,
    /// Region starts that were handed out again from a free list.
    pub staged: Set<u32>,
    /// The GPU buffer that the pool is uploaded to.
    pub handle: BufferHandle,
}

impl<T> PoolView<T> {
    /// The CPU copy covers exactly the handed-out part of the buffer.
    pub open spec fn wf(self) -> bool {
        self.data.len() == self.current_cap
    }

    /// The free stack of a size class (empty if none was ever freed).
    pub open spec fn bucket(self, class: u32) -> Seq<u32> {
        if self.free.contains_key(class) {
            self.free[class]
        } else {
            Seq::empty()
        }
    }

    /// Whether a request of `space` elements is served from a free list.
    pub open spec fn reuses(self, space: u32) -> bool {
        self.bucket(size_class(space)).len() > 0
    }

    /// Where a request of `space` elements starts.
    pub open spec fn alloc_index(self, space: u32) -> u32 {
        if self.reuses(space) {
            self.bucket(size_class(space)).last()
        } else {
            self.current_cap
        }
    }

    /// The requests that `allocate` serves without panicking: the size class must fit
    /// in a `u32`, and a new region must not overflow the element count.
    pub open spec fn can_alloc(self, space: u32) -> bool {
        &&& space <= 0x8000_0000
        &&& self.reuses(space) || self.current_cap + size_class(space) + 1 <= u32::MAX
    }

    /// The free lists after a request of `space` elements.
    pub open spec fn free_after_alloc(self, space: u32) -> Map<u32, Seq<u32>> {
        if self.reuses(space) {
            self.free.insert(size_class(space), self.bucket(size_class(space)).drop_last())
        } else {
            self.free
        }
    }

    /// The element count after a request of `space` elements.
    pub open spec fn cap_after_alloc(self, space: u32) -> u32 {
        if self.reuses(space) {
            self.current_cap
        } else {
            (self.current_cap + size_class(space) + 1) as u32
        }
    }

    /// The reused starts after a request of `space` elements.
    pub open spec fn staged_after_alloc(self, space: u32) -> Set<u32> {
        if self.reuses(space) {
            self.staged.insert(self.alloc_index(space))
        } else {
            self.staged
        }
    }

    /// The writes of `len` values that `alloc_and_write` serves without panicking:
    /// the count fits in a `u32`, the region can be reserved, and a region taken
    /// from a free list holds the values inside the pool.
    pub open spec fn can_write(self, len: nat) -> bool {
        &&& len <= u32::MAX
        &&& self.can_alloc(len as u32)
        &&& self.reuses(len as u32) ==> self.alloc_index(len as u32) + len <= self.data.len()
    }

    /// The free lists after returning the region at `idx` of `space` elements.
    pub open spec fn free_after_free(self, idx: u32, space: u32) -> Map<u32, Seq<u32>> {
        self.free.insert(size_class(space), self.bucket(size_class(space)).push(idx))
    }

    /// The whole state after returning the region at `idx` of `space` elements.
    pub open spec fn freed(self, idx: u32, space: u32) -> PoolView<T> {
        PoolView {
            data: self.data,
            free: self.free_after_free(idx, space),
            current_cap: self.current_cap,
            max_cap: self.max_cap,
            staged: self.staged,
            handle: self.handle,
        }
    }
}

/// `post` is the state after `values` were written to a region reserved for them
/// in `pre`, starting at `idx`: the bookkeeping is that of reserving
/// `values.len()` elements, the region holds `values`, every other element of
/// `pre` is kept, and elements past a new region's written part are copies of one
/// default value.
pub open spec fn written<T: Default + Clone>(
    pre: PoolView<T>,
    post: PoolView<T>,
    values: Seq<T>,
    idx: u32,
) -> bool {
    let n = values.len() as u32;
    &&& idx == pre.alloc_index(n)
    &&& post.free == pre.free_after_alloc(n)
    &&& post.current_cap == pre.cap_after_alloc(n)
    &&& post.staged == pre.staged_after_alloc(n)
    &&& post.max_cap == pre.max_cap
    &&& post.handle == pre.handle
    &&& post.data.len() == post.current_cap
    &&& forall|i: int| 0 <= i < values.len() ==> post.data[idx + i] == #[trigger] values[i]
    &&& forall|i: int|
        0 <= i < pre.data.len() && !(idx <= i < idx + values.len()) ==> post.data[i]
            == pre.data[i]
    &&& !pre.reuses(n) ==> exists|d: T|
        call_ensures(T::default, (), d) && forall|i: int|
            pre.data.len() + values.len() <= i < post.data.len() ==> cloned::<T>(
                d,
                #[trigger] post.data[i],
            )
}

/// `new` extends `old` to `len` elements with copies of one default value.
pub open spec fn grown_with_default<T: Default + Clone>(old: Seq<T>, new: Seq<T>, len: nat) -> bool {
    &&& new.len() == len
    &&& new.subrange(0, old.len() as int) == old
    &&& exists|d: T|
        call_ensures(T::default, (), d) && forall|i: int|
            old.len() <= i < len ==> cloned::<T>(d, #[trigger] new[i])
}

/// A CPU-side pool of elements destined for one GPU buffer. Requests are rounded up
/// to a power-of-two size class; freed regions are kept per size class and
/// handed out again before the pool grows.
pub struct PoolAllocBuffer<T> {
    pub data: Vec<T>,
    pub free_slots: HashMap<u32, Vec<u32>>,
    pub current_cap: u32,
    pub max_cap: u32,
    pub staged: HashSet<u32>,
    pub handle: BufferHandle,
}

impl<T: Copy + Default> PoolAllocBuffer<T> {
    /// The abstract state: the fields, each by its view.
    pub open spec fn view(&self) -> PoolView<T> {
        PoolView {
            data: self.data@,
            free: self.free_slots@.map_values(|v: Vec<u32>| v@),
            current_cap: self.current_cap,
            max_cap: self.max_cap,
            staged: self.staged@,
            handle: self.handle,
        }
    }

    pub open spec fn wf(&self) -> bool {
        self.view().wf()
    }

    /// An empty pool for the GPU buffer `handle`, which holds `capacity` elements.
    pub fn new(handle: BufferHandle, capacity: u32) -> (pool: PoolAllocBuffer<T>)
        ensures
            pool.wf(),
            pool.view().data == Seq::<T>::empty(),
            pool.view().free == Map::<u32, Seq<u32>>::empty(),
            pool.view().current_cap == 0,
            pool.view().max_cap == capacity,
            pool.view().staged == Set::<u32>::empty(),
            pool.view().handle == handle,
    {
        let pool = PoolAllocBuffer {
            data: Vec::new(),
            free_slots: HashMap::new(),
            staged: HashSet::new(),
            handle,
            current_cap: 0,
            max_cap: capacity,
        };
        assert(pool.view().free =~= Map::<u32, Seq<u32>>::empty());
        pool
    }

    /// Reserves a region of `space` elements (rounded up to its size class) and
    /// returns where it starts: the most recently freed region of that class if
    /// there is one, else a new region at the end of the pool, which then grows by
    /// the class size plus one element.
    pub fn allocate(&mut self, space: u32) -> (idx: u32)
        requires
            old(self).wf(),
            old(self).view().can_alloc(space),
        ensures
            final(self).wf(),
            idx == old(self).view().alloc_index(space),
            final(self).view().free == old(self).view().free_after_alloc(space),
            final(self).view().current_cap == old(self).view().cap_after_alloc(space),
            final(self).view().staged == old(self).view().staged_after_alloc(space),
            final(self).view().max_cap == old(self).view().max_cap,
            final(self).view().handle == old(self).view().handle,
            old(self).view().reuses(space) ==> final(self).view().data == old(self).view().data,
            !old(self).view().reuses(space) ==> grown_with_default(
                old(self).view().data,
                final(self).view().data,
                final(self).view().current_cap as nat,
            ),
    {
        let ghost pre = self.view();
        let rounded_space = space.next_power_of_two();
        proof {
            lemma_next_pow2(space as nat);
        }
        let has_free = match self.free_slots.get(&rounded_space) {
            Some(v) => v.len() > 0,
            None => false,
        };
        if has_free {
            let mut bucket = self.free_slots.remove(&rounded_space).unwrap();
            let idx = bucket.pop().unwrap();
            self.free_slots.insert(rounded_space, bucket);
            self.staged.insert(idx);
            proof {
                assert(self.view().free =~= pre.free_after_alloc(space));
            }
            return idx;
        }
        let idx = self.current_cap;
        self.current_cap = self.current_cap + rounded_space + 1;
        self.data.resize(self.current_cap as usize, T::default());
        proof {
            assert(self.view().free =~= pre.free);
        }
        return idx;
    }

    /// Reserves a region for `values` (as `allocate` does for their count),
    /// copies them to its start and returns that start. A region taken from a
    /// free list must hold the values inside the pool, or the copy would panic.
    pub fn alloc_and_write(&mut self, values: &[T]) -> (idx: u32)
        requires
            old(self).wf(),
            old(self).view().can_write(values@.len()),
        ensures
            final(self).wf(),
            written(old(self).view(), final(self).view(), values@, idx),
            idx + values@.len() <= final(self).data@.len(),
            forall|i: int| 0 <= i < values@.len() ==> #[trigger] final(self).data@[idx + i] == values@[i],
    {
        let ghost pre = self.view();
        let n = values.len() as u32;
        let idx = self.allocate(n);
        proof {
            lemma_next_pow2(n as nat);
        }
        let ghost mid = self.view().data;
        let mut k: usize = 0;
        while k < values.len()
            invariant
                self.wf(),
                k <= values.len(),
                n == values.len(),
                idx as int + values.len() <= self.view().data.len(),
                self.view().data.len() == mid.len(),
                self.view().free == pre.free_after_alloc(n),
                self.view().current_cap == pre.cap_after_alloc(n),
                self.view().staged == pre.staged_after_alloc(n),
                self.view().max_cap == pre.max_cap,
                self.view().handle == pre.handle,
                forall|i: int| 0 <= i < k ==> self.view().data[idx + i] == #[trigger] values@[i],
                forall|i: int|
                    0 <= i < mid.len() && !(idx <= i < idx + k) ==> self.view().data[i] == mid[i],
            decreases values.len() - k,
        {
            self.data.set(idx as usize + k, values[k]);
            k = k + 1;
        }
        proof {
            let post = self.view();
            assert forall|i: int|
                0 <= i < pre.data.len() && !(idx <= i < idx + values.len()) implies post.data[i]
                == pre.data[i] by {
                if !pre.reuses(n) {
                    assert(mid.subrange(0, pre.data.len() as int)[i] == mid[i]);
                }
            }
            if !pre.reuses(n) {
                let d = choose|d: T|
                    call_ensures(T::default, (), d) && forall|i: int|
                        pre.data.len() <= i < mid.len() ==> cloned::<T>(d, #[trigger] mid[i]);
                assert forall|i: int|
                    pre.data.len() + values.len() <= i < post.data.len() implies cloned::<T>(
                    d,
                    #[trigger] post.data[i],
                ) by {
                    assert(post.data[i] == mid[i]);
                }
            }
        }
        return idx;
    }

    /// Whether `alloc_and_write` can take `len` values without panicking; lets a
    /// caller test its precondition.
    pub fn can_write(&self, len: usize) -> (ok: bool)
        requires
            self.wf(),
        ensures
            ok == self.view().can_write(len as nat),
    {
        if len > u32::MAX as usize {
            return false;
        }
        let n = len as u32;
        if n > 0x8000_0000 {
            return false;
        }
        let class = n.next_power_of_two();
        proof {
            lemma_next_pow2(n as nat);
        }
        let reused: Option<u32> = match self.free_slots.get(&class) {
            Some(v) => {
                if v.len() > 0 {
                    Some(v[v.len() - 1])
                } else {
                    None
                }
            },
            None => None,
        };
        match reused {
            Some(idx) => idx as u64 + len as u64 <= self.data.len() as u64,
            None => self.current_cap as u64 + class as u64 + 1 <= u32::MAX as u64,
        }
    }

    /// Returns the region at `idx` of `space` elements to the free list of its
    /// size class. Nothing checks that the region was handed out.
    pub fn free(&mut self, idx: u32, space: u32)
        requires
            old(self).wf(),
            space <= 0x8000_0000,
        ensures
            final(self).wf(),
            final(self).view().free == old(self).view().free_after_free(idx, space),
            final(self).view().data == old(self).view().data,
            final(self).view().current_cap == old(self).view().current_cap,
            final(self).view().max_cap == old(self).view().max_cap,
            final(self).view().staged == old(self).view().staged,
            final(self).view().handle == old(self).view().handle,
    {
        let ghost pre = self.view();
        let bucket = space.next_power_of_two();
        let mut list = match self.free_slots.remove(&bucket) {
            Some(v) => v,
            None => Vec::new(),
        };
        list.push(idx);
        self.free_slots.insert(bucket, list);
        proof {
            assert(self.view().free =~= pre.free_after_free(idx, space));
        }
    }

    /// The elements to upload to the GPU buffer, or `None` when the pool has
    /// outgrown the buffer (then nothing is uploaded).
    pub fn flush(&self) -> (upload: Option<&[T]>)
        ensures
            self.view().current_cap > self.view().max_cap ==> upload is None,
            self.view().current_cap <= self.view().max_cap ==> upload is Some && upload.unwrap()@
                == self.view().data,
    {
        if self.current_cap > self.max_cap {
            return None;
        }
        return Some(self.data.as_slice());
    }
}

/// A request's size class is a power of two that fits in a `u32`, is at least the
/// request, and (for a non-empty request) less than twice it.
pub proof fn lemma_size_class(space: u32)
    requires
        space <= 0x8000_0000,
    ensures
        crate::bits::is_pow2(size_class(space) as nat),
        size_class(space) as nat == next_pow2(space as nat),
        size_class(space) >= space,
        size_class(space) >= 1,
        space >= 1 ==> size_class(space) < 2 * space,
{
    lemma_next_pow2(space as nat);
}

/// A request not served from a free list gets a new region at the end of the
/// pool: it starts where the used part ended, the pool grows by exactly the size
/// class plus one element, and the request fits in the new region.
pub proof fn lemma_fresh_region<T>(s: PoolView<T>, space: u32)
    requires
        s.wf(),
        s.can_alloc(space),
        !s.reuses(space),
    ensures
        s.alloc_index(space) == s.data.len(),
        s.cap_after_alloc(space) == s.alloc_index(space) + size_class(space) + 1,
        s.alloc_index(space) + space < s.cap_after_alloc(space),
{
    lemma_size_class(space);
}

/// A region that is freed is the next one handed out for any request of the
/// same size class, and handing it out leaves every free list as it was before
/// the region was freed (an unused size class is left with an empty list).
pub proof fn lemma_free_then_alloc<T>(s: PoolView<T>, idx: u32, space: u32, again: u32)
    requires
        space <= 0x8000_0000,
        again <= 0x8000_0000,
        size_class(space) == size_class(again),
    ensures
        s.freed(idx, space).reuses(again),
        s.freed(idx, space).can_alloc(again),
        s.freed(idx, space).alloc_index(again) == idx,
        s.freed(idx, space).free_after_alloc(again) == s.free.insert(
            size_class(space),
            s.bucket(size_class(space)),
        ),
        s.freed(idx, space).cap_after_alloc(again) == s.current_cap,
{
    let class = size_class(space);
    let t = s.freed(idx, space);
    assert(t.bucket(class) == s.bucket(class).push(idx));
    assert(t.bucket(class).drop_last() =~= s.bucket(class));
    assert(t.free.insert(class, s.bucket(class)) =~= s.free.insert(class, s.bucket(class)));
}

/// Freeing a region only touches the free list of its own size class.
pub proof fn lemma_free_keeps_other_classes<T>(s: PoolView<T>, idx: u32, space: u32, class: u32)
    requires
        class != size_class(space),
    ensures
        s.freed(idx, space).bucket(class) == s.bucket(class),
{
}

/// The region that a write fills lies inside the pool, so its end fits in a `u32`.
pub proof fn lemma_written_region_in_pool<T: Default + Clone>(
    pre: PoolView<T>,
    post: PoolView<T>,
    values: Seq<T>,
    idx: u32,
)
    requires
        pre.wf(),
        pre.can_write(values.len()),
        written(pre, post, values, idx),
    ensures
        idx + values.len() <= post.data.len(),
        post.data.len() <= u32::MAX,
{
    if !pre.reuses(values.len() as u32) {
        lemma_fresh_region(pre, values.len() as u32);
    }
}

/// Writing to a new region never disturbs what the pool held before: the old
/// elements are a prefix of the new pool, and the values follow right after them.
pub proof fn lemma_fresh_write_keeps_earlier_data<T: Default + Clone>(
    pre: PoolView<T>,
    post: PoolView<T>,
    values: Seq<T>,
    idx: u32,
)
    requires
        pre.wf(),
        pre.can_write(values.len()),
        !pre.reuses(values.len() as u32),
        written(pre, post, values, idx),
    ensures
        idx == pre.data.len(),
        post.data.subrange(0, pre.data.len() as int) == pre.data,
        post.data.subrange(idx as int, idx + values.len()) == values,
{
    lemma_written_region_in_pool(pre, post, values, idx);
    assert(post.data.subrange(0, pre.data.len() as int) =~= pre.data);
    assert(post.data.subrange(idx as int, idx + values.len()) =~= values);
}

/// Writing to a reused region changes that region only.
pub proof fn lemma_reused_write_keeps_other_data<T: Default + Clone>(
    pre: PoolView<T>,
    post: PoolView<T>,
    values: Seq<T>,
    idx: u32,
    i: int,
)
    requires
        pre.wf(),
        pre.can_write(values.len()),
        pre.reuses(values.len() as u32),
        written(pre, post, values, idx),
        0 <= i < pre.data.len(),
        !(idx <= i < idx + values.len()),
    ensures
        post.data.len() == pre.data.len(),
        post.data[i] == pre.data[i],
{
}

/// What a binding declares in its layout slot, read directly off the binding:
/// its own slot number; a buffer keeps its buffer type (read-only flag included)
/// and is seen by vertex shaders only if it is a uniform buffer; a texture is a
/// storage texture of its format or a sampled texture of its sample type; a
/// texture array is declared as an array of exactly its count (a single slot
/// only for a count of zero); nothing else is an array.
pub proof fn lemma_layout_entry_of(b: Binding)
    ensures
        b matches Binding::Buffer { binding: slot, buffer_type, .. } ==> (layout_entry_of(b).binding == slot
            && layout_entry_of(b).ty == (LayoutBindingType::Buffer { buffer_type }) && layout_entry_of(b).count is None
            && layout_entry_of(b).visibility.compute && layout_entry_of(b).visibility.fragment && (layout_entry_of(b).visibility.vertex
            <==> buffer_type is Uniform)),
        b matches Binding::Texture { binding: slot, format, bind_type, sample_type, .. } ==> (
        layout_entry_of(b).binding == slot && layout_entry_of(b).count is None && layout_entry_of(b).visibility.compute
            && layout_entry_of(b).visibility.fragment && !layout_entry_of(b).visibility.vertex && (bind_type is Storage
            ==> layout_entry_of(b).ty == (LayoutBindingType::StorageTexture { format })) && (bind_type is Texture
            ==> layout_entry_of(b).ty == (LayoutBindingType::Texture { sample_type }))),
        b matches Binding::TextureArray { binding: slot, format, bind_type, sample_type, count, .. }
            ==> (layout_entry_of(b).binding == slot && layout_entry_of(b).visibility.compute && layout_entry_of(b).visibility.fragment
            && !layout_entry_of(b).visibility.vertex && (bind_type is Storage ==> layout_entry_of(b).ty == (
        LayoutBindingType::StorageTexture { format })) && (bind_type is Texture ==> layout_entry_of(b).ty == (
        LayoutBindingType::Texture { sample_type })) && (count != 0 ==> layout_entry_of(b).count == Some(count))
            && (count == 0 ==> layout_entry_of(b).count is None)),
        b matches Binding::Sampler { binding: slot, .. } ==> (layout_entry_of(b).binding == slot && layout_entry_of(b).ty
            is Sampler && layout_entry_of(b).count is None && layout_entry_of(b).visibility.compute && layout_entry_of(b).visibility.fragment
            && !layout_entry_of(b).visibility.vertex),
{
}

} // verus!
