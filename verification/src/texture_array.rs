use crate::resources::{
    Binding, SamplerHandle, TextureBindingType, TextureResource, TextureSampleType,
    TextureViewHandle,
};
use crate::model::{to_wgpu_format, wgpu_format, TexelFormat};
use vstd::prelude::*;

verus! {

/// The textures of a bindless material system, addressed by their position in
/// the array, all sampled with one sampler.
pub struct TextureArray {
    pub texture_views: Vec<TextureViewHandle>,
    pub sampler: SamplerHandle,
}

impl TextureArray {
    /// An empty array sampled with `sampler`.
    pub fn new(sampler: SamplerHandle) -> (array: TextureArray)
        ensures
            array.texture_views@ == Seq::<TextureViewHandle>::empty(),
            array.sampler == sampler,
    {
        return TextureArray { texture_views: Vec::new(), sampler };
    }

    /// Appends the view of an uploaded texture and returns its position in the
    /// array, by which shaders address it (as a `u32`, wrapping past `u32::MAX`).
    pub fn add_texture(&mut self, texture: TextureResource) -> (texture_idx: u32)
        ensures
            texture_idx == old(self).texture_views@.len() as u32,
            final(self).texture_views@ == old(self).texture_views@.push(texture.texture_view_handle),
            final(self).sampler == old(self).sampler,
    {
        let texture_idx = self.texture_views.len();
        self.texture_views.push(texture.texture_view_handle);
        return texture_idx as u32;
    }

    /// The two bindings that expose the array to shaders: the texture views at
    /// slot `offset` (RGBA8 unorm, sampled as unfilterable floats, one entry per
    /// texture, the count taken as a `u32`, wrapping) and the sampler at slot
    /// `offset + 1`.
    pub fn binding(&self, offset: u32) -> (bindings: Vec<Binding>)
        requires
            offset < u32::MAX,
        ensures
            bindings@.len() == 2,
            bindings@[0] matches Binding::TextureArray {
                binding,
                handles,
                format,
                bind_type,
                sample_type,
                count,
            } && binding == offset && handles@ == self.texture_views@ && format == wgpu_format(
                TexelFormat::Rgba8Unorm,
            ) && bind_type is Texture && sample_type == (TextureSampleType::Float {
                filterable: false,
            }) && count == self.texture_views@.len() as u32,
            bindings@[1] == (Binding::Sampler { binding: (offset + 1) as u32, handle: self.sampler }),
    {
        let handles = self.texture_views.clone();
        proof {
            assert forall|i: int| 0 <= i < handles@.len() implies handles@[i]
                == self.texture_views@[i] by {
                assert(cloned(self.texture_views@[i], handles@[i]));
            }
            assert(handles@ =~= self.texture_views@);
        }
        return vec![
            Binding::TextureArray {
                binding: offset,
                handles,
                format: to_wgpu_format(TexelFormat::Rgba8Unorm),
                bind_type: TextureBindingType::Texture,
                sample_type: TextureSampleType::Float { filterable: false },
                count: self.texture_views.len() as u32,
            },
            Binding::Sampler { binding: offset + 1, handle: self.sampler.clone() },
        ];
    }
}

} // verus!
