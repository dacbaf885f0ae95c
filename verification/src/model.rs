use vstd::prelude::*;

verus! {

/// The pixel layouts that a glTF image can be decoded to.
#[derive(Clone, Copy, Debug)]
pub enum ImageFormat {
    R8,
    R8G8,
    R8G8B8,
    R8G8B8A8,
    R16,
    R16G16,
    R16G16B16,
    R16G16B16A16,
    R32G32B32FLOAT,
    R32G32B32A32FLOAT,
}

/// The GPU texel formats that glTF images are uploaded as.
#[derive(Clone, Copy, Debug)]
pub enum TexelFormat {
    R8Unorm,
    Rg8Unorm,
    Rgba8Unorm,
    R16Unorm,
    Rg16Unorm,
    Rgba16Unorm,
    Rgba32Float,
}

/// The wgpu texture format named like `format` (`TexelFormat::Rgba8Unorm` is
/// `wgpu::TextureFormat::Rgba8Unorm`, and so on).
pub uninterp spec fn wgpu_format(format: TexelFormat) -> wgpu::TextureFormat;

/// Converts a texel format to the wgpu format of the same name, variant for
/// variant. The contract names the result only: wgpu's format type is opaque here.
#[verifier::external_body]
pub(crate) fn to_wgpu_format(format: TexelFormat) -> (r: wgpu::TextureFormat)
    ensures
        r == wgpu_format(format),
{
    match format {
        TexelFormat::R8Unorm => wgpu::TextureFormat::R8Unorm,
        TexelFormat::Rg8Unorm => wgpu::TextureFormat::Rg8Unorm,
        TexelFormat::Rgba8Unorm => wgpu::TextureFormat::Rgba8Unorm,
        TexelFormat::R16Unorm => wgpu::TextureFormat::R16Unorm,
        TexelFormat::Rg16Unorm => wgpu::TextureFormat::Rg16Unorm,
        TexelFormat::Rgba16Unorm => wgpu::TextureFormat::Rgba16Unorm,
        TexelFormat::Rgba32Float => wgpu::TextureFormat::Rgba32Float,
    }
}

/// Splits `pixels` into whole texels of `texel_bytes` bytes (a trailing partial
/// texel is dropped) and appends `alpha` to each.
pub open spec fn pad_texels(pixels: Seq<u8>, texel_bytes: nat, alpha: Seq<u8>) -> Seq<u8>
    decreases pixels.len(),
{
    if texel_bytes == 0 || pixels.len() < texel_bytes {
        Seq::empty()
    } else {
        pixels.take(texel_bytes as int) + alpha + pad_texels(
            pixels.skip(texel_bytes as int),
            texel_bytes,
            alpha,
        )
    }
}

/// The texel format an image of `format` is uploaded as: formats without an
/// alpha channel that the GPU cannot sample directly gain one.
pub open spec fn upload_format_of(format: ImageFormat) -> TexelFormat {
    match format {
        ImageFormat::R8G8B8 => TexelFormat::Rgba8Unorm,
        ImageFormat::R16G16B16 => TexelFormat::Rgba16Unorm,
        ImageFormat::R32G32B32FLOAT => TexelFormat::Rgba32Float,
        ImageFormat::R8G8B8A8 => TexelFormat::Rgba8Unorm,
        ImageFormat::R8 => TexelFormat::R8Unorm,
        ImageFormat::R8G8 => TexelFormat::Rg8Unorm,
        ImageFormat::R16 => TexelFormat::R16Unorm,
        ImageFormat::R16G16 => TexelFormat::Rg16Unorm,
        ImageFormat::R16G16B16A16 => TexelFormat::Rgba16Unorm,
        ImageFormat::R32G32B32A32FLOAT => TexelFormat::Rgba32Float,
    }
}

/// The bytes uploaded for an image of `format`: three-channel images gain an
/// opaque alpha channel made of `0xff` bytes (one per channel byte of the
/// alpha: 1, 2 or 4); `None` means the pixels are uploaded as they are.
pub open spec fn upload_bytes_of(format: ImageFormat, pixels: Seq<u8>) -> Option<Seq<u8>> {
    match format {
        ImageFormat::R8G8B8 => Some(pad_texels(pixels, 3, seq![255u8])),
        ImageFormat::R16G16B16 => Some(pad_texels(pixels, 6, seq![255u8, 255u8])),
        ImageFormat::R32G32B32FLOAT => Some(
            pad_texels(pixels, 12, seq![255u8, 255u8, 255u8, 255u8]),
        ),
        _ => None,
    }
}

/// Appends each whole texel of `pixels` followed by `alpha`.
fn add_alpha(pixels: &[u8], texel_bytes: usize, alpha: &[u8]) -> (out: Vec<u8>)
    requires
        texel_bytes > 0,
    ensures
        out@ == pad_texels(pixels@, texel_bytes as nat, alpha@),
{
    let mut out: Vec<u8> = Vec::new();
    let mut i: usize = 0;
    assert(pixels@.skip(0) =~= pixels@);
    while texel_bytes <= pixels.len() - i
        invariant
            texel_bytes > 0,
            i <= pixels@.len(),
            out@ + pad_texels(pixels@.skip(i as int), texel_bytes as nat, alpha@) == pad_texels(
                pixels@,
                texel_bytes as nat,
                alpha@,
            ),
        decreases pixels@.len() - i,
    {
        let ghost before = out@;
        let ghost rest = pixels@.skip(i as int);
        let mut j: usize = 0;
        while j < texel_bytes
            invariant
                i + texel_bytes <= pixels.len(),
                j <= texel_bytes,
                out@ == before + pixels@.subrange(i as int, i + j),
            decreases texel_bytes - j,
        {
            out.push(pixels[i + j]);
            j = j + 1;
            assert(out@ =~= before + pixels@.subrange(i as int, i + j));
        }
        let ghost mid = out@;
        let mut a: usize = 0;
        while a < alpha.len()
            invariant
                a <= alpha@.len(),
                out@ == mid + alpha@.subrange(0, a as int),
            decreases alpha@.len() - a,
        {
            out.push(alpha[a]);
            a = a + 1;
            assert(out@ =~= mid + alpha@.subrange(0, a as int));
        }
        proof {
            assert(alpha@.subrange(0, alpha@.len() as int) =~= alpha@);
            assert(rest.take(texel_bytes as int) =~= pixels@.subrange(i as int, i + texel_bytes));
            assert(rest.skip(texel_bytes as int) =~= pixels@.skip(i + texel_bytes));
            assert(pad_texels(rest, texel_bytes as nat, alpha@) == rest.take(texel_bytes as int)
                + alpha@ + pad_texels(rest.skip(texel_bytes as int), texel_bytes as nat, alpha@));
            assert(out@ + pad_texels(pixels@.skip(i + texel_bytes), texel_bytes as nat, alpha@)
                =~= before + pad_texels(rest, texel_bytes as nat, alpha@));
        }
        i = i + texel_bytes;
    }
    proof {
        assert(pad_texels(pixels@.skip(i as int), texel_bytes as nat, alpha@) =~= Seq::empty());
        assert(out@ + Seq::<u8>::empty() =~= out@);
    }
    out
}

/// Prepares a decoded glTF image for upload: the bytes to upload (`None` when
/// the pixels can be uploaded unchanged) and the texel format to upload them as.
pub fn texture_upload_data(format: ImageFormat, pixels: &[u8]) -> (upload: (Option<Vec<u8>>, TexelFormat))
    ensures
        upload.1 == upload_format_of(format),
        match upload_bytes_of(format, pixels@) {
            Some(bytes) => upload.0 is Some && upload.0.unwrap()@ == bytes,
            None => upload.0 is None,
        },
        // RGB8: every whole 3-byte texel, in order, followed by an alpha byte 255.
        format is R8G8B8 ==> (upload.0 matches Some(b) && b@.len() == (pixels@.len() / 3) * 4
            && forall|j: int|
            0 <= j < b@.len() ==> #[trigger] b@[j] == if j % 4 < 3 {
                pixels@[(j / 4) * 3 + j % 4]
            } else {
                255u8
            }),
        // RGB16: every whole 6-byte texel, in order, followed by two alpha bytes 255.
        format is R16G16B16 ==> (upload.0 matches Some(b) && b@.len() == (pixels@.len() / 6) * 8
            && forall|j: int|
            0 <= j < b@.len() ==> #[trigger] b@[j] == if j % 8 < 6 {
                pixels@[(j / 8) * 6 + j % 8]
            } else {
                255u8
            }),
        // RGB32F: every whole 12-byte texel, in order, followed by four alpha bytes 255.
        format is R32G32B32FLOAT ==> (upload.0 matches Some(b) && b@.len() == (pixels@.len() / 12)
            * 16 && forall|j: int|
            0 <= j < b@.len() ==> #[trigger] b@[j] == if j % 16 < 12 {
                pixels@[(j / 16) * 12 + j % 16]
            } else {
                255u8
            }),
        // Every other format is uploaded as it is.
        !(format is R8G8B8 || format is R16G16B16 || format is R32G32B32FLOAT) ==> upload.0 is None,
        format is R8G8B8 || format is R8G8B8A8 ==> upload.1 is Rgba8Unorm,
        format is R16G16B16 || format is R16G16B16A16 ==> upload.1 is Rgba16Unorm,
        format is R32G32B32FLOAT || format is R32G32B32A32FLOAT ==> upload.1 is Rgba32Float,
        format is R8 ==> upload.1 is R8Unorm,
        format is R8G8 ==> upload.1 is Rg8Unorm,
        format is R16 ==> upload.1 is R16Unorm,
        format is R16G16 ==> upload.1 is Rg16Unorm,
{
    proof {
        lemma_upload_bytes(format, pixels@);
    }
    match format {
        ImageFormat::R8G8B8 => {
            let alpha: [u8; 1] = [255];
            assert(alpha@ =~= seq![255u8]);
            (Some(add_alpha(pixels, 3, &alpha)), TexelFormat::Rgba8Unorm)
        },
        ImageFormat::R16G16B16 => {
            let alpha: [u8; 2] = [255, 255];
            assert(alpha@ =~= seq![255u8, 255u8]);
            (Some(add_alpha(pixels, 6, &alpha)), TexelFormat::Rgba16Unorm)
        },
        ImageFormat::R32G32B32FLOAT => {
            let alpha: [u8; 4] = [255, 255, 255, 255];
            assert(alpha@ =~= seq![255u8, 255u8, 255u8, 255u8]);
            (Some(add_alpha(pixels, 12, &alpha)), TexelFormat::Rgba32Float)
        },
        ImageFormat::R8G8B8A8 => (None, TexelFormat::Rgba8Unorm),
        ImageFormat::R8 => (None, TexelFormat::R8Unorm),
        ImageFormat::R8G8 => (None, TexelFormat::Rg8Unorm),
        ImageFormat::R16 => (None, TexelFormat::R16Unorm),
        ImageFormat::R16G16 => (None, TexelFormat::Rg16Unorm),
        ImageFormat::R16G16B16A16 => (None, TexelFormat::Rgba16Unorm),
        ImageFormat::R32G32B32A32FLOAT => (None, TexelFormat::Rgba32Float),
    }
}

/// Every whole texel gains the alpha bytes: the padded image holds
/// `len / texel_bytes` texels of `texel_bytes + alpha.len()` bytes each.
pub proof fn lemma_pad_texels_len(pixels: Seq<u8>, texel_bytes: nat, alpha: Seq<u8>)
    requires
        texel_bytes > 0,
    ensures
        pad_texels(pixels, texel_bytes, alpha).len() == (pixels.len() / texel_bytes) * (
        texel_bytes + alpha.len()),
    decreases pixels.len(),
{
    let k = texel_bytes as int;
    let n = pixels.len() as int;
    let w = k + alpha.len();
    if n < k {
        vstd::arithmetic::div_mod::lemma_basic_div(n, k);
        assert(pixels.len() / texel_bytes == 0);
    } else {
        let rest = pixels.skip(k);
        lemma_pad_texels_len(rest, texel_bytes, alpha);
        let q = (n - k) / k;
        assert(rest.len() == n - k);
        assert(rest.len() / texel_bytes == q);
        vstd::arithmetic::div_mod::lemma_div_plus_one(n - k, k);
        assert(1 + q == (k + (n - k)) / k);
        assert(pixels.len() / texel_bytes == q + 1);
        assert(pad_texels(pixels, texel_bytes, alpha) == pixels.take(k) + alpha + pad_texels(
            rest,
            texel_bytes,
            alpha,
        ));
        assert(pad_texels(pixels, texel_bytes, alpha).len() == w + q * w);
        assert((q + 1) * w == q * w + w) by (nonlinear_arith);
    }
}

/// The texels keep their bytes in order: byte `c` of texel `t` of the padded
/// image is byte `c` of texel `t` of the input, and the bytes after it are the
/// alpha bytes.
pub proof fn lemma_pad_texels_content(
    pixels: Seq<u8>,
    texel_bytes: nat,
    alpha: Seq<u8>,
    t: nat,
    c: nat,
)
    requires
        texel_bytes > 0,
        t < pixels.len() / texel_bytes,
        c < texel_bytes + alpha.len(),
    ensures
        pad_texels(pixels, texel_bytes, alpha)[(t * (texel_bytes + alpha.len()) + c) as int] == if c
            < texel_bytes {
            pixels[(t * texel_bytes + c) as int]
        } else {
            alpha[c - texel_bytes]
        },
    decreases t,
{
    let k = texel_bytes as int;
    let w = (texel_bytes + alpha.len()) as int;
    let n = pixels.len() as int;
    if n < k {
        vstd::arithmetic::div_mod::lemma_basic_div(n, k);
    }
    assert(n >= k);
    let rest = pixels.skip(k);
    lemma_pad_texels_len(rest, texel_bytes, alpha);
    vstd::arithmetic::div_mod::lemma_div_plus_one(n - k, k);
    assert(k + (n - k) == n);
    let head = pixels.take(k) + alpha;
    let tail = pad_texels(rest, texel_bytes, alpha);
    let whole = pad_texels(pixels, texel_bytes, alpha);
    assert(head.len() == w);
    assert(whole == head + tail);
    if t == 0 {
        assert(t * w + c == c) by (nonlinear_arith)
            requires
                t == 0,
        ;
        assert(t * k + c == c) by (nonlinear_arith)
            requires
                t == 0,
        ;
        assert(whole[c as int] == head[c as int]);
        if c < texel_bytes {
            assert(head[c as int] == pixels.take(k)[c as int]);
        } else {
            assert(head[c as int] == alpha[c - k]);
        }
    } else {
        let t1 = (t - 1) as nat;
        lemma_pad_texels_content(rest, texel_bytes, alpha, t1, c);
        assert(t * w + c == w + (t1 * w + c)) by (nonlinear_arith)
            requires
                t == t1 + 1,
        ;
        assert(t * k + c == k + (t1 * k + c)) by (nonlinear_arith)
            requires
                t == t1 + 1,
        ;
        assert(rest.len() / texel_bytes == (n - k) / k);
        assert(t1 < (n - k) / k);
        assert(t1 * w + c < ((n - k) / k) * w) by (nonlinear_arith)
            requires
                t1 < (n - k) / k,
                c < w,
                t1 >= 0,
                c >= 0,
        ;
        assert(t1 * w + c < tail.len());
        assert(whole[(t * w + c)] == tail[t1 * w + c]);
        if c < texel_bytes {
            assert(t1 * k + c < n - k) by (nonlinear_arith)
                requires
                    t1 < (n - k) / k,
                    c < k,
                    k > 0,
                    n - k >= 0,
                    t1 >= 0,
                    c >= 0,
            {
                vstd::arithmetic::div_mod::lemma_fundamental_div_mod(n - k, k);
                vstd::arithmetic::div_mod::lemma_mod_pos_bound(n - k, k);
            }
            assert(rest[t1 * k + c] == pixels[k + (t1 * k + c)]);
        }
    }
}

/// Byte `j` of a padded image, read directly off the input: position `j % w` of
/// texel `j / w` (with `w` the padded texel size) is an input byte for the first
/// `texel_bytes` positions and an alpha byte after them.
pub proof fn lemma_pad_texels_bytes(pixels: Seq<u8>, texel_bytes: nat, alpha: Seq<u8>)
    requires
        texel_bytes > 0,
    ensures
        pad_texels(pixels, texel_bytes, alpha).len() == (pixels.len() / texel_bytes) * (
        texel_bytes + alpha.len()),
        forall|j: int|
            0 <= j < pad_texels(pixels, texel_bytes, alpha).len() ==> #[trigger] pad_texels(
                pixels,
                texel_bytes,
                alpha,
            )[j] == if j % ((texel_bytes + alpha.len()) as int) < texel_bytes {
                pixels[(j / ((texel_bytes + alpha.len()) as int)) * (texel_bytes as int) + j % ((
                texel_bytes + alpha.len()) as int)]
            } else {
                alpha[j % ((texel_bytes + alpha.len()) as int) - texel_bytes]
            },
{
    lemma_pad_texels_len(pixels, texel_bytes, alpha);
    let k = texel_bytes as int;
    let w = (texel_bytes + alpha.len()) as int;
    let n = (pixels.len() / texel_bytes) as int;
    let out = pad_texels(pixels, texel_bytes, alpha);
    assert forall|j: int| 0 <= j < out.len() implies #[trigger] out[j] == if j % w < k {
        pixels[(j / w) * k + j % w]
    } else {
        alpha[j % w - k]
    } by {
        let t = j / w;
        let c = j % w;
        vstd::arithmetic::div_mod::lemma_fundamental_div_mod(j, w);
        vstd::arithmetic::div_mod::lemma_mod_pos_bound(j, w);
        assert(0 <= t) by (nonlinear_arith)
            requires
                j >= 0,
                w > 0,
                t == j / w,
        ;
        assert(t < n) by (nonlinear_arith)
            requires
                j == w * t + c,
                0 <= c,
                j < n * w,
                w > 0,
        ;
        lemma_pad_texels_content(pixels, texel_bytes, alpha, t as nat, c as nat);
        assert(t * w + c == j) by (nonlinear_arith)
            requires
                j == w * t + c,
        ;
        assert(t * k + c == (j / w) * k + j % w);
    }
}

/// What is uploaded for each image format, read directly off the input: the
/// three-channel formats gain alpha bytes `0xff` after every whole texel (1 for
/// 8-bit, 2 for 16-bit, 4 for 32-bit float channels); every other format is
/// uploaded unchanged.
pub proof fn lemma_upload_bytes(format: ImageFormat, pixels: Seq<u8>)
    ensures
        format is R8G8B8 ==> (upload_bytes_of(format, pixels) matches Some(b) && b.len() == (
        pixels.len() / 3) * 4 && forall|j: int|
            0 <= j < b.len() ==> #[trigger] b[j] == if j % 4 < 3 {
                pixels[(j / 4) * 3 + j % 4]
            } else {
                255u8
            }),
        format is R16G16B16 ==> (upload_bytes_of(format, pixels) matches Some(b) && b.len() == (
        pixels.len() / 6) * 8 && forall|j: int|
            0 <= j < b.len() ==> #[trigger] b[j] == if j % 8 < 6 {
                pixels[(j / 8) * 6 + j % 8]
            } else {
                255u8
            }),
        format is R32G32B32FLOAT ==> (upload_bytes_of(format, pixels) matches Some(b) && b.len()
            == (pixels.len() / 12) * 16 && forall|j: int|
            0 <= j < b.len() ==> #[trigger] b[j] == if j % 16 < 12 {
                pixels[(j / 16) * 12 + j % 16]
            } else {
                255u8
            }),
        !(format is R8G8B8 || format is R16G16B16 || format is R32G32B32FLOAT) ==> upload_bytes_of(
            format,
            pixels,
        ) is None,
{
    let a1 = seq![255u8];
    let a2 = seq![255u8, 255u8];
    let a4 = seq![255u8, 255u8, 255u8, 255u8];
    assert(a1.len() == 1 && a1[0] == 255u8);
    assert(a2.len() == 2 && a2[0] == 255u8 && a2[1] == 255u8);
    assert(a4.len() == 4 && a4[0] == 255u8 && a4[1] == 255u8 && a4[2] == 255u8 && a4[3] == 255u8);
    lemma_pad_texels_bytes(pixels, 3, a1);
    lemma_pad_texels_bytes(pixels, 6, a2);
    lemma_pad_texels_bytes(pixels, 12, a4);
}

} // verus!
