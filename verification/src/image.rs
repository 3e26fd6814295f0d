//! Validation and normalization of raw raster payloads from the image-data
//! hint: a payload is checked against its declared geometry, then converted
//! into a premultiplied-resampled RGBA thumbnail of at most 16x16 pixels.

use fast_image_resize as fir;
use vstd::prelude::*;

verus! {

/// A raw raster buffer together with the geometry the sender declared for it.
#[derive(Debug, Clone, PartialEq, Eq)]
pub struct ImageData {
    pub width: u32,
    pub height: u32,
    pub rowstride: i32,
    pub has_alpha: bool,
    pub bits_per_sample: i32,
    pub channels: i32,
    pub data: Vec<u8>,
}

/// Why a raw raster payload was rejected.
#[derive(Debug, Clone, Copy, PartialEq, Eq)]
pub enum ImageDataError {
    WidthNotPositive,
    HeightNotPositive,
    BitsPerSampleNot8,
    AlphaChannelMismatch,
    DataLengthChannelsMismatch,
    DataLengthRowstrideMismatch,
}

/// The first defect of the declared geometry, if any: dimensions must be
/// positive, samples 8-bit, the channel count must fit the alpha flag (4 with
/// an alpha channel, 3 without), and the buffer length must match both
/// `width * height * channels` and `rowstride * height`.
pub open spec fn spec_image_data_defect(
    width: i32,
    height: i32,
    rowstride: i32,
    has_alpha: bool,
    bits_per_sample: i32,
    channels: i32,
    data: Seq<u8>,
) -> Option<ImageDataError> {
    if width <= 0 {
        Some(ImageDataError::WidthNotPositive)
    } else if height <= 0 {
        Some(ImageDataError::HeightNotPositive)
    } else if bits_per_sample != 8 {
        Some(ImageDataError::BitsPerSampleNot8)
    } else if channels != (if has_alpha { 4int } else { 3int }) {
        Some(ImageDataError::AlphaChannelMismatch)
    } else if data.len() != width * height * channels {
        Some(ImageDataError::DataLengthChannelsMismatch)
    } else if data.len() != rowstride * height {
        Some(ImageDataError::DataLengthRowstrideMismatch)
    } else {
        None
    }
}

impl ImageData {
    /// A validated payload: positive dimensions, 8-bit samples, a channel
    /// count matching the alpha flag, and a buffer of exactly the declared
    /// size.
    pub open spec fn wf(&self) -> bool {
        &&& self.width >= 1
        &&& self.height >= 1
        &&& self.bits_per_sample == 8
        &&& self.channels == (if self.has_alpha { 4int } else { 3int })
        &&& self.data@.len() == self.width * self.height * self.channels
        &&& self.data@.len() == self.rowstride * self.height
    }

    /// Validates a raw payload against its declared geometry, returning the
    /// first defect found (in the order of `spec_image_data_defect`) or the
    /// payload as a well-formed `ImageData`.
    pub fn try_from_parts(
        width: i32,
        height: i32,
        rowstride: i32,
        has_alpha: bool,
        bits_per_sample: i32,
        channels: i32,
        data: Vec<u8>,
    ) -> (r: Result<ImageData, ImageDataError>)
        ensures
            match r {
                Ok(img) => {
                    &&& spec_image_data_defect(
                        width,
                        height,
                        rowstride,
                        has_alpha,
                        bits_per_sample,
                        channels,
                        data@,
                    ) is None
                    &&& img.width == width as u32
                    &&& img.height == height as u32
                    &&& img.rowstride == rowstride
                    &&& img.has_alpha == has_alpha
                    &&& img.bits_per_sample == bits_per_sample
                    &&& img.channels == channels
                    &&& img.data@ == data@
                    &&& img.wf()
                },
                Err(e) => spec_image_data_defect(
                    width,
                    height,
                    rowstride,
                    has_alpha,
                    bits_per_sample,
                    channels,
                    data@,
                ) == Some(e),
            },
    {
        if width <= 0 {
            return Err(ImageDataError::WidthNotPositive);
        }
        if height <= 0 {
            return Err(ImageDataError::HeightNotPositive);
        }
        if bits_per_sample != 8 {
            return Err(ImageDataError::BitsPerSampleNot8);
        }
        if channels != (if has_alpha { 4 } else { 3 }) {
            return Err(ImageDataError::AlphaChannelMismatch);
        }
        proof {
            assert(1 <= (width as i128) * (height as i128) <= 0x4000_0000_0000_0000i128)
                by (nonlinear_arith)
                requires
                    1 <= width <= 0x7FFF_FFFFi128,
                    1 <= height <= 0x7FFF_FFFFi128,
            ;
            assert(-0x4000_0000_0000_0000i128 <= (rowstride as i128) * (height as i128)
                <= 0x4000_0000_0000_0000i128) by (nonlinear_arith)
                requires
                    -0x8000_0000i128 <= rowstride <= 0x7FFF_FFFFi128,
                    1 <= height <= 0x7FFF_FFFFi128,
            ;
        }
        let wh: i128 = (width as i128) * (height as i128);
        let expected: i128 = if has_alpha {
            wh * 4
        } else {
            wh * 3
        };
        if (data.len() as i128) != expected {
            return Err(ImageDataError::DataLengthChannelsMismatch);
        }
        let by_stride: i128 = (rowstride as i128) * (height as i128);
        if (data.len() as i128) != by_stride {
            return Err(ImageDataError::DataLengthRowstrideMismatch);
        }
        Ok(ImageData {
            width: width as u32,
            height: height as u32,
            rowstride,
            has_alpha,
            bits_per_sample,
            channels,
            data,
        })
    }
}

/// A 3-channel buffer with a fully opaque alpha byte appended to each pixel.
pub open spec fn with_alpha(data: Seq<u8>) -> Seq<u8> {
    Seq::new(
        data.len() / 3 * 4,
        |j: int| if j % 4 == 3 {
            0xFFu8
        } else {
            data[j / 4 * 3 + j % 4]
        },
    )
}

/// A dimension clipped to the 16-pixel icon size.
pub open spec fn norm_dim(d: u32) -> u32 {
    if d <= 16 {
        d
    } else {
        16
    }
}

/// The RGBA bytes that normalization yields for a validated payload of the
/// given geometry: opaque alpha is synthesized for a 3-channel buffer, and an
/// image wider or taller than 16 pixels is resampled down to
/// `norm_dim(width) x norm_dim(height)`.
pub open spec fn spec_normalize_rgba(width: u32, height: u32, has_alpha: bool, data: Seq<u8>) -> Seq<
    u8,
> {
    let src = if has_alpha {
        data
    } else {
        with_alpha(data)
    };
    if width <= 16 && height <= 16 {
        src
    } else {
        resized_of(width, height, norm_dim(width), norm_dim(height), src)
    }
}

impl ImageData {
    /// The payload's pixels as RGBA bytes, before any downscaling: the buffer
    /// itself when it has an alpha channel, otherwise the buffer with opaque
    /// alpha synthesized.
    pub open spec fn rgba_source(&self) -> Seq<u8> {
        if self.has_alpha {
            self.data@
        } else {
            with_alpha(self.data@)
        }
    }

    /// Output width of normalization: at most 16.
    pub open spec fn norm_width(&self) -> u32 {
        norm_dim(self.width)
    }

    /// Output height of normalization: at most 16.
    pub open spec fn norm_height(&self) -> u32 {
        norm_dim(self.height)
    }
}

/// What the alpha-aware resampler returns for the given source geometry,
/// destination geometry and RGBA bytes.
pub uninterp spec fn resized_of(
    src_w: u32,
    src_h: u32,
    dst_w: u32,
    dst_h: u32,
    data: Seq<u8>,
) -> Seq<u8>;

/// Relies on fast_image_resize: `MulDiv::multiply_alpha_inplace` premultiplies
/// the color channels by alpha, `Resizer::resize` resamples the premultiplied
/// U8x4 image into a destination buffer of exactly `dst_w * dst_h` pixels
/// (allocated zeroed by `Image::new`), and `MulDiv::divide_alpha_inplace`
/// undoes the premultiplication; the result depends only on the arguments.
/// A fully opaque input stays fully opaque: the multiply and divide steps
/// leave the alpha byte itself untouched, and the resampler's convolution of
/// a constant channel is that constant (its normalized weights sum to one;
/// the crate's own suite asserts exact preservation of constant channels and
/// bit-identical output across CPU paths).
#[verifier::external_body]
fn resize_rgba(src_w: u32, src_h: u32, dst_w: u32, dst_h: u32, data: Vec<u8>) -> (r: Vec<u8>)
    requires
        1 <= src_w,
        1 <= src_h,
        1 <= dst_w,
        1 <= dst_h,
        data@.len() == src_w * src_h * 4,
    ensures
        r@.len() == dst_w * dst_h * 4,
        r@ == resized_of(src_w, src_h, dst_w, dst_h, data@),
        (forall|i: int| 0 <= i < data@.len() && i % 4 == 3 ==> data@[i] == 0xFFu8) ==> (forall|
            i: int,
        | 0 <= i < r@.len() && i % 4 == 3 ==> r@[i] == 0xFFu8),
{
    let mut src = fir::images::Image::from_vec_u8(src_w, src_h, data, fir::PixelType::U8x4)
        .unwrap();
    let mut dst = fir::images::Image::new(dst_w, dst_h, fir::PixelType::U8x4);
    fir::MulDiv::default().multiply_alpha_inplace(&mut src).unwrap();
    fir::Resizer::new().resize(&src, &mut dst, None).unwrap();
    fir::MulDiv::default().divide_alpha_inplace(&mut dst).unwrap();
    dst.into_vec()
}

impl ImageData {
    /// Normalizes a validated payload to RGBA: a missing alpha channel is
    /// synthesized as fully opaque, and an image wider or taller than 16
    /// pixels is resampled down to at most 16x16 with an alpha-aware filter.
    /// The result is well formed, its rowstride is its own row width, an
    /// image at or under 16x16 that already has alpha passes through
    /// untouched, and an opaque input stays opaque through the resampler.
    /// The `width * 4 <= i32::MAX` bound is forced by the `i32` rowstride
    /// field of the result.
    pub fn into_rgba(self) -> (r: ImageData)
        requires
            self.wf(),
            self.width * 4 <= i32::MAX,
        ensures
            r.width == self.norm_width(),
            r.height == self.norm_height(),
            r.has_alpha,
            r.channels == 4,
            r.bits_per_sample == 8,
            r.rowstride == r.width * 4,
            r.wf(),
            r.data@.len() == r.width * r.height * 4,
            r.data@ == spec_normalize_rgba(self.width, self.height, self.has_alpha, self.data@),
            self.has_alpha && self.width <= 16 && self.height <= 16 ==> r == self,
            (forall|i: int|
                0 <= i < self.rgba_source().len() && i % 4 == 3
                    ==> self.rgba_source()[i] == 0xFFu8) ==> (forall|i: int|
                0 <= i < r.data@.len() && i % 4 == 3 ==> r.data@[i] == 0xFFu8),
            !self.has_alpha ==> (forall|i: int|
                0 <= i < r.data@.len() && i % 4 == 3 ==> r.data@[i] == 0xFFu8),
    {
        let rgba = if self.has_alpha {
            self
        } else {
            let pixels = self.data.len() / 3;
            proof {
                assert(self.data@.len() == 3 * (self.width * self.height));
                assert(pixels == self.width * self.height);
                assert(3 * pixels == self.data@.len());
            }
            let mut new_data: Vec<u8> = Vec::new();
            let mut p: usize = 0;
            while p < pixels
                invariant
                    self.wf(),
                    !self.has_alpha,
                    pixels == self.width * self.height,
                    3 * pixels == self.data@.len(),
                    self.data@.len() <= usize::MAX,
                    p <= pixels,
                    new_data@.len() == 4 * p,
                    forall|j: int| 0 <= j < 4 * p ==> new_data@[j] == with_alpha(self.data@)[j],
                decreases pixels - p,
            {
                proof {
                    assert(self.data@.len() == self.width * self.height * 3);
                    assert(3 * p + 2 < self.data@.len());
                }
                new_data.push(self.data[3 * p]);
                new_data.push(self.data[3 * p + 1]);
                new_data.push(self.data[3 * p + 2]);
                new_data.push(0xFF);
                p += 1;
            }
            proof {
                assert(new_data@ =~= with_alpha(self.data@));
            }
            let rowstride_new: i32 = (self.width * 4) as i32;
            proof {
                assert((self.width * 4) * self.height == 4 * (self.width * self.height))
                    by (nonlinear_arith);
            }
            ImageData {
                has_alpha: true,
                channels: 4,
                rowstride: rowstride_new,
                data: new_data,
                ..self
            }
        };
        proof {
            assert(rgba.data@ == self.rgba_source());
            assert(rgba.data@.len() == rgba.width * rgba.height * 4);
            assert(rgba.rowstride == rgba.width * 4) by (nonlinear_arith)
                requires
                    rgba.height >= 1,
                    rgba.rowstride * rgba.height == rgba.data@.len(),
                    rgba.data@.len() == rgba.width * rgba.height * 4,
            ;
            assert(forall|i: int|
                0 <= i < with_alpha(self.data@).len() && i % 4 == 3 ==> with_alpha(self.data@)[i]
                    == 0xFFu8);
        }
        if rgba.width <= 16 && rgba.height <= 16 {
            return rgba;
        }
        let dst_w = if rgba.width < 16 {
            rgba.width
        } else {
            16
        };
        let dst_h = if rgba.height < 16 {
            rgba.height
        } else {
            16
        };
        let width = rgba.width;
        let height = rgba.height;
        let resized = resize_rgba(width, height, dst_w, dst_h, rgba.data);
        proof {
            assert((dst_w * 4) * dst_h == dst_w * dst_h * 4) by (nonlinear_arith);
        }
        ImageData {
            width: dst_w,
            height: dst_h,
            data: resized,
            rowstride: (dst_w * 4) as i32,
            has_alpha: true,
            channels: 4,
            bits_per_sample: 8,
        }
    }
}

} // verus!
