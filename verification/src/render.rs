//! The owned pixel-image model: dimensions, memory pixel format and a byte
//! buffer whose length always matches them; conversion to the premultiplied
//! format the drawing backend needs; a lossless raster container encoding;
//! and decoding of common encoded raster formats.

use vstd::prelude::*;
use vstd::slice::slice_index_get;
use crate::geometry::{Aabb, Vec2};

verus! {

/// Largest pixel width or height of one rendered tile; it matches the
/// texture-side limit of common raster backends, which bound the surface
/// a tile is drawn into (the original's rendering surfaces were bounded
/// the same way, by cairo).
pub const MAX_IMAGE_DIM: u32 = 16384;

/// Largest pixel side of any image the model holds: one document unit per
/// pixel of the geometry's largest extent. An accepted model limit: the
/// fixed-point geometry cannot place anything wider.
pub const MAX_IMAGE_SIDE: u32 = 1048576;

/// Largest pixel count of any image the model holds. At four bytes per
/// pixel this caps a buffer at a gibibyte, so every byte offset fits
/// `usize` even on 32-bit targets and one decoded image cannot exhaust
/// memory by itself. An accepted model limit.
pub const MAX_IMAGE_PIXELS: u32 = 0x1000_0000;

/// Memory layout of one 4-byte pixel.
#[derive(Clone, Copy, PartialEq, Eq, Structural, Debug)]
pub enum MemoryFormat {
    /// 8-bit red, green, blue, alpha, not premultiplied.
    Rgba8,
    /// 8-bit red, green, blue, alpha, channels pre-scaled by alpha.
    Rgba8Premultiplied,
}

/// An owned pixel buffer. The buffer length always equals
/// `pixel_width * pixel_height * 4`. The `rect` field records where the
/// image came from in document space; it is purely informational and must
/// never be used for layout decisions.
#[derive(Clone, Debug)]
pub struct Image {
    pub pixel_width: u32,
    pub pixel_height: u32,
    pub memory_format: MemoryFormat,
    pub data: Vec<u8>,
    pub rect: Aabb,
}

impl Image {
    /// The buffer matches the declared dimensions, which are in range.
    pub open spec fn wf(self) -> bool {
        &&& self.pixel_width <= MAX_IMAGE_SIDE
        &&& self.pixel_height <= MAX_IMAGE_SIDE
        &&& self.pixel_width * self.pixel_height <= MAX_IMAGE_PIXELS
        &&& self.data@.len() == self.pixel_width * self.pixel_height * 4
    }
}

impl Default for Image {
    /// An empty zero-by-zero premultiplied image.
    fn default() -> (r: Image)
        ensures
            r.pixel_width == 0,
            r.pixel_height == 0,
            r.memory_format == MemoryFormat::Rgba8Premultiplied,
            r.data@.len() == 0,
            r.wf(),
    {
        Image {
            pixel_width: 0,
            pixel_height: 0,
            memory_format: MemoryFormat::Rgba8Premultiplied,
            data: Vec::new(),
            rect: Aabb { mins: Vec2 { x: 0, y: 0 }, maxs: Vec2 { x: 0, y: 0 } },
        }
    }
}

/// One channel pre-scaled by its pixel's alpha, rounded down.
pub open spec fn premul_byte(c: u8, a: u8) -> u8 {
    ((c * a) / 255) as u8
}

/// The whole buffer premultiplied: every fourth byte is an alpha and stays;
/// the three channels before it are scaled by it.
pub open spec fn premul_data(d: Seq<u8>) -> Seq<u8> {
    Seq::new(d.len(), |i: int| if i % 4 == 3 {
        d[i]
    } else {
        premul_byte(d[i], d[4 * (i / 4) + 3])
    })
}

/// Nonnegative factors within their bounds keep the product within the
/// bounds' product.
proof fn lemma_mul_le(x: int, y: int, xb: int, yb: int)
    requires
        0 <= x <= xb,
        0 <= y <= yb,
    ensures
        0 <= x * y <= xb * yb,
{
    assert(0 <= x * y <= xb * yb) by (nonlinear_arith)
        requires
            0 <= x <= xb,
            0 <= y <= yb,
    ;
}

fn premul_channel(c: u8, a: u8) -> (r: u8)
    ensures
        r == premul_byte(c, a),
{
    proof {
        assert(0 <= (c as int) * (a as int) <= 65025) by (nonlinear_arith)
            requires
                0 <= c <= 255,
                0 <= a <= 255,
        ;
        vstd::arithmetic::div_mod::lemma_div_is_ordered((c as int) * (a as int), 65025, 255);
    }
    ((c as u32) * (a as u32) / 255) as u8
}

impl Image {
    /// Rewrites the buffer into the premultiplied format the drawing
    /// backend accepts; an already premultiplied image is left as it is.
    pub fn convert_to_rgba8pre(&mut self)
        requires
            old(self).wf(),
        ensures
            final(self).wf(),
            final(self).pixel_width == old(self).pixel_width,
            final(self).pixel_height == old(self).pixel_height,
            final(self).rect == old(self).rect,
            final(self).memory_format == MemoryFormat::Rgba8Premultiplied,
            final(self).data@ == (if old(self).memory_format == MemoryFormat::Rgba8 {
                premul_data(old(self).data@)
            } else {
                old(self).data@
            }),
    {
        match self.memory_format {
            MemoryFormat::Rgba8Premultiplied => {}
            MemoryFormat::Rgba8 => {
                let ghost src = self.data@;
                let n: usize = self.data.len();
                proof {
                    vstd::arithmetic::div_mod::lemma_div_by_multiple(
                        (self.pixel_width * self.pixel_height) as int, 4);
                }
                let pc: usize = n / 4;
                let mut out: Vec<u8> = Vec::new();
                let mut p: usize = 0;
                while p < pc
                    invariant
                        self.data@ == src,
                        n == src.len(),
                        n == pc * 4,
                        p <= pc,
                        out@.len() == p * 4,
                        forall|j: int| 0 <= j < p * 4 ==> out@[j] == premul_data(src)[j],
                    decreases pc - p,
                {
                    let a: u8 = self.data[4 * p + 3];
                    out.push(premul_channel(self.data[4 * p], a));
                    out.push(premul_channel(self.data[4 * p + 1], a));
                    out.push(premul_channel(self.data[4 * p + 2], a));
                    out.push(a);
                    proof {
                        assert forall|j: int| 0 <= j < (p + 1) * 4 implies out@[j] == premul_data(
                            src,
                        )[j] by {
                            if j >= p * 4 {
                                assert(j / 4 == p as int);
                                assert(4 * (j / 4) + 3 == 4 * (p as int) + 3);
                            }
                        }
                    }
                    p += 1;
                }
                proof {
                    assert(out@ =~= premul_data(src));
                }
                self.data = out;
                self.memory_format = MemoryFormat::Rgba8Premultiplied;
            }
        }
    }
}

/// Why a raster container could not be decoded.
#[derive(Clone, Copy, PartialEq, Eq, Structural, Debug)]
pub enum RasterDecodeError {
    /// Shorter than the fixed header.
    TooShort,
    /// The leading identification bytes are wrong.
    BadMagic,
    /// The format tag names no known pixel format.
    BadFormat,
    /// The declared dimensions exceed what the model holds: a side beyond
    /// [`MAX_IMAGE_SIDE`] or more pixels than [`MAX_IMAGE_PIXELS`].
    BadDimensions,
    /// The payload length does not match the declared dimensions.
    LengthMismatch,
}

/// A dimension split into four little-endian bytes.
pub open spec fn le32(w: u32) -> Seq<u8> {
    seq![
        (w & 0xff) as u8,
        ((w >> 8) & 0xff) as u8,
        ((w >> 16) & 0xff) as u8,
        ((w >> 24) & 0xff) as u8,
    ]
}

/// Four little-endian bytes read back as a dimension.
pub open spec fn from_le32(b0: u8, b1: u8, b2: u8, b3: u8) -> u32 {
    (b0 as u32) | ((b1 as u32) << 8) | ((b2 as u32) << 16) | ((b3 as u32) << 24)
}

proof fn lemma_le32_roundtrip(w: u32)
    ensures
        from_le32(le32(w)[0], le32(w)[1], le32(w)[2], le32(w)[3]) == w,
{
    assert(((w & 0xff) as u8 as u32) | ((((w >> 8) & 0xff) as u8 as u32) << 8) | ((((w >> 16)
        & 0xff) as u8 as u32) << 16) | ((((w >> 24) & 0xff) as u8 as u32) << 24) == w)
        by (bit_vector);
}

/// The tag byte of a pixel format in the container header.
pub open spec fn format_tag(f: MemoryFormat) -> u8 {
    match f {
        MemoryFormat::Rgba8 => 1,
        MemoryFormat::Rgba8Premultiplied => 2,
    }
}

/// The container header: identification bytes, width, height, format tag.
pub open spec fn container_header(w: u32, h: u32, f: MemoryFormat) -> Seq<u8> {
    seq![0x52u8, 0x4eu8, 0x49u8, 0x31u8] + le32(w) + le32(h) + seq![format_tag(f)]
}

/// The whole container: header followed by the raw buffer.
pub open spec fn container_encoding(img: Image) -> Seq<u8> {
    container_header(img.pixel_width, img.pixel_height, img.memory_format) + img.data@
}

/// What decoding a container yields: dimensions, format and buffer, or
/// the exact reason the bytes are rejected.
pub open spec fn container_decoding(b: Seq<u8>) -> Result<(u32, u32, MemoryFormat, Seq<u8>), RasterDecodeError> {
    if b.len() < 13 {
        Err(RasterDecodeError::TooShort)
    } else if !(b[0] == 0x52 && b[1] == 0x4e && b[2] == 0x49 && b[3] == 0x31) {
        Err(RasterDecodeError::BadMagic)
    } else {
        let w = from_le32(b[4], b[5], b[6], b[7]);
        let h = from_le32(b[8], b[9], b[10], b[11]);
        if !(b[12] == 1 || b[12] == 2) {
            Err(RasterDecodeError::BadFormat)
        } else if w > MAX_IMAGE_SIDE || h > MAX_IMAGE_SIDE || w * h > MAX_IMAGE_PIXELS {
            Err(RasterDecodeError::BadDimensions)
        } else if b.len() - 13 != w * h * 4 {
            Err(RasterDecodeError::LengthMismatch)
        } else {
            let f = if b[12] == 1 { MemoryFormat::Rgba8 } else { MemoryFormat::Rgba8Premultiplied };
            Ok((w, h, f, b.subrange(13, b.len() as int)))
        }
    }
}

impl Image {
    /// Writes the image into the container format.
    pub fn encode_container(&self) -> (r: Vec<u8>)
        requires
            self.wf(),
        ensures
            r@ == container_encoding(*self),
    {
        let mut out: Vec<u8> = Vec::new();
        out.push(0x52);
        out.push(0x4e);
        out.push(0x49);
        out.push(0x31);
        push_le32(&mut out, self.pixel_width);
        push_le32(&mut out, self.pixel_height);
        match self.memory_format {
            MemoryFormat::Rgba8 => out.push(1),
            MemoryFormat::Rgba8Premultiplied => out.push(2),
        }
        let mut i: usize = 0;
        let n: usize = self.data.len();
        while i < n
            invariant
                n == self.data@.len(),
                i <= n,
                out@.len() == 13 + i,
                out@ == container_header(self.pixel_width, self.pixel_height, self.memory_format)
                    + self.data@.subrange(0, i as int),
            decreases n - i,
        {
            out.push(self.data[i]);
            proof {
                assert(self.data@.subrange(0, i + 1) =~= self.data@.subrange(0, i as int)
                    + seq![self.data@[i as int]]);
                assert(out@ =~= container_header(self.pixel_width, self.pixel_height,
                    self.memory_format) + self.data@.subrange(0, i + 1));
            }
            i += 1;
        }
        proof {
            assert(self.data@.subrange(0, n as int) =~= self.data@);
        }
        out
    }

    /// Reads an image back out of the container format, reporting exactly
    /// why malformed bytes are rejected. The informational `rect` is the
    /// pixel box at the origin.
    pub fn decode_container(bytes: &[u8]) -> (r: Result<Image, RasterDecodeError>)
        ensures
            r matches Ok(img) ==> {
                &&& container_decoding(bytes@) matches Ok(t)
                &&& img.pixel_width == t.0
                &&& img.pixel_height == t.1
                &&& img.memory_format == t.2
                &&& img.data@ == t.3
                &&& img.wf()
            },
            r matches Err(e) ==> container_decoding(bytes@) == Err::<(u32, u32, MemoryFormat, Seq<u8>), _>(e),
    {
        let n: usize = bytes.len();
        if n < 13 {
            return Err(RasterDecodeError::TooShort);
        }
        if !(*slice_index_get(bytes, 0) == 0x52 && *slice_index_get(bytes, 1) == 0x4e
            && *slice_index_get(bytes, 2) == 0x49 && *slice_index_get(bytes, 3) == 0x31) {
            return Err(RasterDecodeError::BadMagic);
        }
        let w = read_le32(bytes, 4);
        let h = read_le32(bytes, 8);
        let tag = *slice_index_get(bytes, 12);
        if !(tag == 1 || tag == 2) {
            return Err(RasterDecodeError::BadFormat);
        }
        proof {
            lemma_mul_le(w as int, h as int, 0xffff_ffff, 0xffff_ffff);
        }
        let area: u64 = (w as u64) * (h as u64);
        if w > MAX_IMAGE_SIDE || h > MAX_IMAGE_SIDE || area > MAX_IMAGE_PIXELS as u64 {
            return Err(RasterDecodeError::BadDimensions);
        }
        let expect: usize = (area as usize) * 4;
        if n - 13 != expect {
            return Err(RasterDecodeError::LengthMismatch);
        }
        let mut data: Vec<u8> = Vec::new();
        let mut i: usize = 13;
        while i < n
            invariant
                13 <= i <= n,
                n == bytes@.len(),
                data@.len() == i - 13,
                data@ == bytes@.subrange(13, i as int),
            decreases n - i,
        {
            data.push(*slice_index_get(bytes, i));
            proof {
                assert(bytes@.subrange(13, i + 1) =~= bytes@.subrange(13, i as int)
                    + seq![bytes@[i as int]]);
            }
            i += 1;
        }
        let f = if tag == 1 { MemoryFormat::Rgba8 } else { MemoryFormat::Rgba8Premultiplied };
        Ok(Image {
            pixel_width: w,
            pixel_height: h,
            memory_format: f,
            data,
            rect: Aabb {
                mins: Vec2 { x: 0, y: 0 },
                maxs: Vec2 { x: w as i64, y: h as i64 },
            },
        })
    }
}

fn push_le32(out: &mut Vec<u8>, w: u32)
    ensures
        final(out)@ == old(out)@ + le32(w),
{
    out.push((w & 0xff) as u8);
    out.push(((w >> 8) & 0xff) as u8);
    out.push(((w >> 16) & 0xff) as u8);
    out.push(((w >> 24) & 0xff) as u8);
    proof {
        assert(out@ =~= old(out)@ + le32(w));
    }
}

fn read_le32(bytes: &[u8], at: usize) -> (r: u32)
    requires
        at + 4 <= bytes@.len(),
    ensures
        r == from_le32(bytes@[at as int], bytes@[at as int + 1], bytes@[at as int + 2],
            bytes@[at as int + 3]),
{
    let _len: usize = bytes.len();
    let b0 = *slice_index_get(bytes, at);
    let b1 = *slice_index_get(bytes, at + 1);
    let b2 = *slice_index_get(bytes, at + 2);
    let b3 = *slice_index_get(bytes, at + 3);
    (b0 as u32) | ((b1 as u32) << 8) | ((b2 as u32) << 16) | ((b3 as u32) << 24)
}

/// Encoding an image into the container and decoding the bytes again gives
/// back exactly the original dimensions, pixel format and pixel data: the
/// container is lossless.
pub proof fn lemma_container_roundtrip(img: Image)
    requires
        img.wf(),
    ensures
        container_decoding(container_encoding(img)) == Ok::<_, RasterDecodeError>((
            img.pixel_width,
            img.pixel_height,
            img.memory_format,
            img.data@,
        )),
{
    let b = container_encoding(img);
    lemma_le32_roundtrip(img.pixel_width);
    lemma_le32_roundtrip(img.pixel_height);
    assert(b.len() == 13 + img.data@.len());
    assert(b[4] == le32(img.pixel_width)[0]);
    assert(b[5] == le32(img.pixel_width)[1]);
    assert(b[6] == le32(img.pixel_width)[2]);
    assert(b[7] == le32(img.pixel_width)[3]);
    assert(b[8] == le32(img.pixel_height)[0]);
    assert(b[9] == le32(img.pixel_height)[1]);
    assert(b[10] == le32(img.pixel_height)[2]);
    assert(b[11] == le32(img.pixel_height)[3]);
    assert(from_le32(b[4], b[5], b[6], b[7]) == img.pixel_width);
    assert(from_le32(b[8], b[9], b[10], b[11]) == img.pixel_height);
    assert(b[12] == format_tag(img.memory_format));
    assert(b.subrange(13, b.len() as int) =~= img.data@);
}

/// What decoding an encoded raster byte stream (such as PNG or JPEG)
/// yields: the pixel dimensions and the plain RGBA buffer, or nothing when
/// the bytes are not a decodable image. Decoding depends on the bytes
/// alone.
pub uninterp spec fn decoded_rgba(bytes: Seq<u8>) -> Option<(u32, u32, Seq<u8>)>;

/// Relies on image::load_from_memory and DynamicImage::to_rgba8: decoding
/// an encoded raster stream is a pure function of the bytes, and the RGBA
/// buffer of the decoded image holds exactly width * height 4-byte pixels.
#[verifier::external_body]
fn decode_rgba_bytes(bytes: &[u8]) -> (r: Option<(u32, u32, Vec<u8>)>)
    ensures
        r matches Some(t) ==> decoded_rgba(bytes@) == Some((t.0, t.1, t.2@))
            && t.2@.len() == t.0 * t.1 * 4,
        r is None ==> decoded_rgba(bytes@) is None,
{
    match image::load_from_memory(bytes) {
        Ok(img) => {
            let buf = img.to_rgba8();
            let w = buf.width();
            let h = buf.height();
            Some((w, h, buf.into_raw()))
        }
        Err(_) => None,
    }
}

/// Why an encoded raster stream could not be imported.
#[derive(Clone, Copy, PartialEq, Eq, Structural, Debug)]
pub enum ImageImportError {
    /// The bytes are not a decodable encoded image.
    DecodeFailed,
    /// The decoded image exceeds the model's accepted limits: a side
    /// beyond [`MAX_IMAGE_SIDE`] or more pixels than [`MAX_IMAGE_PIXELS`].
    TooLarge,
}

/// The bytes decode to an image whose dimensions the model admits: any
/// real raster fits; only sides beyond the geometry's largest extent or
/// a pixel count beyond the gibibyte buffer cap are out.
pub open spec fn decoded_image_ok(bytes: Seq<u8>) -> bool {
    decoded_rgba(bytes) matches Some(t) && t.0 <= MAX_IMAGE_SIDE && t.1 <= MAX_IMAGE_SIDE
        && t.0 * t.1 <= MAX_IMAGE_PIXELS
}

/// `img` is exactly the decoded form of `bytes`: the decoded dimensions
/// and RGBA buffer, unpremultiplied, with the pixel box as informational
/// bounds.
pub open spec fn decoded_image_matches(img: Image, bytes: Seq<u8>) -> bool {
    &&& decoded_rgba(bytes) matches Some(t)
    &&& decoded_rgba(bytes) matches Some(t) ==> {
        &&& img.pixel_width == t.0
        &&& img.pixel_height == t.1
        &&& img.memory_format == MemoryFormat::Rgba8
        &&& img.data@ == t.2
        &&& img.rect == (Aabb {
            mins: Vec2 { x: 0, y: 0 },
            maxs: Vec2 { x: t.0 as i64, y: t.1 as i64 },
        })
    }
}

impl Image {
    /// Decodes an encoded raster stream (such as PNG or JPEG) into an
    /// unpremultiplied image.
    pub fn try_from_encoded_bytes(bytes: &[u8]) -> (r: Result<Image, ImageImportError>)
        ensures
            r is Ok <==> decoded_image_ok(bytes@),
            r matches Ok(img) ==> decoded_image_matches(img, bytes@) && img.wf(),
            r matches Err(e) ==> (e == ImageImportError::DecodeFailed <==> decoded_rgba(bytes@) is None),
    {
        match decode_rgba_bytes(bytes) {
            Some((w, h, data)) => {
                proof {
                    lemma_mul_le(w as int, h as int, 0xffff_ffff, 0xffff_ffff);
                }
                let area: u64 = (w as u64) * (h as u64);
                if w > MAX_IMAGE_SIDE || h > MAX_IMAGE_SIDE || area > MAX_IMAGE_PIXELS as u64 {
                    Err(ImageImportError::TooLarge)
                } else {
                    Ok(Image {
                        pixel_width: w,
                        pixel_height: h,
                        memory_format: MemoryFormat::Rgba8,
                        data,
                        rect: Aabb {
                            mins: Vec2 { x: 0, y: 0 },
                            maxs: Vec2 { x: w as i64, y: h as i64 },
                        },
                    })
                }
            }
            None => Err(ImageImportError::DecodeFailed),
        }
    }
}

} // verus!
