//! The bitmap-image stroke and the rasterization engine: a software
//! drawing context with scoped save/restore, nearest-neighbour image
//! blitting, and viewport-based full or partial tile generation.

use vstd::prelude::*;
use crate::geometry::{
    Aabb, Rectangle, Transform, TransformOp, Vec2, div_floor, op_args_ok, op_in_range, op_transform,
    apply_op_spec, lemma_mul_bound, COORD_MAX, EXTENT_MAX, TF_MAX, TF_UNIT,
};
use crate::render::{Image, MemoryFormat, MAX_IMAGE_DIM, MAX_IMAGE_PIXELS, MAX_IMAGE_SIDE};

verus! {

/// Largest oversampling factor.
pub const SCALE_MAX: u32 = 256;

/// The result of rasterizing one stroke against a viewport.
#[derive(Debug)]
pub enum GeneratedStrokeImages {
    /// The viewport contained the whole stroke: one image covering the
    /// stroke's entire bounds, reusable whatever the viewport becomes.
    Full(Vec<Image>),
    /// The viewport covered the stroke only partly (or not at all): images
    /// covering exactly the intersection, valid for this viewport only.
    Partial { images: Vec<Image>, viewport: Aabb },
}

/// Why a drawing operation failed. Every error leaves the target pixels
/// untouched.
#[derive(Clone, Copy, PartialEq, Eq, Structural, Debug)]
pub enum RenderError {
    /// The pixel source is not in the premultiplied format the backend
    /// accepts.
    UnsupportedImageFormat,
    /// The current transform is degenerate (zero determinant) or its
    /// linear entries exceed [`BLIT_COEF_MAX`].
    UnsupportedTransform,
    /// Composing the stroke's transform onto the context left the
    /// well-formed entry range.
    TransformOutOfRange,
    /// The requested tile has more pixels on a side than [`MAX_IMAGE_DIM`].
    ImageTooLarge,
    /// A restore without a matching save.
    UnbalancedRestore,
}

/// Largest magnitude a linear entry of a transform may have while this
/// backend blits under it; zoom factors up to a thousandfold fit.
pub const BLIT_COEF_MAX: i64 = 0x400_0000;

/// The determinant of the linear part, scaled by `TF_UNIT` squared.
pub open spec fn det_of(t: Transform) -> int {
    t.m11 * t.m22 - t.m12 * t.m21
}

/// A transform this backend can blit under: invertible, with linear
/// entries within [`BLIT_COEF_MAX`]. Rotations, shears and mirrorings all
/// qualify; only a degenerate or extremely scaled map does not.
pub open spec fn blit_ok(t: Transform) -> bool {
    &&& -BLIT_COEF_MAX <= t.m11 <= BLIT_COEF_MAX
    &&& -BLIT_COEF_MAX <= t.m12 <= BLIT_COEF_MAX
    &&& -BLIT_COEF_MAX <= t.m21 <= BLIT_COEF_MAX
    &&& -BLIT_COEF_MAX <= t.m22 <= BLIT_COEF_MAX
    &&& det_of(t) != 0
}

/// Floor division by a nonzero divisor of either sign.
pub open spec fn div_floor_signed(a: int, b: int) -> int
    recommends
        b != 0,
{
    if b > 0 {
        div_floor(a, b)
    } else {
        div_floor(-a, -b)
    }
}

/// The local point sampled for tile pixel `(px, py)`: the tile covers
/// `region` at `scale` pixels per unit; the pixel's center is carried
/// back through the exact inverse of the current transform (adjugate over
/// determinant), with floor division.
pub open spec fn sample_local(t: Transform, region: Aabb, scale: int, px: int, py: int) -> (int, int)
    recommends
        blit_ok(t),
        scale > 0,
{
    let a = (2 * (region.mins.x * scale + px) + 1) * TF_UNIT - 2 * t.tx * scale;
    let b = (2 * (region.mins.y * scale + py) + 1) * TF_UNIT - 2 * t.ty * scale;
    let d = 2 * det_of(t) * scale;
    (
        div_floor_signed(t.m22 * a - t.m12 * b, d),
        div_floor_signed(t.m11 * b - t.m21 * a, d),
    )
}

/// One source-over composited channel: the source is premultiplied, the
/// destination is scaled by the remaining alpha, and the sum saturates.
pub open spec fn over_byte(s: u8, d: u8, sa: u8) -> u8 {
    let v = s + (d * (255 - sa)) / 255;
    if v > 255 {
        255u8
    } else {
        v as u8
    }
}

/// The RGBA bytes of tile pixel `(px, py)` after blitting `img`, stretched
/// over the local frame `[0, extents.x] x [0, extents.y]`, onto the
/// previous bytes `under` by nearest-neighbour sampling and source-over
/// compositing. A pixel sampling outside the frame keeps its previous
/// bytes.
pub open spec fn blit_pixel(
    img: Image,
    extents: Vec2,
    t: Transform,
    region: Aabb,
    scale: int,
    px: int,
    py: int,
    under: Seq<u8>,
) -> Seq<u8>
    recommends
        blit_ok(t),
        scale > 0,
        under.len() == 4,
{
    let l = sample_local(t, region, scale, px, py);
    if 0 <= l.0 < extents.x && 0 <= l.1 < extents.y && img.pixel_width > 0 && img.pixel_height > 0 {
        let sx = (l.0 * img.pixel_width) / (extents.x as int);
        let sy = (l.1 * img.pixel_height) / (extents.y as int);
        let base = 4 * (sy * img.pixel_width + sx);
        let sa = img.data@[base + 3];
        seq![
            over_byte(img.data@[base], under[0], sa),
            over_byte(img.data@[base + 1], under[1], sa),
            over_byte(img.data@[base + 2], under[2], sa),
            over_byte(sa, under[3], sa),
        ]
    } else {
        under
    }
}

/// The whole tile buffer after the blit: `tw` pixels per row, four bytes
/// per pixel, row-major.
pub open spec fn blit_data(
    img: Image,
    extents: Vec2,
    t: Transform,
    region: Aabb,
    scale: int,
    old: Seq<u8>,
    tw: int,
) -> Seq<u8>
    recommends
        blit_ok(t),
        scale > 0,
        tw > 0,
{
    Seq::new(old.len(), |i: int| {
        let p = i / 4;
        let c = i % 4;
        blit_pixel(img, extents, t, region, scale, p % tw, p / tw, old.subrange(4 * p, 4 * p + 4))[c]
    })
}

/// A software drawing context: a pixel tile covering `region` at `scale`
/// pixels per document unit, a current transform, and a stack of saved
/// transform states.
#[derive(Debug)]
pub struct DrawContext {
    pub region: Aabb,
    pub scale: u32,
    pub tile: Image,
    pub transform: Transform,
    pub saved: Vec<Transform>,
}

impl DrawContext {
    pub open spec fn wf(self) -> bool {
        &&& self.region.wf()
        &&& -COORD_MAX <= self.region.mins.x <= COORD_MAX
        &&& -COORD_MAX <= self.region.mins.y <= COORD_MAX
        &&& -COORD_MAX <= self.region.maxs.x <= COORD_MAX
        &&& -COORD_MAX <= self.region.maxs.y <= COORD_MAX
        &&& 1 <= self.scale <= SCALE_MAX
        &&& self.tile.wf()
        &&& self.tile.pixel_width == (self.region.maxs.x - self.region.mins.x) * self.scale
        &&& self.tile.pixel_height == (self.region.maxs.y - self.region.mins.y) * self.scale
        &&& self.transform.wf()
        &&& forall|i: int| 0 <= i < self.saved@.len() ==> (#[trigger] self.saved@[i]).wf()
    }

    /// Pushes the current transform state.
    pub fn save(&mut self)
        requires
            old(self).wf(),
        ensures
            final(self).wf(),
            final(self).region == old(self).region,
            final(self).scale == old(self).scale,
            final(self).tile == old(self).tile,
            final(self).transform == old(self).transform,
            final(self).saved@ == old(self).saved@.push(old(self).transform),
    {
        let t = self.transform;
        self.saved.push(t);
    }

    /// Pops the most recently saved transform state back into place.
    pub fn restore(&mut self) -> (r: Result<(), RenderError>)
        requires
            old(self).wf(),
        ensures
            final(self).wf(),
            r is Ok <==> old(self).saved@.len() > 0,
            final(self).region == old(self).region,
            final(self).scale == old(self).scale,
            final(self).tile == old(self).tile,
            r is Ok ==> final(self).transform == old(self).saved@.last()
                && final(self).saved@ == old(self).saved@.drop_last(),
            r is Err ==> *final(self) == *old(self) && r == Err::<(), RenderError>(
                RenderError::UnbalancedRestore),
    {
        if self.saved.len() == 0 {
            return Err(RenderError::UnbalancedRestore);
        }
        match self.saved.pop() {
            Some(t) => {
                self.transform = t;
                Ok(())
            }
            None => Err(RenderError::UnbalancedRestore),
        }
    }

    /// Composes `t` onto the current transform (the incoming map is
    /// applied first). Out of range, the context is left untouched.
    pub fn transform(&mut self, t: &Transform) -> (r: bool)
        requires
            old(self).wf(),
            t.wf(),
        ensures
            final(self).wf(),
            r == Transform::compose_in_range(old(self).transform, *t),
            final(self).region == old(self).region,
            final(self).scale == old(self).scale,
            final(self).tile == old(self).tile,
            final(self).saved == old(self).saved,
            r ==> final(self).transform == Transform::compose_spec(old(self).transform, *t),
            !r ==> *final(self) == *old(self),
    {
        match Transform::compose(&self.transform, t) {
            Some(c) => {
                self.transform = c;
                true
            }
            None => false,
        }
    }
}

fn over_channel(s: u8, d: u8, sa: u8) -> (r: u8)
    ensures
        r == over_byte(s, d, sa),
{
    proof {
        assert(0 <= (d as int) * (255 - sa as int) <= 65025) by (nonlinear_arith)
            requires
                0 <= d <= 255,
                0 <= sa <= 255,
        ;
        vstd::arithmetic::div_mod::lemma_div_is_ordered((d as int) * (255 - sa as int), 65025, 255);
        vstd::arithmetic::div_mod::lemma_div_pos_is_pos((d as int) * (255 - sa as int), 255);
    }
    let v: u32 = s as u32 + (d as u32) * (255 - sa as u32) / 255;
    if v > 255 {
        255
    } else {
        v as u8
    }
}

/// The four bytes of one blitted tile pixel.
fn sample_pixel(
    img: &Image,
    extents: Vec2,
    t: &Transform,
    region: Aabb,
    scale: u32,
    px: u32,
    py: u32,
    under: (u8, u8, u8, u8),
) -> (r: (u8, u8, u8, u8))
    requires
        img.wf(),
        img.memory_format == MemoryFormat::Rgba8Premultiplied,
        0 <= extents.x <= EXTENT_MAX,
        0 <= extents.y <= EXTENT_MAX,
        t.wf(),
        blit_ok(*t),
        1 <= scale <= SCALE_MAX,
        -COORD_MAX <= region.mins.x <= COORD_MAX,
        -COORD_MAX <= region.mins.y <= COORD_MAX,
    ensures
        ({
            let spec = blit_pixel(*img, extents, *t, region, scale as int, px as int, py as int,
                seq![under.0, under.1, under.2, under.3]);
            r.0 == spec[0] && r.1 == spec[1] && r.2 == spec[2] && r.3 == spec[3]
        }),
{
    proof {
        lemma_mul_bound(region.mins.x as int, scale as int, COORD_MAX as int, SCALE_MAX as int);
        lemma_mul_bound(region.mins.y as int, scale as int, COORD_MAX as int, SCALE_MAX as int);
        lemma_mul_bound(2 * (t.tx as int), scale as int, 0x8_0000_0000_0000, SCALE_MAX as int);
        lemma_mul_bound(2 * (t.ty as int), scale as int, 0x8_0000_0000_0000, SCALE_MAX as int);
        lemma_mul_bound(
            region.mins.x as int * scale as int + px as int,
            TF_UNIT as int,
            COORD_MAX as int * SCALE_MAX as int + 0x1_0000_0000,
            TF_UNIT as int,
        );
        lemma_mul_bound(
            region.mins.y as int * scale as int + py as int,
            TF_UNIT as int,
            COORD_MAX as int * SCALE_MAX as int + 0x1_0000_0000,
            TF_UNIT as int,
        );
        lemma_mul_bound(
            2 * (region.mins.x as int * scale as int + px as int) + 1,
            TF_UNIT as int,
            2 * (COORD_MAX as int * SCALE_MAX as int + 0x1_0000_0000) + 1,
            TF_UNIT as int,
        );
        lemma_mul_bound(
            2 * (region.mins.y as int * scale as int + py as int) + 1,
            TF_UNIT as int,
            2 * (COORD_MAX as int * SCALE_MAX as int + 0x1_0000_0000) + 1,
            TF_UNIT as int,
        );
        lemma_mul_bound(t.m11 as int, t.m22 as int, BLIT_COEF_MAX as int, BLIT_COEF_MAX as int);
        lemma_mul_bound(t.m12 as int, t.m21 as int, BLIT_COEF_MAX as int, BLIT_COEF_MAX as int);
    }
    let u: i128 = TF_UNIT as i128;
    let s: i128 = scale as i128;
    let a: i128 = (2 * ((region.mins.x as i128) * s + px as i128) + 1) * u
        - 2 * (t.tx as i128) * s;
    let b: i128 = (2 * ((region.mins.y as i128) * s + py as i128) + 1) * u
        - 2 * (t.ty as i128) * s;
    let det: i128 = (t.m11 as i128) * (t.m22 as i128) - (t.m12 as i128) * (t.m21 as i128);
    proof {
        lemma_mul_bound(t.m22 as int, a as int, BLIT_COEF_MAX as int,
            0x10_0000_0000_0000_0000_0000);
        lemma_mul_bound(t.m12 as int, b as int, BLIT_COEF_MAX as int,
            0x10_0000_0000_0000_0000_0000);
        lemma_mul_bound(t.m11 as int, b as int, BLIT_COEF_MAX as int,
            0x10_0000_0000_0000_0000_0000);
        lemma_mul_bound(t.m21 as int, a as int, BLIT_COEF_MAX as int,
            0x10_0000_0000_0000_0000_0000);
        lemma_mul_bound(2 * (det as int), s as int, 0x40_0000_0000_0000, SCALE_MAX as int);
        assert(det >= 1 ==> (2 * (det as int)) * (s as int) >= 1) by (nonlinear_arith)
            requires
                s >= 1,
        ;
        assert(det <= -1 ==> (2 * (det as int)) * (s as int) <= -1) by (nonlinear_arith)
            requires
                s >= 1,
        ;
    }
    let d: i128 = 2 * det * s;
    let nx: i128 = (t.m22 as i128) * a - (t.m12 as i128) * b;
    let ny: i128 = (t.m11 as i128) * b - (t.m21 as i128) * a;
    let lx: i128 = if d > 0 {
        crate::geometry::div_floor_i128(nx, d)
    } else {
        crate::geometry::div_floor_i128(-nx, -d)
    };
    let ly: i128 = if d > 0 {
        crate::geometry::div_floor_i128(ny, d)
    } else {
        crate::geometry::div_floor_i128(-ny, -d)
    };
    if 0 <= lx && lx < extents.x as i128 && 0 <= ly && ly < extents.y as i128
        && img.pixel_width > 0 && img.pixel_height > 0 {
        let w: i128 = img.pixel_width as i128;
        let h: i128 = img.pixel_height as i128;
        proof {
            lemma_mul_bound(lx as int, w as int, EXTENT_MAX as int, MAX_IMAGE_SIDE as int);
            lemma_mul_bound(ly as int, h as int, EXTENT_MAX as int, MAX_IMAGE_SIDE as int);
            assert((lx as int) * (w as int) < (extents.x as int) * (w as int)) by (nonlinear_arith)
                requires
                    lx < extents.x,
                    w > 0,
            ;
            vstd::arithmetic::div_mod::lemma_multiply_divide_lt(
                (lx as int) * (w as int), extents.x as int, w as int);
            vstd::arithmetic::div_mod::lemma_div_pos_is_pos((lx as int) * (w as int), extents.x as int);
            assert((ly as int) * (h as int) < (extents.y as int) * (h as int)) by (nonlinear_arith)
                requires
                    ly < extents.y,
                    h > 0,
            ;
            vstd::arithmetic::div_mod::lemma_multiply_divide_lt(
                (ly as int) * (h as int), extents.y as int, h as int);
            vstd::arithmetic::div_mod::lemma_div_pos_is_pos((ly as int) * (h as int), extents.y as int);
        }
        let sx: u64 = ((lx as u64) * (w as u64)) / (extents.x as u64);
        let sy: u64 = ((ly as u64) * (h as u64)) / (extents.y as u64);
        proof {
            assert((sy as int) * (w as int) + sx as int <= (h as int - 1) * (w as int) + (w as int
                - 1)) by (nonlinear_arith)
                requires
                    0 <= sx < w,
                    0 <= sy < h,
            ;
            assert((h as int - 1) * (w as int) + (w as int - 1) < (w as int) * (h as int))
                by (nonlinear_arith)
                requires
                    w > 0,
                    h > 0,
            ;
            assert(img.pixel_width * img.pixel_height <= MAX_IMAGE_PIXELS);
            assert((w as int) * (h as int) <= 268435456);
        }
        let base: usize = 4 * ((sy as usize) * (img.pixel_width as usize) + sx as usize);
        let sa: u8 = byte_at(img, base + 3);
        (
            over_channel(byte_at(img, base), under.0, sa),
            over_channel(byte_at(img, base + 1), under.1, sa),
            over_channel(byte_at(img, base + 2), under.2, sa),
            over_channel(sa, under.3, sa),
        )
    } else {
        under
    }
}

fn byte_at(img: &Image, i: usize) -> (r: u8)
    requires
        i < img.data@.len(),
    ensures
        r == img.data@[i as int],
{
    img.data[i]
}

impl DrawContext {
    /// Blits `img`, stretched over the local frame `[0, extents.x] x
    /// [0, extents.y]`, through the current transform onto the tile.
    pub fn draw_image(&mut self, img: &Image, extents: Vec2)
        requires
            old(self).wf(),
            img.wf(),
            img.memory_format == MemoryFormat::Rgba8Premultiplied,
            0 <= extents.x <= EXTENT_MAX,
            0 <= extents.y <= EXTENT_MAX,
            blit_ok(old(self).transform),
        ensures
            final(self).wf(),
            final(self).region == old(self).region,
            final(self).scale == old(self).scale,
            final(self).transform == old(self).transform,
            final(self).saved == old(self).saved,
            final(self).tile.pixel_width == old(self).tile.pixel_width,
            final(self).tile.pixel_height == old(self).tile.pixel_height,
            final(self).tile.memory_format == old(self).tile.memory_format,
            final(self).tile.rect == old(self).tile.rect,
            final(self).tile.data@ == blit_data(*img, extents, old(self).transform,
                old(self).region, old(self).scale as int, old(self).tile.data@,
                old(self).tile.pixel_width as int),
    {
        let tw: u32 = self.tile.pixel_width;
        let th: u32 = self.tile.pixel_height;
        let ghost spec_out = blit_data(*img, extents, self.transform, self.region,
            self.scale as int, self.tile.data@, tw as int);
        let mut out: Vec<u8> = Vec::new();
        let mut py: u32 = 0;
        proof {
            vstd::arithmetic::mul::lemma_mul_is_commutative(tw as int, th as int);
        }
        while py < th
            invariant
                *self == *old(self),
                self.wf(),
                img.wf(),
                img.memory_format == MemoryFormat::Rgba8Premultiplied,
                0 <= extents.x <= EXTENT_MAX,
                0 <= extents.y <= EXTENT_MAX,
                blit_ok(self.transform),
                tw == self.tile.pixel_width,
                th == self.tile.pixel_height,
                spec_out == blit_data(*img, extents, self.transform, self.region,
                    self.scale as int, self.tile.data@, tw as int),
                spec_out.len() == (tw * th) * 4,
                py <= th,
                out@.len() == 4 * (py * tw),
                forall|j: int| 0 <= j < out@.len() ==> out@[j] == spec_out[j],
            decreases th - py,
        {
            let mut px: u32 = 0;
            proof {
                lemma_row_in_range(py as int, 0, tw as int, th as int);
            }
            while px < tw
                invariant
                    *self == *old(self),
                    self.wf(),
                    img.wf(),
                    img.memory_format == MemoryFormat::Rgba8Premultiplied,
                    0 <= extents.x <= EXTENT_MAX,
                    0 <= extents.y <= EXTENT_MAX,
                    blit_ok(self.transform),
                    tw == self.tile.pixel_width,
                    th == self.tile.pixel_height,
                    spec_out == blit_data(*img, extents, self.transform, self.region,
                        self.scale as int, self.tile.data@, tw as int),
                    spec_out.len() == (tw * th) * 4,
                    py < th,
                    px <= tw,
                    out@.len() == 4 * (py * tw + px),
                    forall|j: int| 0 <= j < out@.len() ==> out@[j] == spec_out[j],
                decreases tw - px,
            {
                proof {
                    lemma_row_in_range(py as int, px as int, tw as int, th as int);
                }
                let k: u32 = py * tw + px;
                let idx: usize = 4 * (k as usize);
                let under = (
                    byte_at(&self.tile, idx),
                    byte_at(&self.tile, idx + 1),
                    byte_at(&self.tile, idx + 2),
                    byte_at(&self.tile, idx + 3),
                );
                let pix = sample_pixel(img, extents, &self.transform, self.region, self.scale,
                    px, py, under);
                out.push(pix.0);
                out.push(pix.1);
                out.push(pix.2);
                out.push(pix.3);
                proof {
                    let ki = k as int;
                    vstd::arithmetic::div_mod::lemma_fundamental_div_mod_converse_div(
                        ki, tw as int, py as int, px as int);
                    vstd::arithmetic::div_mod::lemma_fundamental_div_mod_converse_mod(
                        ki, tw as int, py as int, px as int);
                    assert(self.tile.data@.subrange(4 * ki, 4 * ki + 4) =~= seq![
                        under.0, under.1, under.2, under.3]);
                    assert forall|j: int| 0 <= j < out@.len() implies out@[j] == spec_out[j] by {
                        if j >= 4 * ki {
                            let c = j - 4 * ki;
                            vstd::arithmetic::div_mod::lemma_fundamental_div_mod_converse_div(
                                j, 4, ki, c);
                            vstd::arithmetic::div_mod::lemma_fundamental_div_mod_converse_mod(
                                j, 4, ki, c);
                            assert(spec_out[j] == blit_pixel(*img, extents, self.transform,
                                self.region, self.scale as int, px as int, py as int,
                                self.tile.data@.subrange(4 * ki, 4 * ki + 4))[c]);
                        }
                    }
                }
                px += 1;
            }
            proof {
                lemma_row_in_range(py as int, tw as int, tw as int, th as int);
            }
            py += 1;
        }
        proof {
            vstd::arithmetic::mul::lemma_mul_is_commutative(tw as int, th as int);
            assert(out@ =~= spec_out);
        }
        self.tile.data = out;
    }
}

/// A pixel position inside the tile indexes inside the buffer.
proof fn lemma_row_in_range(py: int, px: int, tw: int, th: int)
    requires
        0 <= py < th,
        0 <= px <= tw,
    ensures
        py * tw + px <= tw * th,
        px < tw ==> py * tw + px < tw * th,
        tw * th == th * tw,
        (py + 1) * tw == py * tw + tw,
{
    assert(py * tw + px <= tw * th && (px < tw ==> py * tw + px < tw * th)
        && tw * th == th * tw && (py + 1) * tw == py * tw + tw) by (nonlinear_arith)
        requires
            0 <= py < th,
            0 <= px <= tw,
    ;
}

/// One visible document element holding a pixel image placed by a
/// rectangle. The rectangle's bounds are authoritative for layout; the
/// image's own informational bounds never are.
#[derive(Clone, Debug)]
pub struct BitmapImage {
    pub image: Image,
    pub rectangle: Rectangle,
}

impl Default for BitmapImage {
    /// An empty image on a degenerate rectangle at the origin.
    fn default() -> (r: BitmapImage)
        ensures
            r.image.pixel_width == 0,
            r.image.pixel_height == 0,
            r.rectangle.extents == (Vec2 { x: 0, y: 0 }),
            r.rectangle.transform == Transform::identity_spec(),
            r.wf(),
    {
        BitmapImage {
            image: Image::default(),
            rectangle: Rectangle {
                extents: Vec2 { x: 0, y: 0 },
                transform: Transform::identity(),
            },
        }
    }
}

impl BitmapImage {
    pub open spec fn wf(self) -> bool {
        self.image.wf() && self.rectangle.wf()
    }

    /// The stroke's bounds in document space: always the rectangle's
    /// bounds, never anything taken from the image's own metadata.
    pub open spec fn bounds_spec(self) -> Aabb {
        self.rectangle.bounds_spec()
    }

    pub fn bounds(&self) -> (r: Aabb)
        requires
            self.wf(),
        ensures
            r == self.rectangle.bounds_spec(),
            r.wf(),
    {
        self.rectangle.bounds()
    }

    /// Exactly one hit box: the stroke's bounds.
    pub fn hitboxes(&self) -> (r: Vec<Aabb>)
        requires
            self.wf(),
        ensures
            r@.len() == 1,
            r@[0] == self.rectangle.bounds_spec(),
    {
        let mut v: Vec<Aabb> = Vec::new();
        v.push(self.bounds());
        v
    }

    /// Move the stroke by `off` document units.
    pub fn translate(&mut self, off: Vec2) -> (r: bool)
        requires
            old(self).wf(),
            op_args_ok(TransformOp::Translate(off)),
        ensures
            final(self).image == old(self).image,
            r == (op_in_range(TransformOp::Translate(off)) && Transform::compose_in_range(
                op_transform(TransformOp::Translate(off)), old(self).rectangle.transform)),
            r ==> final(self).rectangle == apply_op_spec(old(self).rectangle,
                TransformOp::Translate(off)) && final(self).wf(),
            !r ==> *final(self) == *old(self),
    {
        self.rectangle.apply_op(TransformOp::Translate(off))
    }

    /// Rotate the stroke about `center` by the angle with the given
    /// scaled cosine and sine.
    pub fn rotate(&mut self, cos_u: i64, sin_u: i64, center: Vec2) -> (r: bool)
        requires
            old(self).wf(),
            op_args_ok(TransformOp::Rotate { cos_u, sin_u, center }),
        ensures
            final(self).image == old(self).image,
            r == (op_in_range(TransformOp::Rotate { cos_u, sin_u, center })
                && Transform::compose_in_range(
                    op_transform(TransformOp::Rotate { cos_u, sin_u, center }),
                    old(self).rectangle.transform)),
            r ==> final(self).rectangle == apply_op_spec(old(self).rectangle,
                TransformOp::Rotate { cos_u, sin_u, center }) && final(self).wf(),
            !r ==> *final(self) == *old(self),
    {
        self.rectangle.apply_op(TransformOp::Rotate { cos_u, sin_u, center })
    }

    /// Scale the stroke about the origin by factors scaled by [`TF_UNIT`].
    pub fn scale(&mut self, sx_u: i64, sy_u: i64) -> (r: bool)
        requires
            old(self).wf(),
            op_args_ok(TransformOp::Scale { sx_u, sy_u }),
        ensures
            final(self).image == old(self).image,
            r == (op_in_range(TransformOp::Scale { sx_u, sy_u }) && Transform::compose_in_range(
                op_transform(TransformOp::Scale { sx_u, sy_u }), old(self).rectangle.transform)),
            r ==> final(self).rectangle == apply_op_spec(old(self).rectangle,
                TransformOp::Scale { sx_u, sy_u }) && final(self).wf(),
            !r ==> *final(self) == *old(self),
    {
        self.rectangle.apply_op(TransformOp::Scale { sx_u, sy_u })
    }

    /// Draws the stroke into the context: scoped save/restore around a
    /// transform push and one image blit, with the context's transform
    /// state restored on every exit path, error exits included.
    pub fn draw(&self, cx: &mut DrawContext) -> (r: Result<(), RenderError>)
        requires
            old(cx).wf(),
            self.wf(),
        ensures
            final(cx).wf(),
            final(cx).region == old(cx).region,
            final(cx).scale == old(cx).scale,
            final(cx).transform == old(cx).transform,
            final(cx).saved@ == old(cx).saved@,
            r is Ok <==> (self.image.memory_format == MemoryFormat::Rgba8Premultiplied
                && Transform::compose_in_range(old(cx).transform, self.rectangle.transform)
                && blit_ok(Transform::compose_spec(old(cx).transform, self.rectangle.transform))),
            r is Err ==> final(cx).tile == old(cx).tile,
            r == Err::<(), RenderError>(RenderError::UnsupportedImageFormat) <==> self.image.memory_format
                != MemoryFormat::Rgba8Premultiplied,
            r == Err::<(), RenderError>(RenderError::TransformOutOfRange) <==> (
                self.image.memory_format == MemoryFormat::Rgba8Premultiplied
                && !Transform::compose_in_range(old(cx).transform, self.rectangle.transform)),
            r == Err::<(), RenderError>(RenderError::UnsupportedTransform) <==> (
                self.image.memory_format == MemoryFormat::Rgba8Premultiplied
                && Transform::compose_in_range(old(cx).transform, self.rectangle.transform)
                && !blit_ok(Transform::compose_spec(old(cx).transform, self.rectangle.transform))),
            r is Ok ==> {
                &&& final(cx).tile.pixel_width == old(cx).tile.pixel_width
                &&& final(cx).tile.pixel_height == old(cx).tile.pixel_height
                &&& final(cx).tile.memory_format == old(cx).tile.memory_format
                &&& final(cx).tile.rect == old(cx).tile.rect
                &&& final(cx).tile.data@ == blit_data(self.image, self.rectangle.extents,
                    Transform::compose_spec(old(cx).transform, self.rectangle.transform),
                    old(cx).region, old(cx).scale as int, old(cx).tile.data@,
                    old(cx).tile.pixel_width as int)
            },
    {
        proof {
            assert(old(cx).saved@.push(old(cx).transform).drop_last() =~= old(cx).saved@);
        }
        cx.save();
        let format_ok = match self.image.memory_format {
            MemoryFormat::Rgba8Premultiplied => true,
            MemoryFormat::Rgba8 => false,
        };
        if !format_ok {
            restore_must(cx);
            return Err(RenderError::UnsupportedImageFormat);
        }
        if !cx.transform(&self.rectangle.transform) {
            restore_must(cx);
            return Err(RenderError::TransformOutOfRange);
        }
        let ct = cx.transform;
        proof {
            lemma_mul_bound(ct.m11 as int, ct.m22 as int, TF_MAX as int, TF_MAX as int);
            lemma_mul_bound(ct.m12 as int, ct.m21 as int, TF_MAX as int, TF_MAX as int);
        }
        let det: i128 = (ct.m11 as i128) * (ct.m22 as i128) - (ct.m12 as i128) * (ct.m21 as i128);
        if !(-BLIT_COEF_MAX <= ct.m11 && ct.m11 <= BLIT_COEF_MAX && -BLIT_COEF_MAX <= ct.m12
            && ct.m12 <= BLIT_COEF_MAX && -BLIT_COEF_MAX <= ct.m21 && ct.m21 <= BLIT_COEF_MAX
            && -BLIT_COEF_MAX <= ct.m22 && ct.m22 <= BLIT_COEF_MAX && det != 0) {
            restore_must(cx);
            return Err(RenderError::UnsupportedTransform);
        }
        cx.draw_image(&self.image, self.rectangle.extents);
        restore_must(cx);
        Ok(())
    }
}

/// Restores a context that certainly has a saved state.
fn restore_must(cx: &mut DrawContext)
    requires
        old(cx).wf(),
        old(cx).saved@.len() > 0,
    ensures
        final(cx).wf(),
        final(cx).region == old(cx).region,
        final(cx).scale == old(cx).scale,
        final(cx).tile == old(cx).tile,
        final(cx).transform == old(cx).saved@.last(),
        final(cx).saved@ == old(cx).saved@.drop_last(),
{
    match cx.restore() {
        Ok(()) => {}
        Err(_) => {
            proof {
                assert(false);
            }
        }
    }
}

/// All-transparent pixel bytes of the given length.
pub open spec fn zero_data(n: int) -> Seq<u8> {
    Seq::new(n as nat, |i: int| 0u8)
}

/// The region's pixel tile at this scale stays within [`MAX_IMAGE_DIM`]
/// on both sides.
pub open spec fn region_dims_ok(region: Aabb, scale: int) -> bool {
    &&& (region.maxs.x - region.mins.x) * scale <= MAX_IMAGE_DIM
    &&& (region.maxs.y - region.mins.y) * scale <= MAX_IMAGE_DIM
}

/// The stroke can be rasterized over this region at this scale.
pub open spec fn renderable(stroke: BitmapImage, region: Aabb, scale: int) -> bool {
    &&& region_dims_ok(region, scale)
    &&& stroke.image.memory_format == MemoryFormat::Rgba8Premultiplied
    &&& blit_ok(stroke.rectangle.transform)
}

/// `img` is exactly the tile of `stroke` rasterized over `region` at
/// `scale`: the right dimensions, premultiplied, covering `region`, and
/// the stroke blitted over a transparent background.
pub open spec fn tile_spec(img: Image, stroke: BitmapImage, region: Aabb, scale: int) -> bool {
    let tw = (region.maxs.x - region.mins.x) * scale;
    let th = (region.maxs.y - region.mins.y) * scale;
    &&& img.pixel_width == tw
    &&& img.pixel_height == th
    &&& img.memory_format == MemoryFormat::Rgba8Premultiplied
    &&& img.rect == region
    &&& img.data@ == blit_data(stroke.image, stroke.rectangle.extents,
        stroke.rectangle.transform, region, scale, zero_data((tw * th) * 4), tw)
}

/// Rasterizes `stroke` over `region`: a transparent tile of the region's
/// pixel size, with the stroke drawn into it.
fn render_region(stroke: &BitmapImage, region: Aabb, scale: u32) -> (r: Result<Image, RenderError>)
    requires
        stroke.wf(),
        region.wf(),
        1 <= scale <= SCALE_MAX,
        -COORD_MAX <= region.mins.x <= COORD_MAX,
        -COORD_MAX <= region.mins.y <= COORD_MAX,
        -COORD_MAX <= region.maxs.x <= COORD_MAX,
        -COORD_MAX <= region.maxs.y <= COORD_MAX,
    ensures
        r is Ok <==> renderable(*stroke, region, scale as int),
        r matches Ok(img) ==> tile_spec(img, *stroke, region, scale as int) && img.wf(),
        r matches Err(e) ==> {
            &&& (e == RenderError::ImageTooLarge <==> !region_dims_ok(region, scale as int))
            &&& (e == RenderError::UnsupportedImageFormat <==> region_dims_ok(region, scale as int)
                && stroke.image.memory_format != MemoryFormat::Rgba8Premultiplied)
            &&& (e == RenderError::UnsupportedTransform <==> region_dims_ok(region, scale as int)
                && stroke.image.memory_format == MemoryFormat::Rgba8Premultiplied
                && !blit_ok(stroke.rectangle.transform))
        },
{
    proof {
        lemma_mul_bound((region.maxs.x - region.mins.x) as int, scale as int,
            0x200_0000_0000_0000, SCALE_MAX as int);
        lemma_mul_bound((region.maxs.y - region.mins.y) as int, scale as int,
            0x200_0000_0000_0000, SCALE_MAX as int);
    }
    let tw128: i128 = ((region.maxs.x - region.mins.x) as i128) * (scale as i128);
    let th128: i128 = ((region.maxs.y - region.mins.y) as i128) * (scale as i128);
    if tw128 > MAX_IMAGE_DIM as i128 || th128 > MAX_IMAGE_DIM as i128 {
        return Err(RenderError::ImageTooLarge);
    }
    let tw: u32 = tw128 as u32;
    let th: u32 = th128 as u32;
    proof {
        assert((tw as int) * (th as int) <= 16384 * 16384) by (nonlinear_arith)
            requires
                0 <= tw <= 16384,
                0 <= th <= 16384,
        ;
    }
    let n: usize = ((tw as usize) * (th as usize)) * 4;
    let mut data: Vec<u8> = Vec::new();
    let mut i: usize = 0;
    while i < n
        invariant
            i <= n,
            data@.len() == i,
            forall|j: int| 0 <= j < i ==> data@[j] == 0u8,
        decreases n - i,
    {
        data.push(0u8);
        i += 1;
    }
    proof {
        assert(data@ =~= zero_data(n as int));
    }
    let tile = Image {
        pixel_width: tw,
        pixel_height: th,
        memory_format: MemoryFormat::Rgba8Premultiplied,
        data,
        rect: region,
    };
    let mut cx = DrawContext {
        region,
        scale,
        tile,
        transform: Transform::identity(),
        saved: Vec::new(),
    };
    proof {
        crate::geometry::lemma_compose_identity_left(stroke.rectangle.transform);
    }
    match stroke.draw(&mut cx) {
        Ok(()) => Ok(cx.tile),
        Err(e) => Err(e),
    }
}

impl BitmapImage {
    /// Rasterizes the stroke against a viewport: one image over the whole
    /// bounds when the viewport contains them; one image over exactly the
    /// intersection when it only overlaps them; no image at all when they
    /// do not meet.
    pub fn gen_images(&self, viewport: Aabb, image_scale: u32) -> (r: Result<GeneratedStrokeImages, RenderError>)
        requires
            self.wf(),
            viewport.wf(),
            1 <= image_scale <= SCALE_MAX,
        ensures
            ({
                let b = self.rectangle.bounds_spec();
                let isect = viewport.intersection_spec(b);
                &&& viewport.contains_spec(b) ==> {
                    &&& (r is Ok <==> renderable(*self, b, image_scale as int))
                    &&& (r matches Ok(g) ==> g matches GeneratedStrokeImages::Full(imgs)
                        && imgs@.len() == 1 && tile_spec(imgs@[0], *self, b, image_scale as int))
                    &&& (r matches Err(e) ==> (e == RenderError::ImageTooLarge <==> !region_dims_ok(
                        b, image_scale as int)))
                }
                &&& !viewport.contains_spec(b) && viewport.intersects_spec(b) ==> {
                    &&& (r is Ok <==> renderable(*self, isect, image_scale as int))
                    &&& (r matches Ok(g) ==> g matches GeneratedStrokeImages::Partial { images, viewport: vp }
                        && vp == viewport && images@.len() == 1
                        && tile_spec(images@[0], *self, isect, image_scale as int))
                    &&& (r matches Err(e) ==> (e == RenderError::ImageTooLarge <==> !region_dims_ok(
                        isect, image_scale as int)))
                }
                &&& !viewport.intersects_spec(b) ==> (r matches Ok(g)
                    && g matches GeneratedStrokeImages::Partial { images, viewport: vp }
                    && vp == viewport && images@.len() == 0)
            }),
    {
        proof {
            crate::geometry::lemma_rect_bounds_in_range(self.rectangle);
        }
        let bounds = self.bounds();
        if viewport.contains(&bounds) {
            match render_region(self, bounds, image_scale) {
                Ok(img) => {
                    let mut imgs: Vec<Image> = Vec::new();
                    imgs.push(img);
                    Ok(GeneratedStrokeImages::Full(imgs))
                }
                Err(e) => Err(e),
            }
        } else {
            match bounds.intersection(&viewport) {
                Some(isect) => {
                    proof {
                        assert(isect == viewport.intersection_spec(bounds));
                    }
                    match render_region(self, isect, image_scale) {
                        Ok(img) => {
                            let mut imgs: Vec<Image> = Vec::new();
                            imgs.push(img);
                            Ok(GeneratedStrokeImages::Partial { images: imgs, viewport })
                        }
                        Err(e) => Err(e),
                    }
                }
                None => Ok(GeneratedStrokeImages::Partial { images: Vec::new(), viewport }),
            }
        }
    }
}

/// The bounds of a bitmap-image stroke depend on its rectangle alone:
/// two strokes with the same rectangle have the same bounds whatever
/// their images or the images' own metadata hold.
pub proof fn lemma_bounds_ignore_image_metadata(a: BitmapImage, b: BitmapImage)
    requires
        a.rectangle == b.rectangle,
    ensures
        a.bounds_spec() == b.bounds_spec(),
{
}

} // verus!
