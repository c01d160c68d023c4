//! Importing external page data as bitmap-image strokes: decoding encoded
//! raster bytes into a placed stroke, planning a multi-page PDF import
//! (uniform zoom from the first page, sequential vertical placement under
//! a page-spacing policy), and turning per-page render outcomes into
//! strokes with per-page failures skipped, never aborting the batch.

use vstd::prelude::*;
use rayon::iter::{IntoParallelIterator, ParallelIterator};
use crate::geometry::{
    div_floor, Aabb, Rectangle, Transform, Vec2, COORD_MAX, EXTENT_MAX,
    lemma_mul_bound,
};
use crate::render::{
    decoded_image_ok, decoded_rgba, premul_data, Image, ImageImportError, MemoryFormat,
    MAX_IMAGE_DIM,
};
use crate::stroke::BitmapImage;

verus! {

/// Default offset between consecutively imported items, in document units.
pub const IMPORT_OFFSET_DEFAULT: i64 = 32;

/// How consecutive imported PDF pages are placed vertically.
#[derive(Clone, Copy, PartialEq, Eq, Structural, Debug)]
pub enum PdfImportPageSpacing {
    /// Each page follows the previous one, separated by half the default
    /// import offset.
    Continuous,
    /// Each source page occupies one full document page slot, whatever
    /// its rendered height.
    OnePerDocumentPage,
}

/// Preferences for one PDF import call; never mutated by the importer.
#[derive(Clone, Copy, PartialEq, Eq, Structural, Debug)]
pub struct PdfImportPrefs {
    /// Page width as a percentage of the document page width.
    pub page_width_perc: u32,
    /// Oversampling factor of the rendered page bitmaps.
    pub bitmap_scalefactor: u32,
    pub page_spacing: PdfImportPageSpacing,
}

impl PdfImportPrefs {
    pub open spec fn wf(self) -> bool {
        &&& 1 <= self.page_width_perc <= 1000
        &&& 1 <= self.bitmap_scalefactor <= 256
    }
}

/// The document's page format, in document units.
#[derive(Clone, Copy, PartialEq, Eq, Structural, Debug)]
pub struct Format {
    pub width: i64,
    pub height: i64,
}

impl Format {
    pub open spec fn wf(self) -> bool {
        &&& 1 <= self.width <= EXTENT_MAX
        &&& 1 <= self.height <= EXTENT_MAX
    }
}

/// The intrinsic size of one PDF page, in document units.
#[derive(Clone, Copy, PartialEq, Eq, Structural, Debug)]
pub struct PdfPageSize {
    pub width: i64,
    pub height: i64,
}

impl PdfPageSize {
    pub open spec fn wf(self) -> bool {
        &&& 0 <= self.width <= EXTENT_MAX
        &&& 0 <= self.height <= EXTENT_MAX
    }
}

/// Where one page of a PDF import goes: its document position and size,
/// and the pixel surface to render it into, or `None` when the page falls
/// outside what a surface or a stroke can hold (it is then skipped, while
/// still occupying its vertical slot).
#[derive(Clone, Copy, Debug)]
pub struct PagePlan {
    pub page_index: u32,
    pub pos: Vec2,
    pub size: Vec2,
    pub render_size: Option<(u32, u32)>,
}

/// Numerator of the uniform zoom: all pages share the zoom that maps the
/// first page's width to `page_width_perc` percent of the document width.
pub open spec fn zoom_num(format: Format, prefs: PdfImportPrefs) -> int {
    format.width * prefs.page_width_perc
}

/// Denominator of the uniform zoom.
pub open spec fn zoom_den(first_width: int) -> int {
    100 * first_width
}

/// A length scaled by the zoom, rounded down.
pub open spec fn scaled_len(v: int, num: int, den: int) -> int {
    div_floor(v * num, den)
}

/// The vertical advance a page contributes before the next page.
pub open spec fn page_advance(prefs: PdfImportPrefs, format: Format, num: int, den: int, page: PdfPageSize) -> int {
    match prefs.page_spacing {
        PdfImportPageSpacing::Continuous => scaled_len(page.height as int, num, den)
            + IMPORT_OFFSET_DEFAULT / 2,
        PdfImportPageSpacing::OnePerDocumentPage => format.height as int,
    }
}

/// Addition of a nonnegative advance, saturating at [`COORD_MAX`].
pub open spec fn sat_add_coord(a: int, b: int) -> int {
    if a + b > COORD_MAX {
        COORD_MAX as int
    } else {
        a + b
    }
}

/// The vertical position of the `k`-th planned page: the insertion
/// position plus every earlier page's advance.
pub open spec fn plan_y(
    insert_y: int,
    prefs: PdfImportPrefs,
    format: Format,
    num: int,
    den: int,
    pages: Seq<PdfPageSize>,
    start: int,
    k: int,
) -> int
    decreases k,
{
    if k <= 0 {
        insert_y
    } else {
        sat_add_coord(
            plan_y(insert_y, prefs, format, num, den, pages, start, k - 1),
            page_advance(prefs, format, num, den, pages[start + k - 1]),
        )
    }
}

/// The complete plan entry of the `k`-th page in the imported range.
pub open spec fn plan_entry(
    pages: Seq<PdfPageSize>,
    prefs: PdfImportPrefs,
    insert_pos: Vec2,
    format: Format,
    start: int,
    k: int,
) -> PagePlan {
    let num = zoom_num(format, prefs);
    let den = zoom_den(pages[0].width as int);
    let page = pages[start + k];
    let w = scaled_len(page.width as int, num, den);
    let h = scaled_len(page.height as int, num, den);
    let y = plan_y(insert_pos.y as int, prefs, format, num, den, pages, start, k);
    let sw = w * prefs.bitmap_scalefactor;
    let sh = h * prefs.bitmap_scalefactor;
    let ok = {
        &&& 0 < w <= EXTENT_MAX
        &&& 0 < h <= EXTENT_MAX
        &&& sw <= MAX_IMAGE_DIM
        &&& sh <= MAX_IMAGE_DIM
        &&& -EXTENT_MAX * 1024 <= insert_pos.x <= EXTENT_MAX * 1024
        &&& -EXTENT_MAX * 1024 <= y <= EXTENT_MAX * 1024
    };
    PagePlan {
        page_index: (start + k) as u32,
        pos: Vec2 { x: insert_pos.x, y: y as i64 },
        size: Vec2 { x: w as i64, y: h as i64 },
        render_size: if ok {
            Some((sw as u32, sh as u32))
        } else {
            None
        },
    }
}

/// Plans a PDF import: which pages of the document are imported, where
/// each goes and how large it is rendered. A document with no pages, a
/// range lying outside the document, or a first page of zero width plans
/// nothing — importing nothing is valid, not an error.
pub fn plan_pdf_import(
    pages: &Vec<PdfPageSize>,
    prefs: PdfImportPrefs,
    insert_pos: Vec2,
    page_range: Option<(u32, u32)>,
    format: &Format,
) -> (r: Vec<PagePlan>)
    requires
        forall|i: int| 0 <= i < pages@.len() ==> (#[trigger] pages@[i]).wf(),
        pages@.len() <= 0xffff_ffff,
        prefs.wf(),
        format.wf(),
        -COORD_MAX <= insert_pos.x <= COORD_MAX,
        -COORD_MAX <= insert_pos.y <= COORD_MAX,
    ensures
        ({
            let n = pages@.len() as int;
            let start = (match page_range {
                Option::None => 0int,
                Option::Some(se) => se.0 as int,
            });
            let end = (match page_range {
                Option::None => n,
                Option::Some(se) => if se.1 as int <= n { se.1 as int } else { n },
            });
            let cnt = if n == 0 || pages@[0].width == 0 || start >= end { 0int } else { end - start };
            &&& r@.len() == cnt
            &&& forall|k: int| 0 <= k < cnt ==> #[trigger] r@[k] == plan_entry(pages@, prefs,
                insert_pos, *format, start, k)
        }),
{
    let n: usize = pages.len();
    let (start, end): (usize, usize) = match page_range {
        None => (0, n),
        Some((s, e)) => (s as usize, if (e as usize) <= n { e as usize } else { n }),
    };
    let mut out: Vec<PagePlan> = Vec::new();
    if n == 0 {
        return out;
    }
    let first_width: i64 = pages[0].width;
    if first_width == 0 {
        return out;
    }
    if start >= end {
        return out;
    }
    proof {
        lemma_mul_bound(format.width as int, prefs.page_width_perc as int, EXTENT_MAX as int, 1000);
        assert((format.width as int) * (prefs.page_width_perc as int) >= 1) by (nonlinear_arith)
            requires
                format.width >= 1,
                prefs.page_width_perc >= 1,
        ;
    }
    let num: i64 = format.width * (prefs.page_width_perc as i64);
    let den: i64 = 100 * first_width;
    let mut y: i64 = insert_pos.y;
    let mut k: usize = 0;
    let cnt: usize = end - start;
    while k < cnt
        invariant
            forall|i: int| 0 <= i < pages@.len() ==> (#[trigger] pages@[i]).wf(),
            pages@.len() <= 0xffff_ffff,
            prefs.wf(),
            format.wf(),
            -COORD_MAX <= insert_pos.x <= COORD_MAX,
            -COORD_MAX <= insert_pos.y <= COORD_MAX,
            n == pages@.len(),
            0 < n,
            pages@[0].width != 0,
            first_width == pages@[0].width,
            num == zoom_num(*format, prefs),
            num >= 1,
            num <= EXTENT_MAX * 1000,
            den == zoom_den(first_width as int),
            0 < den,
            start < end <= n,
            cnt == end - start,
            k <= cnt,
            out@.len() == k,
            y == plan_y(insert_pos.y as int, prefs, *format, num as int, den as int, pages@,
                start as int, k as int),
            -COORD_MAX <= y <= COORD_MAX,
            forall|i: int| 0 <= i < k ==> #[trigger] out@[i] == plan_entry(pages@, prefs,
                insert_pos, *format, start as int, i),
        decreases cnt - k,
    {
        let page: PdfPageSize = pages[start + k];
        proof {
            lemma_mul_bound(page.width as int, num as int, EXTENT_MAX as int,
                EXTENT_MAX as int * 1000);
            lemma_mul_bound(page.height as int, num as int, EXTENT_MAX as int,
                EXTENT_MAX as int * 1000);
            assert((page.height as int) * (num as int) >= 0) by (nonlinear_arith)
                requires
                    page.height >= 0,
                    num >= 1,
            ;
        }
        let w128: i128 = crate::geometry::div_floor_i128(
            (page.width as i128) * (num as i128), den as i128);
        let h128: i128 = crate::geometry::div_floor_i128(
            (page.height as i128) * (num as i128), den as i128);
        let sf: i128 = prefs.bitmap_scalefactor as i128;
        proof {
            lemma_mul_bound(w128 as int, sf as int, 0x4_0000_0000_0000_0000_0000, 256);
            lemma_mul_bound(h128 as int, sf as int, 0x4_0000_0000_0000_0000_0000, 256);
        }
        let sw128: i128 = w128 * sf;
        let sh128: i128 = h128 * sf;
        let lim: i128 = EXTENT_MAX as i128;
        let ok: bool = 0 < w128 && w128 <= lim && 0 < h128 && h128 <= lim
            && sw128 <= MAX_IMAGE_DIM as i128 && sh128 <= MAX_IMAGE_DIM as i128
            && -EXTENT_MAX * 1024 <= insert_pos.x && insert_pos.x <= EXTENT_MAX * 1024
            && -EXTENT_MAX * 1024 <= y && y <= EXTENT_MAX * 1024;
        let entry = PagePlan {
            page_index: (start + k) as u32,
            pos: Vec2 { x: insert_pos.x, y },
            size: Vec2 { x: w128 as i64, y: h128 as i64 },
            render_size: if ok {
                Some((sw128 as u32, sh128 as u32))
            } else {
                None
            },
        };
        out.push(entry);
        let advance128: i128 = match prefs.page_spacing {
            PdfImportPageSpacing::Continuous => h128 + 16,
            PdfImportPageSpacing::OnePerDocumentPage => format.height as i128,
        };
        let y128: i128 = (y as i128) + advance128;
        if y128 > COORD_MAX as i128 {
            y = COORD_MAX;
        } else {
            y = y128 as i64;
        }
        k += 1;
    }
    out
}

/// Under the one-page-per-document-page spacing, the `k`-th planned page
/// sits exactly `k` document page heights below the insertion position,
/// whatever each page's own rendered height — as long as that position
/// stays below the saturation bound [`COORD_MAX`].
pub proof fn lemma_one_per_page_placement(
    insert_y: int,
    prefs: PdfImportPrefs,
    format: Format,
    num: int,
    den: int,
    pages: Seq<PdfPageSize>,
    start: int,
    k: int,
)
    requires
        prefs.page_spacing == PdfImportPageSpacing::OnePerDocumentPage,
        format.wf(),
        0 <= k,
        insert_y + k * format.height <= COORD_MAX,
    ensures
        plan_y(insert_y, prefs, format, num, den, pages, start, k) == insert_y + k * format.height,
    decreases k,
{
    if k <= 0 {
        assert(k * (format.height as int) == 0) by (nonlinear_arith)
            requires
                k == 0,
        ;
    } else {
        assert((k - 1) * (format.height as int) == k * (format.height as int)
            - format.height as int) by (nonlinear_arith);
        lemma_one_per_page_placement(insert_y, prefs, format, num, den, pages, start, k - 1);
        assert(plan_y(insert_y, prefs, format, num, den, pages, start, k) == sat_add_coord(
            insert_y + (k - 1) * (format.height as int),
            format.height as int,
        ));
        assert(insert_y + (k - 1) * (format.height as int) + format.height as int == insert_y + k
            * (format.height as int));
        assert(insert_y + (k - 1) * (format.height as int) + format.height as int <= COORD_MAX);
        assert(sat_add_coord(insert_y + (k - 1) * (format.height as int), format.height as int)
            == insert_y + k * (format.height as int));
    }
}

/// Under the one-page-per-document-page spacing, the `k`-th planned entry
/// is placed at the insertion point moved down by exactly `k` document
/// page heights, whatever the pages' own rendered heights.
pub proof fn lemma_one_per_page_entry_position(
    pages: Seq<PdfPageSize>,
    prefs: PdfImportPrefs,
    insert_pos: Vec2,
    format: Format,
    start: int,
    k: int,
)
    requires
        prefs.page_spacing == PdfImportPageSpacing::OnePerDocumentPage,
        format.wf(),
        0 <= k,
        -COORD_MAX <= insert_pos.y,
        insert_pos.y + k * format.height <= COORD_MAX,
    ensures
        plan_entry(pages, prefs, insert_pos, format, start, k).pos.x == insert_pos.x,
        plan_entry(pages, prefs, insert_pos, format, start, k).pos.y == insert_pos.y + k
            * format.height,
{
    lemma_one_per_page_placement(insert_pos.y as int, prefs, format, zoom_num(format, prefs),
        zoom_den(pages[0].width as int), pages, start, k);
    assert(k * (format.height as int) >= 0) by (nonlinear_arith)
        requires
            k >= 0,
            format.height >= 1,
    ;
}

/// `img` placed at `pos` with `size` (or, given no explicit size, with the
/// decoded pixel dimensions as document size, one unit per pixel): the
/// stroke holds the decoded buffer premultiplied and a rectangle whose
/// transform is exactly the translation to `pos`.
pub open spec fn stroke_from_bytes_matches(
    b: BitmapImage,
    bytes: Seq<u8>,
    pos: Vec2,
    size: Option<Vec2>,
) -> bool {
    &&& decoded_rgba(bytes) is Some
    &&& decoded_rgba(bytes) matches Some(t) ==> {
        &&& b.image.pixel_width == t.0
        &&& b.image.pixel_height == t.1
        &&& b.image.memory_format == MemoryFormat::Rgba8Premultiplied
        &&& b.image.data@ == premul_data(t.2)
        &&& b.image.rect == (Aabb {
            mins: Vec2 { x: 0, y: 0 },
            maxs: Vec2 { x: t.0 as i64, y: t.1 as i64 },
        })
        &&& b.rectangle.extents == (match size {
            Option::Some(s) => s,
            Option::None => Vec2 { x: t.0 as i64, y: t.1 as i64 },
        })
        &&& b.rectangle.transform == Transform::translation_spec(pos)
    }
}

impl BitmapImage {
    /// Imports encoded raster bytes (such as PNG or JPEG) as a stroke at
    /// `pos`. With no explicit size, the decoded pixel width and height
    /// are the document-space size, one document unit per pixel.
    pub fn import_from_image_bytes(bytes: &[u8], pos: Vec2, size: Option<Vec2>) -> (r: Result<
        BitmapImage,
        ImageImportError,
    >)
        requires
            -EXTENT_MAX * 1024 <= pos.x <= EXTENT_MAX * 1024,
            -EXTENT_MAX * 1024 <= pos.y <= EXTENT_MAX * 1024,
            size matches Some(s) ==> 0 <= s.x <= EXTENT_MAX && 0 <= s.y <= EXTENT_MAX,
        ensures
            r is Ok <==> decoded_image_ok(bytes@),
            r matches Ok(b) ==> stroke_from_bytes_matches(b, bytes@, pos, size) && b.wf(),
            r matches Err(e) ==> (e == ImageImportError::DecodeFailed <==> decoded_rgba(bytes@) is None),
    {
        let mut image = match Image::try_from_encoded_bytes(bytes) {
            Ok(img) => img,
            Err(e) => {
                return Err(e);
            }
        };
        image.convert_to_rgba8pre();
        let extents: Vec2 = match size {
            Some(s) => s,
            None => Vec2 { x: image.pixel_width as i64, y: image.pixel_height as i64 },
        };
        let rectangle = Rectangle { extents, transform: Transform::translation(pos) };
        Ok(BitmapImage { image, rectangle })
    }
}

/// One page's rendered bytes together with its planned placement.
#[derive(Clone, Debug)]
pub struct RenderedPage {
    pub bytes: Vec<u8>,
    pub pos: Vec2,
    pub size: Vec2,
}

impl RenderedPage {
    pub open spec fn wf(self) -> bool {
        &&& -EXTENT_MAX * 1024 <= self.pos.x <= EXTENT_MAX * 1024
        &&& -EXTENT_MAX * 1024 <= self.pos.y <= EXTENT_MAX * 1024
        &&& 0 <= self.size.x <= EXTENT_MAX
        &&& 0 <= self.size.y <= EXTENT_MAX
    }
}

/// The outcome of rendering one planned page: the encoded bytes, or
/// `None` when rendering that page failed.
#[derive(Clone, Debug)]
pub struct PageRenderOutcome {
    pub pos: Vec2,
    pub size: Vec2,
    pub rendered: Option<Vec<u8>>,
}

impl PageRenderOutcome {
    pub open spec fn wf(self) -> bool {
        &&& -EXTENT_MAX * 1024 <= self.pos.x <= EXTENT_MAX * 1024
        &&& -EXTENT_MAX * 1024 <= self.pos.y <= EXTENT_MAX * 1024
        &&& 0 <= self.size.x <= EXTENT_MAX
        &&& 0 <= self.size.y <= EXTENT_MAX
    }
}

/// What matters of a rendered page: its bytes, position and size.
pub open spec fn page_view(p: RenderedPage) -> (Seq<u8>, Vec2, Vec2) {
    (p.bytes@, p.pos, p.size)
}

/// The pages of the outcomes that rendered, in order, as views.
pub open spec fn rendered_pages(outs: Seq<PageRenderOutcome>) -> Seq<(Seq<u8>, Vec2, Vec2)>
    decreases outs.len(),
{
    if outs.len() == 0 {
        Seq::empty()
    } else {
        let rest = rendered_pages(outs.drop_last());
        match outs.last().rendered {
            Option::Some(bytes) => rest + seq![(bytes@, outs.last().pos, outs.last().size)],
            Option::None => rest,
        }
    }
}

/// The rendered pages whose bytes decode, in order.
pub open spec fn decodable_pages(items: Seq<(Seq<u8>, Vec2, Vec2)>) -> Seq<(Seq<u8>, Vec2, Vec2)>
    decreases items.len(),
{
    if items.len() == 0 {
        Seq::empty()
    } else {
        let rest = decodable_pages(items.drop_last());
        if decoded_image_ok(items.last().0) {
            rest + seq![items.last()]
        } else {
            rest
        }
    }
}

/// Decodes one rendered page into its stroke, or nothing when its bytes
/// do not decode.
pub fn stroke_from_rendered_page(item: &RenderedPage) -> (r: Option<BitmapImage>)
    requires
        item.wf(),
    ensures
        r is Some <==> decoded_image_ok(item.bytes@),
        r matches Some(b) ==> stroke_from_bytes_matches(b, item.bytes@, item.pos,
            Some(item.size)) && b.wf(),
{
    match BitmapImage::import_from_image_bytes(item.bytes.as_slice(), item.pos, Some(item.size)) {
        Ok(b) => Some(b),
        Err(_) => None,
    }
}

/// Relies on rayon's into_par_iter, map and collect: a parallel map over
/// a vector, collected into a vector, yields the per-item results of the
/// given function in the original order. The closure only calls the
/// verified per-item decoder.
#[verifier::external_body]
fn decode_rendered_parallel(items: Vec<RenderedPage>) -> (r: Vec<Option<BitmapImage>>)
    requires
        forall|i: int| 0 <= i < items@.len() ==> (#[trigger] items@[i]).wf(),
    ensures
        r@.len() == items@.len(),
        forall|i: int| 0 <= i < items@.len() ==> {
            &&& ((#[trigger] r@[i]) is Some <==> decoded_image_ok(items@[i].bytes@))
            &&& (r@[i] matches Some(b) ==> stroke_from_bytes_matches(b, items@[i].bytes@,
                items@[i].pos, Some(items@[i].size)) && b.wf())
        },
{
    items.into_par_iter().map(|item| stroke_from_rendered_page(&item)).collect()
}

/// Turns per-page render outcomes into strokes: a page that failed to
/// render, or whose rendered bytes do not decode, is skipped; every other
/// page yields its stroke, in page order. A failing page never aborts its
/// siblings. The decode stage runs data-parallel; each item already
/// carries its absolute placement.
pub fn strokes_from_page_outcomes(outcomes: Vec<PageRenderOutcome>) -> (r: Vec<BitmapImage>)
    requires
        forall|i: int| 0 <= i < outcomes@.len() ==> (#[trigger] outcomes@[i]).wf(),
    ensures
        ({
            let kept = decodable_pages(rendered_pages(outcomes@));
            &&& r@.len() == kept.len()
            &&& forall|j: int| 0 <= j < kept.len() ==> stroke_from_bytes_matches(#[trigger] r@[j],
                kept[j].0, kept[j].1, Some(kept[j].2)) && r@[j].wf()
        }),
{
    let n: usize = outcomes.len();
    let mut items: Vec<RenderedPage> = Vec::new();
    let mut i: usize = 0;
    while i < n
        invariant
            forall|j: int| 0 <= j < outcomes@.len() ==> (#[trigger] outcomes@[j]).wf(),
            n == outcomes@.len(),
            i <= n,
            items@.len() == rendered_pages(outcomes@.subrange(0, i as int)).len(),
            forall|j: int| 0 <= j < items@.len() ==> #[trigger] page_view(items@[j])
                == rendered_pages(outcomes@.subrange(0, i as int))[j],
            forall|j: int| 0 <= j < items@.len() ==> (#[trigger] items@[j]).wf(),
        decreases n - i,
    {
        let out: &PageRenderOutcome = vstd::slice::slice_index_get(outcomes.as_slice(), i);
        proof {
            let pre = outcomes@.subrange(0, i as int);
            let cur = outcomes@.subrange(0, i + 1);
            assert(cur.drop_last() =~= pre);
            assert(cur.last() == outcomes@[i as int]);
        }
        match &out.rendered {
            Some(bytes) => {
                let item = RenderedPage { bytes: clone_bytes(bytes), pos: out.pos, size: out.size };
                items.push(item);
            }
            None => {}
        }
        i += 1;
    }
    proof {
        assert(outcomes@.subrange(0, n as int) =~= outcomes@);
    }
    let ghost items_seq = rendered_pages(outcomes@);
    let ghost items_view = items@;
    let decoded: Vec<Option<BitmapImage>> = decode_rendered_parallel(items);
    let m: usize = decoded.len();
    proof {
        assert forall|i2: int| 0 <= i2 < m implies {
            &&& ((#[trigger] decoded@[i2]) is Some <==> decoded_image_ok(items_seq[i2].0))
            &&& (decoded@[i2] matches Some(b) ==> stroke_from_bytes_matches(b, items_seq[i2].0,
                items_seq[i2].1, Some(items_seq[i2].2)) && b.wf())
        } by {
            assert(page_view(items_view[i2]) == items_seq[i2]);
            assert(items_view[i2].bytes@ == items_seq[i2].0);
            assert(items_view[i2].pos == items_seq[i2].1);
            assert(items_view[i2].size == items_seq[i2].2);
        }
    }
    let mut r: Vec<BitmapImage> = Vec::new();
    let mut j: usize = 0;
    while j < m
        invariant
            m == decoded@.len(),
            m == items_seq.len(),
            j <= m,
            forall|i2: int| 0 <= i2 < m ==> {
                &&& ((#[trigger] decoded@[i2]) is Some <==> decoded_image_ok(items_seq[i2].0))
                &&& (decoded@[i2] matches Some(b) ==> stroke_from_bytes_matches(b,
                    items_seq[i2].0, items_seq[i2].1, Some(items_seq[i2].2)) && b.wf())
            },
            ({
                let kept = decodable_pages(items_seq.subrange(0, j as int));
                &&& r@.len() == kept.len()
                &&& forall|j2: int| 0 <= j2 < kept.len() ==> stroke_from_bytes_matches(
                    #[trigger] r@[j2], kept[j2].0, kept[j2].1, Some(kept[j2].2))
                    && r@[j2].wf()
            }),
        decreases m - j,
    {
        proof {
            let pre = items_seq.subrange(0, j as int);
            let cur = items_seq.subrange(0, j + 1);
            assert(cur.drop_last() =~= pre);
            assert(cur.last() == items_seq[j as int]);
        }
        match vstd::slice::slice_index_get(decoded.as_slice(), j) {
            Some(b) => {
                r.push(clone_stroke(b));
            }
            None => {}
        }
        j += 1;
    }
    proof {
        assert(items_seq.subrange(0, m as int) =~= items_seq);
    }
    r
}

/// A byte-for-byte copy of a byte vector.
fn clone_bytes(v: &Vec<u8>) -> (r: Vec<u8>)
    ensures
        r@ == v@,
{
    let mut out: Vec<u8> = Vec::new();
    let n: usize = v.len();
    let mut i: usize = 0;
    while i < n
        invariant
            n == v@.len(),
            i <= n,
            out@ == v@.subrange(0, i as int),
        decreases n - i,
    {
        out.push(v[i]);
        proof {
            assert(v@.subrange(0, i + 1) =~= v@.subrange(0, i as int) + seq![v@[i as int]]);
        }
        i += 1;
    }
    proof {
        assert(v@.subrange(0, n as int) =~= v@);
    }
    out
}

/// A field-for-field copy of a stroke.
fn clone_stroke(b: &BitmapImage) -> (r: BitmapImage)
    ensures
        r.image.pixel_width == b.image.pixel_width,
        r.image.pixel_height == b.image.pixel_height,
        r.image.memory_format == b.image.memory_format,
        r.image.data@ == b.image.data@,
        r.image.rect == b.image.rect,
        r.rectangle == b.rectangle,
{
    BitmapImage {
        image: Image {
            pixel_width: b.image.pixel_width,
            pixel_height: b.image.pixel_height,
            memory_format: b.image.memory_format,
            data: clone_bytes(&b.image.data),
            rect: b.image.rect,
        },
        rectangle: b.rectangle,
    }
}

} // verus!
