//! Generating a standalone SVG document for a stroke: the stroke's pixel
//! image, PNG-encoded and embedded as a base64 data URI in an `image`
//! element sized to the stroke's bounds.

use vstd::prelude::*;
use vstd::string::StringSliceAdditionalSpecFns;
use vstd::slice::slice_index_get;
use crate::geometry::Aabb;
use crate::render::Image;
use crate::stroke::BitmapImage;

verus! {

/// A rendered SVG document and the document-space bounds it covers.
#[derive(Debug)]
pub struct Svg {
    pub svg_data: Vec<u8>,
    pub bounds: Aabb,
}

/// What PNG-encoding a pixel buffer yields; the encoding depends on the
/// dimensions and bytes alone.
pub uninterp spec fn png_encoding_of(w: u32, h: u32, data: Seq<u8>) -> Seq<u8>;

/// Relies on image::codecs::png::PngEncoder::write_image: PNG encoding an
/// RGBA buffer is a pure function of the dimensions and the bytes, and,
/// writing a buffer of the matching length into a byte vector, it fails
/// only on a zero width or height.
#[verifier::external_body]
fn encode_png(img: &Image) -> (r: Option<Vec<u8>>)
    requires
        img.wf(),
    ensures
        r matches Some(b) ==> b@ == png_encoding_of(img.pixel_width, img.pixel_height,
            img.data@),
        img.pixel_width >= 1 && img.pixel_height >= 1 ==> r is Some,
{
    let mut out = Vec::new();
    let enc = image::codecs::png::PngEncoder::new(&mut out);
    match image::ImageEncoder::write_image(enc, &img.data, img.pixel_width, img.pixel_height,
        image::ExtendedColorType::Rgba8) {
        Ok(()) => Some(out),
        Err(_) => None,
    }
}

/// The base64 alphabet, digit by digit.
pub open spec fn b64_digit(v: int) -> u8 {
    if v < 26 {
        (65 + v) as u8
    } else if v < 52 {
        (97 + (v - 26)) as u8
    } else if v < 62 {
        (48 + (v - 52)) as u8
    } else if v == 62 {
        43u8
    } else {
        47u8
    }
}

fn b64_char(v: u8) -> (r: u8)
    requires
        v < 64,
    ensures
        r == b64_digit(v as int),
{
    if v < 26 {
        65 + v
    } else if v < 52 {
        97 + (v - 26)
    } else if v < 62 {
        48 + (v - 52)
    } else if v == 62 {
        43
    } else {
        47
    }
}

/// Standard base64 with `=` padding, three input bytes to four digits.
pub open spec fn base64_of(s: Seq<u8>) -> Seq<u8>
    decreases s.len(),
{
    if s.len() == 0 {
        Seq::empty()
    } else if s.len() == 1 {
        let b0 = s[0];
        seq![b64_digit((b0 >> 2) as int), b64_digit(((b0 & 3) << 4) as int), 61u8, 61u8]
    } else if s.len() == 2 {
        let b0 = s[0];
        let b1 = s[1];
        seq![
            b64_digit((b0 >> 2) as int),
            b64_digit((((b0 & 3) << 4) | (b1 >> 4)) as int),
            b64_digit(((b1 & 15) << 2) as int),
            61u8,
        ]
    } else {
        let b0 = s[0];
        let b1 = s[1];
        let b2 = s[2];
        seq![
            b64_digit((b0 >> 2) as int),
            b64_digit((((b0 & 3) << 4) | (b1 >> 4)) as int),
            b64_digit((((b1 & 15) << 2) | (b2 >> 6)) as int),
            b64_digit((b2 & 63) as int),
        ] + base64_of(s.skip(3))
    }
}

/// Appends the base64 digits of `s` to `out`.
fn push_base64(out: &mut Vec<u8>, s: &[u8])
    ensures
        final(out)@ == old(out)@ + base64_of(s@),
{
    let n: usize = s.len();
    let mut i: usize = 0;
    proof {
        assert(s@.skip(0) =~= s@);
    }
    while n - i >= 3
        invariant
            n == s@.len(),
            i <= n,
            out@ + base64_of(s@.skip(i as int)) == old(out)@ + base64_of(s@),
        decreases n - i,
    {
        let b0 = *slice_index_get(s, i);
        let b1 = *slice_index_get(s, i + 1);
        let b2 = *slice_index_get(s, i + 2);
        proof {
            assert(b0 >> 2 < 64 && ((b0 & 3) << 4 | (b1 >> 4)) < 64 && ((b1 & 15) << 2 | (b2
                >> 6)) < 64 && (b2 & 63) < 64) by (bit_vector);
            assert(s@.skip(i as int).skip(3) =~= s@.skip(i + 3));
            assert(s@.skip(i as int)[0] == s@[i as int]);
            assert(s@.skip(i as int)[1] == s@[i as int + 1]);
            assert(s@.skip(i as int)[2] == s@[i as int + 2]);
        }
        out.push(b64_char(b0 >> 2));
        out.push(b64_char((b0 & 3) << 4 | (b1 >> 4)));
        out.push(b64_char((b1 & 15) << 2 | (b2 >> 6)));
        out.push(b64_char(b2 & 63));
        proof {
            assert(out@ + base64_of(s@.skip(i + 3)) =~= old(out)@ + base64_of(s@));
        }
        i += 3;
    }
    if n - i == 1 {
        let b0 = *slice_index_get(s, i);
        proof {
            assert(b0 >> 2 < 64 && ((b0 & 3) << 4) < 64) by (bit_vector);
            assert(s@.skip(i as int)[0] == s@[i as int]);
        }
        out.push(b64_char(b0 >> 2));
        out.push(b64_char((b0 & 3) << 4));
        out.push(61);
        out.push(61);
    } else if n - i == 2 {
        let b0 = *slice_index_get(s, i);
        let b1 = *slice_index_get(s, i + 1);
        proof {
            assert(b0 >> 2 < 64 && ((b0 & 3) << 4 | (b1 >> 4)) < 64 && ((b1 & 15) << 2) < 64)
                by (bit_vector);
            assert(s@.skip(i as int)[0] == s@[i as int]);
            assert(s@.skip(i as int)[1] == s@[i as int + 1]);
        }
        out.push(b64_char(b0 >> 2));
        out.push(b64_char((b0 & 3) << 4 | (b1 >> 4)));
        out.push(b64_char((b1 & 15) << 2));
        out.push(61);
    } else {
        proof {
            assert(s@.skip(i as int) =~= Seq::<u8>::empty());
        }
    }
    proof {
        assert(out@ =~= old(out)@ + base64_of(s@));
    }
}

/// The decimal digits of a nonnegative number.
pub open spec fn dec_of(n: int) -> Seq<u8>
    decreases n,
{
    if n < 10 {
        seq![(48 + n) as u8]
    } else {
        dec_of(n / 10) + seq![(48 + n % 10) as u8]
    }
}

/// Appends the decimal digits of `n` to `out`.
fn push_dec(out: &mut Vec<u8>, n: u64)
    ensures
        final(out)@ == old(out)@ + dec_of(n as int),
    decreases n,
{
    if n < 10 {
        out.push(48 + n as u8);
        proof {
            assert(out@ =~= old(out)@ + dec_of(n as int));
        }
    } else {
        push_dec(out, n / 10);
        out.push(48 + (n % 10) as u8);
        proof {
            assert(out@ =~= old(out)@ + dec_of(n as int));
        }
    }
}

/// Appends the bytes of a slice to `out`.
fn push_bytes(out: &mut Vec<u8>, s: &[u8])
    ensures
        final(out)@ == old(out)@ + s@,
{
    let n: usize = s.len();
    let mut i: usize = 0;
    while i < n
        invariant
            n == s@.len(),
            i <= n,
            out@ == old(out)@ + s@.subrange(0, i as int),
        decreases n - i,
    {
        out.push(*slice_index_get(s, i));
        proof {
            assert(s@.subrange(0, i + 1) =~= s@.subrange(0, i as int) + seq![s@[i as int]]);
        }
        i += 1;
    }
    proof {
        assert(s@.subrange(0, n as int) =~= s@);
        assert(out@ =~= old(out)@ + s@);
    }
}

/// The whole SVG document: an `svg` element of the given pixel size
/// holding one `image` element with the PNG embedded as a base64 data
/// URI.
pub open spec fn svg_document_of(w: int, h: int, png: Seq<u8>) -> Seq<u8> {
    "<svg xmlns=\"http://www.w3.org/2000/svg\" width=\"".spec_bytes() + dec_of(w)
        + "\" height=\"".spec_bytes() + dec_of(h)
        + "\"><image width=\"".spec_bytes() + dec_of(w)
        + "\" height=\"".spec_bytes() + dec_of(h)
        + "\" href=\"data:image/png;base64,".spec_bytes() + base64_of(png)
        + "\"/></svg>".spec_bytes()
}

impl BitmapImage {
    /// Generates a standalone SVG document of the stroke: its image,
    /// PNG-encoded and embedded at the size of the stroke's bounds, with
    /// those bounds alongside. Every stroke with at least one pixel on
    /// each side yields a document; only a zero-sized image yields `None`.
    pub fn gen_svg(&self) -> (r: Option<Svg>)
        requires
            self.wf(),
        ensures
            self.image.pixel_width >= 1 && self.image.pixel_height >= 1 ==> r is Some,
            r matches Some(svg) ==> {
                &&& svg.bounds == self.rectangle.bounds_spec()
                &&& svg.svg_data@ == svg_document_of(
                    svg.bounds.maxs.x - svg.bounds.mins.x,
                    svg.bounds.maxs.y - svg.bounds.mins.y,
                    png_encoding_of(self.image.pixel_width, self.image.pixel_height,
                        self.image.data@),
                )
            },
    {
        let bounds = self.bounds();
        let png = match encode_png(&self.image) {
            Some(b) => b,
            None => {
                return None;
            }
        };
        proof {
            crate::geometry::lemma_rect_bounds_in_range(self.rectangle);
        }
        let w: u64 = (bounds.maxs.x - bounds.mins.x) as u64;
        let h: u64 = (bounds.maxs.y - bounds.mins.y) as u64;
        let mut data: Vec<u8> = Vec::new();
        push_bytes(&mut data, "<svg xmlns=\"http://www.w3.org/2000/svg\" width=\"".as_bytes());
        push_dec(&mut data, w);
        push_bytes(&mut data, "\" height=\"".as_bytes());
        push_dec(&mut data, h);
        push_bytes(&mut data, "\"><image width=\"".as_bytes());
        push_dec(&mut data, w);
        push_bytes(&mut data, "\" height=\"".as_bytes());
        push_dec(&mut data, h);
        push_bytes(&mut data, "\" href=\"data:image/png;base64,".as_bytes());
        push_base64(&mut data, png.as_slice());
        push_bytes(&mut data, "\"/></svg>".as_bytes());
        Some(Svg { svg_data: data, bounds })
    }
}

} // verus!
