use image::ImageEncoder;
use rnote_engine::geometry::{Aabb, Rectangle, Transform, Vec2};
use rnote_engine::render::{Image, MemoryFormat, RasterDecodeError};
use rnote_engine::stroke::{BitmapImage, GeneratedStrokeImages, RenderError};

fn solid_image(w: u32, h: u32, px: [u8; 4]) -> Image {
    let mut data = Vec::new();
    for _ in 0..(w * h) {
        data.extend_from_slice(&px);
    }
    Image {
        pixel_width: w,
        pixel_height: h,
        memory_format: MemoryFormat::Rgba8Premultiplied,
        data,
        rect: Aabb::new(Vec2::new(0, 0), Vec2::new(w as i64, h as i64)),
    }
}

fn stroke_at(pos: Vec2, w: u32, h: u32, px: [u8; 4]) -> BitmapImage {
    BitmapImage {
        image: solid_image(w, h, px),
        rectangle: Rectangle::new(Vec2::new(w as i64, h as i64), Transform::translation(pos)),
    }
}

#[test]
fn bounds_come_from_rectangle_not_image_metadata() {
    let mut stroke = stroke_at(Vec2::new(10, 10), 4, 4, [10, 20, 30, 255]);
    // Deliberately absurd informational bounds on the image itself.
    stroke.image.rect = Aabb::new(Vec2::new(-999, -999), Vec2::new(999, 999));
    let b = stroke.bounds();
    assert_eq!(b.mins, Vec2::new(10, 10));
    assert_eq!(b.maxs, Vec2::new(14, 14));
    assert_eq!(stroke.hitboxes(), vec![b]);
}

#[test]
fn gen_images_full_when_viewport_contains_bounds() {
    let stroke = stroke_at(Vec2::new(10, 10), 4, 4, [10, 20, 30, 255]);
    let viewport = Aabb::new(Vec2::new(0, 0), Vec2::new(100, 100));
    match stroke.gen_images(viewport, 1).unwrap() {
        GeneratedStrokeImages::Full(imgs) => {
            assert_eq!(imgs.len(), 1);
            let img = &imgs[0];
            assert_eq!(img.rect, Aabb::new(Vec2::new(10, 10), Vec2::new(14, 14)));
            assert_eq!(img.pixel_width, 4);
            assert_eq!(img.pixel_height, 4);
            // The stroke's pixels cover the whole tile.
            for p in 0..16 {
                assert_eq!(&img.data[4 * p..4 * p + 4], &[10, 20, 30, 255]);
            }
        }
        GeneratedStrokeImages::Partial { .. } => panic!("expected a full render"),
    }
}

#[test]
fn gen_images_partial_covers_exactly_the_intersection() {
    let stroke = stroke_at(Vec2::new(10, 10), 4, 4, [10, 20, 30, 255]);
    let viewport = Aabb::new(Vec2::new(12, 12), Vec2::new(20, 20));
    match stroke.gen_images(viewport, 1).unwrap() {
        GeneratedStrokeImages::Partial { images, viewport: vp } => {
            assert_eq!(vp, viewport);
            assert_eq!(images.len(), 1);
            let img = &images[0];
            assert_eq!(img.rect, Aabb::new(Vec2::new(12, 12), Vec2::new(14, 14)));
            assert_eq!(img.pixel_width, 2);
            assert_eq!(img.pixel_height, 2);
        }
        GeneratedStrokeImages::Full(_) => panic!("expected a partial render"),
    }
}

#[test]
fn gen_images_empty_partial_when_no_intersection() {
    let stroke = stroke_at(Vec2::new(10, 10), 4, 4, [10, 20, 30, 255]);
    let viewport = Aabb::new(Vec2::new(500, 500), Vec2::new(600, 600));
    match stroke.gen_images(viewport, 1).unwrap() {
        GeneratedStrokeImages::Partial { images, viewport: vp } => {
            assert_eq!(vp, viewport);
            assert!(images.is_empty());
        }
        GeneratedStrokeImages::Full(_) => panic!("expected an empty partial render"),
    }
}

#[test]
fn gen_images_rejects_unpremultiplied_sources() {
    let mut stroke = stroke_at(Vec2::new(10, 10), 4, 4, [10, 20, 30, 255]);
    stroke.image.memory_format = MemoryFormat::Rgba8;
    let viewport = Aabb::new(Vec2::new(0, 0), Vec2::new(100, 100));
    assert_eq!(
        stroke.gen_images(viewport, 1).unwrap_err(),
        RenderError::UnsupportedImageFormat
    );
}

#[test]
fn gen_images_rejects_oversized_tiles() {
    let stroke = stroke_at(Vec2::new(0, 0), 4, 4, [10, 20, 30, 255]);
    let mut big = stroke;
    big.rectangle = Rectangle::new(Vec2::new(1_000_000, 4), Transform::identity());
    let viewport = Aabb::new(Vec2::new(-1, -1), Vec2::new(2_000_000, 10));
    assert_eq!(big.gen_images(viewport, 1).unwrap_err(), RenderError::ImageTooLarge);
}

#[test]
fn convert_premultiplies_channels() {
    let mut img = Image {
        pixel_width: 1,
        pixel_height: 1,
        memory_format: MemoryFormat::Rgba8,
        data: vec![100, 200, 255, 128],
        rect: Aabb::new(Vec2::new(0, 0), Vec2::new(1, 1)),
    };
    img.convert_to_rgba8pre();
    assert_eq!(img.memory_format, MemoryFormat::Rgba8Premultiplied);
    // c * a / 255, rounded down: 100*128/255 = 50, 200*128/255 = 100.
    assert_eq!(img.data, vec![50, 100, 128, 128]);
}

#[test]
fn container_roundtrip_is_lossless() {
    let img = solid_image(3, 2, [1, 2, 3, 4]);
    let bytes = img.encode_container();
    let back = Image::decode_container(&bytes).unwrap();
    assert_eq!(back.pixel_width, 3);
    assert_eq!(back.pixel_height, 2);
    assert_eq!(back.memory_format, MemoryFormat::Rgba8Premultiplied);
    assert_eq!(back.data, img.data);
}

#[test]
fn container_decode_rejects_malformed_bytes() {
    let img = solid_image(2, 2, [9, 9, 9, 9]);
    let good = img.encode_container();

    assert_eq!(Image::decode_container(&good[..5]).unwrap_err(), RasterDecodeError::TooShort);

    let mut bad_magic = good.clone();
    bad_magic[0] = 0;
    assert_eq!(Image::decode_container(&bad_magic).unwrap_err(), RasterDecodeError::BadMagic);

    let mut bad_format = good.clone();
    bad_format[12] = 77;
    assert_eq!(Image::decode_container(&bad_format).unwrap_err(), RasterDecodeError::BadFormat);

    let mut truncated = good.clone();
    truncated.pop();
    assert_eq!(
        Image::decode_container(&truncated).unwrap_err(),
        RasterDecodeError::LengthMismatch
    );

    let mut huge = good.clone();
    huge[4] = 0xff;
    huge[5] = 0xff;
    huge[6] = 0xff;
    huge[7] = 0xff;
    assert_eq!(Image::decode_container(&huge).unwrap_err(), RasterDecodeError::BadDimensions);
}

#[test]
fn draw_leaves_context_state_restored_on_every_exit() {
    let stroke = stroke_at(Vec2::new(1, 1), 2, 2, [5, 6, 7, 255]);
    let region = Aabb::new(Vec2::new(0, 0), Vec2::new(4, 4));
    let mut cx = rnote_engine::stroke::DrawContext {
        region,
        scale: 1,
        tile: Image {
            pixel_width: 4,
            pixel_height: 4,
            memory_format: MemoryFormat::Rgba8Premultiplied,
            data: vec![0; 64],
            rect: region,
        },
        transform: Transform::identity(),
        saved: Vec::new(),
    };
    assert!(stroke.draw(&mut cx).is_ok());
    // The transform state is restored after a successful draw.
    assert_eq!(cx.transform, Transform::identity());
    assert!(cx.saved.is_empty());

    // An error exit restores the state too and leaves the tile untouched.
    let before = cx.tile.data.clone();
    let mut bad = stroke_at(Vec2::new(1, 1), 2, 2, [5, 6, 7, 255]);
    bad.image.memory_format = MemoryFormat::Rgba8;
    assert_eq!(bad.draw(&mut cx).unwrap_err(), RenderError::UnsupportedImageFormat);
    assert_eq!(cx.transform, Transform::identity());
    assert!(cx.saved.is_empty());
    assert_eq!(cx.tile.data, before);
}

fn base64_reference(s: &[u8]) -> String {
    const TABLE: &[u8; 64] = b"ABCDEFGHIJKLMNOPQRSTUVWXYZabcdefghijklmnopqrstuvwxyz0123456789+/";
    let mut out = String::new();
    for chunk in s.chunks(3) {
        let b = [chunk[0], *chunk.get(1).unwrap_or(&0), *chunk.get(2).unwrap_or(&0)];
        let idx = [
            b[0] >> 2,
            (b[0] & 3) << 4 | b[1] >> 4,
            (b[1] & 15) << 2 | b[2] >> 6,
            b[2] & 63,
        ];
        let digits = match chunk.len() {
            1 => 2,
            2 => 3,
            _ => 4,
        };
        for (k, i) in idx.iter().enumerate() {
            if k < digits {
                out.push(TABLE[*i as usize] as char);
            } else {
                out.push('=');
            }
        }
    }
    out
}

#[test]
fn gen_svg_embeds_the_png_as_base64() {
    let stroke = stroke_at(Vec2::new(3, 4), 2, 2, [10, 20, 30, 255]);
    let svg = stroke.gen_svg().unwrap();
    assert_eq!(svg.bounds, stroke.bounds());

    let mut png = Vec::new();
    image::codecs::png::PngEncoder::new(&mut png)
        .write_image(&stroke.image.data, 2, 2, image::ExtendedColorType::Rgba8)
        .unwrap();
    let expected = format!(
        "<svg xmlns=\"http://www.w3.org/2000/svg\" width=\"2\" height=\"2\">\
         <image width=\"2\" height=\"2\" href=\"data:image/png;base64,{}\"/></svg>",
        base64_reference(&png)
    );
    assert_eq!(String::from_utf8(svg.svg_data).unwrap(), expected);
}

#[test]
fn gen_images_renders_rotated_strokes() {
    // A 2x1 image [A|B], rotated a quarter turn about the origin: the
    // tile is 1x2 with A on top of B.
    let a = [1, 2, 3, 255];
    let b = [9, 8, 7, 255];
    let mut data = Vec::new();
    data.extend_from_slice(&a);
    data.extend_from_slice(&b);
    let mut stroke = BitmapImage {
        image: Image {
            pixel_width: 2,
            pixel_height: 1,
            memory_format: MemoryFormat::Rgba8Premultiplied,
            data,
            rect: Aabb::new(Vec2::new(0, 0), Vec2::new(2, 1)),
        },
        rectangle: Rectangle::new(Vec2::new(2, 1), Transform::identity()),
    };
    assert!(stroke.rotate(0, rnote_engine::geometry::TF_UNIT, Vec2::new(0, 0)));
    let bounds = stroke.bounds();
    assert_eq!(bounds, Aabb::new(Vec2::new(-1, 0), Vec2::new(0, 2)));

    let viewport = Aabb::new(Vec2::new(-10, -10), Vec2::new(10, 10));
    match stroke.gen_images(viewport, 1).unwrap() {
        GeneratedStrokeImages::Full(imgs) => {
            let img = &imgs[0];
            assert_eq!(img.pixel_width, 1);
            assert_eq!(img.pixel_height, 2);
            assert_eq!(&img.data[0..4], &a);
            assert_eq!(&img.data[4..8], &b);
        }
        GeneratedStrokeImages::Partial { .. } => panic!("expected a full render"),
    }
}

#[test]
fn gen_images_renders_mirrored_strokes() {
    // A 2x1 image [A|B], mirrored across the y axis: B comes out left.
    let a = [1, 2, 3, 255];
    let b = [9, 8, 7, 255];
    let mut data = Vec::new();
    data.extend_from_slice(&a);
    data.extend_from_slice(&b);
    let mut stroke = BitmapImage {
        image: Image {
            pixel_width: 2,
            pixel_height: 1,
            memory_format: MemoryFormat::Rgba8Premultiplied,
            data,
            rect: Aabb::new(Vec2::new(0, 0), Vec2::new(2, 1)),
        },
        rectangle: Rectangle::new(Vec2::new(2, 1), Transform::identity()),
    };
    assert!(stroke.scale(-rnote_engine::geometry::TF_UNIT, rnote_engine::geometry::TF_UNIT));
    let bounds = stroke.bounds();
    assert_eq!(bounds, Aabb::new(Vec2::new(-2, 0), Vec2::new(0, 1)));

    let viewport = Aabb::new(Vec2::new(-10, -10), Vec2::new(10, 10));
    match stroke.gen_images(viewport, 1).unwrap() {
        GeneratedStrokeImages::Full(imgs) => {
            let img = &imgs[0];
            assert_eq!(img.pixel_width, 2);
            assert_eq!(img.pixel_height, 1);
            assert_eq!(&img.data[0..4], &b);
            assert_eq!(&img.data[4..8], &a);
        }
        GeneratedStrokeImages::Partial { .. } => panic!("expected a full render"),
    }
}

#[test]
fn gen_images_rejects_degenerate_transforms() {
    let mut stroke = stroke_at(Vec2::new(0, 0), 2, 2, [5, 6, 7, 255]);
    // Scaling one axis by zero collapses the stroke; the map has no inverse.
    assert!(stroke.scale(0, rnote_engine::geometry::TF_UNIT));
    let viewport = Aabb::new(Vec2::new(-10, -10), Vec2::new(10, 10));
    assert_eq!(
        stroke.gen_images(viewport, 1).unwrap_err(),
        RenderError::UnsupportedTransform
    );
}
