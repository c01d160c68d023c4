use image::ImageEncoder;
use rnote_engine::export::{
    create_doc_export_prefs_from_args, get_export_format, DocExportFormat, DocExportPrefs,
    ExportPrefsError,
};
use rnote_engine::geometry::Vec2;
use rnote_engine::import::{
    plan_pdf_import, strokes_from_page_outcomes, Format, PageRenderOutcome, PdfImportPageSpacing,
    PdfImportPrefs, PdfPageSize,
};
use rnote_engine::render::{ImageImportError, MemoryFormat};
use rnote_engine::stroke::BitmapImage;

fn png_bytes(w: u32, h: u32, px: [u8; 4]) -> Vec<u8> {
    let mut data = Vec::new();
    for _ in 0..(w * h) {
        data.extend_from_slice(&px);
    }
    let mut out = Vec::new();
    image::codecs::png::PngEncoder::new(&mut out)
        .write_image(&data, w, h, image::ExtendedColorType::Rgba8)
        .unwrap();
    out
}

#[test]
fn import_without_size_uses_decoded_pixel_dimensions() {
    let bytes = png_bytes(5, 3, [10, 20, 30, 255]);
    let stroke = BitmapImage::import_from_image_bytes(&bytes, Vec2::new(7, 9), None).unwrap();
    assert_eq!(stroke.image.pixel_width, 5);
    assert_eq!(stroke.image.pixel_height, 3);
    assert_eq!(stroke.image.memory_format, MemoryFormat::Rgba8Premultiplied);
    // The decoded pixel size is the document-space size, one unit per pixel.
    assert_eq!(stroke.rectangle.extents, Vec2::new(5, 3));
    let b = stroke.bounds();
    assert_eq!(b.mins, Vec2::new(7, 9));
    assert_eq!(b.maxs, Vec2::new(12, 12));
}

#[test]
fn import_with_explicit_size_keeps_it() {
    let bytes = png_bytes(5, 3, [10, 20, 30, 255]);
    let stroke =
        BitmapImage::import_from_image_bytes(&bytes, Vec2::new(0, 0), Some(Vec2::new(50, 30)))
            .unwrap();
    assert_eq!(stroke.rectangle.extents, Vec2::new(50, 30));
    let b = stroke.bounds();
    assert_eq!(b.maxs, Vec2::new(50, 30));
}

#[test]
fn import_roundtrips_pixels_through_png() {
    // Alpha 255 keeps premultiplication the identity, so the decoded
    // buffer must equal the encoded one byte for byte.
    let bytes = png_bytes(4, 4, [11, 22, 33, 255]);
    let stroke = BitmapImage::import_from_image_bytes(&bytes, Vec2::new(0, 0), None).unwrap();
    for p in 0..16 {
        assert_eq!(&stroke.image.data[4 * p..4 * p + 4], &[11, 22, 33, 255]);
    }
}

#[test]
fn import_rejects_undecodable_bytes() {
    let err = BitmapImage::import_from_image_bytes(&[1, 2, 3], Vec2::new(0, 0), None).unwrap_err();
    assert_eq!(err, ImageImportError::DecodeFailed);
}

fn prefs(spacing: PdfImportPageSpacing) -> PdfImportPrefs {
    PdfImportPrefs { page_width_perc: 100, bitmap_scalefactor: 2, page_spacing: spacing }
}

fn fmt() -> Format {
    Format { width: 100, height: 100 }
}

#[test]
fn plan_out_of_range_is_empty_not_an_error() {
    let pages = vec![
        PdfPageSize { width: 100, height: 50 },
        PdfPageSize { width: 100, height: 50 },
        PdfPageSize { width: 100, height: 50 },
    ];
    let plan = plan_pdf_import(
        &pages,
        prefs(PdfImportPageSpacing::Continuous),
        Vec2::new(0, 0),
        Some((10, 20)),
        &fmt(),
    );
    assert!(plan.is_empty());

    let none = plan_pdf_import(
        &Vec::new(),
        prefs(PdfImportPageSpacing::Continuous),
        Vec2::new(0, 0),
        None,
        &fmt(),
    );
    assert!(none.is_empty());
}

#[test]
fn plan_one_per_document_page_places_fixed_slots() {
    // Pages of very different heights; the slot height is the document's.
    let pages = vec![
        PdfPageSize { width: 100, height: 30 },
        PdfPageSize { width: 100, height: 500 },
        PdfPageSize { width: 100, height: 7 },
    ];
    let plan = plan_pdf_import(
        &pages,
        prefs(PdfImportPageSpacing::OnePerDocumentPage),
        Vec2::new(3, 5),
        None,
        &fmt(),
    );
    assert_eq!(plan.len(), 3);
    for (k, entry) in plan.iter().enumerate() {
        assert_eq!(entry.page_index, k as u32);
        assert_eq!(entry.pos, Vec2::new(3, 5 + 100 * k as i64));
    }
}

#[test]
fn plan_continuous_spacing_follows_page_heights() {
    // Zoom is 1: the first page's width equals 100% of the document width.
    let pages = vec![
        PdfPageSize { width: 100, height: 30 },
        PdfPageSize { width: 100, height: 40 },
    ];
    let plan = plan_pdf_import(
        &pages,
        prefs(PdfImportPageSpacing::Continuous),
        Vec2::new(0, 0),
        None,
        &fmt(),
    );
    assert_eq!(plan.len(), 2);
    assert_eq!(plan[0].pos, Vec2::new(0, 0));
    assert_eq!(plan[0].size, Vec2::new(100, 30));
    // Second page: first height plus half the default import offset.
    assert_eq!(plan[1].pos, Vec2::new(0, 30 + 16));
    assert_eq!(plan[1].size, Vec2::new(100, 40));
    assert_eq!(plan[0].render_size, Some((200, 60)));
}

#[test]
fn plan_zoom_comes_from_first_page_width() {
    // The first page is twice the target width, so everything halves,
    // later pages included, whatever their own widths are.
    let pages = vec![
        PdfPageSize { width: 200, height: 100 },
        PdfPageSize { width: 400, height: 100 },
    ];
    let plan = plan_pdf_import(
        &pages,
        prefs(PdfImportPageSpacing::Continuous),
        Vec2::new(0, 0),
        None,
        &fmt(),
    );
    assert_eq!(plan[0].size, Vec2::new(100, 50));
    assert_eq!(plan[1].size, Vec2::new(200, 50));
}

#[test]
fn failed_page_is_skipped_and_siblings_survive() {
    let good = png_bytes(4, 4, [1, 2, 3, 255]);
    let outcomes = vec![
        PageRenderOutcome {
            pos: Vec2::new(0, 0),
            size: Vec2::new(4, 4),
            rendered: Some(good.clone()),
        },
        // This page failed to render.
        PageRenderOutcome { pos: Vec2::new(0, 10), size: Vec2::new(4, 4), rendered: None },
        PageRenderOutcome {
            pos: Vec2::new(0, 20),
            size: Vec2::new(4, 4),
            rendered: Some(good.clone()),
        },
    ];
    let strokes = strokes_from_page_outcomes(outcomes);
    assert_eq!(strokes.len(), 2);
    assert_eq!(strokes[0].bounds().mins, Vec2::new(0, 0));
    assert_eq!(strokes[1].bounds().mins, Vec2::new(0, 20));
}

#[test]
fn undecodable_page_is_skipped_too() {
    let good = png_bytes(4, 4, [1, 2, 3, 255]);
    let outcomes = vec![
        PageRenderOutcome {
            pos: Vec2::new(0, 0),
            size: Vec2::new(4, 4),
            rendered: Some(vec![0xde, 0xad]),
        },
        PageRenderOutcome { pos: Vec2::new(0, 10), size: Vec2::new(4, 4), rendered: Some(good) },
    ];
    let strokes = strokes_from_page_outcomes(outcomes);
    assert_eq!(strokes.len(), 1);
    assert_eq!(strokes[0].bounds().mins, Vec2::new(0, 10));
}

#[test]
fn export_format_from_name() {
    assert_eq!(get_export_format("svg").unwrap(), DocExportFormat::Svg);
    assert_eq!(get_export_format("xopp").unwrap(), DocExportFormat::Xopp);
    assert_eq!(get_export_format("pdf").unwrap(), DocExportFormat::Pdf);
    assert_eq!(get_export_format("docx").unwrap_err(), ExportPrefsError::UnsupportedExtension);
    assert_eq!(DocExportFormat::Pdf.file_ext(), "pdf");
}

#[test]
fn prefs_from_output_file_extension() {
    let prefs = create_doc_export_prefs_from_args(Some("dir/notes.pdf"), None, None, None).unwrap();
    assert_eq!(
        prefs,
        DocExportPrefs {
            export_format: DocExportFormat::Pdf,
            with_background: true,
            with_pattern: true
        }
    );
}

#[test]
fn prefs_argument_conflicts_are_rejected() {
    assert_eq!(
        create_doc_export_prefs_from_args(Some("a.svg"), Some("pdf"), None, None).unwrap_err(),
        ExportPrefsError::ConflictingArguments
    );
    assert_eq!(
        create_doc_export_prefs_from_args(None, None, None, None).unwrap_err(),
        ExportPrefsError::MissingArgument
    );
    assert_eq!(
        create_doc_export_prefs_from_args(Some("notes"), None, None, None).unwrap_err(),
        ExportPrefsError::NoFileExtension
    );
    assert_eq!(
        create_doc_export_prefs_from_args(Some("dir/.hidden"), None, None, None).unwrap_err(),
        ExportPrefsError::NoFileExtension
    );
}

#[test]
fn prefs_switches_override_defaults() {
    let prefs =
        create_doc_export_prefs_from_args(None, Some("svg"), Some(false), Some(false)).unwrap();
    assert_eq!(prefs.export_format, DocExportFormat::Svg);
    assert!(!prefs.with_background);
    assert!(!prefs.with_pattern);
}

#[test]
fn error_messages_name_the_offending_extension() {
    let err = get_export_format("docx").unwrap_err();
    assert_eq!(
        err.message("docx"),
        "Could not create doc export prefs, unsupported export file extension `docx`"
    );
    assert_eq!(
        ExportPrefsError::MissingArgument.message(""),
        "--output-file or --output-format is required."
    );
    assert_eq!(
        ExportPrefsError::ConflictingArguments.message(""),
        "--output-file and --output-format are mutually exclusive."
    );
    assert_eq!(
        ExportPrefsError::NoFileExtension.message(""),
        "Output file needs to have an extension to determine the file type"
    );
}

#[test]
fn trailing_separators_do_not_hide_the_extension() {
    let prefs = create_doc_export_prefs_from_args(Some("notes.svg/"), None, None, None).unwrap();
    assert_eq!(prefs.export_format, DocExportFormat::Svg);
    let prefs = create_doc_export_prefs_from_args(Some("dir/notes.pdf//"), None, None, None).unwrap();
    assert_eq!(prefs.export_format, DocExportFormat::Pdf);
}

#[test]
fn wide_decodable_images_import() {
    // A 20000x10 raster is wider than any tile surface, yet it decodes,
    // so the importer must accept it.
    let bytes = png_bytes(20000, 10, [1, 2, 3, 255]);
    let stroke = BitmapImage::import_from_image_bytes(&bytes, Vec2::new(0, 0), None).unwrap();
    assert_eq!(stroke.image.pixel_width, 20000);
    assert_eq!(stroke.rectangle.extents, Vec2::new(20000, 10));
}
