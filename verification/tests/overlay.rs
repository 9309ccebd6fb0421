use fill_pdf::renderer::PdfFieldRenderer;
use fill_pdf::types::{
    Alignment, FieldData, FieldValue, ImageFitMode, ImageSource, PdfDocument, PdfPageInfo,
};

fn contains(hay: &[u8], needle: &[u8]) -> bool {
    if needle.is_empty() {
        return true;
    }
    if hay.len() < needle.len() {
        return false;
    }
    for i in 0..=(hay.len() - needle.len()) {
        if &hay[i..i + needle.len()] == needle {
            return true;
        }
    }
    false
}

fn a4() -> PdfDocument {
    PdfDocument {
        pages: vec![PdfPageInfo { width: 595000, height: 842000, page_number: 0 }],
    }
}

fn text_field(id: &str, text: &str) -> FieldData {
    FieldData {
        field_id: id.to_string(),
        page: 0,
        x: 50000,
        y: 700000,
        width: 200000,
        height: 20000,
        value: FieldValue::Text(text.to_string()),
        font_size: Some(12000),
        alignment: None,
        vertical_alignment: None,
        fit_mode: None,
        text_overflow: None,
    }
}

fn png_bytes(w: u32, h: u32) -> Vec<u8> {
    let img = image::RgbImage::new(w, h);
    let mut buf = std::io::Cursor::new(Vec::new());
    img.write_to(&mut buf, image::ImageFormat::Png).unwrap();
    buf.into_inner()
}

#[test]
fn simple_text_field_lands_at_converted_position() {
    let fields = vec![text_field("name", "Jane Doe")];
    let (bytes, meta) = PdfFieldRenderer::new().create_populated_form(&fields, &a4());
    // y = 842 - 700 - 20 = 122, x = 50, no alignment shift
    assert!(contains(&bytes, b"BT\n0 0 0 rg\n/F1 12 Tf\n50 122 Td\n(Jane Doe) Tj\nET\n"));
    assert_eq!(meta.fields_processed, 1);
    assert_eq!(meta.fields_skipped, 0);
    assert!(meta.warnings.is_empty());
    assert!(meta.errors.is_empty());
    assert_eq!(meta.pages.len(), 1);
    assert_eq!(meta.pages[0].page_number, 0);
    assert_eq!(meta.pages[0].width, 595000);
    assert_eq!(meta.pages[0].height, 842000);
    assert_eq!(meta.pages[0].fields_count, 1);
}

#[test]
fn output_is_a_pdf_document() {
    let fields = vec![text_field("name", "Jane Doe")];
    let (bytes, _) = PdfFieldRenderer::new().create_populated_form(&fields, &a4());
    assert!(bytes.starts_with(b"%PDF-1.7\n"));
    assert!(bytes.ends_with(b"%%EOF"));
    assert!(contains(&bytes, b"xref\n0 7\n0000000000 65535 f \n"));
    assert!(contains(&bytes, b"/Type /Catalog /Pages 3 0 R"));
    assert!(contains(&bytes, b"/Type /Pages /Kids [5 0 R ] /Count 1"));
    assert!(contains(&bytes, b"/BaseFont /Helvetica"));
    assert!(contains(&bytes, b"/BaseFont /ZapfDingbats"));
}

#[test]
fn rendering_twice_is_byte_identical() {
    let fields = vec![
        text_field("a", "hello"),
        FieldData { value: FieldValue::Checkbox(true), ..text_field("b", "") },
        FieldData {
            value: FieldValue::Image(ImageSource::Inline(png_bytes(8, 4))),
            ..text_field("c", "")
        },
    ];
    let (b1, m1) = PdfFieldRenderer::new().create_populated_form(&fields, &a4());
    let (b2, m2) = PdfFieldRenderer::new().create_populated_form(&fields, &a4());
    assert_eq!(b1, b2);
    assert_eq!(m1.fields_processed, m2.fields_processed);
    assert_eq!(m1.warnings, m2.warnings);
}

#[test]
fn missing_page_is_skipped_with_warning() {
    // a field on page index 5 when the template has 3 pages
    let doc = PdfDocument {
        pages: (0..3)
            .map(|i| PdfPageInfo { width: 595000, height: 842000, page_number: i })
            .collect(),
    };
    let fields = vec![FieldData { page: 5, ..text_field("ghost", "boo") }];
    let (_, meta) = PdfFieldRenderer::new().create_populated_form(&fields, &doc);
    assert_eq!(meta.fields_skipped, 1);
    assert_eq!(meta.fields_processed, 0);
    assert_eq!(meta.warnings.len(), 1);
    assert_eq!(meta.warnings[0], "Page 5 not found in template");
    assert!(meta.errors.is_empty());
    assert!(meta.pages.is_empty());
}

#[test]
fn empty_pages_are_omitted_from_the_overlay() {
    // template pages [no fields, fields, no fields]: the overlay holds
    // one page only, and the merge-by-index contract is left to the
    // compositor
    let doc = PdfDocument {
        pages: (0..3)
            .map(|i| PdfPageInfo { width: 595000, height: 842000, page_number: i })
            .collect(),
    };
    let fields = vec![FieldData { page: 1, ..text_field("mid", "x") }];
    let (bytes, meta) = PdfFieldRenderer::new().create_populated_form(&fields, &doc);
    assert!(contains(&bytes, b"/Count 1"));
    assert_eq!(meta.pages.len(), 1);
    assert_eq!(meta.pages[0].page_number, 1);
}

#[test]
fn checkbox_true_selects_yes_and_binds_both_appearances() {
    let fields = vec![FieldData { value: FieldValue::Checkbox(true), ..text_field("cb", "") }];
    let (bytes, meta) = PdfFieldRenderer::new().create_populated_form(&fields, &a4());
    assert!(contains(&bytes, b"/FT /Btn /T (cb)"));
    assert!(contains(&bytes, b"/AS /Yes"));
    assert!(contains(&bytes, b"/AP << /N << /Yes 7 0 R /Off 8 0 R >> >>"));
    // the "on" appearance draws the check-mark glyph, the "off" one nothing
    assert!(contains(&bytes, b"BT\n/F2 14 Tf\n(4) Tj\nET\n"));
    assert!(contains(&bytes, b"/Length 0 >>\nstream\n\nendstream"));
    assert!(contains(&bytes, b"/AcroForm << /Fields [6 0 R ] >>"));
    assert_eq!(meta.fields_processed, 1);
}

#[test]
fn checkbox_false_selects_off_but_keeps_both_appearances() {
    let fields = vec![FieldData { value: FieldValue::Checkbox(false), ..text_field("cb", "") }];
    let (bytes, _) = PdfFieldRenderer::new().create_populated_form(&fields, &a4());
    assert!(contains(&bytes, b"/AS /Off"));
    assert!(!contains(&bytes, b"/AS /Yes"));
    assert!(contains(&bytes, b"/AP << /N << /Yes 7 0 R /Off 8 0 R >> >>"));
    assert!(contains(&bytes, b"BT\n/F2 14 Tf\n(4) Tj\nET\n"));
}

#[test]
fn radio_is_flagged_and_always_on() {
    let fields = vec![
        FieldData { value: FieldValue::Radio("opt-a".to_string()), ..text_field("rd", "") },
    ];
    let (bytes, _) = PdfFieldRenderer::new().create_populated_form(&fields, &a4());
    assert!(contains(&bytes, b"/Ff 49152"));
    assert!(contains(&bytes, b"/AS /Yes"));
    // the "on" appearance draws the filled-circle glyph
    assert!(contains(&bytes, b"BT\n/F2 14 Tf\n(l) Tj\nET\n"));
}

#[test]
fn scale_down_centers_a_smaller_image_unscaled() {
    // box 100 x 100, natural image 50 x 40: unscaled, offsets (25, 30)
    let doc = PdfDocument {
        pages: vec![PdfPageInfo { width: 200000, height: 200000, page_number: 0 }],
    };
    let fields = vec![FieldData {
        x: 0,
        y: 0,
        width: 100000,
        height: 100000,
        value: FieldValue::Image(ImageSource::Inline(png_bytes(50, 40))),
        fit_mode: Some(ImageFitMode::ScaleDown),
        ..text_field("img", "")
    }];
    let (bytes, meta) = PdfFieldRenderer::new().create_populated_form(&fields, &doc);
    // pdf_y = 200 - 0 - 100 = 100; draw at (0 + 25, 100 + 30)
    assert!(contains(&bytes, b"q\n50 0 0 40 25 130 cm\n/Im6 Do\nQ\n"));
    assert!(contains(&bytes, b"/Subtype /Image /Width 50 /Height 40"));
    assert!(contains(&bytes, b"/ColorSpace /DeviceRGB /BitsPerComponent 8"));
    assert_eq!(meta.fields_processed, 1);
}

#[test]
fn contain_scales_to_the_limiting_axis() {
    // box 100 x 100, image 50 x 40: scale = 2 (min of 2 and 2.5)
    let doc = PdfDocument {
        pages: vec![PdfPageInfo { width: 200000, height: 200000, page_number: 0 }],
    };
    let fields = vec![FieldData {
        x: 0,
        y: 0,
        width: 100000,
        height: 100000,
        value: FieldValue::Image(ImageSource::Inline(png_bytes(50, 40))),
        fit_mode: Some(ImageFitMode::Contain),
        ..text_field("img", "")
    }];
    let (bytes, _) = PdfFieldRenderer::new().create_populated_form(&fields, &doc);
    // w = 100, h = 80, centered: ox = 0, oy = 10; y = 100 + 10 = 110
    assert!(contains(&bytes, b"q\n100 0 0 80 0 110 cm\n/Im6 Do\nQ\n"));
}

#[test]
fn cover_scales_to_the_larger_ratio() {
    // box 100 x 100, image 50 x 40: scale = 2.5 (max of 2 and 2.5)
    let doc = PdfDocument {
        pages: vec![PdfPageInfo { width: 200000, height: 200000, page_number: 0 }],
    };
    let fields = vec![FieldData {
        x: 0,
        y: 0,
        width: 100000,
        height: 100000,
        value: FieldValue::Image(ImageSource::Inline(png_bytes(50, 40))),
        fit_mode: Some(ImageFitMode::Cover),
        ..text_field("img", "")
    }];
    let (bytes, _) = PdfFieldRenderer::new().create_populated_form(&fields, &doc);
    // w = 125, h = 100, ox = -12.5, oy = 0; y = 100
    assert!(contains(&bytes, b"q\n125 0 0 100 -12.5 100 cm\n/Im6 Do\nQ\n"));
}

#[test]
fn fill_stretches_to_the_box() {
    let doc = PdfDocument {
        pages: vec![PdfPageInfo { width: 200000, height: 200000, page_number: 0 }],
    };
    let fields = vec![FieldData {
        x: 10000,
        y: 0,
        width: 100000,
        height: 60000,
        value: FieldValue::Image(ImageSource::Inline(png_bytes(50, 40))),
        fit_mode: Some(ImageFitMode::Fill),
        ..text_field("img", "")
    }];
    let (bytes, _) = PdfFieldRenderer::new().create_populated_form(&fields, &doc);
    // pdf_y = 200 - 0 - 60 = 140
    assert!(contains(&bytes, b"q\n100 0 0 60 10 140 cm\n/Im6 Do\nQ\n"));
}

#[test]
fn image_is_embedded_once_per_field_identifier() {
    let png = png_bytes(8, 8);
    let same = FieldData {
        value: FieldValue::Image(ImageSource::Inline(png.clone())),
        ..text_field("logo", "")
    };
    let fields = vec![same.clone(), FieldData { y: 100000, ..same.clone() }];
    let (bytes, meta) = PdfFieldRenderer::new().create_populated_form(&fields, &a4());
    let image_count = (0..bytes.len())
        .filter(|&i| bytes[i..].starts_with(b"/Subtype /Image"))
        .count();
    assert_eq!(image_count, 1);
    assert_eq!(meta.fields_processed, 2);

    // two fields with distinct identifiers embed twice
    let fields2 = vec![same.clone(), FieldData {
        field_id: "logo2".to_string(),
        ..same.clone()
    }];
    let (bytes2, _) = PdfFieldRenderer::new().create_populated_form(&fields2, &a4());
    let image_count2 = (0..bytes2.len())
        .filter(|&i| bytes2[i..].starts_with(b"/Subtype /Image"))
        .count();
    assert_eq!(image_count2, 2);
}

#[test]
fn undecodable_image_is_an_error_and_skip() {
    let fields = vec![FieldData {
        value: FieldValue::Image(ImageSource::Inline(vec![1, 2, 3, 4])),
        ..text_field("bad", "")
    }];
    let (_, meta) = PdfFieldRenderer::new().create_populated_form(&fields, &a4());
    assert_eq!(meta.fields_processed, 0);
    assert_eq!(meta.fields_skipped, 1);
    assert_eq!(meta.errors.len(), 1);
    assert_eq!(meta.errors[0], "Failed to embed image bad");
}

#[test]
fn unresolved_remote_image_is_a_warning_and_skip() {
    let fields = vec![FieldData {
        value: FieldValue::Image(ImageSource::Remote(fill_pdf::types::UrlConfig {
            url: "https://example.test/img.png".to_string(),
            method: None,
            headers: Vec::new(),
            body: None,
        })),
        ..text_field("remote", "")
    }];
    let (_, meta) = PdfFieldRenderer::new().create_populated_form(&fields, &a4());
    assert_eq!(meta.fields_skipped, 1);
    assert_eq!(meta.warnings[0], "Skipped URL image for field remote");
}

#[test]
fn empty_text_emits_an_empty_text_object() {
    let fields = vec![text_field("blank", "")];
    let (bytes, meta) = PdfFieldRenderer::new().create_populated_form(&fields, &a4());
    assert!(contains(&bytes, b"stream\nBT\nET\n\nendstream"));
    assert_eq!(meta.fields_processed, 1);
}

#[test]
fn number_date_dropdown_render_as_text() {
    let fields = vec![
        FieldData { value: FieldValue::Number("42.5".to_string()), ..text_field("n", "") },
        FieldData {
            y: 650000,
            value: FieldValue::Date("2024-01-01".to_string()),
            ..text_field("d", "")
        },
        FieldData {
            y: 600000,
            value: FieldValue::Dropdown("pick".to_string()),
            ..text_field("dd", "")
        },
    ];
    let (bytes, meta) = PdfFieldRenderer::new().create_populated_form(&fields, &a4());
    assert!(contains(&bytes, b"(42.5) Tj\n"));
    assert!(contains(&bytes, b"(2024-01-01) Tj\n"));
    assert!(contains(&bytes, b"(pick) Tj\n"));
    assert_eq!(meta.fields_processed, 3);
}

#[test]
fn too_wide_text_retries_at_reduced_size() {
    // 10 chars at 12 pt estimate to 60 pt > 58 pt, but 54 pt at 10.8 pt fits
    let fields = vec![FieldData { width: 58000, ..text_field("t", "abcdefghij") }];
    let (bytes, _) = PdfFieldRenderer::new().create_populated_form(&fields, &a4());
    assert!(contains(&bytes, b"/F1 10.8 Tf\n"));
}

#[test]
fn long_text_wraps_into_fixed_width_lines() {
    // width 60 pt -> 10 chars per line; height 80 pt -> 5 lines of 14.4
    let fields = vec![FieldData {
        width: 60000,
        height: 80000,
        ..text_field("w", "aaaaaaaaaabbbbbbbbbb")
    }];
    let (bytes, _) = PdfFieldRenderer::new().create_populated_form(&fields, &a4());
    assert!(contains(&bytes, b"(aaaaaaaaaa) Tj\n"));
    assert!(contains(&bytes, b"(bbbbbbbbbb) Tj\n"));
}

#[test]
fn unfittable_text_falls_back_to_top_left() {
    // one character per line but only one line of budget: cannot consume
    let fields = vec![FieldData {
        width: 6000,
        height: 15000,
        ..text_field("o", "xyz")
    }];
    let (bytes, _) = PdfFieldRenderer::new().create_populated_form(&fields, &a4());
    // fallback renders the whole text unclipped at the field's top-left
    // pdf_y = 842 - 700 - 15 = 127
    assert!(contains(&bytes, b"/F1 12 Tf\n50 127 Td\n(xyz) Tj\n"));
}

#[test]
fn center_alignment_shifts_by_half_the_slack() {
    // "hi" at 12 pt estimates 12 pt wide; field 100 pt: offset 44
    let fields = vec![FieldData {
        width: 100000,
        alignment: Some(Alignment::Center),
        ..text_field("c", "hi")
    }];
    let (bytes, _) = PdfFieldRenderer::new().create_populated_form(&fields, &a4());
    assert!(contains(&bytes, b"94 122 Td\n(hi) Tj\n"));
}

#[test]
fn right_alignment_shifts_by_the_full_slack() {
    let fields = vec![FieldData {
        width: 100000,
        alignment: Some(Alignment::Right),
        ..text_field("r", "hi")
    }];
    let (bytes, _) = PdfFieldRenderer::new().create_populated_form(&fields, &a4());
    assert!(contains(&bytes, b"138 122 Td\n(hi) Tj\n"));
}

#[test]
fn middle_vertical_alignment_centers_in_a_tall_field() {
    // field 40 pt tall, font 12 pt: pdf_y = 842-700-40 = 102; +14 = 116
    let fields = vec![FieldData {
        height: 40000,
        vertical_alignment: Some(fill_pdf::types::VerticalAlignment::Middle),
        ..text_field("m", "hi")
    }];
    let (bytes, _) = PdfFieldRenderer::new().create_populated_form(&fields, &a4());
    assert!(contains(&bytes, b"50 116 Td\n(hi) Tj\n"));
}

#[test]
fn text_specials_are_escaped() {
    let fields = vec![text_field("esc", "a(b)c\\d")];
    let (bytes, _) = PdfFieldRenderer::new().create_populated_form(&fields, &a4());
    assert!(contains(&bytes, b"(a\\(b\\)c\\\\d) Tj\n"));
}

#[test]
fn fields_processed_and_skipped_cover_every_field() {
    let fields = vec![
        text_field("a", "x"),
        FieldData { page: 9, ..text_field("b", "y") },
        FieldData {
            value: FieldValue::Image(ImageSource::Inline(vec![0])),
            ..text_field("c", "")
        },
        FieldData { value: FieldValue::Checkbox(true), ..text_field("d", "") },
    ];
    let (_, meta) = PdfFieldRenderer::new().create_populated_form(&fields, &a4());
    assert_eq!(meta.fields_processed + meta.fields_skipped, fields.len());
    assert_eq!(meta.fields_processed, 2);
    assert_eq!(meta.fields_skipped, 2);
}

#[test]
fn pages_are_emitted_in_ascending_order_whatever_the_input_order() {
    let doc = PdfDocument {
        pages: (0..3)
            .map(|i| PdfPageInfo { width: 595000, height: 842000, page_number: i })
            .collect(),
    };
    let fields = vec![
        FieldData { page: 2, ..text_field("late", "b") },
        FieldData { page: 0, ..text_field("early", "a") },
    ];
    let (bytes, meta) = PdfFieldRenderer::new().create_populated_form(&fields, &doc);
    assert_eq!(meta.pages.len(), 2);
    assert_eq!(meta.pages[0].page_number, 0);
    assert_eq!(meta.pages[1].page_number, 2);
    // page objects 5 and 7, in ascending page order
    assert!(contains(&bytes, b"/Kids [5 0 R 7 0 R ] /Count 2"));
    let pos_a = (0..bytes.len()).find(|&i| bytes[i..].starts_with(b"(a) Tj")).unwrap();
    let pos_b = (0..bytes.len()).find(|&i| bytes[i..].starts_with(b"(b) Tj")).unwrap();
    assert!(pos_a < pos_b);
}

#[test]
fn fields_on_one_page_keep_their_input_order() {
    let fields = vec![text_field("first", "one"), FieldData { y: 600000, ..text_field("second", "two") }];
    let (bytes, _) = PdfFieldRenderer::new().create_populated_form(&fields, &a4());
    let pos1 = (0..bytes.len()).find(|&i| bytes[i..].starts_with(b"(one) Tj")).unwrap();
    let pos2 = (0..bytes.len()).find(|&i| bytes[i..].starts_with(b"(two) Tj")).unwrap();
    assert!(pos1 < pos2);
}

#[test]
fn startxref_points_at_the_cross_reference_table() {
    let fields = vec![text_field("name", "Jane Doe")];
    let (bytes, _) = PdfFieldRenderer::new().create_populated_form(&fields, &a4());
    let xref_pos = (0..bytes.len()).find(|&i| bytes[i..].starts_with(b"xref
")).unwrap();
    let sx = (0..bytes.len()).find(|&i| bytes[i..].starts_with(b"startxref
")).unwrap();
    let digits: String = bytes[sx + 10..]
        .iter()
        .take_while(|b| b.is_ascii_digit())
        .map(|&b| b as char)
        .collect();
    assert_eq!(digits.parse::<usize>().unwrap(), xref_pos);
}

#[test]
fn bottom_and_baseline_anchors_shift_down_in_tall_fields() {
    // field 40 pt tall: pdf_y = 102; bottom: 102 + 40 - 12 = 130;
    // baseline: 102 + 40 - 2.4 = 139.6
    let bottom = vec![FieldData {
        height: 40000,
        vertical_alignment: Some(fill_pdf::types::VerticalAlignment::Bottom),
        ..text_field("b", "hi")
    }];
    let (bytes, _) = PdfFieldRenderer::new().create_populated_form(&bottom, &a4());
    assert!(contains(&bytes, b"50 130 Td
(hi) Tj
"));

    let baseline = vec![FieldData {
        height: 40000,
        vertical_alignment: Some(fill_pdf::types::VerticalAlignment::Baseline),
        ..text_field("s", "hi")
    }];
    let (bytes2, _) = PdfFieldRenderer::new().create_populated_form(&baseline, &a4());
    assert!(contains(&bytes2, b"50 139.6 Td
(hi) Tj
"));
}
