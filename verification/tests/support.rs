use fill_pdf::cache::{after_validation, CacheAction, CacheEntry, TemplateCache, ValidationOutcome};
use fill_pdf::fetcher::{
    apply_default_text_overflow, classify_template, needs_remote_fetch, resolve_remote_image,
    TemplateKind,
};
use fill_pdf::merge::{ensure_dependencies, MergeBackend};
use fill_pdf::page_select::parse_page_selection;
use fill_pdf::to_image::normalize_image_format;
use fill_pdf::types::{
    extract_pdf_info, FieldData, FieldValue, ImageFitMode, ImageSource, RawPageGeometry,
    TextOverflow, UrlConfig,
};

fn url(u: &str) -> UrlConfig {
    UrlConfig { url: u.to_string(), method: None, headers: Vec::new(), body: None }
}

fn field(value: FieldValue) -> FieldData {
    FieldData {
        field_id: "f".to_string(),
        page: 0,
        x: 0,
        y: 0,
        width: 10000,
        height: 10000,
        value,
        font_size: None,
        alignment: None,
        vertical_alignment: None,
        fit_mode: None,
        text_overflow: None,
    }
}

#[test]
fn page_selection_accepts_lists_and_ranges() {
    assert_eq!(parse_page_selection("1,3,5").unwrap(), vec![1, 3, 5]);
    assert_eq!(parse_page_selection("1-3,5").unwrap(), vec![1, 2, 3, 5]);
    assert_eq!(parse_page_selection(" 2 , 4 ").unwrap(), vec![2, 4]);
    assert_eq!(parse_page_selection("5,3,3,1-2").unwrap(), vec![1, 2, 3, 5]);
    assert_eq!(parse_page_selection("").unwrap(), Vec::<usize>::new());
    assert_eq!(parse_page_selection("7,,8").unwrap(), vec![7, 8]);
}

#[test]
fn page_selection_rejects_malformed_entries() {
    assert_eq!(
        parse_page_selection("2-1").unwrap_err(),
        "Invalid range: 2-1 (start > end)"
    );
    assert_eq!(parse_page_selection("a").unwrap_err(), "Invalid page number: a");
    assert_eq!(parse_page_selection("1-2-3").unwrap_err(), "Invalid page range: 1-2-3");
    assert_eq!(parse_page_selection("1-x").unwrap_err(), "Invalid page number: x");
    assert_eq!(parse_page_selection("-3").unwrap_err(), "Invalid page number: ");
}

#[test]
fn cache_key_is_the_sha256_hex_of_the_descriptor() {
    assert_eq!(
        TemplateCache::generate_key("test"),
        "9f86d081884c7d659a2feaa0c55ad015a3bf4f1b2b0b822cd15d6c15b0f00a08"
    );
}

#[test]
fn cache_paths_live_under_the_cache_directory() {
    let cache = TemplateCache::new("/tmp/tcache".to_string(), None);
    assert_eq!(cache.ttl_seconds, 3600);
    assert_eq!(cache.cache_path("abc"), "/tmp/tcache/abc.cache");
    let custom = TemplateCache::new("d".to_string(), Some(60));
    assert_eq!(custom.ttl_seconds, 60);
}

#[test]
fn cache_plan_follows_freshness_and_validators() {
    let cache = TemplateCache::new("d".to_string(), Some(100));
    let plain = CacheEntry {
        template_bytes: vec![1],
        cached_at: 1000,
        etag: None,
        last_modified: None,
    };
    let tagged = CacheEntry { etag: Some("abc".to_string()), ..plain.clone() };
    assert_eq!(cache.plan_use(None, 1000, false), CacheAction::Refetch);
    assert_eq!(cache.plan_use(Some(&plain), 1050, true), CacheAction::Refetch);
    assert_eq!(cache.plan_use(Some(&plain), 1100, false), CacheAction::UseCached);
    assert_eq!(cache.plan_use(Some(&plain), 1101, false), CacheAction::Refetch);
    assert_eq!(cache.plan_use(Some(&tagged), 1050, false), CacheAction::Revalidate);
}

#[test]
fn validation_outcome_maps_the_server_answer() {
    assert_eq!(after_validation(Some(true)), ValidationOutcome::UseCached);
    assert_eq!(after_validation(Some(false)), ValidationOutcome::Refetch);
    assert_eq!(after_validation(None), ValidationOutcome::UseCachedStale);
}

#[test]
fn backend_names_resolve_or_are_rejected() {
    assert_eq!(ensure_dependencies("python").unwrap(), MergeBackend::Python);
    assert_eq!(ensure_dependencies("bun").unwrap(), MergeBackend::Bun);
    assert_eq!(
        ensure_dependencies("node").unwrap_err(),
        "Unknown backend: node. Use 'python' or 'bun'"
    );
}

#[test]
fn template_descriptors_classify_by_shape() {
    assert_eq!(classify_template("{\"url\":\"x\"}"), TemplateKind::InlineJson);
    assert_eq!(classify_template("http://host/x.pdf"), TemplateKind::Url);
    assert_eq!(classify_template("https://host/x.pdf"), TemplateKind::Url);
    assert_eq!(classify_template("form.pdf"), TemplateKind::Path);
    assert_eq!(classify_template(""), TemplateKind::Path);
    assert_eq!(classify_template("httpx://h"), TemplateKind::Path);
}

#[test]
fn remote_sources_are_spotted_and_resolved() {
    let mut f = field(FieldValue::Image(ImageSource::Remote(url("https://h/i.png"))));
    assert!(needs_remote_fetch(&f));
    resolve_remote_image(&mut f, vec![9, 9, 9]);
    match &f.value {
        FieldValue::Image(ImageSource::Inline(b)) => assert_eq!(b, &vec![9, 9, 9]),
        _ => panic!("image source was not resolved"),
    }
    assert!(!needs_remote_fetch(&f));

    let mut sig = field(FieldValue::Signature(ImageSource::Remote(url("https://h/s.png"))));
    assert!(needs_remote_fetch(&sig));
    resolve_remote_image(&mut sig, vec![7]);
    match &sig.value {
        FieldValue::Signature(ImageSource::Inline(b)) => assert_eq!(b, &vec![7]),
        _ => panic!("signature source was not resolved"),
    }

    let inline = field(FieldValue::Image(ImageSource::Inline(vec![1])));
    assert!(!needs_remote_fetch(&inline));
    assert!(!needs_remote_fetch(&field(FieldValue::Text("t".to_string()))));
}

#[test]
fn overflow_default_fills_only_unset_fields() {
    let mut fields = vec![
        field(FieldValue::Text("a".to_string())),
        FieldData {
            text_overflow: Some(TextOverflow::Cutoff),
            ..field(FieldValue::Text("b".to_string()))
        },
    ];
    apply_default_text_overflow(&mut fields, TextOverflow::Overflow);
    assert_eq!(fields[0].text_overflow, Some(TextOverflow::Overflow));
    assert_eq!(fields[1].text_overflow, Some(TextOverflow::Cutoff));
}

#[test]
fn page_geometry_falls_back_per_element_and_per_page() {
    let raw = vec![
        // a complete box: 10 .. 620 by 20 .. 800
        RawPageGeometry {
            media_box: Some(vec![Some(10000), Some(20000), Some(620000), Some(800000)]),
        },
        // missing box: default page size
        RawPageGeometry { media_box: None },
        // short array: default page size
        RawPageGeometry { media_box: Some(vec![Some(1000)]) },
        // non-numeric elements fall back one by one
        RawPageGeometry { media_box: Some(vec![None, None, None, None]) },
    ];
    let doc = extract_pdf_info(&raw);
    assert_eq!(doc.pages.len(), 4);
    assert_eq!((doc.pages[0].width, doc.pages[0].height), (610000, 780000));
    assert_eq!((doc.pages[1].width, doc.pages[1].height), (595000, 842000));
    assert_eq!((doc.pages[2].width, doc.pages[2].height), (595000, 842000));
    assert_eq!((doc.pages[3].width, doc.pages[3].height), (595000, 842000));
    assert_eq!(doc.pages[2].page_number, 2);
}

#[test]
fn defaults_match_the_data_model() {
    assert_eq!(TextOverflow::default(), TextOverflow::Overflow);
    assert_eq!(ImageFitMode::default(), ImageFitMode::Contain);
    match FieldValue::default() {
        FieldValue::Text(t) => assert_eq!(t, ""),
        _ => panic!("default value is not empty text"),
    }
}

#[test]
fn entry_freshness_is_a_ttl_from_the_fetch_time() {
    let e = CacheEntry { template_bytes: vec![], cached_at: 50, etag: None, last_modified: None };
    assert!(e.is_fresh(50, 0));
    assert!(e.is_fresh(150, 100));
    assert!(!e.is_fresh(151, 100));
    assert!(e.has_validators() == false);
}

#[test]
fn image_formats_normalize_case_insensitively() {
    assert_eq!(normalize_image_format("png").unwrap(), "png");
    assert_eq!(normalize_image_format("PNG").unwrap(), "png");
    assert_eq!(normalize_image_format("jpeg").unwrap(), "jpeg");
    assert_eq!(normalize_image_format("JPG").unwrap(), "jpeg");
    assert_eq!(
        normalize_image_format("webp").unwrap_err(),
        "Invalid format: webp. Use 'png' or 'jpeg'"
    );
}

#[test]
fn page_numbers_accept_a_leading_plus() {
    assert_eq!(parse_page_selection("+5").unwrap(), vec![5]);
    assert_eq!(parse_page_selection("+").unwrap_err(), "Invalid page number: +");
}
