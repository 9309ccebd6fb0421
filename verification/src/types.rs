//! Data model: field placements and values, page geometry, and the
//! processing metadata returned to the caller.
//!
//! All geometry is in integer milli-points (thousandths of a PDF point),
//! with a top-left origin for field rectangles. Callers that read float
//! coordinates convert them at the boundary.

use vstd::prelude::*;

verus! {

/// Default page width (595 pt) used when a template page has no usable
/// media box.
pub const DEFAULT_PAGE_WIDTH: i64 = 595000;

/// Default page height (842 pt) used when a template page has no usable
/// media box.
pub const DEFAULT_PAGE_HEIGHT: i64 = 842000;

/// Largest magnitude, in milli-points, accepted for a coordinate or a
/// page dimension.
pub const COORD_LIMIT: i64 = 1000000000;

/// Largest font size, in milli-points, accepted on a field.
pub const FONT_LIMIT: i64 = 1000000;

/// Longest text value, in characters, accepted on a field.
pub const TEXT_LIMIT: usize = 1000000;

/// Whether text may extend past a field's box.
#[derive(Debug, Clone, Copy, PartialEq, Eq)]
pub enum TextOverflow {
    /// Text can overflow beyond field boundaries.
    Overflow,
    /// Text is truncated at field boundaries.
    Cutoff,
}

impl Default for TextOverflow {
    /// The default overflow mode is `Overflow`.
    fn default() -> (r: Self)
        ensures
            r == TextOverflow::Overflow,
    {
        TextOverflow::Overflow
    }
}

/// Geometric policy for placing a naturally-sized image in a field box.
#[derive(Debug, Clone, Copy, PartialEq, Eq)]
pub enum ImageFitMode {
    /// Stretch to fill the box exactly (may distort).
    Fill,
    /// Fit within the box, keeping aspect ratio (may leave empty space).
    Contain,
    /// Cover the whole box, keeping aspect ratio (may exceed the box).
    Cover,
    /// Center unscaled if the image fits, otherwise behave as `Contain`.
    ScaleDown,
}

impl Default for ImageFitMode {
    /// The default fit mode is `Contain`.
    fn default() -> (r: Self)
        ensures
            r == ImageFitMode::Contain,
    {
        ImageFitMode::Contain
    }
}

/// Horizontal text alignment inside a field.
#[derive(Debug, Clone, Copy, PartialEq, Eq)]
pub enum Alignment {
    Left,
    Center,
    Right,
}

/// Vertical text alignment inside a field.
#[derive(Debug, Clone, Copy, PartialEq, Eq)]
pub enum VerticalAlignment {
    Top,
    Middle,
    Bottom,
    Baseline,
}

/// An HTTP request description for a remote template or image.
#[derive(Debug, Clone)]
pub struct UrlConfig {
    pub url: String,
    pub method: Option<String>,
    pub headers: Vec<(String, String)>,
    /// Raw JSON text of the request body, if any.
    pub body: Option<String>,
}

/// Spec view of a [`UrlConfig`].
pub struct UrlConfigV {
    pub url: Seq<char>,
    pub method: Option<Seq<char>>,
    pub headers: Seq<(Seq<char>, Seq<char>)>,
    pub body: Option<Seq<char>>,
}

impl View for UrlConfig {
    type V = UrlConfigV;

    open spec fn view(&self) -> UrlConfigV {
        UrlConfigV {
            url: self.url@,
            method: match self.method {
                Some(ref m) => Some(m@),
                None => None,
            },
            headers: self.headers@.map(|i: int, p: (String, String)| (p.0@, p.1@)),
            body: match self.body {
                Some(ref b) => Some(b@),
                None => None,
            },
        }
    }
}

/// Where the bytes of an image come from. By the time the renderer runs,
/// every `Remote` source should already have been resolved to `Inline`
/// bytes by the fetch collaborator; a surviving `Remote` is skipped with
/// a warning.
#[derive(Debug, Clone)]
pub enum ImageSource {
    /// Raw encoded image bytes (already base64-decoded).
    Inline(Vec<u8>),
    /// A not-yet-fetched remote image.
    Remote(UrlConfig),
}

/// Spec view of an [`ImageSource`].
pub enum ImageSourceV {
    InlineV(Seq<u8>),
    RemoteV(UrlConfigV),
}

impl View for ImageSource {
    type V = ImageSourceV;

    open spec fn view(&self) -> ImageSourceV {
        match self {
            ImageSource::Inline(b) => ImageSourceV::InlineV(b@),
            ImageSource::Remote(u) => ImageSourceV::RemoteV(u@),
        }
    }
}

/// Where the template document comes from.
#[derive(Debug, Clone)]
pub enum TemplateSource {
    Path(String),
    Url(UrlConfig),
}

/// The value carried by a field.
#[derive(Debug, Clone)]
pub enum FieldValue {
    Text(String),
    /// A numeric value, carried as its decimal text rendering.
    Number(String),
    Date(String),
    Checkbox(bool),
    Radio(String),
    Dropdown(String),
    Image(ImageSource),
    Signature(ImageSource),
}

impl Default for FieldValue {
    /// The default value is empty text.
    fn default() -> (r: Self)
        ensures
            r matches FieldValue::Text(t) && t@ == Seq::<char>::empty(),
    {
        FieldValue::Text(String::new())
    }
}

/// Spec view of a [`FieldValue`].
pub enum FieldValueV {
    TextV(Seq<char>),
    NumberV(Seq<char>),
    DateV(Seq<char>),
    CheckboxV(bool),
    RadioV(Seq<char>),
    DropdownV(Seq<char>),
    ImageV(ImageSourceV),
    SignatureV(ImageSourceV),
}

impl View for FieldValue {
    type V = FieldValueV;

    open spec fn view(&self) -> FieldValueV {
        match self {
            FieldValue::Text(t) => FieldValueV::TextV(t@),
            FieldValue::Number(t) => FieldValueV::NumberV(t@),
            FieldValue::Date(t) => FieldValueV::DateV(t@),
            FieldValue::Checkbox(b) => FieldValueV::CheckboxV(*b),
            FieldValue::Radio(t) => FieldValueV::RadioV(t@),
            FieldValue::Dropdown(t) => FieldValueV::DropdownV(t@),
            FieldValue::Image(s) => FieldValueV::ImageV(s@),
            FieldValue::Signature(s) => FieldValueV::SignatureV(s@),
        }
    }
}

/// One field placement: a target page, a top-left-origin rectangle in
/// milli-points, a value, and optional presentation settings.
#[derive(Debug, Clone)]
pub struct FieldData {
    pub field_id: String,
    pub page: u32,
    pub x: i64,
    pub y: i64,
    pub width: i64,
    pub height: i64,
    pub value: FieldValue,
    /// Font size in milli-points; defaults to 12 pt, floored at 12 pt.
    pub font_size: Option<i64>,
    pub alignment: Option<Alignment>,
    pub vertical_alignment: Option<VerticalAlignment>,
    pub fit_mode: Option<ImageFitMode>,
    pub text_overflow: Option<TextOverflow>,
}

/// Spec view of a [`FieldData`].
pub struct FieldDataV {
    pub field_id: Seq<char>,
    pub page: u32,
    pub x: int,
    pub y: int,
    pub width: int,
    pub height: int,
    pub value: FieldValueV,
    pub font_size: Option<int>,
    pub alignment: Option<Alignment>,
    pub vertical_alignment: Option<VerticalAlignment>,
    pub fit_mode: Option<ImageFitMode>,
    pub text_overflow: Option<TextOverflow>,
}

impl View for FieldData {
    type V = FieldDataV;

    open spec fn view(&self) -> FieldDataV {
        FieldDataV {
            field_id: self.field_id@,
            page: self.page,
            x: self.x as int,
            y: self.y as int,
            width: self.width as int,
            height: self.height as int,
            value: self.value@,
            font_size: match self.font_size {
                Some(v) => Some(v as int),
                None => None,
            },
            alignment: self.alignment,
            vertical_alignment: self.vertical_alignment,
            fit_mode: self.fit_mode,
            text_overflow: self.text_overflow,
        }
    }
}

/// The geometry of one template page, in milli-points.
#[derive(Debug, Clone, Copy)]
pub struct PdfPageInfo {
    pub width: i64,
    pub height: i64,
    pub page_number: u32,
}

/// The page list extracted from a template.
#[derive(Debug, Clone)]
pub struct PdfDocument {
    pub pages: Vec<PdfPageInfo>,
}

/// The per-page summary recorded for every emitted overlay page.
#[derive(Debug, Clone, Copy)]
pub struct PageMetadata {
    pub page_number: u32,
    pub width: i64,
    pub height: i64,
    pub fields_count: usize,
}

/// Spec view of a [`PageMetadata`].
#[verifier::ext_equal]
pub struct PageMetadataV {
    pub page_number: u32,
    pub width: int,
    pub height: int,
    pub fields_count: nat,
}

impl View for PageMetadata {
    type V = PageMetadataV;

    open spec fn view(&self) -> PageMetadataV {
        PageMetadataV {
            page_number: self.page_number,
            width: self.width as int,
            height: self.height as int,
            fields_count: self.fields_count as nat,
        }
    }
}

/// Counters and message lists accumulated over one render session and
/// returned to the caller.
#[derive(Debug, Clone)]
pub struct ProcessingMetadata {
    pub pages: Vec<PageMetadata>,
    pub fields_processed: usize,
    pub fields_skipped: usize,
    pub warnings: Vec<String>,
    pub errors: Vec<String>,
}

/// Spec view of a [`ProcessingMetadata`].
#[verifier::ext_equal]
pub struct ProcessingMetadataV {
    pub pages: Seq<PageMetadataV>,
    pub fields_processed: nat,
    pub fields_skipped: nat,
    pub warnings: Seq<Seq<char>>,
    pub errors: Seq<Seq<char>>,
}

impl View for ProcessingMetadata {
    type V = ProcessingMetadataV;

    open spec fn view(&self) -> ProcessingMetadataV {
        ProcessingMetadataV {
            pages: self.pages@.map_values(|p: PageMetadata| p@),
            fields_processed: self.fields_processed as nat,
            fields_skipped: self.fields_skipped as nat,
            warnings: self.warnings@.map_values(|w: String| w@),
            errors: self.errors@.map_values(|e: String| e@),
        }
    }
}

/// Whether a coordinate or dimension is within the accepted range.
pub open spec fn coord_ok(v: int) -> bool {
    -(COORD_LIMIT as int) <= v <= COORD_LIMIT as int
}

/// Whether a page's dimensions are within the accepted range.
pub open spec fn page_ok(p: PdfPageInfo) -> bool {
    coord_ok(p.width as int) && coord_ok(p.height as int)
}

/// Character length of the text rendered for a field value, for the
/// text-like kinds; 0 for the others.
pub open spec fn value_text_len(v: FieldValueV) -> nat {
    match v {
        FieldValueV::TextV(t) => t.len(),
        FieldValueV::NumberV(t) => t.len(),
        FieldValueV::DateV(t) => t.len(),
        FieldValueV::DropdownV(t) => t.len(),
        _ => 0,
    }
}

/// Whether a field's geometry and value sizes are within the accepted
/// ranges. These bounds exist so that the fixed-point layout arithmetic
/// cannot overflow; they are far beyond any realistic page.
pub open spec fn field_ok(f: FieldDataV) -> bool {
    &&& coord_ok(f.x)
    &&& coord_ok(f.y)
    &&& coord_ok(f.width)
    &&& coord_ok(f.height)
    &&& (f.font_size matches Some(v) ==> v <= FONT_LIMIT as int)
    &&& value_text_len(f.value) <= TEXT_LIMIT as nat
}

/// The media box of one template page as raw values: `None` when the
/// entry is missing or not an array, otherwise one optional milli-point
/// number per array element (`None` for a non-numeric element).
#[derive(Debug, Clone)]
pub struct RawPageGeometry {
    pub media_box: Option<Vec<Option<i64>>>,
}

/// The width and height derived from one raw media box: `[x1 y1 x2 y2]`
/// yields `(x2 - x1, y2 - y1)`, with per-element fallbacks of
/// `0, 0, 595000, 842000` for non-numeric elements, and the default page
/// size when the box is missing, not an array, or shorter than four
/// elements.
pub open spec fn page_dims_of(raw: Option<Seq<Option<i64>>>) -> (int, int) {
    match raw {
        Some(arr) => {
            if arr.len() >= 4 {
                let x1 = match arr[0] {
                    Some(v) => v as int,
                    None => 0,
                };
                let y1 = match arr[1] {
                    Some(v) => v as int,
                    None => 0,
                };
                let x2 = match arr[2] {
                    Some(v) => v as int,
                    None => DEFAULT_PAGE_WIDTH as int,
                };
                let y2 = match arr[3] {
                    Some(v) => v as int,
                    None => DEFAULT_PAGE_HEIGHT as int,
                };
                (x2 - x1, y2 - y1)
            } else {
                (DEFAULT_PAGE_WIDTH as int, DEFAULT_PAGE_HEIGHT as int)
            }
        },
        None => (DEFAULT_PAGE_WIDTH as int, DEFAULT_PAGE_HEIGHT as int),
    }
}

/// Spec view of a [`RawPageGeometry`].
pub open spec fn raw_page_view(r: RawPageGeometry) -> Option<Seq<Option<i64>>> {
    match r.media_box {
        Some(v) => Some(v@),
        None => None,
    }
}

/// Whether one raw media-box element is within the accepted range.
pub open spec fn raw_elem_ok(e: Option<i64>) -> bool {
    match e {
        Some(v) => coord_ok(v as int),
        None => true,
    }
}

/// Whether every numeric element of a raw media box is within the
/// accepted range.
pub open spec fn raw_page_ok(r: RawPageGeometry) -> bool {
    match r.media_box {
        Some(arr) => forall|j: int| 0 <= j < arr@.len() ==> raw_elem_ok(#[trigger] arr@[j]),
        None => true,
    }
}

/// `v` clamped into the accepted coordinate range.
pub open spec fn clamp_coord(v: int) -> int {
    if v < -(COORD_LIMIT as int) {
        -(COORD_LIMIT as int)
    } else if v > COORD_LIMIT as int {
        COORD_LIMIT as int
    } else {
        v
    }
}

/// Derives the page geometry list from the raw per-page media boxes of a
/// template. Pages are numbered by their position in the list, and each
/// derived dimension is clamped into the accepted coordinate range, so
/// the result can always be rendered against.
pub fn extract_pdf_info(raw: &Vec<RawPageGeometry>) -> (doc: PdfDocument)
    requires
        raw@.len() <= u32::MAX,
        forall|i: int| 0 <= i < raw@.len() ==> raw_page_ok(#[trigger] raw@[i]),
    ensures
        doc.pages@.len() == raw@.len(),
        forall|i: int|
            0 <= i < raw@.len() ==> {
                let dims = page_dims_of(raw_page_view(raw@[i]));
                (#[trigger] doc.pages@[i]).width as int == clamp_coord(dims.0)
                    && doc.pages@[i].height as int == clamp_coord(dims.1)
                    && doc.pages@[i].page_number == i
            },
        forall|i: int| 0 <= i < doc.pages@.len() ==> page_ok(#[trigger] doc.pages@[i]),
{
    let mut pages: Vec<PdfPageInfo> = Vec::new();
    let mut i: usize = 0;
    while i < raw.len()
        invariant
            i <= raw@.len(),
            raw@.len() <= u32::MAX,
            forall|k: int| 0 <= k < raw@.len() ==> raw_page_ok(#[trigger] raw@[k]),
            pages@.len() == i,
            forall|k: int|
                0 <= k < i ==> {
                    let dims = page_dims_of(raw_page_view(raw@[k]));
                    (#[trigger] pages@[k]).width as int == clamp_coord(dims.0)
                        && pages@[k].height as int == clamp_coord(dims.1)
                        && pages@[k].page_number == k
                },
            forall|k: int| 0 <= k < i ==> page_ok(#[trigger] pages@[k]),
        decreases raw@.len() - i,
    {
        let entry = &raw[i];
        let (width, height): (i64, i64) = match &entry.media_box {
            Some(arr) => {
                if arr.len() >= 4 {
                    let x1 = match arr[0] {
                        Some(v) => v,
                        None => 0,
                    };
                    let y1 = match arr[1] {
                        Some(v) => v,
                        None => 0,
                    };
                    let x2 = match arr[2] {
                        Some(v) => v,
                        None => DEFAULT_PAGE_WIDTH,
                    };
                    let y2 = match arr[3] {
                        Some(v) => v,
                        None => DEFAULT_PAGE_HEIGHT,
                    };
                    (x2 - x1, y2 - y1)
                } else {
                    (DEFAULT_PAGE_WIDTH, DEFAULT_PAGE_HEIGHT)
                }
            },
            None => (DEFAULT_PAGE_WIDTH, DEFAULT_PAGE_HEIGHT),
        };
        let width = clamp_exec(width);
        let height = clamp_exec(height);
        pages.push(PdfPageInfo { width, height, page_number: i as u32 });
        i = i + 1;
    }
    PdfDocument { pages }
}


/// Clamps a value into the accepted coordinate range.
fn clamp_exec(v: i64) -> (r: i64)
    ensures
        r as int == clamp_coord(v as int),
{
    if v < -COORD_LIMIT {
        -COORD_LIMIT
    } else if v > COORD_LIMIT {
        COORD_LIMIT
    } else {
        v
    }
}

} // verus!
