//! Remote-resolution helpers.
//!
//! Fetching over the network is the caller's concern; this module holds
//! the verified decisions around it: classifying a template descriptor,
//! spotting fields whose image source is still remote, folding fetched
//! bytes back into a field, and applying the job-wide text overflow
//! default.

use vstd::prelude::*;
use crate::types::{FieldData, FieldDataV, FieldValue, FieldValueV, ImageSource, ImageSourceV, TextOverflow};
use vstd::string::StrSliceExecFns;
use vstd::pervasive::VecAdditionalExecFns;

verus! {

/// Whether a field's value is an image or signature whose source is
/// still a remote descriptor.
pub open spec fn is_remote_image(v: FieldValueV) -> bool {
    match v {
        FieldValueV::ImageV(s) => s is RemoteV,
        FieldValueV::SignatureV(s) => s is RemoteV,
        _ => false,
    }
}

/// Whether the fetch collaborator must resolve this field before
/// rendering.
pub fn needs_remote_fetch(field: &FieldData) -> (b: bool)
    ensures
        b == is_remote_image(field@.value),
{
    match &field.value {
        FieldValue::Image(ImageSource::Remote(_)) => true,
        FieldValue::Signature(ImageSource::Remote(_)) => true,
        _ => false,
    }
}

/// The field's value with its image source replaced by inline bytes,
/// keeping the image/signature kind.
pub open spec fn resolved_value(v: FieldValueV, bytes: Seq<u8>) -> FieldValueV {
    match v {
        FieldValueV::ImageV(_) => FieldValueV::ImageV(ImageSourceV::InlineV(bytes)),
        FieldValueV::SignatureV(_) => FieldValueV::SignatureV(ImageSourceV::InlineV(bytes)),
        _ => v,
    }
}

/// Replaces a remote image source with the fetched bytes; everything
/// else about the field stays as it was.
pub fn resolve_remote_image(field: &mut FieldData, bytes: Vec<u8>)
    requires
        is_remote_image(old(field)@.value),
    ensures
        final(field)@ == (FieldDataV {
            value: resolved_value(old(field)@.value, bytes@),
            ..old(field)@
        }),
{
    match &field.value {
        FieldValue::Image(_) => {
            field.value = FieldValue::Image(ImageSource::Inline(bytes));
        },
        FieldValue::Signature(_) => {
            field.value = FieldValue::Signature(ImageSource::Inline(bytes));
        },
        _ => {},
    }
    proof {
        assert(final(field)@ =~~= (FieldDataV {
            value: resolved_value(old(field)@.value, bytes@),
            ..old(field)@
        }));
    }
}

/// How a template descriptor string is interpreted.
#[derive(Debug, Clone, Copy, PartialEq, Eq)]
pub enum TemplateKind {
    /// A JSON object describing an HTTP request.
    InlineJson,
    /// A plain HTTP or HTTPS URL.
    Url,
    /// A local file path.
    Path,
}

/// Whether `p` is a prefix of `s`.
pub open spec fn starts_with(s: Seq<char>, p: Seq<char>) -> bool {
    p.len() <= s.len() && s.subrange(0, p.len() as int) == p
}

/// How a descriptor is classified: a leading brace means inline JSON,
/// an `http://` or `https://` prefix a URL, anything else a path.
pub open spec fn template_kind_of(s: Seq<char>) -> TemplateKind {
    if s.len() > 0 && s[0] == '{' {
        TemplateKind::InlineJson
    } else if starts_with(s, "http://"@) || starts_with(s, "https://"@) {
        TemplateKind::Url
    } else {
        TemplateKind::Path
    }
}

/// Tests whether `p` is a prefix of `s`.
fn has_prefix(s: &str, p: &str) -> (r: bool)
    ensures
        r == starts_with(s@, p@),
{
    let np = p.unicode_len();
    let ns = s.unicode_len();
    if np > ns {
        return false;
    }
    let mut i: usize = 0;
    while i < np
        invariant
            i <= np,
            np == p@.len(),
            np <= ns == s@.len(),
            forall|k: int| 0 <= k < i ==> s@[k] == p@[k],
        decreases np - i,
    {
        if s.get_char(i) != p.get_char(i) {
            proof {
                assert(s@.subrange(0, np as int)[i as int] != p@[i as int]);
            }
            return false;
        }
        i = i + 1;
    }
    proof {
        assert(s@.subrange(0, np as int) =~= p@);
    }
    true
}

/// Classifies a template descriptor.
pub fn classify_template(s: &str) -> (k: TemplateKind)
    ensures
        k == template_kind_of(s@),
{
    let n = s.unicode_len();
    if n > 0 && s.get_char(0) == '{' {
        TemplateKind::InlineJson
    } else if has_prefix(s, "http://") || has_prefix(s, "https://") {
        TemplateKind::Url
    } else {
        TemplateKind::Path
    }
}

/// Gives every field without an explicit overflow mode the job-wide
/// default; fields that chose one keep it.
pub fn apply_default_text_overflow(fields: &mut Vec<FieldData>, default: TextOverflow)
    ensures
        final(fields)@.len() == old(fields)@.len(),
        forall|i: int|
            0 <= i < old(fields)@.len() ==> (#[trigger] final(fields)@[i])@ == (FieldDataV {
                text_overflow: match old(fields)@[i]@.text_overflow {
                    Some(m) => Some(m),
                    None => Some(default),
                },
                ..old(fields)@[i]@
            }),
{
    let n = fields.len();
    let mut j: usize = 0;
    while j < n
        invariant
            j <= n,
            n == fields@.len(),
            n == old(fields)@.len(),
            forall|i: int| j <= i < n ==> fields@[i] == old(fields)@[i],
            forall|i: int|
                0 <= i < j ==> (#[trigger] fields@[i])@ == (FieldDataV {
                    text_overflow: match old(fields)@[i]@.text_overflow {
                        Some(m) => Some(m),
                        None => Some(default),
                    },
                    ..old(fields)@[i]@
                }),
        decreases n - j,
    {
        let needs_default = fields[j].text_overflow.is_none();
        if needs_default {
            let mut f = fields.remove(j);
            f.text_overflow = Some(default);
            fields.insert(j, f);
            proof {
                assert((fields@[j as int])@ =~~= (FieldDataV {
                    text_overflow: Some(default),
                    ..old(fields)@[j as int]@
                }));
            }
        } else {
            proof {
                assert((fields@[j as int])@ =~~= (FieldDataV {
                    text_overflow: match old(fields)@[j as int]@.text_overflow {
                        Some(m) => Some(m),
                        None => Some(default),
                    },
                    ..old(fields)@[j as int]@
                }));
            }
        }
        j = j + 1;
    }
}

} // verus!
