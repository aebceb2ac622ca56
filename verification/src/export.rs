use vstd::prelude::*;
use vstd::string::StringSliceAdditionalSpecFns;

use crate::pixels::{over_white_byte, rgba_to_rgb_over_white};

verus! {

/// The file formats a drawing can be saved in.
#[derive(Debug, Clone, Copy, PartialEq, Eq, Structural)]
pub enum ExportFormat {
    Png,
    Jpeg,
}

/// A byte with ASCII upper-case letters mapped to lower case and every other byte kept.
pub open spec fn ascii_lower(b: u8) -> u8 {
    if 65 <= b <= 90 {
        (b + 32) as u8
    } else {
        b
    }
}

/// Whether an extension, given as its UTF-8 bytes, reads "jpg" or "jpeg" regardless of
/// ASCII case.
pub open spec fn names_jpeg(ext: Seq<u8>) -> bool {
    let lower = ext.map_values(|b: u8| ascii_lower(b));
    lower == seq![106u8, 112u8, 103u8] || lower == seq![106u8, 112u8, 101u8, 103u8]
}

/// The UTF-8 bytes of the extension given to files saved in `format` without one.
pub open spec fn extension_bytes(format: ExportFormat) -> Seq<u8> {
    match format {
        ExportFormat::Png => seq![112u8, 110u8, 103u8],
        ExportFormat::Jpeg => seq![106u8, 112u8, 103u8],
    }
}

/// The format a file extension asks for: JPEG for "jpg" and "jpeg" in any ASCII case,
/// PNG for every other extension and for none.
pub open spec fn format_for_extension(extension: Option<Seq<u8>>) -> ExportFormat {
    match extension {
        Some(ext) => if names_jpeg(ext) {
            ExportFormat::Jpeg
        } else {
            ExportFormat::Png
        },
        None => ExportFormat::Png,
    }
}

fn lower_byte(b: u8) -> (r: u8)
    ensures
        r == ascii_lower(b),
{
    if 65 <= b && b <= 90 {
        b + 32
    } else {
        b
    }
}

/// Whether `bytes`, with ASCII letters in lower case, equal `target`, which holds no
/// upper-case ASCII letters.
fn lowered_equals(bytes: &[u8], target: &[u8]) -> (r: bool)
    ensures
        r == (bytes@.map_values(|b: u8| ascii_lower(b)) == target@),
{
    if bytes.len() != target.len() {
        assert(bytes@.map_values(|b: u8| ascii_lower(b)).len() != target@.len());
        return false;
    }
    let mut i: usize = 0;
    while i < bytes.len()
        invariant
            bytes@.len() == target@.len(),
            i <= bytes@.len(),
            forall|k: int| 0 <= k < i ==> ascii_lower(#[trigger] bytes@[k]) == target@[k],
        decreases bytes@.len() - i,
    {
        if lower_byte(bytes[i]) != target[i] {
            assert(bytes@.map_values(|b: u8| ascii_lower(b))[i as int] != target@[i as int]);
            return false;
        }
        i = i + 1;
    }
    assert(bytes@.map_values(|b: u8| ascii_lower(b)) =~= target@);
    true
}

impl ExportFormat {
    /// The format named by a file extension (see `format_for_extension`).
    pub fn from_extension(extension: Option<&str>) -> (f: ExportFormat)
        ensures
            f == format_for_extension(
                match extension {
                    Some(ext) => Some(ext.spec_bytes()),
                    None => None,
                },
            ),
            extension is None ==> f == ExportFormat::Png,
    {
        match extension {
            Some(ext) => {
                let bytes = ext.as_bytes();
                let jpg: [u8; 3] = [106u8, 112u8, 103u8];
                let jpeg: [u8; 4] = [106u8, 112u8, 101u8, 103u8];
                assert(jpg@ =~= seq![106u8, 112u8, 103u8]);
                assert(jpeg@ =~= seq![106u8, 112u8, 101u8, 103u8]);
                if lowered_equals(bytes, jpg.as_slice()) || lowered_equals(bytes, jpeg.as_slice()) {
                    ExportFormat::Jpeg
                } else {
                    ExportFormat::Png
                }
            },
            None => ExportFormat::Png,
        }
    }

    /// The extension given to a file saved in this format that has none.
    pub fn default_extension(self) -> (ext: &'static str)
        ensures
            ext@ == (match self {
                ExportFormat::Png => "png"@,
                ExportFormat::Jpeg => "jpg"@,
            }),
            ext.spec_bytes() == extension_bytes(self),
    {
        match self {
            ExportFormat::Png => {
                let ext = "png";
                proof {
                    reveal_strlit("png");
                    vstd::string::is_ascii_spec_bytes(ext);
                    assert(ext.spec_bytes() =~= extension_bytes(self));
                }
                ext
            },
            ExportFormat::Jpeg => {
                let ext = "jpg";
                proof {
                    reveal_strlit("jpg");
                    vstd::string::is_ascii_spec_bytes(ext);
                    assert(ext.spec_bytes() =~= extension_bytes(self));
                }
                ext
            },
        }
    }
}

/// A file saved with the default extension of a format is read back as that format.
pub proof fn lemma_default_extension_round_trip(format: ExportFormat)
    ensures
        format_for_extension(Some(extension_bytes(format))) == format,
{
    let b = extension_bytes(format);
    assert(b.map_values(|x: u8| ascii_lower(x)) =~= b);
    if format == ExportFormat::Png {
        assert(b.map_values(|x: u8| ascii_lower(x)) != seq![106u8, 112u8, 103u8]);
        assert(b.map_values(|x: u8| ascii_lower(x)).len() != 4);
    }
}

/// Lowering ASCII case twice is lowering it once.
proof fn lemma_ascii_lower_idempotent(e: Seq<u8>)
    ensures
        e.map_values(|b: u8| ascii_lower(b)).map_values(|b: u8| ascii_lower(b)) == e.map_values(
            |b: u8| ascii_lower(b),
        ),
{
    assert(e.map_values(|b: u8| ascii_lower(b)).map_values(|b: u8| ascii_lower(b)) =~= e.map_values(
        |b: u8| ascii_lower(b),
    ));
}

/// The format chosen for an extension does not depend on its ASCII case: an extension
/// and its lower-case spelling give the same format.
pub proof fn lemma_format_ignores_ascii_case(e: Seq<u8>)
    ensures
        format_for_extension(Some(e)) == format_for_extension(Some(e.map_values(|b: u8| ascii_lower(b)))),
{
    lemma_ascii_lower_idempotent(e);
}

/// Both "jpg" and "jpeg", in any ASCII case, choose JPEG; "png" and a missing extension
/// choose PNG.
pub proof fn lemma_jpeg_spellings(e: Seq<u8>)
    requires
        e.map_values(|b: u8| ascii_lower(b)) == seq![106u8, 112u8, 101u8, 103u8]
            || e.map_values(|b: u8| ascii_lower(b)) == seq![106u8, 112u8, 103u8],
    ensures
        format_for_extension(Some(e)) == ExportFormat::Jpeg,
        format_for_extension(Some(seq![106u8, 112u8, 101u8, 103u8])) == ExportFormat::Jpeg,
        format_for_extension(Some(seq![74u8, 80u8, 69u8, 71u8])) == ExportFormat::Jpeg,
        format_for_extension(Some(seq![106u8, 112u8, 103u8])) == ExportFormat::Jpeg,
        format_for_extension(Some(seq![74u8, 80u8, 71u8])) == ExportFormat::Jpeg,
        format_for_extension(Some(seq![112u8, 110u8, 103u8])) == ExportFormat::Png,
        format_for_extension(None) == ExportFormat::Png,
{
    let jpeg = seq![106u8, 112u8, 101u8, 103u8];
    let jpg = seq![106u8, 112u8, 103u8];
    assert(jpeg.map_values(|b: u8| ascii_lower(b)) =~= jpeg);
    assert(seq![74u8, 80u8, 69u8, 71u8].map_values(|b: u8| ascii_lower(b)) =~= jpeg);
    assert(jpg.map_values(|b: u8| ascii_lower(b)) =~= jpg);
    assert(seq![74u8, 80u8, 71u8].map_values(|b: u8| ascii_lower(b)) =~= jpg);
    let png = seq![112u8, 110u8, 103u8];
    assert(png.map_values(|b: u8| ascii_lower(b)) =~= png);
    assert(png.map_values(|b: u8| ascii_lower(b))[0] != jpg[0]);
}

/// The bytes written for straight-alpha RGBA pixels in `format`: PNG keeps RGBA,
/// JPEG, which has no alpha, gets the pixels flattened onto white as RGB.
pub fn pixels_for_format(rgba: &[u8], format: ExportFormat) -> (buffer: Vec<u8>)
    ensures
        format == ExportFormat::Png ==> buffer@ == rgba@,
        format == ExportFormat::Jpeg ==> buffer@.len() == rgba@.len() / 4 * 3,
        format == ExportFormat::Jpeg ==> forall|i: int|
            0 <= i < buffer@.len() ==> #[trigger] buffer@[i] == over_white_byte(rgba@, i),
{
    match format {
        ExportFormat::Png => vstd::slice::slice_to_vec(rgba),
        ExportFormat::Jpeg => rgba_to_rgb_over_white(rgba),
    }
}

} // verus!
