//! The file-format check: does the extension match what the bytes show?
use vstd::prelude::*;
use vstd::string::*;
use image::ImageFormat;
use crate::model::ExtensionMismatch;
use crate::text::{push_str, string_from_chars, string_views};

verus! {

/// The image formats the tool names; every other format is `Other`.
#[derive(Debug, Clone, Copy, PartialEq, Eq, Structural)]
pub enum ImageFormatKind {
    Png,
    Jpeg,
    WebP,
    Tiff,
    Bmp,
    Other,
}

/// A format the `image` crate recognises: which named one it is and the
/// file extensions the crate lists for it.
#[derive(Debug)]
pub struct GuessedFormat {
    pub kind: ImageFormatKind,
    pub extensions: Vec<String>,
}

/// The format the `image` crate guesses from the magic bytes at the start
/// of a file, with its extensions, if any.
pub uninterp spec fn guessed_format(bytes: Seq<u8>) -> Option<(ImageFormatKind, Seq<Seq<char>>)>;

/// The extensions `ImageFormat::extensions_str` lists for the named
/// formats (the first is the usual one).
pub open spec fn kind_extensions(k: ImageFormatKind) -> Seq<Seq<char>> {
    match k {
        ImageFormatKind::Png => seq!["png"@],
        ImageFormatKind::Jpeg => seq!["jpg"@, "jpeg"@],
        ImageFormatKind::WebP => seq!["webp"@],
        ImageFormatKind::Tiff => seq!["tiff"@, "tif"@],
        ImageFormatKind::Bmp => seq!["bmp"@],
        ImageFormatKind::Other => seq![],
    }
}

/// The view of a guessed format.
pub open spec fn guessed_view(g: Option<GuessedFormat>) -> Option<(ImageFormatKind, Seq<Seq<char>>)> {
    match g {
        Some(f) => Some((f.kind, string_views(f.extensions@))),
        None => None,
    }
}

/// `image::guess_format`, then `ImageFormat::extensions_str`: the format
/// the magic bytes at the start of `bytes` show, `None` when the crate
/// knows none. The magic-byte table is named, not stated; the extensions of
/// the named formats are stated.
#[verifier::external_body]
fn guess_image_format(bytes: &[u8]) -> (r: Option<GuessedFormat>)
    ensures
        guessed_view(r) == guessed_format(bytes@),
        match r {
            Some(g) => g.kind != ImageFormatKind::Other ==> string_views(g.extensions@) == kind_extensions(g.kind),
            None => true,
        },
{
    let f = image::guess_format(bytes).ok()?;
    let kind = match f {
        ImageFormat::Png => ImageFormatKind::Png,
        ImageFormat::Jpeg => ImageFormatKind::Jpeg,
        ImageFormat::WebP => ImageFormatKind::WebP,
        ImageFormat::Tiff => ImageFormatKind::Tiff,
        ImageFormat::Bmp => ImageFormatKind::Bmp,
        _ => ImageFormatKind::Other,
    };
    Some(GuessedFormat { kind, extensions: f.extensions_str().iter().map(|e| e.to_string()).collect() })
}

/// Unicode lowercase of a string, as `str::to_lowercase` maps it.
pub uninterp spec fn lowercase(s: Seq<char>) -> Seq<char>;

/// `str::to_lowercase`. The Unicode case mapping is named, not stated.
#[verifier::external_body]
pub(crate) fn to_lowercase(s: &str) -> (r: String)
    ensures
        r@ == lowercase(s@),
{
    s.to_lowercase()
}

/// The readable name of a format.
pub open spec fn format_name_of(k: ImageFormatKind) -> Seq<char> {
    match k {
        ImageFormatKind::Png => "PNG"@,
        ImageFormatKind::Jpeg => "JPEG"@,
        ImageFormatKind::WebP => "WebP"@,
        ImageFormatKind::Tiff => "TIFF"@,
        ImageFormatKind::Bmp => "BMP"@,
        _ => "Unknown"@,
    }
}

/// The extension check of a file: `None` when its format cannot be guessed
/// or its lowercased extension is one of the format's; otherwise the format
/// and `(无)` for a missing extension or the dotted extension.
pub open spec fn extension_check(bytes: Seq<u8>, ext: Seq<char>) -> Option<(Seq<char>, Seq<char>)> {
    match guessed_format(bytes) {
        None => None,
        Some((k, exts)) => {
            let e = lowercase(ext);
            if e.len() == 0 {
                Some((format_name_of(k), "(无)"@))
            } else if !exts.contains(e) {
                Some((format_name_of(k), seq!['.'] + e))
            } else {
                None
            }
        },
    }
}

/// Why a format could not be detected.
#[derive(Debug, Clone, Copy, PartialEq, Eq, Structural)]
pub enum DetectError {
    /// The `image` crate knows no format with these magic bytes.
    Unsupported,
}

/// Format and extension checks.
pub struct ExifValidator;

impl ExifValidator {
    /// The format a file's bytes show: `None` for fewer than two bytes, an
    /// error when no format is recognised.
    pub fn detect_format(data: &[u8]) -> (r: Result<Option<GuessedFormat>, DetectError>)
        ensures
            data@.len() < 2 ==> r matches Ok(None),
            data@.len() >= 2 ==> match guessed_format(data@) {
                Some(g) => r matches Ok(Some(f)) && guessed_view(Some(f)) == Some(g),
                None => r == Err::<Option<GuessedFormat>, DetectError>(DetectError::Unsupported),
            },
    {
        if data.len() < 2 {
            return Ok(None);
        }
        match guess_image_format(data) {
            Some(g) => Ok(Some(g)),
            None => Err(DetectError::Unsupported),
        }
    }

    /// Checks a file's extension against the format its bytes show.
    /// `extension` is the file name's extension, empty when there is none.
    pub fn check_extension(data: &[u8], extension: &str) -> (r: Option<ExtensionMismatch>)
        ensures
            match extension_check(data@, extension@) {
                None => r is None,
                Some((f, e)) => r matches Some(m) && m.actual_format@ == f && m.extension@ == e,
            },
    {
        let guessed = match guess_image_format(data) {
            Some(g) => g,
            None => return None,
        };
        let kind = guessed.kind;
        let actual_ext = to_lowercase(extension);
        let expected = &guessed.extensions;
        let ghost ev = string_views(expected@);
        if actual_ext.as_str().unicode_len() == 0 {
            return Some(ExtensionMismatch::new(Self::format_name(kind), String::from_str("(无)")));
        }
        let mut found = false;
        let mut i: usize = 0;
        while i < expected.len()
            invariant
                ev == string_views(expected@),
                i <= expected@.len(),
                found == exists|j: int| 0 <= j < i && ev[j] == actual_ext@,
            decreases expected@.len() - i,
        {
            assert(ev[i as int] == expected@[i as int]@);
            if expected[i] == actual_ext {
                found = true;
            }
            i = i + 1;
        }
        if !found {
            let mut e: Vec<char> = Vec::new();
            e.push('.');
            push_str(&mut e, actual_ext.as_str());
            assert(e@ =~= seq!['.'] + actual_ext@);
            return Some(ExtensionMismatch::new(Self::format_name(kind), string_from_chars(&e)));
        }
        assert(ev.contains(actual_ext@));
        None
    }

    /// The readable name of a format.
    pub fn format_name(k: ImageFormatKind) -> (s: String)
        ensures
            s@ == format_name_of(k),
    {
        match k {
            ImageFormatKind::Png => String::from_str("PNG"),
            ImageFormatKind::Jpeg => String::from_str("JPEG"),
            ImageFormatKind::WebP => String::from_str("WebP"),
            ImageFormatKind::Tiff => String::from_str("TIFF"),
            ImageFormatKind::Bmp => String::from_str("BMP"),
            _ => String::from_str("Unknown"),
        }
    }
}

} // verus!
