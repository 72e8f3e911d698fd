//! Resolution of a user-supplied format token to an output container.

use vstd::prelude::*;

use crate::errors::ConvertError;
use crate::text::{char_reads_as, chars_of, matches_ci, seq_matches_ci};

verus! {

/// A supported output container format.
#[derive(Clone, Copy, Debug, PartialEq, Eq, Structural)]
pub enum ImageFormat {
    Jpeg,
    Png,
    Gif,
    Bmp,
    Tiff,
    WebP,
}

/// The container that a format token names, or `None` for an unknown
/// token. Matching ignores ASCII case and trims nothing.
pub open spec fn resolve_format(s: Seq<char>) -> Option<ImageFormat> {
    if seq_matches_ci(s, "jpg"@) || seq_matches_ci(s, "jpeg"@) {
        Some(ImageFormat::Jpeg)
    } else if seq_matches_ci(s, "png"@) {
        Some(ImageFormat::Png)
    } else if seq_matches_ci(s, "gif"@) {
        Some(ImageFormat::Gif)
    } else if seq_matches_ci(s, "bmp"@) {
        Some(ImageFormat::Bmp)
    } else if seq_matches_ci(s, "tiff"@) || seq_matches_ci(s, "tif"@) {
        Some(ImageFormat::Tiff)
    } else if seq_matches_ci(s, "webp"@) {
        Some(ImageFormat::WebP)
    } else {
        None
    }
}

/// What `get_image_format` returns on a token: the resolved container,
/// or `UnsupportedFormat` for any token that names none.
pub open spec fn resolve_format_result(s: Seq<char>) -> Result<ImageFormat, ConvertError> {
    match resolve_format(s) {
        Some(f) => Ok(f),
        None => Err(ConvertError::UnsupportedFormat),
    }
}

/// Maps a case-insensitive format token to the container it names;
/// any other token, the empty string included, is rejected.
pub fn get_image_format(format_str: &str) -> (r: Result<ImageFormat, ConvertError>)
    ensures
        r == resolve_format_result(format_str@),
{
    let v = chars_of(format_str);
    if matches_ci(&v, &chars_of("jpg")) || matches_ci(&v, &chars_of("jpeg")) {
        Ok(ImageFormat::Jpeg)
    } else if matches_ci(&v, &chars_of("png")) {
        Ok(ImageFormat::Png)
    } else if matches_ci(&v, &chars_of("gif")) {
        Ok(ImageFormat::Gif)
    } else if matches_ci(&v, &chars_of("bmp")) {
        Ok(ImageFormat::Bmp)
    } else if matches_ci(&v, &chars_of("tiff")) || matches_ci(&v, &chars_of("tif")) {
        Ok(ImageFormat::Tiff)
    } else if matches_ci(&v, &chars_of("webp")) {
        Ok(ImageFormat::WebP)
    } else {
        Err(ConvertError::UnsupportedFormat)
    }
}

/// Two characters are the same up to ASCII case: equal outright, or an
/// upper-case ASCII letter and its lower-case form, either way round.
pub open spec fn ascii_case_eq(a: char, b: char) -> bool {
    ||| a == b
    ||| (65 <= a as u32 && a as u32 <= 90 && a as u32 + 32 == b as u32)
    ||| (65 <= b as u32 && b as u32 <= 90 && b as u32 + 32 == a as u32)
}

/// Two strings are the same up to ASCII case, character by character.
pub open spec fn seq_ascii_case_eq(s: Seq<char>, t: Seq<char>) -> bool {
    s.len() == t.len() && forall|i: int| 0 <= i < s.len() ==> ascii_case_eq(s[i], t[i])
}

/// Matching against a lower-case ASCII token cannot tell two strings
/// apart that agree up to ASCII case.
proof fn lemma_matches_ci_respects_case_eq(s: Seq<char>, t: Seq<char>, tok: Seq<char>)
    requires
        seq_ascii_case_eq(s, t),
        forall|i: int| 0 <= i < tok.len() ==> 97 <= #[trigger] (tok[i] as u32) && tok[i] as u32 <= 122,
    ensures
        seq_matches_ci(s, tok) == seq_matches_ci(t, tok),
{
    if seq_matches_ci(s, tok) {
        assert forall|i: int| 0 <= i < t.len() implies char_reads_as(t[i], tok[i]) by {
            vstd::utf8::char_u32_cast(s[i], s[i] as u32);
            vstd::utf8::char_u32_cast(t[i], t[i] as u32);
            vstd::utf8::char_u32_cast(tok[i], tok[i] as u32);
            assert(char_reads_as(s[i], tok[i]));
            assert(ascii_case_eq(s[i], t[i]));
            assert(97 <= tok[i] as u32 && tok[i] as u32 <= 122);
        }
    }
    if seq_matches_ci(t, tok) {
        assert forall|i: int| 0 <= i < s.len() implies char_reads_as(s[i], tok[i]) by {
            vstd::utf8::char_u32_cast(s[i], s[i] as u32);
            vstd::utf8::char_u32_cast(t[i], t[i] as u32);
            vstd::utf8::char_u32_cast(tok[i], tok[i] as u32);
            assert(char_reads_as(t[i], tok[i]));
            assert(ascii_case_eq(s[i], t[i]));
            assert(97 <= tok[i] as u32 && tok[i] as u32 <= 122);
        }
    }
}

/// Format resolution is case-insensitive: two tokens that agree up to
/// ASCII case resolve to the same container, or both to none.
pub proof fn lemma_format_case_insensitive(s: Seq<char>, t: Seq<char>)
    requires
        seq_ascii_case_eq(s, t),
    ensures
        resolve_format(s) == resolve_format(t),
{
    reveal_strlit("jpg");
    reveal_strlit("jpeg");
    reveal_strlit("png");
    reveal_strlit("gif");
    reveal_strlit("bmp");
    reveal_strlit("tiff");
    reveal_strlit("tif");
    reveal_strlit("webp");
    lemma_matches_ci_respects_case_eq(s, t, "jpg"@);
    lemma_matches_ci_respects_case_eq(s, t, "jpeg"@);
    lemma_matches_ci_respects_case_eq(s, t, "png"@);
    lemma_matches_ci_respects_case_eq(s, t, "gif"@);
    lemma_matches_ci_respects_case_eq(s, t, "bmp"@);
    lemma_matches_ci_respects_case_eq(s, t, "tiff"@);
    lemma_matches_ci_respects_case_eq(s, t, "tif"@);
    lemma_matches_ci_respects_case_eq(s, t, "webp"@);
}

} // verus!
