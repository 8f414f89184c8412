//! Image-to-data-URI support: extension-based MIME inference and the
//! assembly of a `data:<mime>;base64,<data>` URI, with the base64 step
//! supplied by an outside encoder.

use vstd::prelude::*;
use vstd::string::*;
use crate::pathing::{spec_extension, extension_of};

verus! {

/// An upper-case ASCII letter folded to lower case; any other character
/// unchanged.
pub open spec fn fold_char(c: char) -> char {
    let u = c as u32;
    if 65 <= u && u <= 90 {
        ((u + 32) as u8) as char
    } else {
        c
    }
}

/// The character sequence with every upper-case ASCII letter folded to
/// lower case.
pub open spec fn fold_seq(s: Seq<char>) -> Seq<char> {
    s.map_values(|c: char| fold_char(c))
}

/// The MIME types the operation recognizes, keyed by lower-case extension;
/// every other extension falls back to image/png.
pub open spec fn mime_of_lower(e: Seq<char>) -> Seq<char> {
    if e == "png"@ {
        "image/png"@
    } else if e == "jpg"@ || e == "jpeg"@ {
        "image/jpeg"@
    } else if e == "gif"@ {
        "image/gif"@
    } else if e == "bmp"@ {
        "image/bmp"@
    } else if e == "svg"@ {
        "image/svg+xml"@
    } else if e == "webp"@ {
        "image/webp"@
    } else if e == "ico"@ {
        "image/x-icon"@
    } else {
        "image/png"@
    }
}

/// The MIME type inferred for a path: from its extension, folded to lower
/// case; image/png when it has no extension.
pub open spec fn mime_of_path(p: Seq<char>) -> Seq<char> {
    match spec_extension(p) {
        Option::Some(e) => mime_of_lower(fold_seq(e)),
        Option::None => "image/png"@,
    }
}

/// A lower-case extension the MIME table lists.
pub open spec fn recognized_extension(e: Seq<char>) -> bool {
    e == "png"@ || e == "jpg"@ || e == "jpeg"@ || e == "gif"@ || e == "bmp"@ || e == "svg"@
        || e == "webp"@ || e == "ico"@
}

/// A path without a recognized extension gets the default image/png type.
pub proof fn lemma_unknown_extension_defaults_to_png(p: Seq<char>)
    requires
        match spec_extension(p) {
            Option::Some(e) => !recognized_extension(fold_seq(e)),
            Option::None => true,
        },
    ensures
        mime_of_path(p) == "image/png"@,
{
}

/// One character folded to lower case.
fn fold_char_exec(c: char) -> (r: char)
    ensures
        r == fold_char(c),
{
    let u = c as u32;
    if 65 <= u && u <= 90 {
        ((u + 32) as u8) as char
    } else {
        c
    }
}

/// Whether the two strings are equal once folded to lower case.
fn eq_fold(s: &str, t: &str) -> (b: bool)
    ensures
        b == (fold_seq(s@) == fold_seq(t@)),
{
    let n = s.unicode_len();
    let m = t.unicode_len();
    if n != m {
        assert(fold_seq(s@).len() != fold_seq(t@).len());
        return false;
    }
    let mut i: usize = 0;
    while i < n
        invariant
            0 <= i <= n,
            n as int == s@.len(),
            n as int == t@.len(),
            forall|j: int| 0 <= j < i ==> fold_char(s@[j]) == fold_char(t@[j]),
        decreases n - i,
    {
        let a = fold_char_exec(s.get_char(i));
        let b = fold_char_exec(t.get_char(i));
        if a != b {
            assert(fold_seq(s@)[i as int] != fold_seq(t@)[i as int]);
            return false;
        }
        i = i + 1;
    }
    proof {
        assert(fold_seq(s@) =~= fold_seq(t@));
    }
    true
}

/// A lower-case ASCII literal is its own folding.
proof fn lemma_fold_fixed(s: Seq<char>)
    requires
        forall|i: int| 0 <= i < s.len() ==> !(65 <= (#[trigger] s[i]) as u32 <= 90),
    ensures
        fold_seq(s) == s,
{
    assert(fold_seq(s) =~= s);
}

/// The MIME type for a path, as `mime_of_path` states it.
pub fn mime_for_path(path: &str) -> (m: String)
    ensures
        m@ == mime_of_path(path@),
{
    match extension_of(path) {
        Option::None => String::from_str("image/png"),
        Option::Some(e) => {
            let ext = e.as_str();
            if eq_fold(ext, "png") {
                proof {
                    reveal_strlit("png");
                    lemma_fold_fixed("png"@);
                }
                String::from_str("image/png")
            } else if eq_fold(ext, "jpg") {
                proof {
                    reveal_strlit("jpg");
                    lemma_fold_fixed("jpg"@);
                }
                String::from_str("image/jpeg")
            } else if eq_fold(ext, "jpeg") {
                proof {
                    reveal_strlit("jpeg");
                    lemma_fold_fixed("jpeg"@);
                }
                String::from_str("image/jpeg")
            } else if eq_fold(ext, "gif") {
                proof {
                    reveal_strlit("gif");
                    lemma_fold_fixed("gif"@);
                }
                String::from_str("image/gif")
            } else if eq_fold(ext, "bmp") {
                proof {
                    reveal_strlit("bmp");
                    lemma_fold_fixed("bmp"@);
                }
                String::from_str("image/bmp")
            } else if eq_fold(ext, "svg") {
                proof {
                    reveal_strlit("svg");
                    lemma_fold_fixed("svg"@);
                }
                String::from_str("image/svg+xml")
            } else if eq_fold(ext, "webp") {
                proof {
                    reveal_strlit("webp");
                    lemma_fold_fixed("webp"@);
                }
                String::from_str("image/webp")
            } else if eq_fold(ext, "ico") {
                proof {
                    reveal_strlit("ico");
                    lemma_fold_fixed("ico"@);
                }
                String::from_str("image/x-icon")
            } else {
                proof {
                    reveal_strlit("png");
                    reveal_strlit("jpg");
                    reveal_strlit("jpeg");
                    reveal_strlit("gif");
                    reveal_strlit("bmp");
                    reveal_strlit("svg");
                    reveal_strlit("webp");
                    reveal_strlit("ico");
                    lemma_fold_fixed("png"@);
                    lemma_fold_fixed("jpg"@);
                    lemma_fold_fixed("jpeg"@);
                    lemma_fold_fixed("gif"@);
                    lemma_fold_fixed("bmp"@);
                    lemma_fold_fixed("svg"@);
                    lemma_fold_fixed("webp"@);
                    lemma_fold_fixed("ico"@);
                }
                String::from_str("image/png")
            }
        },
    }
}

/// What the outside base64 encoder returns for the given bytes.
pub uninterp spec fn base64_of(data: Seq<u8>) -> Seq<char>;

/// Relies on base64's STANDARD engine (the RFC 4648 alphabet, padded): the
/// encoding is a function of the input bytes alone, four characters for
/// every three bytes with the last chunk padded; the engine overflows, and
/// panics, only when that length exceeds usize.
#[verifier::external_body]
fn base64_encode(data: &Vec<u8>) -> (r: String)
    requires
        4 * ((data@.len() + 2) / 3) <= usize::MAX,
    ensures
        r@ == base64_of(data@),
        r@.len() == 4 * ((data@.len() + 2) / 3),
{
    base64::Engine::encode(&base64::engine::general_purpose::STANDARD, data)
}

/// The data URI embedding the bytes of the image at the path: its MIME
/// type inferred from the path's extension, its data base64-encoded.
pub fn image_data_uri(path: &str, data: &Vec<u8>) -> (r: String)
    requires
        4 * ((data@.len() + 2) / 3) <= usize::MAX,
    ensures
        r@ == "data:"@ + mime_of_path(path@) + ";base64,"@ + base64_of(data@),
{
    let mime = mime_for_path(path);
    let encoded = base64_encode(data);
    let uri = String::from_str("data:").concat(mime.as_str()).concat(";base64,").concat(
        encoded.as_str(),
    );
    uri
}

} // verus!
