//! The content-validation firewall: a coarse MIME hint derived from the
//! declared file name, magic-byte sniffing of the leading bytes, and the
//! fallback on the declared extension for small text formats.

use vstd::prelude::*;
use vstd::string::StrSliceExecFns;
use vstd::string::StringExecFns;
use crate::strutil::{
    lower_char, spec_lower_char, spec_starts_with, starts_with_str, str_eq,
};

verus! {

/// The MIME string that `mime_guess` derives from a file name's extension.
pub uninterp spec fn mime_guess_of(name: Seq<char>) -> Seq<char>;

/// Relies on `mime_guess::from_path` and `MimeGuess::first_or_octet_stream`:
/// the guess is a fixed table lookup on the name's extension alone, and a
/// missing or unrecognized extension yields `application/octet-stream`.
#[verifier::external_body]
fn guess_mime(name: &str) -> (r: String)
    ensures
        r@ == mime_guess_of(name@),
{
    mime_guess::from_path(name).first_or_octet_stream().to_string()
}

/// What `infer` recognizes in the leading bytes: the signature's MIME type
/// and canonical extension, or nothing.
pub uninterp spec fn infer_of(head: Seq<u8>) -> Option<(Seq<char>, Seq<char>)>;

/// Relies on `infer::get`: the leading bytes are matched against a fixed
/// signature table, so the result depends on the bytes alone. Every
/// extension in that table is a non-empty alphanumeric token, so it holds
/// neither '.' nor '/'.
#[verifier::external_body]
fn sniff_signature(head: &[u8]) -> (r: Option<(String, String)>)
    ensures
        match r {
            Some((m, e)) => {
                &&& infer_of(head@) == Some((m@, e@))
                &&& e@.len() > 0
                &&& !e@.contains('.')
                &&& !e@.contains('/')
            },
            None => infer_of(head@) is None,
        },
{
    match infer::get(head) {
        Some(kind) => Some((kind.mime_type().to_string(), kind.extension().to_string())),
        None => None,
    }
}

/// The coarse MIME categories the service accepts from the declared name.
pub open spec fn spec_mime_category_allowed(m: Seq<char>) -> bool {
    ||| spec_starts_with(m, "audio/"@)
    ||| spec_starts_with(m, "video/"@)
    ||| spec_starts_with(m, "image/"@)
    ||| spec_starts_with(m, "application/octet-stream"@)
}

pub fn is_mime_category_allowed(mime_str: &str) -> (r: bool)
    ensures
        r == spec_mime_category_allowed(mime_str@),
{
    starts_with_str(mime_str, "audio/") || starts_with_str(mime_str, "video/")
        || starts_with_str(mime_str, "image/") || starts_with_str(
        mime_str,
        "application/octet-stream",
    )
}

/// The specific MIME types the service accepts from the declared name.
pub open spec fn spec_mime_specific_allowed(m: Seq<char>) -> bool {
    ||| m == "application/json"@
    ||| m == "text/xml"@
    ||| m == "application/rss+xml"@
    ||| m == "application/xml"@
    ||| m == "text/xml; charset=utf-8"@
}

pub fn is_mime_specific_allowed(mime_str: &str) -> (r: bool)
    ensures
        r == spec_mime_specific_allowed(mime_str@),
{
    str_eq(mime_str, "application/json") || str_eq(mime_str, "text/xml") || str_eq(
        mime_str,
        "application/rss+xml",
    ) || str_eq(mime_str, "application/xml") || str_eq(mime_str, "text/xml; charset=utf-8")
}

pub open spec fn spec_mime_allowed(m: Seq<char>) -> bool {
    spec_mime_category_allowed(m) || spec_mime_specific_allowed(m)
}

pub fn is_mime_allowed(mime_str: &str) -> (r: bool)
    ensures
        r == spec_mime_allowed(mime_str@),
{
    is_mime_category_allowed(mime_str) || is_mime_specific_allowed(mime_str)
}

/// The MIME prefixes accepted for a sniffed signature.
pub open spec fn spec_content_type_prefix_allowed(m: Seq<char>) -> bool {
    ||| spec_starts_with(m, "image/"@)
    ||| spec_starts_with(m, "audio/"@)
    ||| spec_starts_with(m, "video/"@)
}

pub fn is_content_type_prefix_allowed(mime: &str) -> (r: bool)
    ensures
        r == spec_content_type_prefix_allowed(mime@),
{
    starts_with_str(mime, "image/") || starts_with_str(mime, "audio/") || starts_with_str(
        mime,
        "video/",
    )
}

/// The specific MIME types accepted for a sniffed signature.
pub open spec fn spec_content_type_specific_allowed(m: Seq<char>) -> bool {
    ||| m == "application/json"@
    ||| m == "application/xml"@
    ||| m == "application/rss+xml"@
    ||| m == "text/xml"@
    ||| m == "text/xml; charset=utf-8"@
}

pub fn is_content_type_specific_allowed(mime: &str) -> (r: bool)
    ensures
        r == spec_content_type_specific_allowed(mime@),
{
    str_eq(mime, "application/json") || str_eq(mime, "application/xml") || str_eq(
        mime,
        "application/rss+xml",
    ) || str_eq(mime, "text/xml") || str_eq(mime, "text/xml; charset=utf-8")
}

pub open spec fn spec_content_type_allowed(m: Seq<char>) -> bool {
    spec_content_type_prefix_allowed(m) || spec_content_type_specific_allowed(m)
}

pub fn is_content_type_allowed(mime: &str) -> (r: bool)
    ensures
        r == spec_content_type_allowed(mime@),
{
    is_content_type_prefix_allowed(mime) || is_content_type_specific_allowed(mime)
}

/// The ASCII-lowercased portion of a name after its last '.'; a name without
/// a '.' is its own extension, as with `rsplit`.
pub open spec fn spec_extract_extension(s: Seq<char>) -> Seq<char>
    decreases s.len(),
{
    if s.len() == 0 {
        Seq::empty()
    } else if s.last() == '.' {
        Seq::empty()
    } else {
        spec_extract_extension(s.drop_last()).push(spec_lower_char(s.last()))
    }
}

pub fn extract_extension(filename: &str) -> (r: String)
    ensures
        r@ == spec_extract_extension(filename@),
{
    let n = filename.unicode_len();
    let mut out = String::new();
    let mut i: usize = 0;
    while i < n
        invariant
            n == filename@.len(),
            i <= n,
            out@ == spec_extract_extension(filename@.subrange(0, i as int)),
        decreases n - i,
    {
        let c = filename.get_char(i);
        if c == '.' {
            out = String::new();
        } else {
            out.push(lower_char(c));
        }
        proof {
            let pre = filename@.subrange(0, i + 1);
            assert(pre.drop_last() =~= filename@.subrange(0, i as int));
            assert(pre.last() == filename@[i as int]);
        }
        i = i + 1;
    }
    proof {
        assert(filename@.subrange(0, n as int) =~= filename@);
    }
    out
}

/// The declared extensions accepted without a recognized signature.
pub open spec fn spec_allowed_text_ext(e: Seq<char>) -> bool {
    e == "json"@ || e == "xml"@ || e == "rss"@
}

pub fn is_allowed_text_ext(ext: &str) -> (r: bool)
    ensures
        r == spec_allowed_text_ext(ext@),
{
    str_eq(ext, "json") || str_eq(ext, "xml") || str_eq(ext, "rss")
}

pub open spec fn spec_extension_fallback(name: Seq<char>) -> Option<Seq<char>> {
    let e = spec_extract_extension(name);
    if spec_allowed_text_ext(e) {
        Some(e)
    } else {
        None
    }
}

pub fn get_extension_fallback(filename: &str) -> (r: Option<String>)
    ensures
        match r {
            Some(e) => spec_extension_fallback(filename@) == Some(e@),
            None => spec_extension_fallback(filename@) is None,
        },
{
    let ext = extract_extension(filename);
    if is_allowed_text_ext(ext.as_str()) {
        Some(ext)
    } else {
        None
    }
}

/// The classifier's verdict on one candidate: the canonical extension for
/// accepted content, or the reason the content is turned away.
///
/// Stage one derives a coarse MIME hint from the declared name and rejects
/// disallowed categories. Stage two sniffs the leading bytes; a recognized
/// signature is authoritative and must itself be allowed, and its extension
/// overrides the declared one. Without a signature, only the declared
/// extensions json, xml and rss are accepted.
pub open spec fn spec_classify(head: Seq<u8>, name: Seq<char>) -> Result<Seq<char>, Seq<char>> {
    let m = mime_guess_of(name);
    if !spec_mime_allowed(m) {
        Err("Invalid file type: "@ + m)
    } else {
        match infer_of(head) {
            Some((sniffed_mime, sniffed_ext)) => {
                if spec_content_type_allowed(sniffed_mime) {
                    Ok(sniffed_ext)
                } else {
                    Err("File type not allowed"@)
                }
            },
            None => {
                match spec_extension_fallback(name) {
                    Some(e) => Ok(e),
                    None => Err("Unknown or unsupported file type"@),
                }
            },
        }
    }
}

/// Runs both classifier stages on the leading bytes and the declared name.
pub fn classify_content(head: &[u8], declared_name: &str) -> (r: Result<String, String>)
    ensures
        match r {
            Ok(e) => {
                &&& spec_classify(head@, declared_name@) == Ok::<Seq<char>, Seq<char>>(e@)
                &&& !e@.contains('/')
                &&& !e@.contains('.')
            },
            Err(msg) => spec_classify(head@, declared_name@) == Err::<Seq<char>, Seq<char>>(msg@),
        },
{
    let mime_str = guess_mime(declared_name);
    if !is_mime_allowed(mime_str.as_str()) {
        return Err("Invalid file type: ".to_owned().concat(mime_str.as_str()));
    }
    match sniff_signature(head) {
        Some((sniffed_mime, sniffed_ext)) => {
            if is_content_type_allowed(sniffed_mime.as_str()) {
                Ok(sniffed_ext)
            } else {
                Err("File type not allowed".to_owned())
            }
        },
        None => {
            match get_extension_fallback(declared_name) {
                Some(e) => {
                    proof {
                        lemma_text_ext_chars(e@);
                    }
                    Ok(e)
                },
                None => Err("Unknown or unsupported file type".to_owned()),
            }
        },
    }
}

proof fn lemma_text_ext_chars(e: Seq<char>)
    requires
        spec_allowed_text_ext(e),
    ensures
        !e.contains('/'),
        !e.contains('.'),
{
    reveal_strlit("json");
    reveal_strlit("xml");
    reveal_strlit("rss");
    if e.contains('/') {
        let i = choose|i: int| 0 <= i < e.len() && e[i] == '/';
        assert(e[i] != '/');
    }
    if e.contains('.') {
        let i = choose|i: int| 0 <= i < e.len() && e[i] == '.';
        assert(e[i] != '.');
    }
}

/// The final path an accepted upload is stored at: the staged stem with the
/// canonical extension appended.
pub open spec fn spec_final_path(file_path: Seq<char>, ext: Seq<char>) -> Seq<char> {
    file_path + "."@ + ext
}

/// Classifies the candidate and, when it is accepted, appends the canonical
/// extension to the caller's path stem; the rejection reason is handed back
/// otherwise, and the caller is expected to remove its staged bytes.
pub fn validate_and_get_final_path(head: &[u8], file_path: &str, declared_name: &str) -> (r: Result<
    String,
    String,
>)
    ensures
        match r {
            Ok(p) => {
                &&& spec_classify(head@, declared_name@) matches Ok(e) && p@ == spec_final_path(
                    file_path@,
                    e,
                )
            },
            Err(msg) => spec_classify(head@, declared_name@) == Err::<Seq<char>, Seq<char>>(msg@),
        },
{
    match classify_content(head, declared_name) {
        Ok(ext) => Ok(file_path.to_owned().concat(".").concat(ext.as_str())),
        Err(msg) => Err(msg),
    }
}

} // verus!
