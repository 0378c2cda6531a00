use vstd::prelude::*;

verus! {

// ---------------------------------------------------------------------------
// Message normalization: trimming, case folding and UTF-8 encoding are
// delegated to std; each result is a function of the characters alone and
// is given a name that the contracts speak of.
// ---------------------------------------------------------------------------

/// What `str::trim` returns: the characters with Unicode whitespace removed
/// from both ends.
pub uninterp spec fn trim_of(s: Seq<char>) -> Seq<char>;

/// What `str::to_lowercase` returns: the Unicode lowercase folding of the
/// characters.
pub uninterp spec fn lower_of(s: Seq<char>) -> Seq<char>;

/// What `str::as_bytes` returns: the UTF-8 encoding of the characters.
pub uninterp spec fn bytes_of(s: Seq<char>) -> Seq<u8>;

/// Relies on str::trim: removes leading and trailing Unicode whitespace;
/// the result depends on the characters alone.
#[verifier::external_body]
fn trim_str(s: &str) -> (r: &str)
    ensures
        r@ == trim_of(s@),
{
    s.trim()
}

/// Relies on str::to_lowercase: the Unicode lowercase mapping of the
/// string; the result depends on the characters alone.
#[verifier::external_body]
fn lower_str(s: &str) -> (r: String)
    ensures
        r@ == lower_of(s@),
{
    s.to_lowercase()
}

/// Relies on str::as_bytes: the UTF-8 encoding of the string; the result
/// depends on the characters alone.
#[verifier::external_body]
fn str_bytes_raw(s: &str) -> (r: Vec<u8>)
    ensures
        r@ == bytes_of(s@),
{
    s.as_bytes().to_vec()
}

/// The UTF-8 bytes of `content`, unmodified.
pub fn content_bytes(content: &str) -> (r: Vec<u8>)
    ensures
        r@ == bytes_of(content@),
{
    str_bytes_raw(content)
}

/// Normalize an inbound message: the UTF-8 bytes of the trimmed content,
/// and of the trimmed-and-lowercased content used for trigger lookup.
pub fn normalize_content(content: &str) -> (r: (Vec<u8>, Vec<u8>))
    ensures
        r.0@ == bytes_of(trim_of(content@)),
        r.1@ == bytes_of(lower_of(trim_of(content@))),
{
    let trimmed = trim_str(content);
    let lowered = lower_str(trimmed);
    let raw = str_bytes_raw(trimmed);
    let norm = str_bytes_raw(lowered.as_str());
    (raw, norm)
}

} // verus!
