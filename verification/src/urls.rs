//! The two outside faculties the rewriter leans on: URL detection with a
//! fixed pattern (the regex crate) and structured URL surgery (the url
//! crate). Each call stands behind one trusted wrapper; what a call returns
//! is given a name, since it is a function of the byte text alone.
use vstd::prelude::*;

verus! {

/// The byte spans at which the fixed URL pattern matches `content`:
/// successive, leftmost, non-overlapping matches, in order of position.
pub uninterp spec fn url_spans_of(content: Seq<u8>) -> Seq<(int, int)>;

/// The registrable host of the URL that `raw` parses to: `None` when `raw`
/// is not well-formed or its host is not a domain name.
pub uninterp spec fn host_of(raw: Seq<u8>) -> Option<Seq<u8>>;

/// The serialisation of the URL that `raw` parses to after its host is
/// replaced by `host`: `None` when `raw` does not parse or the replacement
/// is not permitted for it.
pub uninterp spec fn with_host(raw: Seq<u8>, host: Seq<u8>) -> Option<Seq<u8>>;

/// Relies on regex::bytes::Regex::new and Regex::find_iter: find_iter
/// yields the successive, leftmost, non-overlapping matches of the pattern
/// in order of position, each a span within the haystack, and which spans
/// match depends on the haystack bytes alone. The pattern demands at least
/// one byte in each of its three parts, so no match is empty.
#[verifier::external_body]
pub(crate) fn find_url_spans(content: &[u8]) -> (r: Vec<(usize, usize)>)
    ensures
        r@.len() == url_spans_of(content@).len(),
        forall|i: int|
            0 <= i < r@.len() ==> url_spans_of(content@)[i] == (
                (#[trigger] r@[i]).0 as int,
                r@[i].1 as int,
            ),
        forall|i: int| 0 <= i < r@.len() ==> (#[trigger] r@[i]).0 < r@[i].1 <= content@.len(),
        forall|i: int, j: int|
            0 <= i < j < r@.len() ==> (#[trigger] r@[i]).1 <= (#[trigger] r@[j]).0,
{
    let re = regex::bytes::Regex::new(
        r"(http|ftp|https):\/\/([\w_-]+(?:(?:\.[\w_-]+)+))([\w.,@?^=%&:\/~+#-]*[\w@?^=%&\/~+#-])",
    ).unwrap();
    re.find_iter(content).map(|m| (m.start(), m.end())).collect()
}

/// Relies on url::Url::parse and url::Url::domain: parsing either fails or
/// yields a URL whose domain, when the host is a domain name, is a
/// determined substring of the serialisation; both depend on the input text
/// alone. Returns `None` when the bytes are not UTF-8, do not parse as a
/// URL, or the URL's host is not a domain name.
#[verifier::external_body]
pub(crate) fn url_host(raw: &[u8]) -> (r: Option<Vec<u8>>)
    ensures
        match r {
            Some(h) => host_of(raw@) == Some(h@),
            None => host_of(raw@) is None,
        },
{
    let s = match core::str::from_utf8(raw) {
        Ok(s) => s,
        Err(_) => return None,
    };
    let u = match url::Url::parse(s) {
        Ok(u) => u,
        Err(_) => return None,
    };
    u.domain().map(|d| d.as_bytes().to_vec())
}

/// Relies on url::Url::parse, url::Url::set_host and the url crate's
/// Display serialisation: a parsed URL with its host replaced re-serialises
/// with path, query and fragment preserved, and the outcome depends on the
/// two inputs alone. Returns `None` when the bytes are not UTF-8, do not
/// parse, or the url crate refuses the new host for this URL.
#[verifier::external_body]
pub(crate) fn url_with_host(raw: &[u8], host: &[u8]) -> (r: Option<Vec<u8>>)
    ensures
        match r {
            Some(v) => with_host(raw@, host@) == Some(v@),
            None => with_host(raw@, host@) is None,
        },
{
    let (s, h) = match (core::str::from_utf8(raw), core::str::from_utf8(host)) {
        (Ok(s), Ok(h)) => (s, h),
        _ => return None,
    };
    let mut u = match url::Url::parse(s) {
        Ok(u) => u,
        Err(_) => return None,
    };
    if u.set_host(Some(h)).is_err() {
        return None;
    }
    Some(u.to_string().into_bytes())
}

} // verus!
