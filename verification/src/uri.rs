//! The address under which a request or a socket reaches the upstream.

use vstd::prelude::*;

verus! {

/// The text `https`.
pub open spec fn https_scheme() -> Seq<char> {
    seq!['h', 't', 't', 'p', 's']
}

/// The text `wss`.
pub open spec fn wss_scheme() -> Seq<char> {
    seq!['w', 's', 's']
}

/// The text of the upstream address: the scheme, `://`, the upstream host,
/// the path as it came, and the query behind a `?` where there is one.
pub open spec fn target_text(scheme: Seq<char>, host: Seq<char>, path: Seq<char>, query: Option<Seq<char>>) -> Seq<
    char,
> {
    let base = scheme + seq![':', '/', '/'] + host + path;
    match query {
        Some(q) => base + seq!['?'] + q,
        None => base,
    }
}

/// The view of an optional piece of text.
pub open spec fn text_of(piece: Option<&str>) -> Option<Seq<char>> {
    match piece {
        Some(text) => Some(text@),
        None => None,
    }
}

/// Whether `http::Uri` takes the text for a URI.
pub uninterp spec fn uri_accepts(text: Seq<char>) -> bool;

/// `http::Uri::try_from` on an owned string: whether the text is taken for
/// a URI. The answer depends on the text alone.
#[verifier::external_body]
pub(crate) fn uri_is_valid(text: &str) -> (ok: bool)
    ensures
        ok == uri_accepts(text@),
{
    http::Uri::try_from(text.to_owned()).is_ok()
}

/// Writes the upstream address of a request.
pub fn target_uri(scheme: &str, host: &str, path: &str, query: Option<&str>) -> (uri: String)
    ensures
        uri@ == target_text(scheme@, host@, path@, text_of(query)),
{
    proof {
        reveal_strlit("://");
        reveal_strlit("?");
        assert("://"@ =~= seq![':', '/', '/']);
        assert("?"@ =~= seq!['?']);
    }
    let mut uri = String::from_str(scheme);
    uri.append("://");
    uri.append(host);
    uri.append(path);
    match query {
        Some(q) => {
            uri.append("?");
            uri.append(q);
        },
        None => {},
    }
    uri
}

} // verus!
