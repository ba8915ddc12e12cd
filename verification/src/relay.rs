//! The request relay: how an inbound request is rewritten for the upstream
//! and how its bytes are counted. Sending the request and streaming the
//! response is the caller's part.

use crate::headers::{
    contains_name, content_length, declared_length, fields, has_name, host_name, rewrite_host, set_host, Field,
    Header,
};
use crate::state::State;
use crate::uri::{https_scheme, target_text, target_uri, text_of, uri_accepts, uri_is_valid};
use vstd::prelude::*;
use vstd::utf8::encode_utf8;

verus! {

/// Whether a character may stand in a header value: anything but a control
/// character, the tab excepted.
pub open spec fn value_char(c: char) -> bool {
    (c as u32 >= 32 && c as u32 != 127) || c as u32 == 9
}

/// Whether a text can be the value of a header.
pub open spec fn valid_header_value(text: Seq<char>) -> bool {
    forall|i: int| 0 <= i < text.len() ==> value_char(#[trigger] text[i])
}

/// `http::HeaderValue::from_str`: the text is taken for a header value
/// exactly if none of its bytes is a control character other than the tab.
/// Every byte of a character beyond ASCII is 128 or more, so the test on
/// bytes is the test on characters.
#[verifier::external_body]
pub(crate) fn header_value_ok(text: &str) -> (ok: bool)
    ensures
        ok == valid_header_value(text@),
{
    http::HeaderValue::from_str(text).is_ok()
}

/// Why a request cannot be relayed.
#[derive(Debug, Clone, Copy, PartialEq, Eq, Structural)]
pub enum RelayError {
    /// The upstream address built from the request is no URI.
    MalformedUri,
    /// The upstream host cannot stand in a `Host` header.
    InvalidHost,
    /// The upstream could not be reached or did not answer.
    Upstream,
}

impl RelayError {
    /// The status that the client is answered with: the generic internal
    /// error, whatever went wrong.
    pub fn status(&self) -> (code: u16)
        ensures
            code == 500,
    {
        500
    }
}

/// A request as it goes to the upstream.
#[derive(Debug, Clone, PartialEq, Eq)]
pub struct Outbound {
    /// The upstream address.
    pub uri: String,
    /// The header fields to send.
    pub headers: Vec<Header>,
    /// The body length that the request declares, if it declares one.
    pub declared_length: Option<u64>,
}

/// An outbound request as mathematical values.
pub struct OutboundView {
    pub uri: Seq<char>,
    pub fields: Seq<Field>,
    pub declared_length: Option<u64>,
}

impl View for Outbound {
    type V = OutboundView;

    open spec fn view(&self) -> OutboundView {
        OutboundView { uri: self.uri@, fields: fields(self.headers@), declared_length: self.declared_length }
    }
}

/// What becomes of an inbound request: an address that is no URI fails it;
/// so does a host that cannot stand in a header, if the request has a
/// `Host` field; otherwise it goes out under the given address with its
/// `Host` fields made one that carries the upstream host, and all else as
/// it came.
pub open spec fn rewritten(uri: Seq<char>, uri_ok: bool, host: Seq<char>, list: Seq<Field>) -> Result<
    OutboundView,
    RelayError,
> {
    if !uri_ok {
        Err(RelayError::MalformedUri)
    } else if has_name(list, host_name()) && !valid_header_value(host) {
        Err(RelayError::InvalidHost)
    } else {
        Ok(
            OutboundView {
                uri: uri,
                fields: set_host(list, encode_utf8(host)),
                declared_length: declared_length(list),
            },
        )
    }
}

/// Whether a result is the one that the model gives.
pub open spec fn same_outcome(result: Result<Outbound, RelayError>, model: Result<OutboundView, RelayError>) -> bool {
    match result {
        Ok(out) => model == Ok::<OutboundView, RelayError>(out@),
        Err(e) => model == Err::<OutboundView, RelayError>(e),
    }
}

/// Rewrites a request whose upstream address has been written and tested:
/// `uri_ok` says whether the address is a URI.
pub fn rewrite_request(uri: String, uri_ok: bool, host: &str, headers: &Vec<Header>) -> (result: Result<
    Outbound,
    RelayError,
>)
    ensures
        same_outcome(result, rewritten(uri@, uri_ok, host@, fields(headers@))),
{
    if !uri_ok {
        return Err(RelayError::MalformedUri);
    }
    proof {
        reveal_strlit("host");
        assert("host"@ =~= host_name());
    }
    if contains_name(headers, "host") && !header_value_ok(host) {
        return Err(RelayError::InvalidHost);
    }
    let declared = content_length(headers);
    let out = rewrite_host(headers, host);
    Ok(Outbound { uri, headers: out, declared_length: declared })
}

/// Rewrites an inbound request for the upstream: the address becomes
/// `https://` followed by the upstream host, the path and the query, and
/// a request that has a `Host` field goes out with exactly one, which
/// carries the upstream host.
pub fn prepare_request(host: &str, path: &str, query: Option<&str>, headers: &Vec<Header>) -> (result: Result<
    Outbound,
    RelayError,
>)
    ensures
        same_outcome(
            result,
            rewritten(
                target_text(https_scheme(), host@, path@, text_of(query)),
                uri_accepts(target_text(https_scheme(), host@, path@, text_of(query))),
                host@,
                fields(headers@),
            ),
        ),
{
    proof {
        reveal_strlit("https");
        assert("https"@ =~= https_scheme());
    }
    let uri = target_uri("https", host, path, query);
    let uri_ok = uri_is_valid(uri.as_str());
    rewrite_request(uri, uri_ok, host, headers)
}

/// Counts the body that a request declares, before it is sent: the
/// declared length is added to the bytes sent on `route` and to the HTTP
/// aggregate. A request that declares no length counts for nothing.
pub fn account_request(state: &mut State, route: &str, declared: Option<u64>) -> (counted: bool)
    requires
        old(state).wf(),
    ensures
        final(state).wf(),
        counted == (declared matches Some(n) && old(state)@.http_has_room(n as nat)),
        final(state)@ == match declared {
            Some(n) => old(state)@.count_sent(route@, n as nat),
            None => old(state)@,
        },
{
    match declared {
        Some(n) => state.try_update_sent(route, n),
        None => false,
    }
}

/// Counts one chunk of a response body as it passes: its length is added
/// to the bytes received on `route` and to the HTTP aggregate.
pub fn account_chunk(state: &mut State, route: &str, length: usize) -> (counted: bool)
    requires
        old(state).wf(),
    ensures
        final(state).wf(),
        counted == old(state)@.http_has_room(length as nat),
        final(state)@ == old(state)@.count_received(route@, length as nat),
{
    state.try_update_received(route, length as u64)
}

} // verus!
