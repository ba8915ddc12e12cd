//! The upgrade request with which a bridge opens its socket to the
//! upstream.

use crate::headers::{
    contains_name, fields, has_name, host_name, lemma_filter_narrows, lemma_same_name_links, lemma_set_host_keeps_name,
    lemma_set_host_once, lemma_with_name_absent, remove_name, rewrite_host, set_host, websocket_key_name,
    with_name, without_name, Field, Header,
};
use crate::relay::{header_value_ok, valid_header_value, value_char};
use crate::text::same_name;
use crate::uri::{target_text, target_uri, text_of, uri_accepts, uri_is_valid, wss_scheme};
use tokio_tungstenite::tungstenite::handshake::client::generate_key;
use vstd::prelude::*;
use vstd::utf8::encode_utf8;

verus! {

/// Whether a character belongs to the base64 alphabet or is its padding.
pub open spec fn base64_char(c: char) -> bool {
    ||| 'A' <= c <= 'Z'
    ||| 'a' <= c <= 'z'
    ||| '0' <= c <= '9'
    ||| c == '+'
    ||| c == '/'
    ||| c == '='
}

/// The shape of a socket key: 16 bytes in base64, which makes 24
/// characters.
pub open spec fn key_shaped(key: Seq<char>) -> bool {
    &&& key.len() == 24
    &&& forall|i: int| 0 <= i < key.len() ==> base64_char(#[trigger] key[i])
}

/// `tungstenite::handshake::client::generate_key`: 16 random bytes in
/// base64. Which key comes is left open; every key has the shape above.
#[verifier::external_body]
pub(crate) fn fresh_key() -> (key: String)
    ensures
        key_shaped(key@),
{
    generate_key()
}

/// Why a bridge cannot ask the upstream for a socket.
#[derive(Debug, Clone, Copy, PartialEq, Eq, Structural)]
pub enum HandshakeError {
    /// The upstream address built from the request is no URI.
    MalformedUri,
    /// The upstream host cannot stand in a `Host` header.
    InvalidHost,
    /// The socket key cannot stand in a header.
    InvalidKey,
}

/// The upgrade request that goes to the upstream.
#[derive(Debug, Clone, PartialEq, Eq)]
pub struct Handshake {
    /// The upstream address.
    pub uri: String,
    /// The header fields to send.
    pub headers: Vec<Header>,
}

/// An upgrade request as mathematical values.
pub struct HandshakeView {
    pub uri: Seq<char>,
    pub fields: Seq<Field>,
}

impl View for Handshake {
    type V = HandshakeView;

    open spec fn view(&self) -> HandshakeView {
        HandshakeView { uri: self.uri@, fields: fields(self.headers@) }
    }
}

/// The header fields of the upgrade request: those of the inbound request
/// with its `Host` fields made one that carries the upstream host and
/// without any socket key of its own, followed by the new socket key.
pub open spec fn upgrade_fields(list: Seq<Field>, host: Seq<char>, key: Seq<char>) -> Seq<Field> {
    without_name(set_host(list, encode_utf8(host)), websocket_key_name()).push(
        Field { name: websocket_key_name(), value: encode_utf8(key) },
    )
}

/// What keeps an upgrade request from being built, whatever the key: an
/// address that is no URI, or a host that cannot stand in a header while
/// the inbound request has a `Host` field.
pub open spec fn upgrade_obstacle(uri_ok: bool, host: Seq<char>, list: Seq<Field>) -> Option<HandshakeError> {
    if !uri_ok {
        Some(HandshakeError::MalformedUri)
    } else if has_name(list, host_name()) && !valid_header_value(host) {
        Some(HandshakeError::InvalidHost)
    } else {
        None
    }
}

/// The upgrade request for an inbound request, an upstream host and a key.
pub open spec fn upgrade(uri: Seq<char>, uri_ok: bool, host: Seq<char>, key: Seq<char>, list: Seq<Field>) -> Result<
    HandshakeView,
    HandshakeError,
> {
    match upgrade_obstacle(uri_ok, host, list) {
        Some(e) => Err(e),
        None => if !valid_header_value(key) {
            Err(HandshakeError::InvalidKey)
        } else {
            Ok(HandshakeView { uri: uri, fields: upgrade_fields(list, host, key) })
        },
    }
}

/// Builds the upgrade request from an address that has been written and
/// tested (`uri_ok` says whether it is a URI) and a socket key.
pub fn build_handshake(uri: String, uri_ok: bool, host: &str, key: &str, headers: &Vec<Header>) -> (result: Result<
    Handshake,
    HandshakeError,
>)
    ensures
        match result {
            Ok(h) => upgrade(uri@, uri_ok, host@, key@, fields(headers@)) == Ok::<HandshakeView, HandshakeError>(
                h@,
            ),
            Err(e) => upgrade(uri@, uri_ok, host@, key@, fields(headers@)) == Err::<
                HandshakeView,
                HandshakeError,
            >(e),
        },
{
    if !uri_ok {
        return Err(HandshakeError::MalformedUri);
    }
    proof {
        reveal_strlit("host");
        reveal_strlit("sec-websocket-key");
        assert("host"@ =~= host_name());
        assert("sec-websocket-key"@ =~= websocket_key_name());
    }
    if contains_name(headers, "host") && !header_value_ok(host) {
        return Err(HandshakeError::InvalidHost);
    }
    if !header_value_ok(key) {
        return Err(HandshakeError::InvalidKey);
    }
    let with_host = rewrite_host(headers, host);
    let mut out = remove_name(&with_host, "sec-websocket-key");
    let ghost kept = fields(out@);
    out.push(Header { name: String::from_str("sec-websocket-key"), value: key.as_bytes_vec() });
    proof {
        assert(fields(out@) =~= kept.push(Field { name: websocket_key_name(), value: encode_utf8(key@) }));
    }
    Ok(Handshake { uri, headers: out })
}

/// Builds the upgrade request for an inbound request: the address becomes
/// `wss://` followed by the upstream host, the path and the query; the
/// header fields are those of the inbound request with the host rewritten
/// and the socket key replaced by one made for this connection.
pub fn open_handshake(host: &str, path: &str, query: Option<&str>, headers: &Vec<Header>) -> (result: Result<
    Handshake,
    HandshakeError,
>)
    ensures
        match result {
            Ok(h) => {
                &&& upgrade_obstacle(
                    uri_accepts(target_text(wss_scheme(), host@, path@, text_of(query))),
                    host@,
                    fields(headers@),
                ) is None
                &&& h@.uri == target_text(wss_scheme(), host@, path@, text_of(query))
                &&& exists|key: Seq<char>| key_shaped(key) && h@.fields == upgrade_fields(fields(headers@), host@, key)
            },
            Err(e) => upgrade_obstacle(
                uri_accepts(target_text(wss_scheme(), host@, path@, text_of(query))),
                host@,
                fields(headers@),
            ) == Some(e),
        },
{
    proof {
        reveal_strlit("wss");
        assert("wss"@ =~= wss_scheme());
    }
    let uri = target_uri("wss", host, path, query);
    let uri_ok = uri_is_valid(uri.as_str());
    let key = fresh_key();
    proof {
        lemma_key_is_value(key@);
    }
    build_handshake(uri, uri_ok, host, key.as_str(), headers)
}

/// A key of the right shape can stand in a header.
pub proof fn lemma_key_is_value(key: Seq<char>)
    requires
        key_shaped(key),
    ensures
        valid_header_value(key),
{
    assert forall|i: int| 0 <= i < key.len() implies value_char(#[trigger] key[i]) by {
        assert(base64_char(key[i]));
    }
}

/// The upgrade request carries exactly one socket key, the new one, in its
/// last field: whatever key the inbound request held is gone.
pub proof fn lemma_key_is_replaced(list: Seq<Field>, host: Seq<char>, key: Seq<char>)
    ensures
        upgrade_fields(list, host, key).len() >= 1,
        upgrade_fields(list, host, key).last() == (Field { name: websocket_key_name(), value: encode_utf8(key) }),
        forall|i: int|
            0 <= i < upgrade_fields(list, host, key).len() - 1 ==> !same_name(
                #[trigger] upgrade_fields(list, host, key)[i].name,
                websocket_key_name(),
            ),
{
    let kept = without_name(set_host(list, encode_utf8(host)), websocket_key_name());
    assert forall|i: int| 0 <= i < kept.len() implies !same_name(#[trigger] kept[i].name, websocket_key_name()) by {
        set_host(list, encode_utf8(host)).lemma_filter_pred(
            |field: Field| !same_name(field.name, websocket_key_name()),
            i,
        );
    }
}

/// The upgrade request carries the upstream host exactly once where the
/// inbound request had a `Host` field, and no `Host` field where it had
/// none.
pub proof fn lemma_upgrade_host_once(list: Seq<Field>, host: Seq<char>, key: Seq<char>)
    ensures
        has_name(list, host_name()) ==> with_name(upgrade_fields(list, host, key), host_name()).len() == 1
            && with_name(upgrade_fields(list, host, key), host_name())[0].value == encode_utf8(host),
        !has_name(list, host_name()) ==> with_name(upgrade_fields(list, host, key), host_name()) == Seq::<
            Field,
        >::empty(),
{
    let is_host = |field: Field| same_name(field.name, host_name());
    let no_key = |field: Field| !same_name(field.name, websocket_key_name());
    let rewritten = set_host(list, encode_utf8(host));
    let kept = without_name(rewritten, websocket_key_name());
    let last = Field { name: websocket_key_name(), value: encode_utf8(key) };
    assert(kept.push(last).filter(is_host) == kept.filter(is_host)) by {
        reveal(Seq::filter);
        assert(kept.push(last).drop_last() =~= kept);
    }
    assert forall|f: Field| #[trigger] is_host(f) implies no_key(f) by {}
    lemma_filter_narrows(rewritten, no_key, is_host);
    lemma_set_host_once(list, encode_utf8(host));
    if !has_name(list, host_name()) {
        lemma_with_name_absent(list, host_name());
    }
}

/// The upgrade request carries, for every name other than `Host` and the
/// socket key, exactly the fields that the inbound request had for it, in
/// their order.
pub proof fn lemma_upgrade_keeps_name(list: Seq<Field>, host: Seq<char>, key: Seq<char>, name: Seq<char>)
    requires
        !same_name(name, host_name()),
        !same_name(name, websocket_key_name()),
    ensures
        with_name(upgrade_fields(list, host, key), name) == with_name(list, name),
{
    let named = |field: Field| same_name(field.name, name);
    let no_key = |field: Field| !same_name(field.name, websocket_key_name());
    let rewritten = set_host(list, encode_utf8(host));
    let kept = without_name(rewritten, websocket_key_name());
    let last = Field { name: websocket_key_name(), value: encode_utf8(key) };
    lemma_same_name_links(name, websocket_key_name(), websocket_key_name());
    assert(kept.push(last).filter(named) == kept.filter(named)) by {
        reveal(Seq::filter);
        assert(kept.push(last).drop_last() =~= kept);
    }
    assert forall|f: Field| #[trigger] named(f) implies no_key(f) by {
        lemma_same_name_links(f.name, name, websocket_key_name());
    }
    lemma_filter_narrows(rewritten, no_key, named);
    lemma_set_host_keeps_name(list, encode_utf8(host), name);
}

} // verus!
