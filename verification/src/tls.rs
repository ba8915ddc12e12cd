//! The trust policy of the upstream connection: every certificate that the
//! upstream presents is accepted, and so is every handshake signature.
//!
//! The upstream is one fixed host whose certificate may be self-signed,
//! expired or issued for another name. The policy stands here, in one
//! place, so that a stricter one can take its place without touching the
//! relay or the bridge.

use vstd::prelude::*;

verus! {

/// The signature schemes that the policy claims to verify, by their TLS
/// code points: RSA PKCS#1 and ECDSA with SHA-1, SHA-256, SHA-384 and
/// SHA-512, RSA-PSS with SHA-256, SHA-384 and SHA-512, Ed25519 and Ed448.
pub open spec fn accepted_schemes() -> Seq<u16> {
    seq![
        0x0201u16,
        0x0203u16,
        0x0401u16,
        0x0403u16,
        0x0501u16,
        0x0503u16,
        0x0601u16,
        0x0603u16,
        0x0804u16,
        0x0805u16,
        0x0806u16,
        0x0807u16,
        0x0808u16,
    ]
}

/// Decides on the certificate that the upstream presents: it is accepted,
/// whatever it holds, whoever issued it, whatever name it was asked under
/// and whatever the time is.
pub fn verify_server_cert(
    end_entity: &[u8],
    intermediates: &Vec<Vec<u8>>,
    server_name: &str,
    ocsp_response: &[u8],
    now: u64,
) -> (accepted: bool)
    ensures
        accepted,
{
    true
}

/// Decides on a TLS 1.2 handshake signature: it is accepted.
pub fn verify_tls12_signature(message: &[u8], cert: &[u8], scheme: u16, signature: &[u8]) -> (accepted: bool)
    ensures
        accepted,
{
    true
}

/// Decides on a TLS 1.3 handshake signature: it is accepted.
pub fn verify_tls13_signature(message: &[u8], cert: &[u8], scheme: u16, signature: &[u8]) -> (accepted: bool)
    ensures
        accepted,
{
    true
}

/// The signature schemes that the policy offers to the upstream.
pub fn supported_verify_schemes() -> (schemes: Vec<u16>)
    ensures
        schemes@ == accepted_schemes(),
{
    let schemes: Vec<u16> = vec![
        0x0201,
        0x0203,
        0x0401,
        0x0403,
        0x0501,
        0x0503,
        0x0601,
        0x0603,
        0x0804,
        0x0805,
        0x0806,
        0x0807,
        0x0808,
    ];
    proof {
        assert(schemes@ =~= accepted_schemes());
    }
    schemes
}

} // verus!
