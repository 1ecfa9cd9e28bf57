//! Report verification: key decoding, the network check and the signature
//! check, applied in that order with short-circuit on the first failure.

use helium_crypto::Verify;
use vstd::prelude::*;

verus! {

/// The network a key was issued for.
#[derive(Clone, Copy, Debug, PartialEq, Eq, Structural)]
pub enum Network {
    MainNet,
    TestNet,
}

/// The client-input errors of report verification, one per check.
#[derive(Clone, Copy, Debug, PartialEq, Eq, Structural)]
pub enum GateError {
    InvalidPublicKey,
    InvalidNetwork,
    InvalidSignature,
}

impl GateError {
    /// The text sent back to a client for this error.
    pub fn message(&self) -> (r: &'static str)
        ensures
            *self == GateError::InvalidPublicKey ==> r@ == "invalid public key"@,
            *self == GateError::InvalidNetwork ==> r@ == "invalid network"@,
            *self == GateError::InvalidSignature ==> r@ == "invalid signature"@,
    {
        proof {
            reveal_strlit("invalid public key");
            reveal_strlit("invalid network");
            reveal_strlit("invalid signature");
        }
        match self {
            GateError::InvalidPublicKey => "invalid public key",
            GateError::InvalidNetwork => "invalid network",
            GateError::InvalidSignature => "invalid signature",
        }
    }
}

/// The network encoded in the high nibble of a key's tag byte: `0x00` is
/// mainnet, `0x10` testnet, anything else is no network.
pub open spec fn network_of_tag(tag: u8) -> Option<Network> {
    if tag & 0xf0u8 == 0x00u8 {
        Some(Network::MainNet)
    } else if tag & 0xf0u8 == 0x10u8 {
        Some(Network::TestNet)
    } else {
        None
    }
}

/// The key type in the low nibble of a tag byte that marks a secp256k1 key.
pub const KEYTYPE_SECP256K1: u8 = 0x03;

/// The key type in the low nibble of a tag byte that marks an RSA key.
pub const KEYTYPE_RSA: u8 = 0x04;

/// Whether the bytes are a structurally valid binary public key.
pub uninterp spec fn key_decodes(bytes: Seq<u8>) -> bool;

/// Whether `sig` is a valid signature of `msg` under the key whose binary
/// form is `key`.
pub uninterp spec fn signature_valid(key: Seq<u8>, msg: Seq<u8>, sig: Seq<u8>) -> bool;

/// Whether the bytes are the SEC1 encoding of a secp256k1 point that is a
/// valid public key.
pub uninterp spec fn sec1_point_valid(bytes: Seq<u8>) -> bool;

/// The big-endian value of two bytes.
pub open spec fn be16(hi: u8, lo: u8) -> int {
    hi as int * 256 + lo as int
}

/// The body of an RSA key is its total length and its modulus length, two
/// big-endian 16-bit numbers, then that many bytes. A body that holds all
/// its bytes must not declare a modulus longer than the total.
pub open spec fn rsa_layout_ok(b: Seq<u8>) -> bool {
    b.len() >= 5 && b.len() - 5 >= be16(b[1], b[2]) ==> be16(b[3], b[4]) <= be16(b[1], b[2])
}

/// The screen a key passes before it is handed to the decoder: a tag with a
/// known network, and for a secp256k1 key a valid curve point, for an RSA
/// key a consistent layout. Keys that fail it are not valid keys.
pub open spec fn key_screen(b: Seq<u8>) -> bool {
    &&& b.len() > 0
    &&& network_of_tag(b[0]).is_some()
    &&& (b[0] & 0x0fu8 == KEYTYPE_SECP256K1 ==> sec1_point_valid(b.subrange(1, b.len() as int)))
    &&& (b[0] & 0x0fu8 == KEYTYPE_RSA ==> rsa_layout_ok(b))
}

/// Relies on `k256::PublicKey::from_sec1_bytes`, which parses a SEC1 point
/// and checks that it is a valid key on the curve, reporting failure as an
/// error.
#[verifier::external_body]
fn sec1_decodes(bytes: &[u8]) -> (r: bool)
    ensures
        r == sec1_point_valid(bytes@),
{
    k256::PublicKey::from_sec1_bytes(bytes).is_ok()
}

/// Whether a key passes the screen that keeps the decoder from panicking.
pub fn screen_key(bytes: &[u8]) -> (r: bool)
    ensures
        r == key_screen(bytes@),
{
    if bytes.len() == 0 {
        return false;
    }
    let tag = bytes[0];
    if !(tag & 0xf0u8 == 0x00u8 || tag & 0xf0u8 == 0x10u8) {
        return false;
    }
    let kind = tag & 0x0fu8;
    if kind == KEYTYPE_SECP256K1 {
        let ok = sec1_decodes(&bytes[1..bytes.len()]);
        assert(bytes@.subrange(1, bytes@.len() as int) =~= bytes@.subrange(1, bytes@.len() as int));
        return ok;
    }
    if kind == KEYTYPE_RSA && bytes.len() >= 5 {
        let total = bytes[1] as usize * 256 + bytes[2] as usize;
        let modulus = bytes[3] as usize * 256 + bytes[4] as usize;
        if bytes.len() - 5 >= total && modulus > total {
            return false;
        }
    }
    true
}

/// Relies on `helium_crypto::PublicKey::try_from(&[u8])`: it succeeds exactly
/// on valid key encodings, and the decoded key's network is taken from the
/// tag byte by `Network::try_from(u8)`, which masks it with `0xF0`. The
/// screen keeps out the inputs on which it panics: its secp256k1 decoder
/// unwraps the same point check that `k256::PublicKey::from_sec1_bytes`
/// reports, and its RSA decoder splits the body at the declared modulus
/// length.
#[verifier::external_body]
fn decode_key_network(bytes: &[u8]) -> (r: Option<Network>)
    requires
        key_screen(bytes@),
    ensures
        r.is_some() == key_decodes(bytes@),
        r matches Some(n) ==> bytes@.len() > 0 && network_of_tag(bytes@[0]) == Some(n),
{
    match helium_crypto::PublicKey::try_from(bytes) {
        Ok(key) => Some(match key.network {
            helium_crypto::Network::MainNet => Network::MainNet,
            helium_crypto::Network::TestNet => Network::TestNet,
        }),
        Err(_) => None,
    }
}

/// Relies on `helium_crypto::PublicKey::try_from(&[u8])` followed by
/// `helium_crypto::Verify::verify`: whether the signature checks out under
/// the key depends on the three byte strings alone. The screen keeps out the
/// keys on which the decoder panics, as for `decode_key_network`.
#[verifier::external_body]
fn signature_verifies(key: &[u8], msg: &[u8], sig: &[u8]) -> (r: bool)
    requires
        key_screen(key@),
    ensures
        r == signature_valid(key@, msg@, sig@),
{
    match helium_crypto::PublicKey::try_from(key) {
        Ok(public_key) => public_key.verify(msg, sig).is_ok(),
        Err(_) => false,
    }
}

/// The network of a key as the decoder reports it, `None` when the key fails
/// the screen or does not decode.
pub open spec fn decoded_network(key: Seq<u8>) -> Option<Network> {
    if key_screen(key) && key_decodes(key) {
        network_of_tag(key[0])
    } else {
        None
    }
}

/// The verification outcome from the results of its three checks: the first check
/// that fails names the error.
pub open spec fn gate_outcome(
    decoded: Option<Network>,
    required: Network,
    enforce_network: bool,
    signature_ok: bool,
) -> Result<(), GateError> {
    match decoded {
        None => Err(GateError::InvalidPublicKey),
        Some(n) => if enforce_network && n != required {
            Err(GateError::InvalidNetwork)
        } else if !signature_ok {
            Err(GateError::InvalidSignature)
        } else {
            Ok(())
        },
    }
}

/// Whether a decoded key passes the network check.
pub open spec fn network_passes(n: Network, required: Network, enforce_network: bool) -> bool {
    !enforce_network || n == required
}

/// The verification verdict from the results of the key decoding and the signature
/// check, as `gate_outcome` states it.
pub fn gate_verdict(
    decoded: Option<Network>,
    required: Network,
    enforce_network: bool,
    signature_ok: bool,
) -> (r: Result<(), GateError>)
    ensures
        r == gate_outcome(decoded, required, enforce_network, signature_ok),
{
    match decoded {
        None => Err(GateError::InvalidPublicKey),
        Some(n) => {
            if enforce_network && n != required {
                Err(GateError::InvalidNetwork)
            } else if !signature_ok {
                Err(GateError::InvalidSignature)
            } else {
                Ok(())
            }
        },
    }
}

/// Runs verification on a submitted report: decodes the key, checks its network
/// against `required` when `enforce_network` is set, and verifies the
/// signature over `msg`, the report's bytes with its signature excluded. The
/// signature is only checked once the first two checks have passed.
pub fn verify_report(
    key: &[u8],
    msg: &[u8],
    sig: &[u8],
    required: Network,
    enforce_network: bool,
) -> (r: Result<(), GateError>)
    ensures
        r == gate_outcome(
            decoded_network(key@),
            required,
            enforce_network,
            signature_valid(key@, msg@, sig@),
        ),
{
    if !screen_key(key) {
        return gate_verdict(None, required, enforce_network, false);
    }
    let decoded = decode_key_network(key);
    let signature_ok = match decoded {
        Some(n) => {
            if !enforce_network || n == required {
                signature_verifies(key, msg, sig)
            } else {
                false
            }
        },
        None => false,
    };
    gate_verdict(decoded, required, enforce_network, signature_ok)
}

/// Verification succeeds exactly when the key decodes, its network passes and
/// the signature is valid; otherwise exactly one error is reported, the one
/// of the first check that failed.
pub proof fn lemma_gate_first_failure(
    decoded: Option<Network>,
    required: Network,
    enforce_network: bool,
    signature_ok: bool,
)
    ensures
        gate_outcome(decoded, required, enforce_network, signature_ok).is_ok() <==> (
            decoded.is_some() && network_passes(decoded.unwrap(), required, enforce_network)
                && signature_ok),
        gate_outcome(decoded, required, enforce_network, signature_ok)
            == Err::<(), GateError>(GateError::InvalidPublicKey) <==> decoded.is_none(),
        gate_outcome(decoded, required, enforce_network, signature_ok)
            == Err::<(), GateError>(GateError::InvalidNetwork) <==> (decoded.is_some()
            && !network_passes(decoded.unwrap(), required, enforce_network)),
        gate_outcome(decoded, required, enforce_network, signature_ok)
            == Err::<(), GateError>(GateError::InvalidSignature) <==> (decoded.is_some()
            && network_passes(decoded.unwrap(), required, enforce_network) && !signature_ok),
{
}

} // verus!
