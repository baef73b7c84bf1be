//! The two messages of the cluster tunnel handshake and their wire format.
//!
//! A relay that cannot find an agent locally opens a stream to the node that
//! owns the domain and sends one [`ClusterTunnelRequest`]; the owning node
//! answers with one [`ClusterTunnelResponse`]. After a successful answer the
//! stream carries raw tunnel bytes, so each message is a *prefix* of what is
//! read from the stream: a decoder looks at the frame and at nothing behind it.
//! What stands behind a response belongs to the tunnel; [`behind_response`]
//! names it.
//!
//! Layout, the same on both ends:
//!
//! * request: the byte length of the domain as a little-endian `u64`, then the
//!   domain in UTF-8;
//! * response: one byte, `1` for success and `0` for refusal.

use vstd::bytes::*;
use vstd::prelude::*;
use vstd::slice::*;
use vstd::string::StringSliceAdditionalSpecFns;
use vstd::utf8::*;

verus! {

/// Number of bytes of the length field that opens a request frame.
pub const LENGTH_PREFIX_LEN: usize = 8;

/// Number of bytes of a response frame.
pub const RESPONSE_FRAME_LEN: usize = 1;

/// Largest number of bytes that a requester reads for the response frame.
pub const MAX_RESPONSE_FRAME: usize = 1500;

/// Why a frame could not be decoded.
#[derive(Clone, Copy, Debug, PartialEq, Eq, Structural)]
pub enum DecodeError {
    /// The bytes end before the frame does.
    Truncated,
    /// The success flag of a response is neither `0` nor `1`.
    InvalidFlag,
    /// The domain of a request is not valid UTF-8.
    InvalidUtf8,
}

/// Asks the node that owns `domain` to accept a relayed tunnel.
#[derive(Debug, PartialEq, Eq)]
pub struct ClusterTunnelRequest {
    pub domain: String,
}

/// The owning node's answer: whether it accepted the tunnel.
#[derive(Clone, Copy, Debug, PartialEq, Eq, Structural)]
pub struct ClusterTunnelResponse {
    pub success: bool,
}

impl View for ClusterTunnelRequest {
    type V = Seq<char>;

    /// A request is its domain, as a sequence of characters.
    open spec fn view(&self) -> Seq<char> {
        self.domain@
    }
}

/// The request frame for `domain`.
pub open spec fn spec_encode_request(domain: Seq<char>) -> Seq<u8> {
    let payload = encode_utf8(domain);
    spec_u64_to_le_bytes(payload.len() as u64) + payload
}

/// What a request decoder makes of `bytes`: the domain of the frame that
/// `bytes` starts with, or the reason why it starts with none.
pub open spec fn spec_decode_request(bytes: Seq<u8>) -> Result<Seq<char>, DecodeError> {
    if bytes.len() < LENGTH_PREFIX_LEN {
        Err(DecodeError::Truncated)
    } else {
        let declared = spec_u64_from_le_bytes(bytes.subrange(0, LENGTH_PREFIX_LEN as int));
        if declared > bytes.len() - LENGTH_PREFIX_LEN {
            Err(DecodeError::Truncated)
        } else {
            let payload = bytes.subrange(LENGTH_PREFIX_LEN as int, LENGTH_PREFIX_LEN + declared);
            if valid_utf8(payload) {
                Ok(decode_utf8(payload))
            } else {
                Err(DecodeError::InvalidUtf8)
            }
        }
    }
}

/// The response frame for `response`.
pub open spec fn spec_encode_response(response: ClusterTunnelResponse) -> Seq<u8> {
    seq![if response.success { 1u8 } else { 0u8 }]
}

/// What a response decoder makes of `bytes`.
pub open spec fn spec_decode_response(bytes: Seq<u8>) -> Result<
    ClusterTunnelResponse,
    DecodeError,
> {
    if bytes.len() == 0 {
        Err(DecodeError::Truncated)
    } else if bytes[0] == 0 {
        Ok(ClusterTunnelResponse { success: false })
    } else if bytes[0] == 1 {
        Ok(ClusterTunnelResponse { success: true })
    } else {
        Err(DecodeError::InvalidFlag)
    }
}

/// What `bytes` holds behind the response frame at its head: the first bytes
/// of the relayed stream, where the read that brought the response brought
/// more.
pub open spec fn behind_response(bytes: Seq<u8>) -> Seq<u8> {
    bytes.skip(RESPONSE_FRAME_LEN as int)
}

/// Checks that `bytes` is UTF-8 and borrows it as a string.
///
/// Trusted: the body is `core::str::from_utf8` of the standard library, which
/// returns the string whose bytes are `bytes` when they are well-formed UTF-8
/// and an error otherwise. The contract states exactly that, over the UTF-8
/// model of `vstd::utf8`.
#[verifier::external_body]
fn str_from_utf8(bytes: &[u8]) -> (text: Option<&str>)
    ensures
        text is Some <==> valid_utf8(bytes@),
        text matches Some(s) ==> s.spec_bytes() == bytes@,
{
    match core::str::from_utf8(bytes) {
        Ok(s) => Some(s),
        Err(_) => None,
    }
}

impl ClusterTunnelRequest {
    /// Builds the request for `domain`.
    pub fn new(domain: String) -> (request: Self)
        ensures
            request.domain == domain,
    {
        ClusterTunnelRequest { domain }
    }

    /// Writes the request as a frame.
    pub fn encode(&self) -> (bytes: Vec<u8>)
        ensures
            bytes@ == spec_encode_request(self@),
    {
        let payload = self.domain.as_str().as_bytes();
        let mut bytes = u64_to_le_bytes(payload.len() as u64);
        let ghost prefix = bytes@;
        bytes.extend_from_slice(payload);
        assert(bytes@ =~= prefix + payload@);
        bytes
    }

    /// Reads the request that `bytes` starts with.
    ///
    /// Fails with `Truncated` when `bytes` is shorter than the length field or
    /// than the length it declares, and with `InvalidUtf8` when the declared
    /// bytes are not UTF-8. Bytes behind the frame are not looked at.
    pub fn decode(bytes: &[u8]) -> (decoded: Result<Self, DecodeError>)
        ensures
            spec_decode_request(bytes@) == match decoded {
                Ok(request) => Ok::<Seq<char>, DecodeError>(request@),
                Err(e) => Err(e),
            },
    {
        if bytes.len() < LENGTH_PREFIX_LEN {
            return Err(DecodeError::Truncated);
        }
        let declared: u64 = u64_from_le_bytes(slice_subrange(bytes, 0, LENGTH_PREFIX_LEN));
        let available: usize = bytes.len() - LENGTH_PREFIX_LEN;
        if declared > available as u64 {
            return Err(DecodeError::Truncated);
        }
        let end: usize = LENGTH_PREFIX_LEN + declared as usize;
        let payload = slice_subrange(bytes, LENGTH_PREFIX_LEN, end);
        match str_from_utf8(payload) {
            Some(text) => {
                proof {
                    encode_utf8_decode_utf8(text@);
                }
                Ok(ClusterTunnelRequest { domain: text.to_owned() })
            },
            None => Err(DecodeError::InvalidUtf8),
        }
    }
}

impl ClusterTunnelResponse {
    /// Builds a response with the given success flag.
    pub fn new(success: bool) -> (response: Self)
        ensures
            response.success == success,
    {
        ClusterTunnelResponse { success }
    }

    /// Writes the response as a frame.
    pub fn encode(&self) -> (bytes: Vec<u8>)
        ensures
            bytes@ == spec_encode_response(*self),
    {
        let flag: u8 = if self.success {
            1
        } else {
            0
        };
        let mut bytes: Vec<u8> = Vec::new();
        bytes.push(flag);
        assert(bytes@ =~= spec_encode_response(*self));
        bytes
    }

    /// Reads the response that `bytes` starts with.
    ///
    /// Fails with `Truncated` when `bytes` is empty and with `InvalidFlag` when
    /// the first byte is neither `0` nor `1`. Bytes behind the frame are not
    /// looked at.
    pub fn decode(bytes: &[u8]) -> (decoded: Result<Self, DecodeError>)
        ensures
            decoded == spec_decode_response(bytes@),
    {
        if bytes.len() == 0 {
            return Err(DecodeError::Truncated);
        }
        let flag: u8 = bytes[0];
        if flag == 0 {
            Ok(ClusterTunnelResponse { success: false })
        } else if flag == 1 {
            Ok(ClusterTunnelResponse { success: true })
        } else {
            Err(DecodeError::InvalidFlag)
        }
    }
}

/// A request frame, followed by anything, decodes to the domain it was made
/// from: both ends of a cluster connection read the same request.
pub proof fn lemma_request_round_trip(domain: Seq<char>, rest: Seq<u8>)
    requires
        encode_utf8(domain).len() <= u64::MAX,
    ensures
        spec_decode_request(spec_encode_request(domain) + rest) == Ok::<Seq<char>, DecodeError>(
            domain,
        ),
{
    let payload = encode_utf8(domain);
    let prefix = spec_u64_to_le_bytes(payload.len() as u64);
    let frame = spec_encode_request(domain) + rest;
    lemma_auto_spec_u64_to_from_le_bytes();
    assert(prefix.len() == 8);
    assert(frame.subrange(0, LENGTH_PREFIX_LEN as int) =~= prefix);
    assert(spec_u64_from_le_bytes(prefix) == payload.len());
    assert(frame.subrange(LENGTH_PREFIX_LEN as int, LENGTH_PREFIX_LEN + payload.len())
        =~= payload);
    encode_utf8_valid_utf8(domain);
    encode_utf8_decode_utf8(domain);
}

/// Whatever decodes as a request starts with the frame of the decoded domain:
/// no two domains share a frame.
pub proof fn lemma_decoded_request_is_prefix(bytes: Seq<u8>)
    requires
        spec_decode_request(bytes) is Ok,
    ensures
        spec_encode_request(spec_decode_request(bytes)->Ok_0).is_prefix_of(bytes),
{
    let head = bytes.subrange(0, LENGTH_PREFIX_LEN as int);
    let declared = spec_u64_from_le_bytes(head);
    let payload = bytes.subrange(LENGTH_PREFIX_LEN as int, LENGTH_PREFIX_LEN + declared);
    lemma_auto_spec_u64_to_from_le_bytes();
    decode_utf8_encode_utf8(payload);
    assert(spec_u64_to_le_bytes(spec_u64_from_le_bytes(head)) == head);
    let frame = spec_encode_request(decode_utf8(payload));
    assert(frame =~= head + payload);
    assert(frame =~= bytes.subrange(0, frame.len() as int));
}

/// A response frame, followed by anything, decodes to the response it was
/// made from.
pub proof fn lemma_response_round_trip(response: ClusterTunnelResponse, rest: Seq<u8>)
    ensures
        spec_decode_response(spec_encode_response(response) + rest) == Ok::<
            ClusterTunnelResponse,
            DecodeError,
        >(response),
{
}

/// Bytes that decode as a response are the frame of that response followed
/// by what stands behind it: nothing is lost between the two and nothing is
/// counted twice.
pub proof fn lemma_response_splits(bytes: Seq<u8>)
    requires
        spec_decode_response(bytes) is Ok,
    ensures
        spec_encode_response(spec_decode_response(bytes)->Ok_0).len() == RESPONSE_FRAME_LEN,
        bytes == spec_encode_response(spec_decode_response(bytes)->Ok_0) + behind_response(bytes),
{
    let frame = spec_encode_response(spec_decode_response(bytes)->Ok_0);
    assert(bytes =~= frame + behind_response(bytes));
}

/// Whatever decodes as a response starts with the frame of the decoded
/// response.
pub proof fn lemma_decoded_response_is_prefix(bytes: Seq<u8>)
    requires
        spec_decode_response(bytes) is Ok,
    ensures
        spec_encode_response(spec_decode_response(bytes)->Ok_0).is_prefix_of(bytes),
{
    let frame = spec_encode_response(spec_decode_response(bytes)->Ok_0);
    assert(frame =~= bytes.subrange(0, 1));
}

} // verus!
