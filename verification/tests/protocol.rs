use relayer::protocol::{
    ClusterTunnelRequest, ClusterTunnelResponse, DecodeError, LENGTH_PREFIX_LEN,
    MAX_RESPONSE_FRAME,
};

fn request(domain: &str) -> ClusterTunnelRequest {
    ClusterTunnelRequest::new(domain.to_string())
}

#[test]
fn request_frame_is_length_then_domain() {
    assert_eq!(
        request("ab").encode(),
        vec![2, 0, 0, 0, 0, 0, 0, 0, 0x61, 0x62]
    );
}

#[test]
fn request_frame_of_empty_domain_is_the_length_alone() {
    assert_eq!(request("").encode(), vec![0, 0, 0, 0, 0, 0, 0, 0]);
    assert_eq!(ClusterTunnelRequest::decode(&[0; 8]), Ok(request("")));
}

#[test]
fn request_length_counts_bytes_not_characters() {
    let bytes = request("é.example").encode();
    assert_eq!(bytes.len(), LENGTH_PREFIX_LEN + 10);
    assert_eq!(&bytes[..8], &[10, 0, 0, 0, 0, 0, 0, 0]);
    assert_eq!(&bytes[8..10], &[0xc3, 0xa9]);
}

#[test]
fn request_length_is_little_endian() {
    let domain = "x".repeat(258);
    let bytes = request(&domain).encode();
    assert_eq!(&bytes[..8], &[2, 1, 0, 0, 0, 0, 0, 0]);
    assert_eq!(ClusterTunnelRequest::decode(&bytes), Ok(request(&domain)));
}

#[test]
fn request_round_trips() {
    for domain in ["example.com", "a", "", "深圳.example", "with space"] {
        let bytes = request(domain).encode();
        assert_eq!(ClusterTunnelRequest::decode(&bytes), Ok(request(domain)));
    }
}

#[test]
fn request_decoder_ignores_what_follows_the_frame() {
    let mut bytes = request("example.com").encode();
    bytes.extend_from_slice(&[0xff, 0x00, 0x7f]);
    assert_eq!(ClusterTunnelRequest::decode(&bytes), Ok(request("example.com")));
}

#[test]
fn request_decoder_hands_out_the_decoded_text() {
    let decoded = ClusterTunnelRequest::decode(&[3, 0, 0, 0, 0, 0, 0, 0, b'a', b'b', b'c', b'd']);
    assert_eq!(decoded.map(|r| r.domain), Ok("abc".to_string()));
}

#[test]
fn request_shorter_than_length_field_is_truncated() {
    assert_eq!(ClusterTunnelRequest::decode(&[]), Err(DecodeError::Truncated));
    assert_eq!(
        ClusterTunnelRequest::decode(&[1, 0, 0, 0, 0, 0, 0]),
        Err(DecodeError::Truncated)
    );
}

#[test]
fn request_shorter_than_declared_is_truncated() {
    assert_eq!(
        ClusterTunnelRequest::decode(&[3, 0, 0, 0, 0, 0, 0, 0, b'a', b'b']),
        Err(DecodeError::Truncated)
    );
    assert_eq!(
        ClusterTunnelRequest::decode(&[0xff; 8]),
        Err(DecodeError::Truncated)
    );
    let mut bytes = request("example.com").encode();
    bytes.pop();
    assert_eq!(ClusterTunnelRequest::decode(&bytes), Err(DecodeError::Truncated));
}

#[test]
fn request_with_bad_utf8_is_rejected() {
    assert_eq!(
        ClusterTunnelRequest::decode(&[1, 0, 0, 0, 0, 0, 0, 0, 0xff]),
        Err(DecodeError::InvalidUtf8)
    );
    assert_eq!(
        ClusterTunnelRequest::decode(&[2, 0, 0, 0, 0, 0, 0, 0, 0xc3, 0x28]),
        Err(DecodeError::InvalidUtf8)
    );
    // The first byte of a two-byte character, cut off by the declared length.
    assert_eq!(
        ClusterTunnelRequest::decode(&[1, 0, 0, 0, 0, 0, 0, 0, 0xc3, 0xa9]),
        Err(DecodeError::InvalidUtf8)
    );
}

#[test]
fn response_frame_is_one_byte() {
    assert_eq!(ClusterTunnelResponse::new(true).encode(), vec![1]);
    assert_eq!(ClusterTunnelResponse::new(false).encode(), vec![0]);
}

#[test]
fn response_round_trips() {
    for success in [true, false] {
        let response = ClusterTunnelResponse::new(success);
        assert_eq!(ClusterTunnelResponse::decode(&response.encode()), Ok(response));
        assert_eq!(response.success, success);
    }
}

#[test]
fn response_decoder_ignores_what_follows_the_frame() {
    assert_eq!(
        ClusterTunnelResponse::decode(&[1, 9, 9]),
        Ok(ClusterTunnelResponse { success: true })
    );
    assert_eq!(
        ClusterTunnelResponse::decode(&[0, 1]),
        Ok(ClusterTunnelResponse { success: false })
    );
}

#[test]
fn empty_response_is_truncated() {
    assert_eq!(ClusterTunnelResponse::decode(&[]), Err(DecodeError::Truncated));
}

#[test]
fn response_flag_must_be_zero_or_one() {
    assert_eq!(ClusterTunnelResponse::decode(&[2]), Err(DecodeError::InvalidFlag));
    assert_eq!(ClusterTunnelResponse::decode(&[0xff, 1]), Err(DecodeError::InvalidFlag));
}

#[test]
fn response_frame_fits_the_read_bound() {
    assert_eq!(MAX_RESPONSE_FRAME, 1500);
    assert!(ClusterTunnelResponse::new(true).encode().len() <= MAX_RESPONSE_FRAME);
}
