use relayer::identity::{fnv1a_hash, home_id_from_domain, FNV_OFFSET_BASIS, FNV_PRIME};

#[test]
fn identity_of_empty_domain_is_offset_basis() {
    assert_eq!(home_id_from_domain(""), 0xcbf2_9ce4_8422_2325);
    assert_eq!(home_id_from_domain(""), FNV_OFFSET_BASIS);
}

#[test]
fn identity_matches_published_fnv1a_vectors() {
    assert_eq!(home_id_from_domain("a"), 0xaf63_dc4c_8601_ec8c);
    assert_eq!(home_id_from_domain("foobar"), 0x8594_4171_f739_67e8);
    assert_eq!(home_id_from_domain("example.com"), 0x5768_4663_4e27_14c6);
    assert_eq!(home_id_from_domain("app.example.com"), 0xc443_99a9_01cc_b58b);
}

#[test]
fn identity_of_one_byte_is_one_round() {
    let expected = (FNV_OFFSET_BASIS ^ 0x61).wrapping_mul(FNV_PRIME);
    assert_eq!(fnv1a_hash(&[0x61]), expected);
    assert_eq!(home_id_from_domain("a"), expected);
}

#[test]
fn identity_is_stable_across_calls() {
    let first = home_id_from_domain("tunnel.example.org");
    let second = home_id_from_domain("tunnel.example.org");
    let from_owned = home_id_from_domain(String::from("tunnel.example.org").as_str());
    assert_eq!(first, second);
    assert_eq!(first, from_owned);
}

#[test]
fn identity_tells_domains_apart() {
    assert_ne!(home_id_from_domain("a.example.com"), home_id_from_domain("b.example.com"));
    assert_ne!(home_id_from_domain("example.com"), home_id_from_domain("example.com."));
    assert_ne!(home_id_from_domain("ab"), home_id_from_domain("ba"));
}

#[test]
fn identity_hashes_utf8_bytes() {
    assert_eq!(home_id_from_domain("é"), fnv1a_hash(&[0xc3, 0xa9]));
    assert_eq!(home_id_from_domain("é"), 0x0ac2_1707_b718_1e01);
}

#[test]
fn hash_of_bytes_agrees_with_hash_of_text() {
    assert_eq!(fnv1a_hash(b"foobar"), 0x8594_4171_f739_67e8);
    assert_eq!(fnv1a_hash(b"example.com"), home_id_from_domain("example.com"));
}
