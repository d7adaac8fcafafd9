use kuna::context::{build_signed_request, fresh_nonce, AuthContext};

#[test]
fn signature_matches_the_published_hmac_sha384_vector() {
    // Test case 2 of RFC 4231: key "Jefe", data "what do ya want for
    // nothing?".
    let auth = AuthContext::new(
        "Jefe".to_owned(),
        "public-id".to_owned(),
        "https://example.test".to_owned(),
    );
    let signature = auth.sign("what do ya want for nothing?");
    assert_eq!(
        signature,
        "af45d2e376484031617f78d2b58a6b1b9c7ef464f5a01b47e42ec3736322445e8e2240ca5e69e2c78b3239ecfab21649"
    );
}

#[test]
fn signing_the_same_message_twice_gives_the_same_signature() {
    let auth = AuthContext::new(
        "secret-key".to_owned(),
        "public-id".to_owned(),
        "https://example.test".to_owned(),
    );
    let first = auth.sign("path123{}");
    let second = auth.sign("path123{}");
    assert_eq!(first, second);
}

#[test]
fn different_keys_give_different_signatures() {
    let one = AuthContext::new(
        "key-one".to_owned(),
        "public-id".to_owned(),
        "https://example.test".to_owned(),
    );
    let two = AuthContext::new(
        "key-two".to_owned(),
        "public-id".to_owned(),
        "https://example.test".to_owned(),
    );
    assert_ne!(one.sign("same message"), two.sign("same message"));
}

#[test]
fn signed_request_carries_the_expected_headers() {
    let auth = AuthContext::new(
        "secret-key".to_owned(),
        "public-id".to_owned(),
        "https://example.test".to_owned(),
    );
    let request = build_signed_request(&auth, "/v3/auth/r/wallets", 12345, None);
    assert_eq!(request.content_type, "application/json");
    assert_eq!(request.nonce, "12345");
    assert_eq!(request.api_key, "public-id");
    // the signing message is path, nonce, then the default empty body
    assert_eq!(request.signature, auth.sign("/v3/auth/r/wallets12345{}"));
}

#[test]
fn signed_request_signs_the_body_it_is_given() {
    let auth = AuthContext::new(
        "secret-key".to_owned(),
        "public-id".to_owned(),
        "https://example.test".to_owned(),
    );
    let body = "{\"order_id\":42}";
    let request = build_signed_request(&auth, "/v3/order/cancel", 999, Some(body));
    assert_eq!(request.signature, auth.sign("/v3/order/cancel999{\"order_id\":42}"));
    let again = build_signed_request(&auth, "/v3/order/cancel", 999, Some(body));
    assert_eq!(request.signature, again.signature);
}

#[test]
fn fresh_nonces_are_produced_on_demand() {
    let a = fresh_nonce();
    let b = fresh_nonce();
    // the clock only moves forward at millisecond granularity
    assert!(b >= a);
}
