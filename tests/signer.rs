use exchange_ws::encoding::percent_encode;
use exchange_ws::error::Error;
use exchange_ws::models::Subscription;
use exchange_ws::params::{key_less, ParamSet};
use exchange_ws::subscription::{
    build_query_string, huobi_auth_params, query_signature, sign_hmac_sha256_base64,
    sign_hmac_sha256_hex, signing_payload,
};
use exchange_ws::websocket::Websocket;

fn params_from(pairs: &[(&str, &str)]) -> ParamSet {
    let mut p = ParamSet::new();
    for (k, v) in pairs {
        p.insert(k.to_string(), v.to_string());
    }
    p
}

#[test]
fn percent_encodes_every_non_alphanumeric_byte() {
    assert_eq!(percent_encode("a+b,c"), "a%2Bb%2Cc");
    assert_eq!(percent_encode("2021-07-01T10:00:00"), "2021%2D07%2D01T10%3A00%3A00");
    assert_eq!(percent_encode("AZaz09"), "AZaz09");
    assert_eq!(percent_encode(""), "");
    assert_eq!(percent_encode("é"), "%C3%A9");
}

#[test]
fn query_string_is_sorted_and_encoded() {
    let p = params_from(&[("b", "2"), ("a", "x y"), ("C", "+")]);
    assert_eq!(build_query_string(&p), "C=%2B&a=x%20y&b=2");
    assert_eq!(build_query_string(&ParamSet::new()), "");
}

#[test]
fn query_string_ignores_insertion_order() {
    let one = params_from(&[("SignatureVersion", "2"), ("AccessKeyId", "k"), ("Timestamp", "t")]);
    let two = params_from(&[("Timestamp", "t"), ("SignatureVersion", "2"), ("AccessKeyId", "k")]);
    let three = params_from(&[("AccessKeyId", "k"), ("Timestamp", "t"), ("SignatureVersion", "2")]);
    let expected = "AccessKeyId=k&SignatureVersion=2&Timestamp=t";
    assert_eq!(build_query_string(&one), expected);
    assert_eq!(build_query_string(&two), expected);
    assert_eq!(build_query_string(&three), expected);
}

#[test]
fn parameter_sets_from_permuted_pairs_agree() {
    let pairs = |v: &[(&str, &str)]| -> Vec<(String, String)> {
        v.iter().map(|(k, x)| (k.to_string(), x.to_string())).collect()
    };
    let a = ParamSet::from_pairs(&pairs(&[("op", "auth"), ("AccessKeyId", "k"), ("Timestamp", "2021-01-01T00:00:00")]));
    let b = ParamSet::from_pairs(&pairs(&[("Timestamp", "2021-01-01T00:00:00"), ("op", "auth"), ("AccessKeyId", "k")]));
    assert_eq!(build_query_string(&a), build_query_string(&b));
    assert_eq!(build_query_string(&a), "AccessKeyId=k&Timestamp=2021%2D01%2D01T00%3A00%3A00&op=auth");
    let last = ParamSet::from_pairs(&pairs(&[("a", "1"), ("a", "2")]));
    assert_eq!(build_query_string(&last), "a=2");
}

#[test]
fn inserting_an_existing_key_replaces_its_value() {
    let p = params_from(&[("a", "1"), ("b", "2"), ("a", "3")]);
    assert_eq!(p.len(), 2);
    assert_eq!(build_query_string(&p), "a=3&b=2");
}

#[test]
fn keys_compare_by_character_code() {
    assert!(key_less("Signature", "SignatureMethod"));
    assert!(key_less("SignatureMethod", "SignatureVersion"));
    assert!(key_less("Z", "a"));
    assert!(!key_less("a", "a"));
    assert!(!key_less("b", "a"));
    assert!(key_less("", "a"));
}

#[test]
fn hmac_signatures_match_known_vectors() {
    let msg = "The quick brown fox jumps over the lazy dog";
    assert_eq!(
        sign_hmac_sha256_base64("key", msg),
        "97yD9DBThCSxMpjmqm+xQ+9NWaFJRhdZl0edvC0aPNg="
    );
    assert_eq!(
        sign_hmac_sha256_hex("key", msg),
        "f7bc83f430538424b13298e6aa6fb143ef4d59a14946175997479dbc2d1a3cd8"
    );
}

#[test]
fn signing_payload_has_four_lines() {
    assert_eq!(
        signing_payload("GET", "api.hbdm.vn", "/linear-swap-notification", "a=1"),
        "GET\napi.hbdm.vn\n/linear-swap-notification\na=1"
    );
}

#[test]
fn auth_params_hold_the_four_login_fields() {
    let p = huobi_auth_params("key", "2021-07-01T10:00:00");
    assert_eq!(
        build_query_string(&p),
        "AccessKeyId=key&SignatureMethod=HmacSHA256&SignatureVersion=2&Timestamp=2021%2D07%2D01T10%3A00%3A00"
    );
}

#[test]
fn query_signature_signs_the_canonical_payload() {
    let p = huobi_auth_params("key", "2021-07-01T10:00:00");
    let payload = signing_payload("GET", "api.hbdm.vn", "/linear-swap-notification", &build_query_string(&p));
    assert_eq!(
        query_signature("secret", "api.hbdm.vn", "/linear-swap-notification", &p),
        sign_hmac_sha256_base64("secret", &payload)
    );
}

fn client() -> Websocket {
    Websocket::new(vec![
        (Subscription::HuobiUSwapOrderStream, ("key".to_string(), "secret".to_string(), "".to_string())),
        (Subscription::OkexOrderStream, ("okey".to_string(), "osecret".to_string(), "pass".to_string())),
        (Subscription::FtxOrderStream, ("fkey".to_string(), "fsecret".to_string(), "sub".to_string())),
    ])
}

#[test]
fn signing_without_credential_is_a_configuration_error() {
    let ws = client();
    assert!(matches!(ws.check_key(&Subscription::BinanceSpotOrder), Err(Error::NoApiKeySet)));
    assert!(matches!(
        ws.generate_signature_at(Subscription::OkexMarketStream, "h", "/p", "t"),
        Err(Error::NoApiKeySet)
    ));
    assert!(matches!(
        ws.okex_generate_signature(Subscription::FtxMarketStream, "1", "GET", "/users/self/verify"),
        Err(Error::NoApiKeySet)
    ));
    assert!(matches!(ws.ftx_generate_signature(Subscription::HuobiUSwapMarketStream, "1"), Err(Error::NoApiKeySet)));
}

#[test]
fn check_key_hands_back_the_registered_pair() {
    let ws = client();
    let (k, s) = ws.check_key(&Subscription::HuobiUSwapOrderStream).unwrap();
    assert_eq!((k, s), ("key", "secret"));
    let (k, s, p) = ws.okex_check_key(&Subscription::OkexOrderStream).unwrap();
    assert_eq!((k, s, p), ("okey", "osecret", "pass"));
    let (k, s, a) = ws.ftx_check_key(&Subscription::FtxOrderStream).unwrap();
    assert_eq!((k, s, a), ("fkey", "fsecret", "sub"));
}

#[test]
fn later_credentials_override_earlier_ones() {
    let ws = Websocket::new(vec![
        (Subscription::OkexOrderStream, ("a".to_string(), "b".to_string(), "c".to_string())),
        (Subscription::OkexOrderStream, ("d".to_string(), "e".to_string(), "f".to_string())),
    ]);
    assert_eq!(ws.okex_check_key(&Subscription::OkexOrderStream).unwrap(), ("d", "e", "f"));
}

#[test]
fn exchange_signatures_sign_the_documented_messages() {
    let ws = client();
    let (k, p, sig) = ws.okex_generate_signature(Subscription::OkexOrderStream, "1600000000", "GET", "/users/self/verify").unwrap();
    assert_eq!((k.as_str(), p.as_str()), ("okey", "pass"));
    assert_eq!(sig, sign_hmac_sha256_base64("osecret", "1600000000GET/users/self/verify"));
    let (k, a, sig) = ws.ftx_generate_signature(Subscription::FtxOrderStream, "1600000000000").unwrap();
    assert_eq!((k.as_str(), a.as_str()), ("fkey", "sub"));
    assert_eq!(sig, sign_hmac_sha256_hex("fsecret", "1600000000000websocket_login"));
    let sig = ws
        .generate_signature_at(Subscription::HuobiUSwapOrderStream, "api.hbdm.vn", "/linear-swap-notification", "T")
        .unwrap();
    let p = huobi_auth_params("key", "T");
    assert_eq!(sig, query_signature("secret", "api.hbdm.vn", "/linear-swap-notification", &p));
    let (ts, sig) = ws
        .generate_signature(Subscription::HuobiUSwapOrderStream, "api.hbdm.vn", "/linear-swap-notification")
        .unwrap();
    assert_eq!(ts.len(), 19);
    let p = huobi_auth_params("key", &ts);
    assert_eq!(sig, query_signature("secret", "api.hbdm.vn", "/linear-swap-notification", &p));
}

