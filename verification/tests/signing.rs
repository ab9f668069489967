use kucoin_core::client::{ConfigError, HttpMethod, KuCoinClient};
use kucoin_core::signer::{
    build_string_to_sign, canonical_query_string, join_query, keys_are_unique, sign,
    sorted_params,
};
use kucoin_core::text::{bytes_le, text_contains, text_eq, u64_to_decimal};

fn pairs(items: &[(&str, &str)]) -> Vec<(String, String)> {
    items.iter().map(|(k, v)| (k.to_string(), v.to_string())).collect()
}

fn client() -> KuCoinClient {
    KuCoinClient::new(
        "https://api.example.com".to_string(),
        Some("passphrase".to_string()),
        Some("key-1".to_string()),
        Some("secret".to_string()),
    )
    .unwrap()
}

#[test]
fn decimal_of_zero_and_of_the_largest_value() {
    assert_eq!(u64_to_decimal(0), "0");
    assert_eq!(u64_to_decimal(9), "9");
    assert_eq!(u64_to_decimal(10), "10");
    assert_eq!(u64_to_decimal(1700000000000), "1700000000000");
    assert_eq!(u64_to_decimal(u64::MAX), "18446744073709551615");
}

#[test]
fn byte_order_of_strings() {
    assert!(bytes_le(b"", b""));
    assert!(bytes_le(b"", b"a"));
    assert!(!bytes_le(b"a", b""));
    assert!(bytes_le(b"a", b"a"));
    assert!(bytes_le(b"a", b"ab"));
    assert!(!bytes_le(b"ab", b"a"));
    assert!(bytes_le(b"ab", b"b"));
    assert!(!bytes_le(b"b", b"ab"));
    assert!(bytes_le("z".as_bytes(), "é".as_bytes()));
}

#[test]
fn text_equality_and_search() {
    assert!(text_eq("200000", "200000"));
    assert!(!text_eq("200000", "200001"));
    assert!(!text_eq("200000", "20000"));
    assert!(text_eq("", ""));
    assert!(text_contains("/market/candles:BTC-USDT_1hour", "candles"));
    assert!(!text_contains("/market/ticker", "candles"));
    assert!(text_contains("abc", ""));
    assert!(text_contains("", ""));
    assert!(!text_contains("cand", "candles"));
    assert!(text_contains("xcandles", "candles"));
    assert!(text_contains("日本candles語", "candles"));
    assert!(!text_contains("candle", "candles"));
}

#[test]
fn canonical_query_sorts_by_key() {
    let params = pairs(&[("type", "1hour"), ("symbol", "BTC-USDT")]);
    assert_eq!(canonical_query_string(&params), "symbol=BTC-USDT&type=1hour");
}

#[test]
fn canonical_query_of_nothing_is_empty() {
    assert_eq!(canonical_query_string(&Vec::new()), "");
}

#[test]
fn canonical_query_of_one_parameter() {
    assert_eq!(canonical_query_string(&pairs(&[("a", "1")])), "a=1");
}

#[test]
fn canonical_query_orders_keys_not_pairs() {
    // "a" comes before "a!" as a key, though "a!=1" comes before "a=2" as text.
    let params = pairs(&[("a!", "1"), ("a", "2")]);
    assert_eq!(canonical_query_string(&params), "a=2&a!=1");
}

#[test]
fn canonical_query_ignores_insertion_order() {
    let first = pairs(&[("b", "2"), ("a", "1"), ("c", "3")]);
    let second = pairs(&[("c", "3"), ("b", "2"), ("a", "1")]);
    let third = pairs(&[("a", "1"), ("c", "3"), ("b", "2")]);
    assert_eq!(canonical_query_string(&first), "a=1&b=2&c=3");
    assert_eq!(canonical_query_string(&second), "a=1&b=2&c=3");
    assert_eq!(canonical_query_string(&third), "a=1&b=2&c=3");
}

#[test]
fn sorted_params_keeps_every_pair() {
    let sorted = sorted_params(&pairs(&[("k2", "v2"), ("k1", "v1"), ("k3", "")]));
    assert_eq!(sorted, pairs(&[("k1", "v1"), ("k2", "v2"), ("k3", "")]));
}

#[test]
fn join_keeps_the_given_order() {
    assert_eq!(join_query(&pairs(&[("z", "1"), ("a", "2")])), "z=1&a=2");
}

#[test]
fn string_to_sign_concatenates_without_separators() {
    assert_eq!(
        build_string_to_sign(1700000000000, "GET", "/api/v1/x", "a=1"),
        "1700000000000GET/api/v1/xa=1"
    );
    assert_eq!(build_string_to_sign(0, "", "", ""), "0");
}

#[test]
fn sign_matches_a_known_vector() {
    assert_eq!(
        sign("key", "The quick brown fox jumps over the lazy dog"),
        "97yD9DBThCSxMpjmqm+xQ+9NWaFJRhdZl0edvC0aPNg="
    );
    assert_eq!(sign("", ""), "thNnmggU2ex3L5XXeMNfxf8Wl8STcVZTxscSFEKSxa0=");
}

#[test]
fn request_signature_has_the_expected_value() {
    let c = client();
    assert_eq!(
        c.generate_signature(1700000000000, "GET", "/api/v3/project/list", "", ""),
        "cRrhyH5nRdpRgBpIXRvNA/lJvZtaaLXIvx5daNKxCqQ="
    );
    assert_eq!(
        c.generate_signature(
            1700000000000,
            "GET",
            "/api/v1/market/candles",
            "symbol=BTC-USDT&type=1hour",
            ""
        ),
        "HOe1lXJZ4t8vPq6/vWcoKCwZij8nluqG/Wv9i81BPPA="
    );
}

#[test]
fn request_signature_leaves_the_body_out() {
    let c = client();
    assert_eq!(
        c.generate_signature(1, "POST", "/p", "a=1", "{\"x\":\"y\"}"),
        c.generate_signature(1, "POST", "/p", "a=1", "")
    );
}

#[test]
fn passphrase_signature_has_the_expected_value() {
    assert_eq!(
        client().generate_passphrase_signature(),
        "sWd5rQWAxDzYJTY6K2sov6seA0l3uNP70anWxITg8IA="
    );
}

#[test]
fn signature_is_the_same_on_every_call() {
    let c = client();
    let first = c.generate_signature(42, "GET", "/api/v2/symbols", "a=1&b=2", "");
    let second = c.generate_signature(42, "GET", "/api/v2/symbols", "a=1&b=2", "");
    assert_eq!(first, second);
}

#[test]
fn signature_ignores_insertion_order_of_parameters() {
    let c = client();
    let q1 = canonical_query_string(&pairs(&[("b", "2"), ("a", "1")]));
    let q2 = canonical_query_string(&pairs(&[("a", "1"), ("b", "2")]));
    assert_eq!(
        c.generate_signature(1, "GET", "/p", &q1, ""),
        c.generate_signature(1, "GET", "/p", &q2, "")
    );
    let other = KuCoinClient::new(
        String::new(),
        Some("p".to_string()),
        Some("k".to_string()),
        Some("s3cr3t".to_string()),
    )
    .unwrap();
    assert_eq!(
        other.generate_signature(1, "GET", "/p", &q1, ""),
        "ApVp8KLxwtVfC04TnGcCIDiWR/SwxjFD3SOftqKQDXc="
    );
}

#[test]
fn signature_changes_with_each_input() {
    let c = client();
    let base = c.generate_signature(1000, "GET", "/p", "a=1", "");
    assert_ne!(base, c.generate_signature(1001, "GET", "/p", "a=1", ""));
    assert_ne!(base, c.generate_signature(1000, "POST", "/p", "a=1", ""));
    assert_ne!(base, c.generate_signature(1000, "GET", "/q", "a=1", ""));
    assert_ne!(base, c.generate_signature(1000, "GET", "/p", "a=2", ""));
    let other = KuCoinClient::new(
        "https://api.example.com".to_string(),
        Some("passphrase".to_string()),
        Some("key-1".to_string()),
        Some("secret2".to_string()),
    )
    .unwrap();
    assert_ne!(base, other.generate_signature(1000, "GET", "/p", "a=1", ""));
}

#[test]
fn client_needs_every_credential() {
    let all = KuCoinClient::new(
        "u".to_string(),
        Some("p".to_string()),
        Some("k".to_string()),
        Some("s".to_string()),
    );
    assert!(all.is_ok());
    let none = KuCoinClient::new("u".to_string(), None, None, None);
    assert_eq!(
        none.err(),
        Some(ConfigError { missing_passphrase: true, missing_key: true, missing_secret: true })
    );
    let no_key = KuCoinClient::new("u".to_string(), Some("p".to_string()), None, Some("s".to_string()));
    assert_eq!(
        no_key.err(),
        Some(ConfigError { missing_passphrase: false, missing_key: true, missing_secret: false })
    );
    let no_secret =
        KuCoinClient::new("u".to_string(), Some("p".to_string()), Some("k".to_string()), None);
    assert_eq!(
        no_secret.err(),
        Some(ConfigError { missing_passphrase: false, missing_key: false, missing_secret: true })
    );
    let no_pass =
        KuCoinClient::new("u".to_string(), None, Some("k".to_string()), Some("s".to_string()));
    assert_eq!(
        no_pass.err(),
        Some(ConfigError { missing_passphrase: true, missing_key: false, missing_secret: false })
    );
}

#[test]
fn method_names() {
    assert_eq!(HttpMethod::Get.as_str(), "GET");
    assert_eq!(HttpMethod::Post.as_str(), "POST");
    assert_eq!(HttpMethod::Put.as_str(), "PUT");
    assert_eq!(HttpMethod::Delete.as_str(), "DELETE");
}

#[test]
fn unauthenticated_request_has_no_headers() {
    let r = client().make_request(
        HttpMethod::Get,
        "/api/v1/market/candles",
        Some(pairs(&[("type", "1hour"), ("symbol", "BTC-USDT")])),
        None,
        false,
        1700000000000,
    );
    assert_eq!(r.method, HttpMethod::Get);
    assert_eq!(r.url, "https://api.example.com/api/v1/market/candles");
    assert_eq!(r.query, pairs(&[("symbol", "BTC-USDT"), ("type", "1hour")]));
    assert_eq!(r.body, None);
    assert!(r.headers.is_empty());
}

#[test]
fn authenticated_request_carries_the_five_headers() {
    let r = client().make_request(
        HttpMethod::Get,
        "/api/v1/market/candles",
        Some(pairs(&[("type", "1hour"), ("symbol", "BTC-USDT")])),
        None,
        true,
        1700000000000,
    );
    assert_eq!(
        r.headers,
        pairs(&[
            ("KC-API-KEY", "key-1"),
            ("KC-API-SIGN", "HOe1lXJZ4t8vPq6/vWcoKCwZij8nluqG/Wv9i81BPPA="),
            ("KC-API-TIMESTAMP", "1700000000000"),
            ("KC-API-PASSPHRASE", "sWd5rQWAxDzYJTY6K2sov6seA0l3uNP70anWxITg8IA="),
            ("KC-API-KEY-VERSION", "2"),
        ])
    );
}

#[test]
fn request_keeps_the_body() {
    let body = Some(pairs(&[("currency", "BTC")]));
    let r = client().make_request(HttpMethod::Post, "/api/v3/x", None, body.clone(), true, 5);
    assert_eq!(r.body, body);
    assert!(r.query.is_empty());
    assert_eq!(r.method, HttpMethod::Post);
    assert_eq!(r.headers[1].1, client().generate_signature(5, "POST", "/api/v3/x", "", ""));
}

#[test]
fn unique_keys_are_recognised() {
    assert!(keys_are_unique(&Vec::new()));
    assert!(keys_are_unique(&pairs(&[("a", "1")])));
    assert!(keys_are_unique(&pairs(&[("a", "1"), ("b", "1"), ("c", "1")])));
    assert!(!keys_are_unique(&pairs(&[("a", "1"), ("b", "1"), ("a", "2")])));
    assert!(!keys_are_unique(&pairs(&[("a", "1"), ("a", "1")])));
    assert!(!keys_are_unique(&pairs(&[("x", "1"), ("b", "1"), ("b", "2")])));
}

#[test]
fn signature_is_44_characters_long() {
    assert_eq!(sign("k", "").len(), 44);
    assert_eq!(sign("", "a message of some length, longer than a block of the hash function").len(), 44);
    assert_eq!(client().generate_passphrase_signature().len(), 44);
}

#[test]
fn secrets_with_the_same_padded_key_sign_alike() {
    // HMAC fills a short key up with zero bytes, so these two secrets are one key.
    assert_eq!(sign("a", "message"), sign("a\0", "message"));
    assert_ne!(sign("a", "message"), sign("b", "message"));
}
