use tencentcloud_sms_sdk::{Signer, SigningTime};

fn header_list(pairs: &[(&str, &str)]) -> Vec<(String, String)> {
    pairs.iter().map(|(k, v)| (k.to_string(), v.to_string())).collect()
}

#[test]
fn test_hash_payload() {
    let signer = Signer::new("test_id", "test_key", None);
    let payload = r#"{"test": "value"}"#;
    let hash = signer.hash_payload(payload);
    assert_eq!(hash.len(), 64);
}

#[test]
fn test_canonical_query_string() {
    let signer = Signer::new("test_id", "test_key", None);
    let result = signer.create_canonical_query_string("").unwrap();
    assert_eq!(result, "");
    let result = signer.create_canonical_query_string("param1=value1").unwrap();
    assert_eq!(result, "param1=value1");
    let result = signer.create_canonical_query_string("param2=value2&param1=value1").unwrap();
    assert_eq!(result, "param1=value1&param2=value2");
}

#[test]
fn test_canonical_headers() {
    let signer = Signer::new("test_id", "test_key", None);
    let headers = header_list(&[
        ("Content-Type", "application/json"),
        ("Host", "sms.tencentcloudapi.com"),
    ]);
    let (canonical_headers, signed_headers) = signer.create_canonical_headers(&headers).unwrap();
    assert!(canonical_headers.contains("content-type:application/json"));
    assert!(canonical_headers.contains("host:sms.tencentcloudapi.com"));
    assert_eq!(signed_headers, "content-type;host");
}

#[test]
fn test_url_encode() {
    assert_eq!(Signer::url_encode("hello world"), "hello+world");
    assert_eq!(Signer::url_encode("hello@world"), "hello%40world");
    assert_eq!(Signer::url_encode("hello"), "hello");
}

#[test]
fn test_create_authorization_header() {
    let signer = Signer::new("test_id", "test_key", None);
    let timestamp = SigningTime::from_unix_seconds(1609459200).unwrap();
    let auth_header = signer.create_authorization_header(
        "test_signature",
        "sms",
        "ap-guangzhou",
        &timestamp,
        "content-type;host",
    );
    assert!(auth_header.starts_with("TC3-HMAC-SHA256 Credential=test_id/20210101/sms/tc3_request"));
    assert!(auth_header.contains("SignedHeaders=content-type;host"));
    assert!(auth_header.contains("Signature=test_signature"));
}

#[test]
fn authorization_header_exact_shape() {
    let signer = Signer::new("test_id", "test_key", None);
    let timestamp = SigningTime::from_unix_seconds(1609459200).unwrap();
    let header = signer.create_authorization_header(
        "abc123",
        "sms",
        "ap-guangzhou",
        &timestamp,
        "content-type;host",
    );
    assert_eq!(
        header,
        "TC3-HMAC-SHA256 Credential=test_id/20210101/sms/tc3_request, SignedHeaders=content-type;host, Signature=abc123"
    );
}

#[test]
fn signing_time_carries_date() {
    let t = SigningTime::from_unix_seconds(1609459200).unwrap();
    assert_eq!(t.unix_seconds(), 1609459200);
    assert_eq!(t.date(), "20210101");
    let t = SigningTime::from_unix_seconds(1609459199).unwrap();
    assert_eq!(t.date(), "20201231");
    assert!(SigningTime::from_unix_seconds(i64::MAX).is_none());
}

#[test]
fn hash_payload_of_empty_and_known_bodies() {
    let signer = Signer::new("test_id", "test_key", None);
    assert_eq!(
        signer.hash_payload(""),
        "e3b0c44298fc1c149afbf4c8996fb92427ae41e4649b934ca495991b7852b855"
    );
    assert_eq!(
        signer.hash_payload(r#"{"test": "value"}"#),
        "71e1ec59dd990e14f06592c6146a79cbce0e1997810dd011923cc72a2ef1d1ae"
    );
    let h = signer.hash_payload("anything at all");
    assert_eq!(h.len(), 64);
    assert!(h.chars().all(|c| c.is_ascii_digit() || ('a'..='f').contains(&c)));
}

#[test]
fn canonical_query_sorting_and_encoding() {
    let signer = Signer::new("test_id", "test_key", None);
    assert_eq!(signer.create_canonical_query_string("b=2&a=1").unwrap(), "a=1&b=2");
    assert_eq!(signer.create_canonical_query_string("a=1&b=2").unwrap(), "a=1&b=2");
    assert_eq!(signer.create_canonical_query_string("flag").unwrap(), "flag");
    assert_eq!(signer.create_canonical_query_string("a=2&a=1").unwrap(), "a=1&a=2");
    assert_eq!(signer.create_canonical_query_string("q=hello world&p=x@y").unwrap(), "p=x%40y&q=hello+world");
    assert_eq!(signer.create_canonical_query_string("a=b=c&d=1").unwrap(), "d=1");
}

#[test]
fn canonical_query_already_canonical_is_unchanged() {
    let signer = Signer::new("test_id", "test_key", None);
    let once = signer.create_canonical_query_string("z=9&m=hello&a=1&flag").unwrap();
    let twice = signer.create_canonical_query_string(&once).unwrap();
    assert_eq!(once, "a=1&flag&m=hello&z=9");
    assert_eq!(once, twice);
}

#[test]
fn canonical_headers_block_and_order() {
    let signer = Signer::new("test_id", "test_key", None);
    let forward = header_list(&[
        ("Content-Type", "application/json"),
        ("Host", "sms.example.com"),
    ]);
    let backward = header_list(&[
        ("Host", "sms.example.com"),
        ("Content-Type", "application/json"),
    ]);
    let (block, signed) = signer.create_canonical_headers(&forward).unwrap();
    assert_eq!(block, "content-type:application/json\nhost:sms.example.com\n");
    assert_eq!(signed, "content-type;host");
    assert_eq!(signer.create_canonical_headers(&backward).unwrap(), (block, signed));
}

#[test]
fn canonical_headers_trim_values() {
    let signer = Signer::new("test_id", "test_key", None);
    let headers = header_list(&[("X-TC-Action", "  SendSms  "), ("HOST", " a b ")]);
    let (block, signed) = signer.create_canonical_headers(&headers).unwrap();
    assert_eq!(block, "host:a b\nx-tc-action:SendSms\n");
    assert_eq!(signed, "host;x-tc-action");
}

#[test]
fn signed_headers_utility() {
    let headers = header_list(&[("Host", "h"), ("Content-Type", "t"), ("X-TC-Region", "r")]);
    assert_eq!(Signer::get_signed_headers(&headers), "content-type;host;x-tc-region");
    assert_eq!(Signer::get_signed_headers(&Vec::new()), "");
}

#[test]
fn end_to_end_cross_check_vector() {
    let signer = Signer::new("test_id", "test_key", None);
    let headers = header_list(&[
        ("Content-Type", "application/json"),
        ("Host", "sms.tencentcloudapi.com"),
    ]);
    let body = r#"{"PhoneNumberSet":["+8613800000000"]}"#;
    let time = SigningTime::from_unix_seconds(1609459200).unwrap();
    let canonical = signer.create_canonical_request("POST", "/", "", &headers, body).unwrap();
    assert_eq!(
        canonical,
        "POST\n/\n\ncontent-type:application/json\nhost:sms.tencentcloudapi.com\n\ncontent-type;host\n76e3b659806bd490c47934f677b9d46e0c8032afa9cb41482e646504b538695c"
    );
    let to_sign = signer.create_string_to_sign(&canonical, "sms", "ap-guangzhou", &time).unwrap();
    assert_eq!(
        to_sign,
        "TC3-HMAC-SHA256\n1609459200\n20210101/sms/tc3_request\nac00889330a0c00f8ce038c1884b30c60d8485075f413d4d34844ebc4dedb9bb"
    );
    let signature = signer.calculate_signature(&to_sign, "sms", "ap-guangzhou", &time).unwrap();
    assert_eq!(signature, "fdb0bc740f8f632083421634f179d5fb93d0b239d3b65cbdfeacab3540b996b2");
    let whole = signer
        .sign_request("POST", "/", "", &headers, body, "sms", "ap-guangzhou", &time)
        .unwrap();
    assert_eq!(whole, signature);
}

#[test]
fn empty_uri_defaults_to_root() {
    let signer = Signer::new("test_id", "test_key", None);
    let headers = header_list(&[("Host", "h")]);
    let a = signer.create_canonical_request("GET", "", "", &headers, "").unwrap();
    let b = signer.create_canonical_request("GET", "/", "", &headers, "").unwrap();
    assert_eq!(a, b);
    assert!(a.starts_with("GET\n/\n\nhost:h\n\nhost\n"));
}

#[test]
fn signing_is_deterministic() {
    let signer = Signer::new("test_id", "test_key", None);
    let headers = header_list(&[("Host", "h"), ("Content-Type", "application/json")]);
    let time = SigningTime::from_unix_seconds(1700000000).unwrap();
    let a = signer.sign_request("POST", "/", "x=1", &headers, "{}", "sms", "ap-guangzhou", &time).unwrap();
    let b = signer.sign_request("POST", "/", "x=1", &headers, "{}", "sms", "ap-guangzhou", &time).unwrap();
    assert_eq!(a, b);
}

#[test]
fn key_chain_sensitivity() {
    let to_sign = "TC3-HMAC-SHA256\n1609459200\n20210101/sms/tc3_request\nac00889330a0c00f8ce038c1884b30c60d8485075f413d4d34844ebc4dedb9bb";
    let time = SigningTime::from_unix_seconds(1609459200).unwrap();
    let next_day = SigningTime::from_unix_seconds(1609459200 + 86400).unwrap();
    let base = Signer::new("test_id", "test_key", None)
        .calculate_signature(to_sign, "sms", "ap-guangzhou", &time)
        .unwrap();
    let other_secret = Signer::new("test_id", "test_kez", None)
        .calculate_signature(to_sign, "sms", "ap-guangzhou", &time)
        .unwrap();
    assert_eq!(other_secret, "5785dfb187574be4f307488756afc9aee3a5ea00efa07ae824fa7d00551b7329");
    let signer = Signer::new("test_id", "test_key", None);
    let other_service = signer.calculate_signature(to_sign, "smt", "ap-guangzhou", &time).unwrap();
    let other_date = signer.calculate_signature(to_sign, "sms", "ap-guangzhou", &next_day).unwrap();
    let other_text = signer
        .calculate_signature(&to_sign.replace("bb", "bc"), "sms", "ap-guangzhou", &time)
        .unwrap();
    for s in [&other_secret, &other_service, &other_date, &other_text] {
        assert_ne!(s, &base);
    }
}

#[test]
fn canonical_query_escapes_are_escaped_again() {
    let signer = Signer::new("test_id", "test_key", None);
    let once = signer.create_canonical_query_string("a=%").unwrap();
    assert_eq!(once, "a=%25");
    let twice = signer.create_canonical_query_string(&once).unwrap();
    assert_eq!(twice, "a=%2525");
    let plus = signer.create_canonical_query_string("a=x y").unwrap();
    assert_eq!(plus, "a=x+y");
    assert_eq!(signer.create_canonical_query_string(&plus).unwrap(), "a=x%2By");
}

#[test]
fn canonical_query_empty_segments_and_values() {
    let signer = Signer::new("test_id", "test_key", None);
    assert_eq!(signer.create_canonical_query_string("b=&a").unwrap(), "a&b");
    assert_eq!(signer.create_canonical_query_string("b=1&&a=2").unwrap(), "&a=2&b=1");
    assert_eq!(signer.create_canonical_query_string("=x").unwrap(), "=x");
}

#[test]
fn signing_time_range() {
    assert!(SigningTime::from_unix_seconds(-1).is_none());
    let epoch = SigningTime::from_unix_seconds(0).unwrap();
    assert_eq!(epoch.date(), "19700101");
    let last = SigningTime::from_unix_seconds(253402300799).unwrap();
    assert_eq!(last.date(), "99991231");
    assert!(SigningTime::from_unix_seconds(253402300800).is_none());
    assert_eq!(SigningTime::from_unix_seconds(951782400).unwrap().date(), "20000229");
    assert_eq!(SigningTime::from_unix_seconds(951868799).unwrap().date(), "20000229");
    assert_eq!(SigningTime::from_unix_seconds(951868800).unwrap().date(), "20000301");
}

#[test]
fn signature_has_sixty_four_hex_digits() {
    let signer = Signer::new("id", "key", None);
    let time = SigningTime::from_unix_seconds(1).unwrap();
    let s = signer.calculate_signature("", "", "", &time).unwrap();
    assert_eq!(s.len(), 64);
    assert!(s.chars().all(|c| c.is_ascii_digit() || ('a'..='f').contains(&c)));
    let to_sign = signer.create_string_to_sign("x", "sms", "r", &time).unwrap();
    assert!(to_sign.starts_with("TC3-HMAC-SHA256\n1\n19700101/sms/tc3_request\n"));
}

#[test]
fn canonical_headers_trim_unicode_white_space() {
    let signer = Signer::new("test_id", "test_key", None);
    let headers = header_list(&[("X-A", "\u{3000}\t v a \u{a0}\u{2028}")]);
    let (block, _) = signer.create_canonical_headers(&headers).unwrap();
    assert_eq!(block, "x-a:v a\n");
}
