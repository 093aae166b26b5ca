use b2router::hex::to_hex;
use b2router::sigv4::canonical_query;
use b2router::sigv4::canonical_request;
use b2router::sigv4::credential_scope;
use b2router::sigv4::empty_payload_hash;
use b2router::sigv4::sign;
use b2router::sigv4::signature;
use b2router::sigv4::signing_key;
use b2router::sigv4::string_to_sign;
use b2router::sigv4::HttpMethod;
use b2router::sigv4::SigningCredentials;
use b2router::time::format_amz_date;
use b2router::time::format_date_stamp;
use b2router::time::now_utc;
use b2router::time::Timestamp;

const EMPTY_SHA256_HEX: &str = "e3b0c44298fc1c149afbf4c8996fb92427ae41e4649b934ca495991b7852b855";

fn s(v: &[u8]) -> String {
    String::from_utf8(v.to_vec()).unwrap()
}

#[test]
fn empty_payload_hash_is_the_empty_digest() {
    assert_eq!(s(&empty_payload_hash()), EMPTY_SHA256_HEX);
}

#[test]
fn hex_encoding_exact() {
    assert_eq!(s(&to_hex(&[0x00, 0xff, 0x10, 0xab])), "00ff10ab");
    assert_eq!(s(&to_hex(&[])), "");
}

#[test]
fn canonical_query_sorts_parameters() {
    assert_eq!(s(&canonical_query(b"b=2&a=1")), "a=1&b=2");
    assert_eq!(s(&canonical_query(b"b=2&A=3&a=1")), "A=3&a=1&b=2");
    assert_eq!(s(&canonical_query(b"")), "");
    assert_eq!(s(&canonical_query(b"single=1")), "single=1");
}

#[test]
fn canonical_request_exact() {
    let cr = canonical_request(
        &HttpMethod::Get,
        b"/my-bucket/a/b.txt",
        b"a=1&b=2",
        b"s3.us-west-002.backblazeb2.com",
        b"20260211T090807Z",
        EMPTY_SHA256_HEX.as_bytes(),
    );
    let expected = format!(
        "GET\n/my-bucket/a/b.txt\na=1&b=2\nhost:s3.us-west-002.backblazeb2.com\nx-amz-date:20260211T090807Z\n\nhost;x-amz-date\n{}",
        EMPTY_SHA256_HEX
    );
    assert_eq!(s(&cr), expected);
}

#[test]
fn canonical_request_deterministic() {
    let mk = || {
        canonical_request(
            &HttpMethod::Head,
            b"/b/k",
            b"q=1",
            b"s3.eu-central-003.backblazeb2.com",
            b"20250101T000000Z",
            EMPTY_SHA256_HEX.as_bytes(),
        )
    };
    assert_eq!(mk(), mk());
}

#[test]
fn string_to_sign_hashes_the_canonical_request() {
    // SHA-256 of the empty canonical request is the well-known empty digest.
    let sts = string_to_sign(b"20260211T090807Z", b"scope", b"");
    let expected = format!(
        "AWS4-HMAC-SHA256\n20260211T090807Z\nscope\n{}",
        EMPTY_SHA256_HEX
    );
    assert_eq!(s(&sts), expected);
    // And a well-known non-empty vector.
    let sts2 = string_to_sign(b"20260211T090807Z", b"scope", b"abc");
    assert!(s(&sts2).ends_with("ba7816bf8f01cfea414140de5dae2223b00361a396177a9cb410ff61f20015ad"));
}

#[test]
fn credential_scope_exact() {
    assert_eq!(
        s(&credential_scope(b"20260211", b"us-west-002")),
        "20260211/us-west-002/s3/aws4_request"
    );
}

#[test]
fn signing_key_is_a_real_derivation() {
    let k1 = signing_key(b"SECRET", b"20260211", b"us-west-002");
    let k2 = signing_key(b"OTHER", b"20260211", b"us-west-002");
    let k3 = signing_key(b"SECRET", b"20260212", b"us-west-002");
    assert_eq!(k1.len(), 32);
    assert_ne!(k1, k2);
    assert_ne!(k1, k3);
    assert_ne!(&k1[..], b"SECRET".as_slice());
}

#[test]
fn signature_round_trip_matches_recomputation() {
    let creds = SigningCredentials {
        access_key_id: b"KEYID".to_vec(),
        secret_key: b"SECRET".to_vec(),
    };
    let ts = Timestamp::new(2026, 2, 11, 9, 8, 7).unwrap();
    let host = b"s3.us-west-002.backblazeb2.com";
    let out = sign(
        &HttpMethod::Get,
        b"/my-bucket/a.txt",
        b"b=2&a=1",
        host,
        b"us-west-002",
        &creds,
        &ts,
    );

    // Recompute the signature independently through the public stages.
    let amz = format_amz_date(&ts);
    let date = format_date_stamp(&ts);
    let cq = canonical_query(b"b=2&a=1");
    let ph = empty_payload_hash();
    let creq = canonical_request(&HttpMethod::Get, b"/my-bucket/a.txt", &cq, host, &amz, &ph);
    let scope = credential_scope(&date, b"us-west-002");
    let sts = string_to_sign(&amz, &scope, &creq);
    let sig = signature(b"SECRET", &date, b"us-west-002", &sts);

    let expected = format!(
        "AWS4-HMAC-SHA256 Credential=KEYID/{}, SignedHeaders=host;x-amz-date, Signature={}",
        s(&scope),
        s(&sig)
    );
    assert_eq!(s(&out.authorization), expected);
    assert_eq!(s(&out.content_sha256), EMPTY_SHA256_HEX);
    assert_eq!(s(&out.amz_date), "20260211T090807Z");
    assert_eq!(sig.len(), 64);
}

#[test]
fn sign_is_deterministic() {
    let creds = SigningCredentials {
        access_key_id: b"KEYID".to_vec(),
        secret_key: b"SECRET".to_vec(),
    };
    let ts = Timestamp::new(2026, 2, 11, 9, 8, 7).unwrap();
    let mk = || {
        sign(
            &HttpMethod::Head,
            b"/b/x",
            b"",
            b"s3.us-west-002.backblazeb2.com",
            b"us-west-002",
            &creds,
            &ts,
        )
    };
    let a = mk();
    let b = mk();
    assert_eq!(a.authorization, b.authorization);
    assert_eq!(a.content_sha256, b.content_sha256);
    assert_eq!(a.amz_date, b.amz_date);
}

#[test]
fn signature_depends_on_the_secret() {
    let sig1 = signature(b"SECRET", b"20260211", b"us-west-002", b"payload");
    let sig2 = signature(b"SECRET2", b"20260211", b"us-west-002", b"payload");
    assert_ne!(sig1, sig2);
}

#[test]
fn date_formats_are_fixed_width() {
    let ts = Timestamp::new(2026, 2, 3, 4, 5, 6).unwrap();
    assert_eq!(s(&format_amz_date(&ts)), "20260203T040506Z");
    assert_eq!(s(&format_date_stamp(&ts)), "20260203");
    let y1 = Timestamp::new(999, 12, 31, 23, 59, 59).unwrap();
    assert_eq!(s(&format_amz_date(&y1)), "09991231T235959Z");
}

#[test]
fn timestamp_rejects_out_of_range_fields() {
    assert!(Timestamp::new(2026, 13, 1, 0, 0, 0).is_none());
    assert!(Timestamp::new(2026, 0, 1, 0, 0, 0).is_none());
    assert!(Timestamp::new(10000, 1, 1, 0, 0, 0).is_none());
    assert!(Timestamp::new(-1, 1, 1, 0, 0, 0).is_none());
    assert!(Timestamp::new(2026, 1, 1, 24, 0, 0).is_none());
    assert!(Timestamp::new(2026, 1, 1, 0, 60, 0).is_none());
}

#[test]
fn clock_yields_a_plausible_instant() {
    let ts = now_utc().unwrap();
    assert!(ts.year >= 2024);
    assert!((1..=12).contains(&ts.month));
    assert!((1..=31).contains(&ts.day));
}

#[test]
fn only_get_and_head_are_read_methods() {
    assert!(HttpMethod::Get.is_read_method());
    assert!(HttpMethod::Head.is_read_method());
    assert!(!HttpMethod::Post.is_read_method());
    assert!(!HttpMethod::Put.is_read_method());
    assert!(!HttpMethod::Delete.is_read_method());
    assert!(!HttpMethod::Other.is_read_method());
}
