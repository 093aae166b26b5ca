use b2router::router::extract_region;
use b2router::router::handle_request;
use b2router::router::load_config;
use b2router::router::load_credentials;
use b2router::router::normalize_path;
use b2router::router::parse_allow_list;
use b2router::router::parse_bool;
use b2router::router::route;
use b2router::router::AddressingMode;
use b2router::router::RouteError;
use b2router::router::RouterConfig;
use b2router::sigv4::HttpMethod;
use b2router::sigv4::SigningCredentials;
use b2router::time::Timestamp;

fn s(v: &[u8]) -> String {
    String::from_utf8(v.to_vec()).unwrap()
}

fn cfg(mode: AddressingMode, allow_list_bucket: bool, allowed: &[&str]) -> RouterConfig {
    RouterConfig {
        allow_list_bucket,
        mode,
        allowed_buckets: allowed.iter().map(|b| b.as_bytes().to_vec()).collect(),
        endpoint: b"s3.us-west-002.backblazeb2.com".to_vec(),
        region: b"us-west-002".to_vec(),
    }
}

#[test]
fn path_style_allowed_bucket_is_forwarded_verbatim() {
    let c = cfg(AddressingMode::PathStyle, true, &["my-bucket"]);
    let d = route(&HttpMethod::Get, b"/my-bucket/a/b.txt", b"cdn.example.com", &c).unwrap();
    assert_eq!(s(&d.backend_path), "/my-bucket/a/b.txt");
    assert_eq!(s(&d.bucket), "my-bucket");
}

#[test]
fn path_style_unlisted_bucket_is_not_found() {
    let c = cfg(AddressingMode::PathStyle, true, &["other-bucket"]);
    let e = route(&HttpMethod::Get, b"/my-bucket/a/b.txt", b"cdn.example.com", &c).unwrap_err();
    assert_eq!(e, RouteError::BucketNotFound);
}

#[test]
fn host_style_takes_the_leftmost_label() {
    let c = cfg(AddressingMode::HostStyle, true, &["my-bucket"]);
    let d = route(&HttpMethod::Get, b"a/b.txt", b"my-bucket.cdn.example.com", &c).unwrap();
    assert_eq!(s(&d.backend_path), "/my-bucket/a/b.txt");
    assert_eq!(s(&d.bucket), "my-bucket");
}

#[test]
fn fixed_bucket_ignores_the_allow_list() {
    let c = cfg(AddressingMode::FixedBucket(b"static-assets".to_vec()), true, &[]);
    let d = route(&HttpMethod::Get, b"x/y.png", b"cdn.example.com", &c).unwrap();
    assert_eq!(s(&d.backend_path), "/static-assets/x/y.png");
    let c2 = cfg(
        AddressingMode::FixedBucket(b"static-assets".to_vec()),
        true,
        &["something-else"],
    );
    let d2 = route(&HttpMethod::Head, b"/x/y.png/", b"cdn.example.com", &c2).unwrap();
    assert_eq!(s(&d2.backend_path), "/static-assets/x/y.png");
}

#[test]
fn bucket_root_requests_are_blocked_when_listing_is_off() {
    let c = cfg(AddressingMode::PathStyle, false, &["my-bucket"]);
    let e = route(&HttpMethod::Get, b"my-bucket", b"cdn.example.com", &c).unwrap_err();
    assert_eq!(e, RouteError::BucketNotFound);
    let e2 = route(&HttpMethod::Get, b"/my-bucket/", b"cdn.example.com", &c).unwrap_err();
    assert_eq!(e2, RouteError::BucketNotFound);
    // With a key the same request goes through.
    assert!(route(&HttpMethod::Get, b"/my-bucket/k", b"cdn.example.com", &c).is_ok());

    let ch = cfg(AddressingMode::HostStyle, false, &["my-bucket"]);
    let e3 = route(&HttpMethod::Get, b"/", b"my-bucket.cdn.example.com", &ch).unwrap_err();
    assert_eq!(e3, RouteError::BucketNotFound);
}

#[test]
fn bucket_root_requests_pass_when_listing_is_on() {
    let c = cfg(AddressingMode::PathStyle, true, &["my-bucket"]);
    let d = route(&HttpMethod::Get, b"/my-bucket", b"cdn.example.com", &c).unwrap();
    assert_eq!(s(&d.backend_path), "/my-bucket");
}

#[test]
fn write_methods_are_rejected_in_every_mode() {
    for mode in [
        AddressingMode::PathStyle,
        AddressingMode::HostStyle,
        AddressingMode::FixedBucket(b"static-assets".to_vec()),
    ] {
        let c = cfg(mode, true, &["my-bucket"]);
        let e = route(&HttpMethod::Post, b"/my-bucket/a", b"my-bucket.cdn.example.com", &c)
            .unwrap_err();
        assert_eq!(e, RouteError::MethodNotAllowed);
    }
}

#[test]
fn post_is_rejected_before_signing() {
    let c = cfg(AddressingMode::PathStyle, true, &["my-bucket"]);
    let creds = SigningCredentials {
        access_key_id: b"KEYID".to_vec(),
        secret_key: b"SECRET".to_vec(),
    };
    let ts = Timestamp::new(2026, 2, 11, 9, 8, 7).unwrap();
    let r = handle_request(
        &HttpMethod::Post,
        b"/my-bucket/a",
        b"",
        b"cdn.example.com",
        &c,
        &creds,
        &ts,
    );
    assert_eq!(r.unwrap_err(), RouteError::MethodNotAllowed);
}

#[test]
fn handle_request_signs_the_rewritten_path() {
    let c = cfg(AddressingMode::HostStyle, true, &["my-bucket"]);
    let creds = SigningCredentials {
        access_key_id: b"KEYID".to_vec(),
        secret_key: b"SECRET".to_vec(),
    };
    let ts = Timestamp::new(2026, 2, 11, 9, 8, 7).unwrap();
    let out = handle_request(
        &HttpMethod::Get,
        b"/a/b.txt",
        b"",
        b"my-bucket.cdn.example.com",
        &c,
        &creds,
        &ts,
    )
    .unwrap();
    assert_eq!(s(&out.host), "s3.us-west-002.backblazeb2.com");
    assert_eq!(s(&out.path), "/my-bucket/a/b.txt");
    let auth = s(&out.headers.authorization);
    assert!(auth.starts_with(
        "AWS4-HMAC-SHA256 Credential=KEYID/20260211/us-west-002/s3/aws4_request, SignedHeaders=host;x-amz-date, Signature="
    ));
    assert_eq!(s(&out.headers.amz_date), "20260211T090807Z");
}

#[test]
fn region_extraction_follows_the_endpoint_shape() {
    assert_eq!(
        s(&extract_region(b"s3.us-west-002.backblazeb2.com").unwrap()),
        "us-west-002"
    );
    assert_eq!(
        s(&extract_region(b"s3.eu-central-003.backblazeb2.com").unwrap()),
        "eu-central-003"
    );
    assert!(extract_region(b"storage.example.com").is_none());
    assert!(extract_region(b"s3..backblazeb2.com").is_none());
    assert!(extract_region(b"s3.us.west.backblazeb2.com").is_none());
    assert!(extract_region(b"xs3.us-west-002.backblazeb2.com").is_none());
    assert!(extract_region(b"s3.us-west-002.backblazeb2.comx").is_none());
}

#[test]
fn load_config_accepts_a_full_configuration() {
    let c = load_config(
        Some(b"true".to_vec()),
        Some(b"$path".to_vec()),
        Some(b" my-bucket , other ".to_vec()),
        Some(b"s3.us-west-002.backblazeb2.com".to_vec()),
    )
    .unwrap();
    assert!(c.allow_list_bucket);
    assert!(matches!(c.mode, AddressingMode::PathStyle));
    assert_eq!(c.allowed_buckets.len(), 2);
    assert_eq!(s(&c.allowed_buckets[0]), "my-bucket");
    assert_eq!(s(&c.allowed_buckets[1]), "other");
    assert_eq!(s(&c.region), "us-west-002");
}

#[test]
fn load_config_fails_closed_on_missing_or_bad_values() {
    let full = || {
        (
            Some(b"false".to_vec()),
            Some(b"$host".to_vec()),
            Some(b"a,b".to_vec()),
            Some(b"s3.us-west-002.backblazeb2.com".to_vec()),
        )
    };
    let (_a, b, l, e) = full();
    assert!(load_config(None, b, l, e).is_err());
    let (a, _b, l, e) = full();
    assert!(load_config(a, None, l, e).is_err());
    let (a, b, _l, e) = full();
    assert!(load_config(a, b, None, e).is_err());
    let (a, b, l, _) = full();
    assert!(load_config(a, b, l, None).is_err());
    let (_, b, l, e) = full();
    assert_eq!(
        load_config(Some(b"maybe".to_vec()), b, l, e).unwrap_err(),
        RouteError::ConfigurationError
    );
    let (a, b, l, _) = full();
    assert_eq!(
        load_config(a, b, l, Some(b"storage.example.com".to_vec())).unwrap_err(),
        RouteError::ConfigurationError
    );
}

#[test]
fn load_config_parses_each_mode() {
    let mk = |name: &[u8]| {
        load_config(
            Some(b"true".to_vec()),
            Some(name.to_vec()),
            Some(b"a".to_vec()),
            Some(b"s3.us-west-002.backblazeb2.com".to_vec()),
        )
        .unwrap()
    };
    assert!(matches!(mk(b"$path").mode, AddressingMode::PathStyle));
    assert!(matches!(mk(b"$host").mode, AddressingMode::HostStyle));
    match mk(b"static-assets").mode {
        AddressingMode::FixedBucket(name) => assert_eq!(s(&name), "static-assets"),
        _ => panic!("expected a fixed bucket"),
    }
}

#[test]
fn normalize_path_strips_one_slash_each_side() {
    assert_eq!(s(&normalize_path(b"/a/b/")), "a/b");
    assert_eq!(s(&normalize_path(b"a/b")), "a/b");
    assert_eq!(s(&normalize_path(b"/")), "");
    assert_eq!(s(&normalize_path(b"")), "");
    assert_eq!(s(&normalize_path(b"//a//")), "/a/");
}

#[test]
fn allow_list_entries_are_trimmed() {
    let l = parse_allow_list(b" a , b,c ");
    assert_eq!(l.len(), 3);
    assert_eq!(s(&l[0]), "a");
    assert_eq!(s(&l[1]), "b");
    assert_eq!(s(&l[2]), "c");
    let c = cfg(AddressingMode::PathStyle, true, &[]);
    let c = RouterConfig { allowed_buckets: parse_allow_list(b" my-bucket , other "), ..c };
    assert!(route(&HttpMethod::Get, b"/my-bucket/k", b"h", &c).is_ok());
}

#[test]
fn boolean_values_parse_strictly() {
    assert_eq!(parse_bool(b"true"), Some(true));
    assert_eq!(parse_bool(b"false"), Some(false));
    assert_eq!(parse_bool(b"True"), None);
    assert_eq!(parse_bool(b""), None);
    assert_eq!(parse_bool(b"1"), None);
}

#[test]
fn credentials_require_both_values() {
    let c = load_credentials(Some(b"id".to_vec()), Some(b"key".to_vec())).unwrap();
    assert_eq!(s(&c.access_key_id), "id");
    assert_eq!(s(&c.secret_key), "key");
    assert!(matches!(
        load_credentials(None, Some(b"key".to_vec())),
        Err(RouteError::ConfigurationError)
    ));
    assert!(matches!(
        load_credentials(Some(b"id".to_vec()), None),
        Err(RouteError::ConfigurationError)
    ));
}
