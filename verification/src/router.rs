//! The bucket router: decides whether a request is permitted, resolves the
//! bucket under the configured addressing mode, and rewrites the path for the
//! backend.

use vstd::prelude::*;

use crate::bytes::bytes_eq;
use crate::bytes::push_all;
use crate::bytes::split;
use crate::bytes::split_bytes;
use crate::bytes::to_vec;
use crate::bytes::views_of;

verus! {

/// How the bucket name is found: the first path segment, the leftmost host
/// label, or a fixed configured name.
#[derive(Debug)]
pub enum AddressingMode {
    PathStyle,
    HostStyle,
    FixedBucket(Vec<u8>),
}

/// Why a request was rejected, each mapping to one HTTP status: method `405`,
/// bucket `404`, configuration `500`.
#[derive(Clone, Copy, Debug, PartialEq, Eq, Structural)]
pub enum RouteError {
    MethodNotAllowed,
    BucketNotFound,
    ConfigurationError,
}

/// The validated configuration a router runs under.
#[derive(Debug)]
pub struct RouterConfig {
    pub allow_list_bucket: bool,
    pub mode: AddressingMode,
    pub allowed_buckets: Vec<Vec<u8>>,
    pub endpoint: Vec<u8>,
    pub region: Vec<u8>,
}

/// The outcome of bucket resolution: the resolved bucket and the rewritten
/// backend path.
#[derive(Debug)]
pub struct RoutingDecision {
    pub bucket: Vec<u8>,
    pub backend_path: Vec<u8>,
}

/// A path with exactly one leading and one trailing slash removed.
pub open spec fn trim_slashes(s: Seq<u8>) -> Seq<u8> {
    let a = if s.len() > 0 && s[0] == 47u8 {
        s.skip(1)
    } else {
        s
    };
    if a.len() > 0 && a[a.len() - 1] == 47u8 {
        a.take(a.len() - 1)
    } else {
        a
    }
}

/// Strip exactly one leading and one trailing slash from a raw path.
pub fn normalize_path(raw: &[u8]) -> (r: Vec<u8>)
    ensures
        r@ == trim_slashes(raw@),
{
    let start: usize = if raw.len() > 0 && raw[0] == 47 {
        1
    } else {
        0
    };
    let end: usize = if raw.len() > start && raw[raw.len() - 1] == 47 {
        raw.len() - 1
    } else {
        raw.len()
    };
    let r = to_vec(&raw[start..end]);
    proof {
        assert(raw@.subrange(start as int, end as int) =~= trim_slashes(raw@));
    }
    r
}

/// An ASCII whitespace byte.
pub open spec fn is_ws(b: u8) -> bool {
    b == 32 || b == 9 || b == 10 || b == 11 || b == 12 || b == 13
}

/// A byte string with all leading and trailing whitespace removed.
pub open spec fn trim_ws(s: Seq<u8>) -> Seq<u8>
    decreases s.len(),
{
    if s.len() > 0 && is_ws(s[0]) {
        trim_ws(s.skip(1))
    } else if s.len() > 0 && is_ws(s[s.len() - 1]) {
        trim_ws(s.take(s.len() - 1))
    } else {
        s
    }
}

fn is_ws_byte(b: u8) -> (r: bool)
    ensures
        r == is_ws(b),
{
    b == 32 || b == 9 || b == 10 || b == 11 || b == 12 || b == 13
}

/// Strip leading and trailing whitespace from a byte string.
pub fn trim_ws_exec(s: &[u8]) -> (r: Vec<u8>)
    ensures
        r@ == trim_ws(s@),
    decreases s@.len(),
{
    if s.len() > 0 && is_ws_byte(s[0]) {
        let r = trim_ws_exec(&s[1..s.len()]);
        proof {
            assert(s@.subrange(1, s@.len() as int) =~= s@.skip(1));
        }
        r
    } else if s.len() > 0 && is_ws_byte(s[s.len() - 1]) {
        let r = trim_ws_exec(&s[0..s.len() - 1]);
        proof {
            assert(s@.subrange(0, s@.len() - 1) =~= s@.take(s@.len() - 1));
        }
        r
    } else {
        to_vec(s)
    }
}

/// The allow-list a comma-separated configuration value names: its pieces,
/// each trimmed of surrounding whitespace.
pub open spec fn allow_list_of(s: Seq<u8>) -> Seq<Seq<u8>> {
    split_bytes(s, 44).map_values(|e: Seq<u8>| trim_ws(e))
}

/// Parse a comma-separated allow-list, trimming each entry.
pub fn parse_allow_list(s: &[u8]) -> (r: Vec<Vec<u8>>)
    ensures
        views_of(r@) == allow_list_of(s@),
{
    let parts = split(s, 44);
    let mut out: Vec<Vec<u8>> = Vec::new();
    let mut i: usize = 0;
    while i < parts.len()
        invariant
            i <= parts@.len(),
            out@.len() == i,
            views_of(parts@) == split_bytes(s@, 44),
            forall|j: int| 0 <= j < i ==> out@[j]@ == trim_ws(views_of(parts@)[j]),
        decreases parts@.len() - i,
    {
        let t = trim_ws_exec(parts[i].as_slice());
        out.push(t);
        i = i + 1;
    }
    proof {
        assert(views_of(out@) =~= allow_list_of(s@));
    }
    out
}

/// `true`
pub open spec fn spec_true_lit() -> Seq<u8> {
    seq![116u8, 114u8, 117u8, 101u8]
}

/// `false`
pub open spec fn spec_false_lit() -> Seq<u8> {
    seq![102u8, 97u8, 108u8, 115u8, 101u8]
}

/// The boolean a configuration value spells, if it spells one.
pub open spec fn bool_of(s: Seq<u8>) -> Option<bool> {
    if s == spec_true_lit() {
        Some(true)
    } else if s == spec_false_lit() {
        Some(false)
    } else {
        None
    }
}

/// Parse `true` or `false`.
pub fn parse_bool(s: &[u8]) -> (r: Option<bool>)
    ensures
        r == bool_of(s@),
{
    let mut t: Vec<u8> = Vec::new();
    t.push(116);
    t.push(114);
    t.push(117);
    t.push(101);
    let mut f: Vec<u8> = Vec::new();
    f.push(102);
    f.push(97);
    f.push(108);
    f.push(115);
    f.push(101);
    proof {
        assert(t@ =~= spec_true_lit());
        assert(f@ =~= spec_false_lit());
    }
    if bytes_eq(s, t.as_slice()) {
        Some(true)
    } else if bytes_eq(s, f.as_slice()) {
        Some(false)
    } else {
        None
    }
}

/// `$path`
pub open spec fn spec_path_sentinel() -> Seq<u8> {
    seq![36u8, 112u8, 97u8, 116u8, 104u8]
}

/// `$host`
pub open spec fn spec_host_sentinel() -> Seq<u8> {
    seq![36u8, 104u8, 111u8, 115u8, 116u8]
}

/// Read the addressing mode a `bucket_name` configuration value selects: the
/// two sentinels pick a style, anything else is a fixed bucket name. The
/// sentinels are reserved: a literal bucket named like one cannot be
/// configured.
pub fn parse_mode(s: &[u8]) -> (r: AddressingMode)
    ensures
        (match r {
            AddressingMode::PathStyle => s@ == spec_path_sentinel(),
            AddressingMode::HostStyle => s@ != spec_path_sentinel() && s@ == spec_host_sentinel(),
            AddressingMode::FixedBucket(name) => s@ != spec_path_sentinel() && s@
                != spec_host_sentinel() && name@ == s@,
        }),
{
    let mut p: Vec<u8> = Vec::new();
    p.push(36);
    p.push(112);
    p.push(97);
    p.push(116);
    p.push(104);
    let mut h: Vec<u8> = Vec::new();
    h.push(36);
    h.push(104);
    h.push(111);
    h.push(115);
    h.push(116);
    proof {
        assert(p@ =~= spec_path_sentinel());
        assert(h@ =~= spec_host_sentinel());
    }
    if bytes_eq(s, p.as_slice()) {
        AddressingMode::PathStyle
    } else if bytes_eq(s, h.as_slice()) {
        AddressingMode::HostStyle
    } else {
        AddressingMode::FixedBucket(to_vec(s))
    }
}

/// `s3.`
pub open spec fn spec_region_prefix() -> Seq<u8> {
    seq![115u8, 51u8, 46u8]
}

/// `.backblazeb2.com`
pub open spec fn spec_region_suffix() -> Seq<u8> {
    seq![46u8, 98u8, 97u8, 99u8, 107u8, 98u8, 108u8, 97u8, 122u8, 101u8, 98u8, 50u8, 46u8, 99u8, 111u8, 109u8]
}

/// A letter, digit, or hyphen: the bytes a region name may hold.
pub open spec fn is_region_byte(b: u8) -> bool {
    (48 <= b <= 57) || (65 <= b <= 90) || (97 <= b <= 122) || b == 45
}

/// The region an endpoint hostname names, when the hostname has the shape
/// `s3.<region>.backblazeb2.com` with a nonempty region of letters, digits
/// and hyphens; `None` for any other shape.
pub open spec fn region_of(s: Seq<u8>) -> Option<Seq<u8>> {
    if s.len() >= 20 && s.subrange(0, 3) == spec_region_prefix() && s.subrange(
        s.len() - 16,
        s.len() as int,
    ) == spec_region_suffix() && (forall|i: int|
        3 <= i < s.len() - 16 ==> is_region_byte(s[i])) {
        Some(s.subrange(3, s.len() - 16))
    } else {
        None
    }
}

fn is_region_byte_exec(b: u8) -> (r: bool)
    ensures
        r == is_region_byte(b),
{
    (48 <= b && b <= 57) || (65 <= b && b <= 90) || (97 <= b && b <= 122) || b == 45
}

/// Extract the region from an endpoint hostname, failing on any hostname
/// that does not match the required shape.
pub fn extract_region(endpoint: &[u8]) -> (r: Option<Vec<u8>>)
    ensures
        (match r {
            Some(region) => region_of(endpoint@) == Some(region@),
            None => region_of(endpoint@) is None,
        }),
{
    if endpoint.len() < 20 {
        return None;
    }
    let mut prefix: Vec<u8> = Vec::new();
    prefix.push(115);
    prefix.push(51);
    prefix.push(46);
    let mut suffix: Vec<u8> = Vec::new();
    suffix.push(46);
    suffix.push(98);
    suffix.push(97);
    suffix.push(99);
    suffix.push(107);
    suffix.push(98);
    suffix.push(108);
    suffix.push(97);
    suffix.push(122);
    suffix.push(101);
    suffix.push(98);
    suffix.push(50);
    suffix.push(46);
    suffix.push(99);
    suffix.push(111);
    suffix.push(109);
    proof {
        assert(prefix@ =~= spec_region_prefix());
        assert(suffix@ =~= spec_region_suffix());
    }
    if !bytes_eq(&endpoint[0..3], prefix.as_slice()) {
        return None;
    }
    if !bytes_eq(&endpoint[endpoint.len() - 16..endpoint.len()], suffix.as_slice()) {
        return None;
    }
    let mut i: usize = 3;
    while i < endpoint.len() - 16
        invariant
            3 <= i <= endpoint@.len() - 16,
            endpoint@.len() >= 20,
            forall|j: int| 3 <= j < i ==> is_region_byte(endpoint@[j]),
        decreases endpoint@.len() - 16 - i,
    {
        if !is_region_byte_exec(endpoint[i]) {
            return None;
        }
        i = i + 1;
    }
    Some(to_vec(&endpoint[3..endpoint.len() - 16]))
}

/// The bucket a request resolves to under a mode: the first segment of the
/// trimmed path, the leftmost label of the host, or the fixed name.
pub open spec fn spec_bucket(mode: &AddressingMode, trimmed: Seq<u8>, host: Seq<u8>) -> Seq<u8> {
    match mode {
        AddressingMode::PathStyle => split_bytes(trimmed, 47)[0],
        AddressingMode::HostStyle => split_bytes(host, 46)[0],
        AddressingMode::FixedBucket(name) => name@,
    }
}

/// The rewritten backend path: the trimmed path rooted again under path
/// style, where the bucket segment is already embedded; otherwise
/// `/{bucket}/{trimmed path}`.
pub open spec fn spec_backend_path(mode: &AddressingMode, trimmed: Seq<u8>, host: Seq<u8>) -> Seq<
    u8,
> {
    match mode {
        AddressingMode::PathStyle => seq![47u8] + trimmed,
        _ => seq![47u8] + spec_bucket(mode, trimmed, host) + seq![47u8] + trimmed,
    }
}

/// Every rewritten backend path is rooted: whatever the mode, it begins
/// with a slash.
pub proof fn lemma_backend_path_rooted(mode: &AddressingMode, trimmed: Seq<u8>, host: Seq<u8>)
    ensures
        spec_backend_path(mode, trimmed, host).len() > 0,
        spec_backend_path(mode, trimmed, host)[0] == 47u8,
{
}

/// A bucket-root request that the configuration forbids: with listing
/// disallowed, a path of fewer than two segments under path style, or an
/// empty trimmed path under the other modes.
pub open spec fn spec_root_blocked(cfg: &RouterConfig, trimmed: Seq<u8>) -> bool {
    !cfg.allow_list_bucket && (match cfg.mode {
        AddressingMode::PathStyle => split_bytes(trimmed, 47).len() < 2,
        _ => trimmed.len() == 0,
    })
}

/// Whether the resolved bucket may be served: a fixed bucket always, the
/// other modes only with the bucket on the allow-list.
pub open spec fn spec_allowed(cfg: &RouterConfig, bucket: Seq<u8>) -> bool {
    match cfg.mode {
        AddressingMode::FixedBucket(_) => true,
        _ => views_of(cfg.allowed_buckets@).contains(bucket),
    }
}

/// Whether an allow-list holds a name.
pub fn contains_bytes(list: &Vec<Vec<u8>>, x: &[u8]) -> (r: bool)
    ensures
        r == views_of(list@).contains(x@),
{
    let mut i: usize = 0;
    while i < list.len()
        invariant
            i <= list@.len(),
            forall|j: int| 0 <= j < i ==> views_of(list@)[j] != x@,
        decreases list@.len() - i,
    {
        if bytes_eq(list[i].as_slice(), x) {
            proof {
                assert(views_of(list@)[i as int] == x@);
            }
            return true;
        }
        i = i + 1;
    }
    proof {
        assert(!views_of(list@).contains(x@));
    }
    false
}

/// Decide a request: reject non-read methods, reject forbidden bucket-root
/// requests, resolve the bucket, and enforce the allow-list.
pub fn route(method: &crate::sigv4::HttpMethod, raw_path: &[u8], host: &[u8], cfg: &RouterConfig)
    -> (r: Result<RoutingDecision, RouteError>)
    ensures
        ({
            let trimmed = trim_slashes(raw_path@);
            let bucket = spec_bucket(&cfg.mode, trimmed, host@);
            match r {
                Ok(d) => method.is_read() && !spec_root_blocked(cfg, trimmed) && spec_allowed(
                    cfg,
                    bucket,
                ) && d.bucket@ == bucket && d.backend_path@ == spec_backend_path(
                    &cfg.mode,
                    trimmed,
                    host@,
                ),
                Err(e) => if !method.is_read() {
                    e == RouteError::MethodNotAllowed
                } else {
                    e == RouteError::BucketNotFound && (spec_root_blocked(cfg, trimmed)
                        || !spec_allowed(cfg, bucket))
                },
            }
        }),
{
    if !method.is_read_method() {
        return Err(RouteError::MethodNotAllowed);
    }
    let trimmed = normalize_path(raw_path);
    let segments = split(trimmed.as_slice(), 47);
    if !cfg.allow_list_bucket {
        let blocked = match &cfg.mode {
            AddressingMode::PathStyle => segments.len() < 2,
            _ => trimmed.len() == 0,
        };
        if blocked {
            return Err(RouteError::BucketNotFound);
        }
    }
    let bucket: Vec<u8> = match &cfg.mode {
        AddressingMode::PathStyle => to_vec(segments[0].as_slice()),
        AddressingMode::HostStyle => {
            let labels = split(host, 46);
            to_vec(labels[0].as_slice())
        },
        AddressingMode::FixedBucket(name) => to_vec(name.as_slice()),
    };
    let allowed = match &cfg.mode {
        AddressingMode::FixedBucket(_) => true,
        _ => contains_bytes(&cfg.allowed_buckets, bucket.as_slice()),
    };
    if !allowed {
        return Err(RouteError::BucketNotFound);
    }
    let mut path: Vec<u8> = Vec::new();
    path.push(47);
    match &cfg.mode {
        AddressingMode::PathStyle => {
            push_all(&mut path, trimmed.as_slice());
        },
        _ => {
            push_all(&mut path, bucket.as_slice());
            path.push(47);
            push_all(&mut path, trimmed.as_slice());
        },
    }
    proof {
        assert(path@ =~= spec_backend_path(&cfg.mode, trim_slashes(raw_path@), host@));
    }
    Ok(RoutingDecision { bucket, backend_path: path })
}

/// Validate the four raw configuration values: every key must be present,
/// the boolean must parse, and the endpoint must name a region; any failure
/// is a configuration error.
pub fn load_config(
    allow_list_bucket: Option<Vec<u8>>,
    bucket_name: Option<Vec<u8>>,
    allowed_buckets: Option<Vec<u8>>,
    endpoint: Option<Vec<u8>>,
) -> (r: Result<RouterConfig, RouteError>)
    ensures
        (match r {
            Ok(cfg) => {
                &&& allow_list_bucket matches Some(a) && bool_of(a@) == Some(
                    cfg.allow_list_bucket,
                )
                &&& bucket_name matches Some(b) && (match cfg.mode {
                    AddressingMode::PathStyle => b@ == spec_path_sentinel(),
                    AddressingMode::HostStyle => b@ != spec_path_sentinel() && b@
                        == spec_host_sentinel(),
                    AddressingMode::FixedBucket(name) => b@ != spec_path_sentinel() && b@
                        != spec_host_sentinel() && name@ == b@,
                })
                &&& allowed_buckets matches Some(l) && views_of(cfg.allowed_buckets@)
                    == allow_list_of(l@)
                &&& endpoint matches Some(ep) && cfg.endpoint@ == ep@ && region_of(ep@) == Some(
                    cfg.region@,
                )
            },
            Err(e) => {
                &&& e == RouteError::ConfigurationError
                &&& (allow_list_bucket is None || bucket_name is None || allowed_buckets is None
                    || endpoint is None || (allow_list_bucket matches Some(a) && bool_of(a@)
                    is None) || (endpoint matches Some(ep) && region_of(ep@) is None))
            },
        }),
{
    let allow_raw = match allow_list_bucket {
        Some(v) => v,
        None => {
            return Err(RouteError::ConfigurationError);
        },
    };
    let bucket_raw = match bucket_name {
        Some(v) => v,
        None => {
            return Err(RouteError::ConfigurationError);
        },
    };
    let list_raw = match allowed_buckets {
        Some(v) => v,
        None => {
            return Err(RouteError::ConfigurationError);
        },
    };
    let endpoint_raw = match endpoint {
        Some(v) => v,
        None => {
            return Err(RouteError::ConfigurationError);
        },
    };
    let allow = match parse_bool(allow_raw.as_slice()) {
        Some(b) => b,
        None => {
            return Err(RouteError::ConfigurationError);
        },
    };
    let region = match extract_region(endpoint_raw.as_slice()) {
        Some(rg) => rg,
        None => {
            return Err(RouteError::ConfigurationError);
        },
    };
    let mode = parse_mode(bucket_raw.as_slice());
    let allowed = parse_allow_list(list_raw.as_slice());
    Ok(
        RouterConfig {
            allow_list_bucket: allow,
            mode,
            allowed_buckets: allowed,
            endpoint: endpoint_raw,
            region,
        },
    )
}


/// The outbound backend request: host, rewritten path, and the three
/// signature headers.
#[derive(Debug)]
pub struct OutboundRequest {
    pub host: Vec<u8>,
    pub path: Vec<u8>,
    pub headers: crate::sigv4::SignedHeaders,
}

/// Route a request and, when it is permitted, sign it for the backend at the
/// given instant: the full decision a single inbound request gets.
pub fn handle_request(
    method: &crate::sigv4::HttpMethod,
    raw_path: &[u8],
    query: &[u8],
    host: &[u8],
    cfg: &RouterConfig,
    creds: &crate::sigv4::SigningCredentials,
    ts: &crate::time::Timestamp,
) -> (r: Result<OutboundRequest, RouteError>)
    requires
        ts.wf(),
    ensures
        ({
            let trimmed = trim_slashes(raw_path@);
            let bucket = spec_bucket(&cfg.mode, trimmed, host@);
            let backend_path = spec_backend_path(&cfg.mode, trimmed, host@);
            match r {
                Ok(out) => method.is_read() && !spec_root_blocked(cfg, trimmed) && spec_allowed(
                    cfg,
                    bucket,
                ) && out.host@ == cfg.endpoint@ && out.path@ == backend_path
                    && out.headers.authorization@ == crate::sigv4::authorization_header_of(
                    *method,
                    backend_path,
                    query@,
                    cfg.endpoint@,
                    cfg.region@,
                    creds.access_key_id@,
                    creds.secret_key@,
                    *ts,
                ) && out.headers.content_sha256@ == crate::sigv4::empty_payload_hash_of()
                    && out.headers.amz_date@ == crate::time::amz_date_of(*ts),
                Err(e) => if !method.is_read() {
                    e == RouteError::MethodNotAllowed
                } else {
                    e == RouteError::BucketNotFound && (spec_root_blocked(cfg, trimmed)
                        || !spec_allowed(cfg, bucket))
                },
            }
        }),
{
    let decision = match route(method, raw_path, host, cfg) {
        Ok(d) => d,
        Err(e) => {
            return Err(e);
        },
    };
    let headers = crate::sigv4::sign(
        method,
        decision.backend_path.as_slice(),
        query,
        cfg.endpoint.as_slice(),
        cfg.region.as_slice(),
        creds,
        ts,
    );
    Ok(OutboundRequest { host: to_vec(cfg.endpoint.as_slice()), path: decision.backend_path, headers })
}


/// Take the two credential values as the secret store handed them out: both
/// must be present; a missing one is a configuration error.
pub fn load_credentials(
    access_key_id: Option<Vec<u8>>,
    secret_key: Option<Vec<u8>>,
) -> (r: Result<crate::sigv4::SigningCredentials, RouteError>)
    ensures
        (match r {
            Ok(c) => {
                &&& access_key_id matches Some(a) && c.access_key_id@ == a@
                &&& secret_key matches Some(s) && c.secret_key@ == s@
            },
            Err(e) => e == RouteError::ConfigurationError && (access_key_id is None
                || secret_key is None),
        }),
{
    match (access_key_id, secret_key) {
        (Some(access_key_id), Some(secret_key)) => Ok(
            crate::sigv4::SigningCredentials { access_key_id, secret_key },
        ),
        _ => Err(RouteError::ConfigurationError),
    }
}

} // verus!
