//! The AWS Signature Version 4 engine for read-only S3 requests.
//!
//! Four stages, each a deterministic function of its inputs: the canonical
//! request, the string to sign, the scoped signing key, and the signature
//! itself; the authorization header value assembles the result.

use vstd::prelude::*;

use crate::bytes::join;
use crate::bytes::join_bytes;
use crate::bytes::push_all;
use crate::bytes::sort_lex;
use crate::bytes::sort_lex_spec;
use crate::bytes::split;
use crate::bytes::split_bytes;
use crate::hashes::hmac;
use crate::hashes::hmac_sha256_of;
use crate::hashes::sha256;
use crate::hashes::sha256_of;
use crate::hex::hex_of;
use crate::hex::to_hex;
use crate::time::amz_date_of;
use crate::time::date_stamp_of;
use crate::time::format_amz_date;
use crate::time::format_date_stamp;
use crate::time::Timestamp;

verus! {

/// An HTTP method; only `Get` and `Head` are ever signed or forwarded.
#[derive(Clone, Copy, Debug, PartialEq, Eq, Structural)]
pub enum HttpMethod {
    Get,
    Head,
    Post,
    Put,
    Delete,
    Other,
}

impl HttpMethod {
    /// The two read-only methods.
    pub open spec fn is_read(self) -> bool {
        self == HttpMethod::Get || self == HttpMethod::Head
    }

    /// Decide whether this is one of the two read-only methods.
    pub fn is_read_method(&self) -> (r: bool)
        ensures
            r == self.is_read(),
    {
        match self {
            HttpMethod::Get => true,
            HttpMethod::Head => true,
            _ => false,
        }
    }
}

/// The method name as it stands in the canonical request.
pub open spec fn method_bytes_of(m: HttpMethod) -> Seq<u8>
    recommends
        m.is_read(),
{
    if m == HttpMethod::Get {
        seq![71u8, 69u8, 84u8]
    } else {
        seq![72u8, 69u8, 65u8, 68u8]
    }
}

fn push_method(out: &mut Vec<u8>, m: &HttpMethod)
    requires
        m.is_read(),
    ensures
        final(out)@ == old(out)@ + method_bytes_of(*m),
{
    match m {
        HttpMethod::Get => {
            out.push(71u8);
            out.push(69u8);
            out.push(84u8);
        },
        _ => {
            out.push(72u8);
            out.push(69u8);
            out.push(65u8);
            out.push(68u8);
        },
    }
    proof {
        assert(out@ =~= old(out)@ + method_bytes_of(*m));
    }
}

/// The two SigV4 credentials, as handed out by the secret store. They are
/// never written into canonical request text and carry no printing impl.
pub struct SigningCredentials {
    pub access_key_id: Vec<u8>,
    pub secret_key: Vec<u8>,
}

/// The three headers the engine produces for an outbound request.
#[derive(Debug)]
pub struct SignedHeaders {
    pub authorization: Vec<u8>,
    pub content_sha256: Vec<u8>,
    pub amz_date: Vec<u8>,
}

/// `AWS4-HMAC-SHA256`
pub open spec fn spec_algorithm() -> Seq<u8> {
    seq![65u8, 87u8, 83u8, 52u8, 45u8, 72u8, 77u8, 65u8, 67u8, 45u8, 83u8, 72u8, 65u8, 50u8, 53u8, 54u8]
}

fn push_algorithm(out: &mut Vec<u8>)
    ensures
        final(out)@ == old(out)@ + spec_algorithm(),
{
    out.push(65u8); out.push(87u8); out.push(83u8); out.push(52u8); out.push(45u8); out.push(72u8); out.push(77u8); out.push(65u8); out.push(67u8); out.push(45u8); out.push(83u8); out.push(72u8); out.push(65u8); out.push(50u8); out.push(53u8); out.push(54u8);
    proof {
        assert(out@ =~= old(out)@ + spec_algorithm());
    }
}

/// `AWS4`
pub open spec fn spec_aws4() -> Seq<u8> {
    seq![65u8, 87u8, 83u8, 52u8]
}

fn push_aws4(out: &mut Vec<u8>)
    ensures
        final(out)@ == old(out)@ + spec_aws4(),
{
    out.push(65u8); out.push(87u8); out.push(83u8); out.push(52u8);
    proof {
        assert(out@ =~= old(out)@ + spec_aws4());
    }
}

/// `s3`
pub open spec fn spec_s3() -> Seq<u8> {
    seq![115u8, 51u8]
}

fn push_s3(out: &mut Vec<u8>)
    ensures
        final(out)@ == old(out)@ + spec_s3(),
{
    out.push(115u8); out.push(51u8);
    proof {
        assert(out@ =~= old(out)@ + spec_s3());
    }
}

/// `aws4_request`
pub open spec fn spec_aws4_request() -> Seq<u8> {
    seq![97u8, 119u8, 115u8, 52u8, 95u8, 114u8, 101u8, 113u8, 117u8, 101u8, 115u8, 116u8]
}

fn push_aws4_request(out: &mut Vec<u8>)
    ensures
        final(out)@ == old(out)@ + spec_aws4_request(),
{
    out.push(97u8); out.push(119u8); out.push(115u8); out.push(52u8); out.push(95u8); out.push(114u8); out.push(101u8); out.push(113u8); out.push(117u8); out.push(101u8); out.push(115u8); out.push(116u8);
    proof {
        assert(out@ =~= old(out)@ + spec_aws4_request());
    }
}

/// `host:`
pub open spec fn spec_host_header() -> Seq<u8> {
    seq![104u8, 111u8, 115u8, 116u8, 58u8]
}

fn push_host_header(out: &mut Vec<u8>)
    ensures
        final(out)@ == old(out)@ + spec_host_header(),
{
    out.push(104u8); out.push(111u8); out.push(115u8); out.push(116u8); out.push(58u8);
    proof {
        assert(out@ =~= old(out)@ + spec_host_header());
    }
}

/// `x-amz-date:`
pub open spec fn spec_amz_date_header() -> Seq<u8> {
    seq![120u8, 45u8, 97u8, 109u8, 122u8, 45u8, 100u8, 97u8, 116u8, 101u8, 58u8]
}

fn push_amz_date_header(out: &mut Vec<u8>)
    ensures
        final(out)@ == old(out)@ + spec_amz_date_header(),
{
    out.push(120u8); out.push(45u8); out.push(97u8); out.push(109u8); out.push(122u8); out.push(45u8); out.push(100u8); out.push(97u8); out.push(116u8); out.push(101u8); out.push(58u8);
    proof {
        assert(out@ =~= old(out)@ + spec_amz_date_header());
    }
}

/// `host;x-amz-date`
pub open spec fn spec_signed_headers() -> Seq<u8> {
    seq![104u8, 111u8, 115u8, 116u8, 59u8, 120u8, 45u8, 97u8, 109u8, 122u8, 45u8, 100u8, 97u8, 116u8, 101u8]
}

fn push_signed_headers(out: &mut Vec<u8>)
    ensures
        final(out)@ == old(out)@ + spec_signed_headers(),
{
    out.push(104u8); out.push(111u8); out.push(115u8); out.push(116u8); out.push(59u8); out.push(120u8); out.push(45u8); out.push(97u8); out.push(109u8); out.push(122u8); out.push(45u8); out.push(100u8); out.push(97u8); out.push(116u8); out.push(101u8);
    proof {
        assert(out@ =~= old(out)@ + spec_signed_headers());
    }
}

/// ` Credential=`
pub open spec fn spec_credential_part() -> Seq<u8> {
    seq![32u8, 67u8, 114u8, 101u8, 100u8, 101u8, 110u8, 116u8, 105u8, 97u8, 108u8, 61u8]
}

fn push_credential_part(out: &mut Vec<u8>)
    ensures
        final(out)@ == old(out)@ + spec_credential_part(),
{
    out.push(32u8); out.push(67u8); out.push(114u8); out.push(101u8); out.push(100u8); out.push(101u8); out.push(110u8); out.push(116u8); out.push(105u8); out.push(97u8); out.push(108u8); out.push(61u8);
    proof {
        assert(out@ =~= old(out)@ + spec_credential_part());
    }
}

/// `, SignedHeaders=host;x-amz-date, Signature=`
pub open spec fn spec_signature_part() -> Seq<u8> {
    seq![44u8, 32u8, 83u8, 105u8, 103u8, 110u8, 101u8, 100u8, 72u8, 101u8, 97u8, 100u8, 101u8, 114u8, 115u8, 61u8, 104u8, 111u8, 115u8, 116u8, 59u8, 120u8, 45u8, 97u8, 109u8, 122u8, 45u8, 100u8, 97u8, 116u8, 101u8, 44u8, 32u8, 83u8, 105u8, 103u8, 110u8, 97u8, 116u8, 117u8, 114u8, 101u8, 61u8]
}

fn push_signature_part(out: &mut Vec<u8>)
    ensures
        final(out)@ == old(out)@ + spec_signature_part(),
{
    out.push(44u8); out.push(32u8); out.push(83u8); out.push(105u8); out.push(103u8); out.push(110u8); out.push(101u8); out.push(100u8); out.push(72u8); out.push(101u8); out.push(97u8); out.push(100u8); out.push(101u8); out.push(114u8); out.push(115u8); out.push(61u8); out.push(104u8); out.push(111u8); out.push(115u8); out.push(116u8); out.push(59u8); out.push(120u8); out.push(45u8); out.push(97u8); out.push(109u8); out.push(122u8); out.push(45u8); out.push(100u8); out.push(97u8); out.push(116u8); out.push(101u8); out.push(44u8); out.push(32u8); out.push(83u8); out.push(105u8); out.push(103u8); out.push(110u8); out.push(97u8); out.push(116u8); out.push(117u8); out.push(114u8); out.push(101u8); out.push(61u8);
    proof {
        assert(out@ =~= old(out)@ + spec_signature_part());
    }
}

/// The canonical form of a query string: its `&`-separated parameters sorted
/// lexicographically and rejoined. An empty query stays empty.
pub open spec fn canonical_query_of(q: Seq<u8>) -> Seq<u8> {
    join_bytes(sort_lex_spec(split_bytes(q, 38u8)), 38u8)
}

/// Canonicalize a query string.
pub fn canonical_query(q: &[u8]) -> (r: Vec<u8>)
    ensures
        r@ == canonical_query_of(q@),
{
    let parts = split(q, 38u8);
    let sorted = sort_lex(parts);
    join(&sorted, 38u8)
}

/// The hex SHA-256 of an empty payload, the only payload a read carries.
pub open spec fn empty_payload_hash_of() -> Seq<u8> {
    hex_of(sha256_of(Seq::<u8>::empty()))
}

/// Compute the hex SHA-256 of the empty payload.
pub fn empty_payload_hash() -> (r: Vec<u8>)
    ensures
        r@ == empty_payload_hash_of(),
{
    let empty: Vec<u8> = Vec::new();
    let h = sha256(empty.as_slice());
    proof {
        assert(empty@ =~= Seq::<u8>::empty());
    }
    to_hex(h.as_slice())
}

/// The canonical request: method, URI, canonical query, the two signed
/// headers in name order, the signed-header list, and the payload hash,
/// newline-separated.
pub open spec fn canonical_request_of(
    method: Seq<u8>,
    uri: Seq<u8>,
    canonical_query: Seq<u8>,
    host: Seq<u8>,
    amz_date: Seq<u8>,
    payload_hash: Seq<u8>,
) -> Seq<u8> {
    method + seq![10u8] + uri + seq![10u8] + canonical_query + seq![10u8] + spec_host_header()
        + host + seq![10u8] + spec_amz_date_header() + amz_date + seq![10u8] + seq![10u8]
        + spec_signed_headers() + seq![10u8] + payload_hash
}

/// Build the canonical request for a read method.
pub fn canonical_request(
    method: &HttpMethod,
    uri: &[u8],
    canonical_query_string: &[u8],
    host: &[u8],
    amz_date: &[u8],
    payload_hash: &[u8],
) -> (r: Vec<u8>)
    requires
        method.is_read(),
    ensures
        r@ == canonical_request_of(
            method_bytes_of(*method),
            uri@,
            canonical_query_string@,
            host@,
            amz_date@,
            payload_hash@,
        ),
{
    let mut r: Vec<u8> = Vec::new();
    push_method(&mut r, method);
    r.push(10u8);
    push_all(&mut r, uri);
    r.push(10u8);
    push_all(&mut r, canonical_query_string);
    r.push(10u8);
    push_host_header(&mut r);
    push_all(&mut r, host);
    r.push(10u8);
    push_amz_date_header(&mut r);
    push_all(&mut r, amz_date);
    r.push(10u8);
    r.push(10u8);
    push_signed_headers(&mut r);
    r.push(10u8);
    push_all(&mut r, payload_hash);
    proof {
        assert(r@ =~= canonical_request_of(
            method_bytes_of(*method),
            uri@,
            canonical_query_string@,
            host@,
            amz_date@,
            payload_hash@,
        ));
    }
    r
}

/// The credential scope, `{date}/{region}/s3/aws4_request`.
pub open spec fn credential_scope_of(date: Seq<u8>, region: Seq<u8>) -> Seq<u8> {
    date + seq![47u8] + region + seq![47u8] + spec_s3() + seq![47u8] + spec_aws4_request()
}

/// Build the credential scope.
pub fn credential_scope(date: &[u8], region: &[u8]) -> (r: Vec<u8>)
    ensures
        r@ == credential_scope_of(date@, region@),
{
    let mut r: Vec<u8> = Vec::new();
    push_all(&mut r, date);
    r.push(47u8);
    push_all(&mut r, region);
    r.push(47u8);
    push_s3(&mut r);
    r.push(47u8);
    push_aws4_request(&mut r);
    proof {
        assert(r@ =~= credential_scope_of(date@, region@));
    }
    r
}

/// The string to sign: algorithm, timestamp, scope, and the hex SHA-256 of
/// the canonical request, newline-separated.
pub open spec fn string_to_sign_of(
    amz_date: Seq<u8>,
    scope: Seq<u8>,
    canonical_request: Seq<u8>,
) -> Seq<u8> {
    spec_algorithm() + seq![10u8] + amz_date + seq![10u8] + scope + seq![10u8] + hex_of(
        sha256_of(canonical_request),
    )
}

/// Build the string to sign from the canonical request.
pub fn string_to_sign(amz_date: &[u8], scope: &[u8], canonical_req: &[u8]) -> (r: Vec<u8>)
    ensures
        r@ == string_to_sign_of(amz_date@, scope@, canonical_req@),
{
    let digest = sha256(canonical_req);
    let digest_hex = to_hex(digest.as_slice());
    let mut r: Vec<u8> = Vec::new();
    push_algorithm(&mut r);
    r.push(10u8);
    push_all(&mut r, amz_date);
    r.push(10u8);
    push_all(&mut r, scope);
    r.push(10u8);
    push_all(&mut r, digest_hex.as_slice());
    proof {
        assert(r@ =~= string_to_sign_of(amz_date@, scope@, canonical_req@));
    }
    r
}

/// The scoped signing key: four chained HMACs keyed each by the previous
/// stage, over the date, the region, `s3`, and `aws4_request`.
pub open spec fn signing_key_of(secret: Seq<u8>, date: Seq<u8>, region: Seq<u8>) -> Seq<u8> {
    hmac_sha256_of(
        hmac_sha256_of(
            hmac_sha256_of(hmac_sha256_of(spec_aws4() + secret, date), region),
            spec_s3(),
        ),
        spec_aws4_request(),
    )
}

/// Derive the scoped signing key.
pub fn signing_key(secret: &[u8], date: &[u8], region: &[u8]) -> (r: Vec<u8>)
    ensures
        r@ == signing_key_of(secret@, date@, region@),
{
    let mut seed: Vec<u8> = Vec::new();
    push_aws4(&mut seed);
    push_all(&mut seed, secret);
    let date_key = hmac(seed.as_slice(), date);
    let region_key = hmac(date_key.as_slice(), region);
    let mut service: Vec<u8> = Vec::new();
    push_s3(&mut service);
    let service_key = hmac(region_key.as_slice(), service.as_slice());
    let mut terminal: Vec<u8> = Vec::new();
    push_aws4_request(&mut terminal);
    let r = hmac(service_key.as_slice(), terminal.as_slice());
    proof {
        assert(seed@ =~= spec_aws4() + secret@);
        assert(service@ =~= spec_s3());
        assert(terminal@ =~= spec_aws4_request());
    }
    r
}

/// The hex signature of a string to sign under the scoped key.
pub open spec fn signature_of(
    secret: Seq<u8>,
    date: Seq<u8>,
    region: Seq<u8>,
    string_to_sign: Seq<u8>,
) -> Seq<u8> {
    hex_of(hmac_sha256_of(signing_key_of(secret, date, region), string_to_sign))
}

/// Compute the hex signature of a string to sign.
pub fn signature(secret: &[u8], date: &[u8], region: &[u8], sts: &[u8]) -> (r: Vec<u8>)
    ensures
        r@ == signature_of(secret@, date@, region@, sts@),
{
    let key = signing_key(secret, date, region);
    let mac = hmac(key.as_slice(), sts);
    to_hex(mac.as_slice())
}

/// The authorization header value:
/// `AWS4-HMAC-SHA256 Credential={key id}/{scope},
/// SignedHeaders=host;x-amz-date, Signature={signature}`.
pub open spec fn authorization_of(key_id: Seq<u8>, scope: Seq<u8>, signature: Seq<u8>) -> Seq<u8> {
    spec_algorithm() + spec_credential_part() + key_id + seq![47u8] + scope + spec_signature_part()
        + signature
}

fn authorization(key_id: &[u8], scope: &[u8], sig: &[u8]) -> (r: Vec<u8>)
    ensures
        r@ == authorization_of(key_id@, scope@, sig@),
{
    let mut r: Vec<u8> = Vec::new();
    push_algorithm(&mut r);
    push_credential_part(&mut r);
    push_all(&mut r, key_id);
    r.push(47u8);
    push_all(&mut r, scope);
    push_signature_part(&mut r);
    push_all(&mut r, sig);
    proof {
        assert(r@ =~= authorization_of(key_id@, scope@, sig@));
    }
    r
}

/// The full authorization header value for a read request: the four stages
/// composed over the request's inputs and the instant it is signed at.
pub open spec fn authorization_header_of(
    m: HttpMethod,
    uri: Seq<u8>,
    query: Seq<u8>,
    host: Seq<u8>,
    region: Seq<u8>,
    key_id: Seq<u8>,
    secret: Seq<u8>,
    ts: Timestamp,
) -> Seq<u8> {
    let amz_date = amz_date_of(ts);
    let date = date_stamp_of(ts);
    let scope = credential_scope_of(date, region);
    let creq = canonical_request_of(
        method_bytes_of(m),
        uri,
        canonical_query_of(query),
        host,
        amz_date,
        empty_payload_hash_of(),
    );
    authorization_of(key_id, scope, signature_of(secret, date, region, string_to_sign_of(amz_date, scope, creq)))
}

/// Sign a read request: produce the authorization header and its two
/// companion headers for the given instant.
pub fn sign(
    method: &HttpMethod,
    uri: &[u8],
    query: &[u8],
    host: &[u8],
    region: &[u8],
    creds: &SigningCredentials,
    ts: &Timestamp,
) -> (r: SignedHeaders)
    requires
        method.is_read(),
        ts.wf(),
        uri@.len() > 0 && uri@[0] == 47u8,
    ensures
        r.authorization@ == authorization_header_of(
            *method,
            uri@,
            query@,
            host@,
            region@,
            creds.access_key_id@,
            creds.secret_key@,
            *ts,
        ),
        r.content_sha256@ == empty_payload_hash_of(),
        r.amz_date@ == amz_date_of(*ts),
{
    let amz_date = format_amz_date(ts);
    let date = format_date_stamp(ts);
    let payload_hash = empty_payload_hash();
    let cq = canonical_query(query);
    let creq = canonical_request(
        method,
        uri,
        cq.as_slice(),
        host,
        amz_date.as_slice(),
        payload_hash.as_slice(),
    );
    let scope = credential_scope(date.as_slice(), region);
    let sts = string_to_sign(amz_date.as_slice(), scope.as_slice(), creq.as_slice());
    let sig = signature(creds.secret_key.as_slice(), date.as_slice(), region, sts.as_slice());
    let auth = authorization(creds.access_key_id.as_slice(), scope.as_slice(), sig.as_slice());
    SignedHeaders { authorization: auth, content_sha256: payload_hash, amz_date }
}


/// The canonical request is a pure function of its inputs: any two canonical
/// requests built from the same method, path, query, host, date and payload
/// hash are identical.
pub proof fn lemma_canonical_request_deterministic(
    method: Seq<u8>,
    uri: Seq<u8>,
    canonical_query: Seq<u8>,
    host: Seq<u8>,
    amz_date: Seq<u8>,
    payload_hash: Seq<u8>,
    r1: Seq<u8>,
    r2: Seq<u8>,
)
    requires
        r1 == canonical_request_of(method, uri, canonical_query, host, amz_date, payload_hash),
        r2 == canonical_request_of(method, uri, canonical_query, host, amz_date, payload_hash),
    ensures
        r1 == r2,
{
}

/// The signature inside the authorization header equals one recomputed
/// independently from the same inputs: the four-stage HMAC chain spelled out
/// over date, region, service and terminal salt, applied to the string to
/// sign, hex-encoded.
pub proof fn lemma_signature_round_trip(
    m: HttpMethod,
    uri: Seq<u8>,
    query: Seq<u8>,
    host: Seq<u8>,
    region: Seq<u8>,
    key_id: Seq<u8>,
    secret: Seq<u8>,
    ts: Timestamp,
)
    ensures
        ({
            let amz_date = amz_date_of(ts);
            let date = date_stamp_of(ts);
            let scope = credential_scope_of(date, region);
            let creq = canonical_request_of(
                method_bytes_of(m),
                uri,
                canonical_query_of(query),
                host,
                amz_date,
                empty_payload_hash_of(),
            );
            let sts = string_to_sign_of(amz_date, scope, creq);
            let date_key = hmac_sha256_of(spec_aws4() + secret, date);
            let region_key = hmac_sha256_of(date_key, region);
            let service_key = hmac_sha256_of(region_key, spec_s3());
            let terminal_key = hmac_sha256_of(service_key, spec_aws4_request());
            authorization_header_of(m, uri, query, host, region, key_id, secret, ts)
                == authorization_of(key_id, scope, hex_of(hmac_sha256_of(terminal_key, sts)))
        }),
{
}


/// The canonical query string holds exactly the incoming query's parameters,
/// reordered: split on `&`, the pieces are sorted lexicographically with
/// multiplicities kept, and the canonical string is their rejoining.
pub proof fn lemma_canonical_query_is_sorted_permutation(q: Seq<u8>)
    ensures
        ({
            let parts = split_bytes(q, 38u8);
            let sorted = sort_lex_spec(parts);
            canonical_query_of(q) == join_bytes(sorted, 38u8) && crate::bytes::sorted_lex(sorted)
                && sorted.to_multiset() == parts.to_multiset()
        }),
{
    crate::bytes::lemma_sort_lex_sorted(split_bytes(q, 38u8));
    crate::bytes::lemma_sort_lex_permutes(split_bytes(q, 38u8));
}

} // verus!
