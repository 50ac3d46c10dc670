//! The TC3-HMAC-SHA256 request-signing scheme: canonical request,
//! string to sign, signing-key chain, signature and authorization header.

use vstd::prelude::*;
use vstd::string::*;
use vstd::utf8::encode_utf8;
use crate::encoding::{
    decimal_text, encode_form_component, encode_lower_hex, form_encoded, format_decimal,
    hmac_sha256, hmac_sha256_of, lower_hex, lowercase_of, sha256_digest, sha256_of, to_lowercase,
    trim, trimmed, utc_date_of, utc_civil_date, format_date, lemma_civil_year_nonnegative,
    MAX_SIGNING_SECS,
};
use crate::error::TencentCloudError;
use crate::ordering::{
    entries_view, lemma_map_keeps_multiset, lemma_sorted_entries_order_free, sort_entries,
    sorted_entries, Entry,
};
use crate::text::{byte_strings, join_texts, joined, split_bytes, split_on, texts};

verus! {

/// The byte `&`, which separates query parameters.
pub const AMPERSAND: u8 = 38;

/// The byte `=`, which separates a parameter's key from its value.
pub const EQUALS: u8 = 61;

/// The query parameter that one `&`-separated segment gives: `key=value`
/// gives both parts encoded, a segment without `=` gives its encoded key and
/// an empty value, and a segment with two or more `=` gives none.
pub open spec fn segment_param(seg: Seq<u8>) -> Option<Entry> {
    let parts = split_on(seg, EQUALS);
    if parts.len() == 2 {
        Some((form_encoded(parts[0]), form_encoded(parts[1])))
    } else if parts.len() == 1 {
        Some((form_encoded(parts[0]), Seq::empty()))
    } else {
        None
    }
}

/// The parameters of a list of segments, in their order.
pub open spec fn params_of(segs: Seq<Seq<u8>>) -> Seq<Entry>
    decreases segs.len(),
{
    if segs.len() == 0 {
        Seq::empty()
    } else {
        let rest = params_of(segs.drop_last());
        match segment_param(segs.last()) {
            Some(p) => rest.push(p),
            None => rest,
        }
    }
}

/// The encoded parameters of a raw query string, in their order.
pub open spec fn query_params(query: Seq<char>) -> Seq<Entry> {
    params_of(split_on(encode_utf8(query), AMPERSAND))
}

/// A parameter as it stands in a canonical query: `key=value`, or the key
/// alone when the value is empty.
pub open spec fn param_text(e: Entry) -> Seq<char> {
    if e.1.len() == 0 {
        e.0
    } else {
        e.0 + "="@ + e.1
    }
}

/// The canonical text of each parameter.
pub open spec fn param_texts(params: Seq<Entry>) -> Seq<Seq<char>> {
    params.map_values(|e: Entry| param_text(e))
}

/// The canonical form of a query string: its parameters encoded, sorted by
/// key and then value, and joined with `&`.
pub open spec fn canonical_query(query: Seq<char>) -> Seq<char> {
    joined(param_texts(sorted_entries(query_params(query))), "&"@)
}

/// Headers with lowercased names and trimmed values.
pub open spec fn normalized_headers(headers: Seq<Entry>) -> Seq<Entry> {
    headers.map_values(|e: Entry| (lowercase_of(e.0), trimmed(e.1)))
}

/// The normalized headers in order of name, and then of value.
pub open spec fn ordered_headers(headers: Seq<Entry>) -> Seq<Entry> {
    sorted_entries(normalized_headers(headers))
}

/// One line of the canonical header block.
pub open spec fn header_line(e: Entry) -> Seq<char> {
    e.0 + ":"@ + e.1
}

/// The line of each header.
pub open spec fn header_lines(headers: Seq<Entry>) -> Seq<Seq<char>> {
    headers.map_values(|e: Entry| header_line(e))
}

/// The name of each header.
pub open spec fn header_names(headers: Seq<Entry>) -> Seq<Seq<char>> {
    headers.map_values(|e: Entry| e.0)
}

/// The canonical header block: one `name:value` line per header, in order,
/// each followed by a newline.
pub open spec fn canonical_header_block(headers: Seq<Entry>) -> Seq<char> {
    joined(header_lines(ordered_headers(headers)), "\n"@) + "\n"@
}

/// The signed-headers list: the lowercased header names, in order, joined with `;`.
pub open spec fn signed_header_list(headers: Seq<Entry>) -> Seq<char> {
    joined(header_names(ordered_headers(headers)), ";"@)
}

/// The lowercase hexadecimal SHA-256 digest of a payload's UTF-8 bytes.
pub open spec fn payload_hash(payload: Seq<char>) -> Seq<char> {
    lower_hex(sha256_of(encode_utf8(payload)))
}

/// The canonical URI: `/` when none is given.
pub open spec fn canonical_uri(uri: Seq<char>) -> Seq<char> {
    if uri.len() == 0 {
        "/"@
    } else {
        uri
    }
}

/// The canonical request: method, URI, query, header block, signed headers
/// and payload hash, separated by newlines.
pub open spec fn canonical_request(
    method: Seq<char>,
    uri: Seq<char>,
    query: Seq<char>,
    headers: Seq<Entry>,
    payload: Seq<char>,
) -> Seq<char> {
    method + "\n"@ + canonical_uri(uri) + "\n"@ + canonical_query(query) + "\n"@
        + canonical_header_block(headers) + "\n"@ + signed_header_list(headers) + "\n"@
        + payload_hash(payload)
}

/// The credential scope: `{date}/{service}/tc3_request`.
pub open spec fn credential_scope(date: Seq<char>, service: Seq<char>) -> Seq<char> {
    date + "/"@ + service + "/tc3_request"@
}

/// The string to sign: algorithm, epoch seconds, credential scope and the
/// hash of the canonical request, separated by newlines.
pub open spec fn string_to_sign(canonical: Seq<char>, service: Seq<char>, secs: i64) -> Seq<
    char,
> {
    "TC3-HMAC-SHA256"@ + "\n"@ + decimal_text(secs as int) + "\n"@ + credential_scope(
        utc_date_of(secs),
        service,
    ) + "\n"@ + lower_hex(sha256_of(encode_utf8(canonical)))
}

/// The signing key: HMAC-SHA256 keyed by `TC3` and the secret over the date,
/// then keyed by each result over the service and over `tc3_request`.
pub open spec fn signing_key(secret: Seq<char>, date: Seq<char>, service: Seq<char>) -> Seq<u8> {
    let k_date = hmac_sha256_of(encode_utf8("TC3"@ + secret), encode_utf8(date));
    let k_service = hmac_sha256_of(k_date, encode_utf8(service));
    hmac_sha256_of(k_service, encode_utf8("tc3_request"@))
}

/// The signature bytes: HMAC-SHA256 of the string to sign under the signing key.
pub open spec fn signature_bytes(
    secret: Seq<char>,
    date: Seq<char>,
    service: Seq<char>,
    to_sign: Seq<char>,
) -> Seq<u8> {
    hmac_sha256_of(signing_key(secret, date, service), encode_utf8(to_sign))
}

/// The signature as lowercase hexadecimal.
pub open spec fn signature_text(
    secret: Seq<char>,
    date: Seq<char>,
    service: Seq<char>,
    to_sign: Seq<char>,
) -> Seq<char> {
    lower_hex(signature_bytes(secret, date, service, to_sign))
}

/// The signature of a whole request.
pub open spec fn request_signature(
    secret: Seq<char>,
    method: Seq<char>,
    uri: Seq<char>,
    query: Seq<char>,
    headers: Seq<Entry>,
    payload: Seq<char>,
    service: Seq<char>,
    secs: i64,
) -> Seq<char> {
    signature_text(
        secret,
        utc_date_of(secs),
        service,
        string_to_sign(canonical_request(method, uri, query, headers, payload), service, secs),
    )
}

/// The `Authorization` header value.
pub open spec fn authorization(
    id: Seq<char>,
    date: Seq<char>,
    service: Seq<char>,
    signed_headers: Seq<char>,
    signature: Seq<char>,
) -> Seq<char> {
    "TC3-HMAC-SHA256 Credential="@ + id + "/"@ + credential_scope(date, service)
        + ", SignedHeaders="@ + signed_headers + ", Signature="@ + signature
}

/// A request time: seconds since the Unix epoch, and the UTC date of those
/// same seconds, so that every part of a signature uses one date.
pub struct SigningTime {
    secs: i64,
    date: String,
}

impl SigningTime {
    #[verifier::type_invariant]
    spec fn date_matches(self) -> bool {
        self.date@ == utc_date_of(self.secs)
    }

    /// The seconds since the Unix epoch.
    pub closed spec fn spec_secs(self) -> i64 {
        self.secs
    }

    /// The request time at `secs` seconds since the Unix epoch; times before
    /// the epoch or past the year 9999 have none.
    pub fn from_unix_seconds(secs: i64) -> (r: Option<SigningTime>)
        ensures
            r is Some <==> 0 <= secs <= MAX_SIGNING_SECS,
            r matches Some(t) ==> t.spec_secs() == secs,
    {
        if secs < 0 || secs > MAX_SIGNING_SECS {
            return None;
        }
        match utc_civil_date(secs) {
            Some((year, month, day)) => {
                proof {
                    lemma_civil_year_nonnegative(secs as int);
                }
                let date = format_date(year as u64, month as u64, day as u64);
                Some(SigningTime { secs, date })
            },
            None => None,
        }
    }

    /// The seconds since the Unix epoch.
    pub fn unix_seconds(&self) -> (r: i64)
        ensures
            r == self.spec_secs(),
    {
        self.secs
    }

    /// The UTC date, as `YYYYMMDD`.
    pub fn date(&self) -> (r: &str)
        ensures
            r@ == utc_date_of(self.spec_secs()),
    {
        proof {
            use_type_invariant(self);
        }
        self.date.as_str()
    }
}

/// The parameters of the `&`-separated segments of a query.
fn parse_params(segs: &Vec<Vec<u8>>) -> (r: Vec<(String, String)>)
    ensures
        entries_view(r@) == params_of(byte_strings(segs@)),
{
    let mut params: Vec<(String, String)> = Vec::new();
    let mut i: usize = 0;
    assert(byte_strings(segs@).take(0) =~= Seq::<Seq<u8>>::empty());
    while i < segs.len()
        invariant
            0 <= i <= segs@.len(),
            entries_view(params@) == params_of(byte_strings(segs@).take(i as int)),
        decreases segs@.len() - i,
    {
        let ghost pre = byte_strings(segs@).take(i + 1);
        assert(pre.drop_last() =~= byte_strings(segs@).take(i as int));
        assert(pre.last() == segs@[i as int]@);
        let ghost old_params = entries_view(params@);
        let parts = split_bytes(segs[i].as_slice(), EQUALS);
        assert(parts@.len() == byte_strings(parts@).len());
        if parts.len() == 2 {
            let k = encode_form_component(parts[0].as_slice());
            let v = encode_form_component(parts[1].as_slice());
            params.push((k, v));
            assert(entries_view(params@) =~= old_params.push((k@, v@)));
        } else if parts.len() == 1 {
            let k = encode_form_component(parts[0].as_slice());
            params.push((k, String::new()));
            assert(entries_view(params@) =~= old_params.push((k@, Seq::empty())));
        }
        i = i + 1;
    }
    assert(byte_strings(segs@).take(segs@.len() as int) =~= byte_strings(segs@));
    params
}

/// The canonical text of each parameter, in order.
fn render_params(params: &Vec<(String, String)>) -> (r: Vec<String>)
    ensures
        texts(r@) == param_texts(entries_view(params@)),
{
    let mut out: Vec<String> = Vec::new();
    let mut i: usize = 0;
    while i < params.len()
        invariant
            0 <= i <= params@.len(),
            texts(out@) == param_texts(entries_view(params@)).take(
                i as int,
            ),
        decreases params@.len() - i,
    {
        let (k, v) = (&params[i].0, &params[i].1);
        let mut t = k.clone();
        if !v.as_str().is_empty() {
            t.append("=");
            t.append(v.as_str());
        }
        let ghost e = entries_view(params@)[i as int];
        assert(e == (k@, v@));
        assert(t@ == param_text(e));
        let ghost before = texts(out@);
        out.push(t);
        assert(texts(out@) =~= before.push(t@));
        assert(param_texts(entries_view(params@)).take(i + 1) =~= param_texts(
            entries_view(params@),
        ).take(i as int).push(param_text(e)));
        i = i + 1;
    }
    assert(param_texts(entries_view(params@)).take(params@.len() as int)
        =~= param_texts(entries_view(params@)));
    out
}

/// Headers with lowercased names and trimmed values, in their order.
fn normalize_headers(headers: &Vec<(String, String)>) -> (r: Vec<(String, String)>)
    ensures
        entries_view(r@) == normalized_headers(entries_view(headers@)),
{
    let mut out: Vec<(String, String)> = Vec::new();
    let mut i: usize = 0;
    while i < headers.len()
        invariant
            0 <= i <= headers@.len(),
            entries_view(out@) == normalized_headers(entries_view(headers@)).take(i as int),
        decreases headers@.len() - i,
    {
        let name = to_lowercase(headers[i].0.as_str());
        let value = String::from_str(trim(headers[i].1.as_str()));
        let ghost before = entries_view(out@);
        out.push((name, value));
        assert(entries_view(out@) =~= before.push((name@, value@)));
        assert(normalized_headers(entries_view(headers@)).take(i + 1) =~= normalized_headers(
            entries_view(headers@),
        ).take(i as int).push((name@, value@)));
        i = i + 1;
    }
    assert(normalized_headers(entries_view(headers@)).take(headers@.len() as int)
        =~= normalized_headers(entries_view(headers@)));
    out
}

/// The `name:value` line of each header, in order.
fn render_header_lines(headers: &Vec<(String, String)>) -> (r: Vec<String>)
    ensures
        texts(r@) == header_lines(entries_view(headers@)),
{
    let mut out: Vec<String> = Vec::new();
    let mut i: usize = 0;
    while i < headers.len()
        invariant
            0 <= i <= headers@.len(),
            texts(out@) == header_lines(entries_view(headers@)).take(i as int),
        decreases headers@.len() - i,
    {
        let mut line = headers[i].0.clone();
        line.append(":");
        line.append(headers[i].1.as_str());
        let ghost e = entries_view(headers@)[i as int];
        assert(line@ == header_line(e));
        let ghost before = texts(out@);
        out.push(line);
        assert(texts(out@) =~= before.push(header_line(e)));
        assert(header_lines(entries_view(headers@)).take(i + 1) =~= header_lines(
            entries_view(headers@),
        ).take(i as int).push(header_line(e)));
        i = i + 1;
    }
    assert(header_lines(entries_view(headers@)).take(headers@.len() as int) =~= header_lines(
        entries_view(headers@),
    ));
    out
}

/// The name of each header, in order.
fn header_name_list(headers: &Vec<(String, String)>) -> (r: Vec<String>)
    ensures
        texts(r@) == header_names(entries_view(headers@)),
{
    let mut out: Vec<String> = Vec::new();
    let mut i: usize = 0;
    while i < headers.len()
        invariant
            0 <= i <= headers@.len(),
            texts(out@) == header_names(entries_view(headers@)).take(i as int),
        decreases headers@.len() - i,
    {
        let name = headers[i].0.clone();
        let ghost e = entries_view(headers@)[i as int];
        let ghost before = texts(out@);
        out.push(name);
        assert(texts(out@) =~= before.push(e.0));
        assert(header_names(entries_view(headers@)).take(i + 1) =~= header_names(
            entries_view(headers@),
        ).take(i as int).push(e.0));
        i = i + 1;
    }
    assert(header_names(entries_view(headers@)).take(headers@.len() as int) =~= header_names(
        entries_view(headers@),
    ));
    out
}

/// Whether `c` is a lowercase hexadecimal digit.
pub open spec fn is_lower_hex_char(c: char) -> bool {
    ('0' <= c <= '9') || ('a' <= c <= 'f')
}

/// Lowercase hexadecimal text has two digits per byte.
pub proof fn lemma_lower_hex_shape(bytes: Seq<u8>)
    ensures
        lower_hex(bytes).len() == 2 * bytes.len(),
        forall|i: int| 0 <= i < lower_hex(bytes).len() ==> is_lower_hex_char(
            #[trigger] lower_hex(bytes)[i],
        ),
    decreases bytes.len(),
{
    if bytes.len() > 0 {
        lemma_lower_hex_shape(bytes.drop_last());
        let b = bytes.last();
        assert(is_lower_hex_char(crate::encoding::lower_hex_digit(b as int / 16)));
        assert(is_lower_hex_char(crate::encoding::lower_hex_digit(b as int % 16)));
    }
}

/// HMAC-SHA256 of `msg` under `key`; a key the primitive refuses is a
/// signature error.
fn keyed_hash(key: &[u8], msg: &[u8]) -> (r: Result<Vec<u8>, TencentCloudError>)
    ensures
        r matches Ok(tag) && tag@ == hmac_sha256_of(key@, msg@) && tag@.len() == 32,
{
    match hmac_sha256(key, msg) {
        Ok(tag) => Ok(tag),
        Err(_) => Err(TencentCloudError::signature("Failed to create HMAC")),
    }
}

/// Signs requests with one set of credentials.
pub struct Signer {
    secret_id: String,
    secret_key: String,
    token: Option<String>,
}

impl Signer {
    /// The secret ID.
    pub closed spec fn spec_secret_id(&self) -> Seq<char> {
        self.secret_id@
    }

    /// The secret key.
    pub closed spec fn spec_secret_key(&self) -> Seq<char> {
        self.secret_key@
    }

    /// The session token, if any.
    pub closed spec fn spec_token(&self) -> Option<Seq<char>> {
        match self.token {
            Some(t) => Some(t@),
            None => None,
        }
    }

    /// A signer holding the given credentials.
    pub fn new(secret_id: &str, secret_key: &str, token: Option<&str>) -> (r: Self)
        ensures
            r.spec_secret_id() == secret_id@,
            r.spec_secret_key() == secret_key@,
            r.spec_token() == (match token {
                Some(t) => Some(t@),
                None => None::<Seq<char>>,
            }),
    {
        let token = match token {
            Some(t) => Some(String::from_str(t)),
            None => None,
        };
        Signer { secret_id: String::from_str(secret_id), secret_key: String::from_str(secret_key), token }
    }

    /// The signature of a request, as lowercase hexadecimal.
    pub fn sign_request(
        &self,
        http_method: &str,
        uri: &str,
        query_string: &str,
        headers: &Vec<(String, String)>,
        payload: &str,
        service: &str,
        region: &str,
        timestamp: &SigningTime,
    ) -> (r: Result<String, TencentCloudError>)
        ensures
            r matches Ok(s) && s@ == request_signature(
                self.spec_secret_key(),
                http_method@,
                uri@,
                query_string@,
                entries_view(headers@),
                payload@,
                service@,
                timestamp.spec_secs(),
            ) && s@.len() == 64 && forall|i: int|
                0 <= i < s@.len() ==> is_lower_hex_char(#[trigger] s@[i]),
    {
        let canonical = self.create_canonical_request(http_method, uri, query_string, headers, payload)?;
        let to_sign = self.create_string_to_sign(canonical.as_str(), service, region, timestamp)?;
        self.calculate_signature(to_sign.as_str(), service, region, timestamp)
    }

    /// The canonical request of a request.
    pub fn create_canonical_request(
        &self,
        http_method: &str,
        uri: &str,
        query_string: &str,
        headers: &Vec<(String, String)>,
        payload: &str,
    ) -> (r: Result<String, TencentCloudError>)
        ensures
            r matches Ok(s) && s@ == canonical_request(
                http_method@,
                uri@,
                query_string@,
                entries_view(headers@),
                payload@,
            ),
    {
        let canonical_query = self.create_canonical_query_string(query_string)?;
        let (block, names) = self.create_canonical_headers(headers)?;
        let mut s = String::from_str(http_method);
        s.append("\n");
        if uri.is_empty() {
            s.append("/");
        } else {
            s.append(uri);
        }
        s.append("\n");
        s.append(canonical_query.as_str());
        s.append("\n");
        s.append(block.as_str());
        s.append("\n");
        s.append(names.as_str());
        s.append("\n");
        s.append(self.hash_payload(payload).as_str());
        Ok(s)
    }

    /// The canonical form of a query string.
    pub fn create_canonical_query_string(&self, query_string: &str) -> (r: Result<
        String,
        TencentCloudError,
    >)
        ensures
            r matches Ok(s) && s@ == canonical_query(query_string@),
    {
        let segs = split_bytes(query_string.as_bytes(), AMPERSAND);
        let params = parse_params(&segs);
        let sorted = sort_entries(&params);
        let rendered = render_params(&sorted);
        Ok(join_texts(&rendered, "&"))
    }

    /// The canonical header block and the signed-headers list.
    pub fn create_canonical_headers(&self, headers: &Vec<(String, String)>) -> (r: Result<
        (String, String),
        TencentCloudError,
    >)
        ensures
            r matches Ok(p) && p.0@ == canonical_header_block(entries_view(headers@)) && p.1@
                == signed_header_list(entries_view(headers@)),
    {
        let sorted = sort_entries(&normalize_headers(headers));
        let mut block = join_texts(&render_header_lines(&sorted), "\n");
        block.append("\n");
        let names = join_texts(&header_name_list(&sorted), ";");
        Ok((block, names))
    }

    /// The lowercase hexadecimal SHA-256 digest of a payload: 64 digits.
    pub fn hash_payload(&self, payload: &str) -> (r: String)
        ensures
            r@ == payload_hash(payload@),
            r@.len() == 64,
            forall|i: int| 0 <= i < r@.len() ==> is_lower_hex_char(#[trigger] r@[i]),
    {
        let digest = sha256_digest(payload.as_bytes());
        let r = encode_lower_hex(digest.as_slice());
        proof {
            lemma_lower_hex_shape(digest@);
        }
        r
    }

    /// The string to sign for a canonical request.
    pub fn create_string_to_sign(
        &self,
        canonical_request: &str,
        service: &str,
        _region: &str,
        timestamp: &SigningTime,
    ) -> (r: Result<String, TencentCloudError>)
        ensures
            r matches Ok(s) && s@ == string_to_sign(
                canonical_request@,
                service@,
                timestamp.spec_secs(),
            ),
    {
        let mut s = String::from_str("TC3-HMAC-SHA256");
        s.append("\n");
        s.append(format_decimal(timestamp.unix_seconds()).as_str());
        s.append("\n");
        s.append(timestamp.date());
        s.append("/");
        s.append(service);
        s.append("/tc3_request");
        s.append("\n");
        let digest = sha256_digest(canonical_request.as_bytes());
        s.append(encode_lower_hex(digest.as_slice()).as_str());
        Ok(s)
    }

    /// The signature of a string to sign, under the key chain of this
    /// signer's secret, the request date and the service.
    pub fn calculate_signature(
        &self,
        string_to_sign: &str,
        service: &str,
        _region: &str,
        timestamp: &SigningTime,
    ) -> (r: Result<String, TencentCloudError>)
        ensures
            r matches Ok(s) && s@ == signature_text(
                self.spec_secret_key(),
                utc_date_of(timestamp.spec_secs()),
                service@,
                string_to_sign@,
            ) && s@.len() == 64 && forall|i: int|
                0 <= i < s@.len() ==> is_lower_hex_char(#[trigger] s@[i]),
    {
        let mut key = String::from_str("TC3");
        key.append(self.secret_key.as_str());
        let k_date = keyed_hash(key.as_str().as_bytes(), timestamp.date().as_bytes())?;
        let k_service = keyed_hash(k_date.as_slice(), service.as_bytes())?;
        let k_signing = keyed_hash(k_service.as_slice(), "tc3_request".as_bytes())?;
        let tag = keyed_hash(k_signing.as_slice(), string_to_sign.as_bytes())?;
        proof {
            lemma_lower_hex_shape(tag@);
        }
        Ok(encode_lower_hex(tag.as_slice()))
    }

    /// The `Authorization` header value for a signature.
    pub fn create_authorization_header(
        &self,
        signature: &str,
        service: &str,
        _region: &str,
        timestamp: &SigningTime,
        signed_headers: &str,
    ) -> (r: String)
        ensures
            r@ == authorization(
                self.spec_secret_id(),
                utc_date_of(timestamp.spec_secs()),
                service@,
                signed_headers@,
                signature@,
            ),
    {
        let mut s = String::from_str("TC3-HMAC-SHA256 Credential=");
        s.append(self.secret_id.as_str());
        s.append("/");
        s.append(timestamp.date());
        s.append("/");
        s.append(service);
        s.append("/tc3_request");
        s.append(", SignedHeaders=");
        s.append(signed_headers);
        s.append(", Signature=");
        s.append(signature);
        s
    }

    /// The signed-headers list of `headers`.
    pub fn get_signed_headers(headers: &Vec<(String, String)>) -> (r: String)
        ensures
            r@ == signed_header_list(entries_view(headers@)),
    {
        let sorted = sort_entries(&normalize_headers(headers));
        join_texts(&header_name_list(&sorted), ";")
    }

    /// Encodes `s` as one `application/x-www-form-urlencoded` component.
    pub fn url_encode(s: &str) -> (r: String)
        ensures
            r@ == form_encoded(encode_utf8(s@)),
    {
        encode_form_component(s.as_bytes())
    }
}

/// Header canonicalization does not depend on the order in which headers
/// are listed: two lists holding the same name/value pairs give the same
/// header block and the same signed-headers list.
pub proof fn lemma_canonical_headers_order_free(a: Seq<Entry>, b: Seq<Entry>)
    requires
        a.to_multiset() == b.to_multiset(),
    ensures
        canonical_header_block(a) == canonical_header_block(b),
        signed_header_list(a) == signed_header_list(b),
{
    let f = |e: Entry| (lowercase_of(e.0), trimmed(e.1));
    lemma_map_keeps_multiset(a, b, f);
    assert(normalized_headers(a) =~= a.map_values(f));
    assert(normalized_headers(b) =~= b.map_values(f));
    lemma_sorted_entries_order_free(normalized_headers(a), normalized_headers(b));
}

/// Signing is deterministic: the signature is fixed by the method, URI,
/// query, headers, payload, secret, service and time, and two header lists
/// holding the same pairs in any order give the same signature.
pub proof fn lemma_signature_deterministic(
    secret: Seq<char>,
    method: Seq<char>,
    uri: Seq<char>,
    query: Seq<char>,
    headers: Seq<Entry>,
    reordered: Seq<Entry>,
    payload: Seq<char>,
    service: Seq<char>,
    secs: i64,
)
    requires
        headers.to_multiset() == reordered.to_multiset(),
    ensures
        request_signature(secret, method, uri, query, headers, payload, service, secs)
            == request_signature(secret, method, uri, query, reordered, payload, service, secs),
{
    lemma_canonical_headers_order_free(headers, reordered);
}

proof fn lemma_lower_hex_digit_injective(x: int, y: int)
    requires
        0 <= x < 16,
        0 <= y < 16,
        crate::encoding::lower_hex_digit(x) == crate::encoding::lower_hex_digit(y),
    ensures
        x == y,
{
    let cx = crate::encoding::lower_hex_digit(x);
    let cy = crate::encoding::lower_hex_digit(y);
    assert((cx as u32) == (cy as u32));
}

/// Distinct texts of bytes in lowercase hexadecimal are distinct.
pub proof fn lemma_lower_hex_injective(a: Seq<u8>, b: Seq<u8>)
    requires
        lower_hex(a) == lower_hex(b),
    ensures
        a == b,
    decreases a.len(),
{
    lemma_lower_hex_shape(a);
    lemma_lower_hex_shape(b);
    if a.len() > 0 {
        let (x, y) = (a.last(), b.last());
        let ha = lower_hex(a.drop_last());
        let hb = lower_hex(b.drop_last());
        lemma_lower_hex_shape(a.drop_last());
        lemma_lower_hex_shape(b.drop_last());
        let n = ha.len() as int;
        assert(lower_hex(a)[n] == crate::encoding::lower_hex_digit(x as int / 16));
        assert(lower_hex(b)[n] == crate::encoding::lower_hex_digit(y as int / 16));
        assert(lower_hex(a)[n + 1] == crate::encoding::lower_hex_digit(x as int % 16));
        assert(lower_hex(b)[n + 1] == crate::encoding::lower_hex_digit(y as int % 16));
        lemma_lower_hex_digit_injective(x as int / 16, y as int / 16);
        lemma_lower_hex_digit_injective(x as int % 16, y as int % 16);
        assert(x == y);
        assert(ha =~= lower_hex(a).subrange(0, n));
        assert(hb =~= lower_hex(b).subrange(0, n));
        lemma_lower_hex_injective(a.drop_last(), b.drop_last());
        assert(a =~= a.drop_last().push(x));
        assert(b =~= b.drop_last().push(y));
    } else {
        assert(b.len() == 0);
        assert(a =~= b);
    }
}

/// Two distinct key/message pairs that get the same HMAC-SHA256 tag.
pub open spec fn hmac_collision(k1: Seq<u8>, m1: Seq<u8>, k2: Seq<u8>, m2: Seq<u8>) -> bool {
    (k1 != k2 || m1 != m2) && hmac_sha256_of(k1, m1) == hmac_sha256_of(k2, m2)
}

/// The key chain passes every intermediate key on whole: a change of the
/// secret, the date, the service or the string to sign changes the
/// signature, unless HMAC-SHA256 itself collides. Equal signatures of
/// different inputs give two distinct HMAC inputs with one tag.
pub proof fn lemma_signature_sensitivity(
    secret: Seq<char>,
    date: Seq<char>,
    service: Seq<char>,
    to_sign: Seq<char>,
    secret2: Seq<char>,
    date2: Seq<char>,
    service2: Seq<char>,
    to_sign2: Seq<char>,
)
    requires
        secret != secret2 || date != date2 || service != service2 || to_sign != to_sign2,
        signature_text(secret, date, service, to_sign) == signature_text(
            secret2,
            date2,
            service2,
            to_sign2,
        ),
    ensures
        exists|k1: Seq<u8>, m1: Seq<u8>, k2: Seq<u8>, m2: Seq<u8>| hmac_collision(k1, m1, k2, m2),
{
    lemma_lower_hex_injective(
        signature_bytes(secret, date, service, to_sign),
        signature_bytes(secret2, date2, service2, to_sign2),
    );
    let k0 = encode_utf8("TC3"@ + secret);
    let k0b = encode_utf8("TC3"@ + secret2);
    let k1 = hmac_sha256_of(k0, encode_utf8(date));
    let k1b = hmac_sha256_of(k0b, encode_utf8(date2));
    let k2 = hmac_sha256_of(k1, encode_utf8(service));
    let k2b = hmac_sha256_of(k1b, encode_utf8(service2));
    let tc3 = encode_utf8("tc3_request"@);
    let k3 = hmac_sha256_of(k2, tc3);
    let k3b = hmac_sha256_of(k2b, tc3);
    if k3 != k3b || encode_utf8(to_sign) != encode_utf8(to_sign2) {
        assert(hmac_collision(k3, encode_utf8(to_sign), k3b, encode_utf8(to_sign2)));
    } else if k2 != k2b {
        assert(hmac_collision(k2, tc3, k2b, tc3));
    } else if k1 != k1b || encode_utf8(service) != encode_utf8(service2) {
        assert(hmac_collision(k1, encode_utf8(service), k1b, encode_utf8(service2)));
    } else if k0 != k0b || encode_utf8(date) != encode_utf8(date2) {
        assert(hmac_collision(k0, encode_utf8(date), k0b, encode_utf8(date2)));
    } else {
        crate::text::lemma_utf8_injective(to_sign, to_sign2);
        crate::text::lemma_utf8_injective(service, service2);
        crate::text::lemma_utf8_injective(date, date2);
        crate::text::lemma_utf8_injective("TC3"@ + secret, "TC3"@ + secret2);
        assert(secret =~= ("TC3"@ + secret).skip("TC3"@.len() as int));
        assert(secret2 =~= ("TC3"@ + secret2).skip("TC3"@.len() as int));
        assert(false);
    }
}

} // verus!
