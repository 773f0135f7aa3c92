//! Request signing: the canonical signing string, its RSA-SHA256 signature
//! and the headers that carry it.

use crate::models::profile::{OciProfile, ProfileView};
use crate::text::{decimal, decimal_string};
use base64::Engine;
use rsa::pkcs1::DecodeRsaPrivateKey;
use rsa::pkcs8::DecodePrivateKey;
use rsa::signature::{SignatureEncoding, Signer};
use sha2::Digest;
use vstd::prelude::*;
use vstd::string::*;
use vstd::utf8::encode_utf8;

verus! {

/// An RSA private key as the `rsa` crate holds it. Nothing of its inside is
/// known here: a key is carried from the decoder to the signer.
#[verifier::external_type_specification]
#[verifier::external_body]
pub struct ExRsaPrivateKey(rsa::RsaPrivateKey);

/// The key that `RsaPrivateKey::from_pkcs8_pem` reads from a PEM text, or
/// `None` where it fails.
pub uninterp spec fn pkcs8_pem_key(pem: Seq<char>) -> Option<rsa::RsaPrivateKey>;

/// The key that `RsaPrivateKey::from_pkcs1_pem` reads from a PEM text, or
/// `None` where it fails.
pub uninterp spec fn pkcs1_pem_key(pem: Seq<char>) -> Option<rsa::RsaPrivateKey>;

/// The PKCS#1 v1.5 signature of a message's SHA-256 digest under a key, as
/// `rsa::pkcs1v15::SigningKey::<Sha256>::try_sign` gives it, or `None` where
/// it fails.
pub uninterp spec fn pkcs1v15_sha256_signature(key: rsa::RsaPrivateKey, message: Seq<u8>) -> Option<
    Seq<u8>,
>;

/// The SHA-256 digest of a sequence of bytes.
pub uninterp spec fn sha256(data: Seq<u8>) -> Seq<u8>;

/// The Base64 text of a sequence of bytes, in the standard alphabet with
/// padding.
pub uninterp spec fn base64_standard(data: Seq<u8>) -> Seq<char>;

/// Reads a PKCS#8 private key from PEM text.
///
/// Calls `RsaPrivateKey::from_pkcs8_pem`, which parses the text and nothing
/// else: the same text gives the same key or the same failure.
#[verifier::external_body]
fn decode_pkcs8_pem(pem: &str) -> (key: Option<rsa::RsaPrivateKey>)
    ensures
        key == pkcs8_pem_key(pem@),
{
    match rsa::RsaPrivateKey::from_pkcs8_pem(pem) {
        Ok(key) => Some(key),
        Err(_) => None,
    }
}

/// Reads a PKCS#1 private key from PEM text.
///
/// Calls `RsaPrivateKey::from_pkcs1_pem`, which parses the text and nothing
/// else: the same text gives the same key or the same failure.
#[verifier::external_body]
fn decode_pkcs1_pem(pem: &str) -> (key: Option<rsa::RsaPrivateKey>)
    ensures
        key == pkcs1_pem_key(pem@),
{
    match rsa::RsaPrivateKey::from_pkcs1_pem(pem) {
        Ok(key) => Some(key),
        Err(_) => None,
    }
}

/// Signs `message` with RSA PKCS#1 v1.5 over SHA-256.
///
/// Calls `rsa::pkcs1v15::SigningKey::<Sha256>::new` and `try_sign`. This
/// signer draws no random number, so the signature depends on the key and
/// the message alone.
#[verifier::external_body]
fn rsa_sha256_sign(key: rsa::RsaPrivateKey, message: &[u8]) -> (signature: Option<Vec<u8>>)
    ensures
        match signature {
            Some(bytes) => pkcs1v15_sha256_signature(key, message@) == Some(bytes@),
            None => pkcs1v15_sha256_signature(key, message@) is None,
        },
{
    match rsa::pkcs1v15::SigningKey::<sha2::Sha256>::new(key).try_sign(message) {
        Ok(signature) => Some(signature.to_vec()),
        Err(_) => None,
    }
}

/// The SHA-256 digest of `data`.
///
/// Calls `Sha256::new`, `update` and `finalize` of the `sha2` crate.
#[verifier::external_body]
fn sha256_digest(data: &[u8]) -> (digest: Vec<u8>)
    ensures
        digest@ == sha256(data@),
{
    let mut hasher = sha2::Sha256::new();
    hasher.update(data);
    hasher.finalize().to_vec()
}

/// The Base64 text of `data`.
///
/// Calls `encode` of `base64`'s `STANDARD` engine. It panics only where the
/// length of the text does not fit in `usize`, which needs more input than a
/// slice can hold.
#[verifier::external_body]
fn base64_encode(data: &[u8]) -> (encoded: String)
    ensures
        encoded@ == base64_standard(data@),
{
    base64::engine::general_purpose::STANDARD.encode(data)
}

/// The time now, in UTC, written in `format`.
///
/// Calls `chrono::Utc::now` and `format`. Nothing is claimed of the text: it
/// depends on the clock. `chrono` fails on a format that it cannot read, so
/// only the format of HTTP dates is let in, which is made of specifiers that
/// `chrono` documents. `Utc::now` itself panics where the system's clock
/// stands before 1970.
#[verifier::external_body]
fn utc_now_formatted(format: &str) -> (text: String)
    requires
        format@ == http_date_format(),
{
    chrono::Utc::now().format(format).to_string()
}

/// The format of an HTTP date: `Wkd, DD Mon YYYY HH:MM:SS GMT`.
pub open spec fn http_date_format() -> Seq<char> {
    "%a, %d %b %Y %H:%M:%S GMT"@
}

/// The method of a request.
#[derive(Debug, Clone, Copy, PartialEq, Eq)]
pub enum Method {
    Get,
    Post,
    Put,
    Delete,
    Head,
    Options,
    Patch,
    Connect,
    Trace,
}

/// One call to be signed.
#[derive(Debug, PartialEq, Eq)]
pub struct SigningRequest {
    /// The method.
    pub method: Method,
    /// The path, with the query string where there is one.
    pub path: String,
    /// The host that is called.
    pub host: String,
    /// The body, for a method that carries one.
    pub body: Option<String>,
}

/// What a signing request holds, as sequences of characters.
pub struct RequestView {
    pub method: Method,
    pub path: Seq<char>,
    pub host: Seq<char>,
    pub body: Option<Seq<char>>,
}

impl View for SigningRequest {
    type V = RequestView;

    open spec fn view(&self) -> RequestView {
        RequestView {
            method: self.method,
            path: self.path@,
            host: self.host@,
            body: match self.body {
                Some(b) => Some(b@),
                None => None,
            },
        }
    }
}

/// Why a request could not be signed.
#[derive(Debug, Clone, Copy, PartialEq, Eq)]
pub enum SignError {
    /// The key text is a private key in neither of the two PEM containers.
    KeyParse,
    /// The signature could not be computed.
    Sign,
}

/// The containers in which a private key can come.
#[derive(Debug, Clone, Copy, PartialEq, Eq)]
pub enum KeyFormat {
    Pkcs8,
    Pkcs1,
}

/// A header or a signed component: its name and its value.
pub type Pair = (Seq<char>, Seq<char>);

/// The views of a list of pairs of strings, in order.
pub open spec fn pair_views(pairs: Seq<(String, String)>) -> Seq<Pair> {
    Seq::new(pairs.len(), |i: int| (pairs[i].0@, pairs[i].1@))
}

/// The key that `format` reads from `pem`.
pub open spec fn decoded(format: KeyFormat, pem: Seq<char>) -> Option<rsa::RsaPrivateKey> {
    match format {
        KeyFormat::Pkcs8 => pkcs8_pem_key(pem),
        KeyFormat::Pkcs1 => pkcs1_pem_key(pem),
    }
}

/// The containers that are tried, in this order.
pub open spec fn key_formats() -> Seq<KeyFormat> {
    seq![KeyFormat::Pkcs8, KeyFormat::Pkcs1]
}

/// The key of the first of `formats` that reads `pem`.
pub open spec fn first_decoded(formats: Seq<KeyFormat>, pem: Seq<char>) -> Option<
    rsa::RsaPrivateKey,
>
    decreases formats.len(),
{
    if formats.len() == 0 {
        None
    } else {
        match decoded(formats[0], pem) {
            Some(key) => Some(key),
            None => first_decoded(formats.drop_first(), pem),
        }
    }
}

/// The private key that a PEM text holds: PKCS#8 is tried first, PKCS#1
/// second.
pub open spec fn loaded_key(pem: Seq<char>) -> Option<rsa::RsaPrivateKey> {
    first_decoded(key_formats(), pem)
}

/// The method as the request target names it: in lower case.
pub open spec fn method_token(method: Method) -> Seq<char> {
    match method {
        Method::Get => "get"@,
        Method::Post => "post"@,
        Method::Put => "put"@,
        Method::Delete => "delete"@,
        Method::Head => "head"@,
        Method::Options => "options"@,
        Method::Patch => "patch"@,
        Method::Connect => "connect"@,
        Method::Trace => "trace"@,
    }
}

/// Whether the body of a request with this method is signed.
pub open spec fn carries_body(method: Method) -> bool {
    method == Method::Post || method == Method::Put
}

/// The bytes of the body that is signed: empty where the request has none.
pub open spec fn body_bytes(body: Option<Seq<char>>) -> Seq<u8> {
    encode_utf8(
        match body {
            Some(b) => b,
            None => ""@,
        },
    )
}

/// The length of the signed body in bytes, as a decimal number.
pub open spec fn content_length(body: Option<Seq<char>>) -> Pair {
    ("content-length"@, decimal(body_bytes(body).len()))
}

/// The type of a signed body: always JSON.
pub open spec fn content_type() -> Pair {
    ("content-type"@, "application/json"@)
}

/// The Base64 text of the SHA-256 digest of the signed body.
pub open spec fn content_digest(body: Option<Seq<char>>) -> Pair {
    ("x-content-sha256"@, base64_standard(sha256(body_bytes(body))))
}

/// The value of the component `(request-target)`.
pub open spec fn request_target(request: RequestView) -> Seq<char> {
    method_token(request.method) + " "@ + request.path
}

/// The components that are signed, in their order: the date, the request
/// target and the host, and for a request that carries a body its length,
/// its type and its digest.
pub open spec fn signed_components(request: RequestView, date: Seq<char>) -> Seq<Pair> {
    let head = seq![
        ("date"@, date),
        ("(request-target)"@, request_target(request)),
        ("host"@, request.host),
    ];
    if carries_body(request.method) {
        head + seq![
            content_length(request.body),
            content_type(),
            content_digest(request.body),
        ]
    } else {
        head
    }
}

/// The line of one component: its name, a colon, a space and its value.
pub open spec fn component_line(component: Pair) -> Seq<char> {
    component.0 + ": "@ + component.1
}

/// The lines of `components`, with a line feed between two of them and none
/// at the end.
pub open spec fn signing_text(components: Seq<Pair>) -> Seq<char>
    decreases components.len(),
{
    if components.len() == 0 {
        Seq::empty()
    } else if components.len() == 1 {
        component_line(components[0])
    } else {
        signing_text(components.drop_last()) + "\n"@ + component_line(components.last())
    }
}

/// The names of `components`, with a space between two of them.
pub open spec fn component_names(components: Seq<Pair>) -> Seq<char>
    decreases components.len(),
{
    if components.len() == 0 {
        Seq::empty()
    } else if components.len() == 1 {
        components[0].0
    } else {
        component_names(components.drop_last()) + " "@ + components.last().0
    }
}

/// The identifier of the key: tenancy, user and fingerprint, with slashes
/// between them.
pub open spec fn key_id(profile: ProfileView) -> Seq<char> {
    profile.tenancy + "/"@ + profile.user + "/"@ + profile.fingerprint
}

/// The value of the `Authorization` header.
pub open spec fn authorization(names: Seq<char>, key_id: Seq<char>, signature: Seq<char>) -> Seq<
    char,
> {
    "Signature version=\"1\",headers=\""@ + names + "\",keyId=\""@ + key_id
        + "\",algorithm=\"rsa-sha256\",signature=\""@ + signature + "\""@
}

/// The headers of a signed request: the date, the host and the
/// authorization, and for a request that carries a body its type, its
/// length and its digest.
pub open spec fn header_set(request: RequestView, date: Seq<char>, authorization: Seq<char>) -> Seq<
    Pair,
> {
    let head = seq![("date"@, date), ("host"@, request.host), ("Authorization"@, authorization)];
    if carries_body(request.method) {
        head + seq![
            content_type(),
            content_length(request.body),
            content_digest(request.body),
        ]
    } else {
        head
    }
}

/// The headers of `request`, signed at `date` with `key` for `profile`, or
/// the failure of the signature.
pub open spec fn signed_headers(
    profile: ProfileView,
    request: RequestView,
    date: Seq<char>,
    key: rsa::RsaPrivateKey,
) -> Result<Seq<Pair>, SignError> {
    let components = signed_components(request, date);
    match pkcs1v15_sha256_signature(key, encode_utf8(signing_text(components))) {
        Some(signature) => Ok(
            header_set(
                request,
                date,
                authorization(
                    component_names(components),
                    key_id(profile),
                    base64_standard(signature),
                ),
            ),
        ),
        None => Err(SignError::Sign),
    }
}

/// The canonical signing string of a GET request is its date, its request
/// target and its host on three lines, whatever the body: it depends on the
/// date, the path and the host alone.
pub proof fn lemma_get_signing_text(request: RequestView, date: Seq<char>)
    requires
        request.method == Method::Get,
    ensures
        signing_text(signed_components(request, date)) == "date: "@ + date
            + "\n(request-target): get "@ + request.path + "\nhost: "@ + request.host,
{
    reveal_strlit("date");
    reveal_strlit(": ");
    reveal_strlit("\n");
    reveal_strlit("(request-target)");
    reveal_strlit("get");
    reveal_strlit(" ");
    reveal_strlit("host");
    reveal_strlit("date: ");
    reveal_strlit("\n(request-target): get ");
    reveal_strlit("\nhost: ");
    let components = signed_components(request, date);
    let two = components.drop_last();
    let one = two.drop_last();
    assert(one.len() == 1);
    assert(two.len() == 2);
    assert(signing_text(one) == component_line(components[0]));
    assert(signing_text(two) == signing_text(one) + "\n"@ + component_line(components[1]));
    assert(signing_text(components) == signing_text(two) + "\n"@ + component_line(components[2]));
    assert("date"@ + ": "@ =~= "date: "@);
    assert("\n"@ + "(request-target)"@ + ": "@ + "get"@ + " "@ =~= "\n(request-target): get "@);
    assert("\n"@ + "host"@ + ": "@ =~= "\nhost: "@);
    assert(signing_text(components) =~= ("date"@ + ": "@) + date + ("\n"@ + "(request-target)"@
        + ": "@ + "get"@ + " "@) + request.path + ("\n"@ + "host"@ + ": "@) + request.host);
}

impl SignError {
    /// What to tell the user.
    pub fn message(&self) -> (text: String)
        ensures
            text@ == match *self {
                SignError::KeyParse => "秘密鍵の解析に失敗しました。PKCS#1 または PKCS#8 形式の PEM ファイルを指定してください。"@,
                SignError::Sign => "署名の生成に失敗しました"@,
            },
    {
        match self {
            SignError::KeyParse => String::from_str(
                "秘密鍵の解析に失敗しました。PKCS#1 または PKCS#8 形式の PEM ファイルを指定してください。",
            ),
            SignError::Sign => String::from_str("署名の生成に失敗しました"),
        }
    }
}

impl Method {
    /// The method's name in lower case.
    pub fn token(&self) -> (text: &'static str)
        ensures
            text@ == method_token(*self),
    {
        match self {
            Method::Get => "get",
            Method::Post => "post",
            Method::Put => "put",
            Method::Delete => "delete",
            Method::Head => "head",
            Method::Options => "options",
            Method::Patch => "patch",
            Method::Connect => "connect",
            Method::Trace => "trace",
        }
    }

    /// Whether the body of a request with this method is signed.
    pub fn carries_body(&self) -> (b: bool)
        ensures
            b == carries_body(*self),
    {
        match self {
            Method::Post => true,
            Method::Put => true,
            _ => false,
        }
    }
}

/// The key that `format` reads from `pem`.
pub fn decode_key(format: KeyFormat, pem: &str) -> (key: Option<rsa::RsaPrivateKey>)
    ensures
        key == decoded(format, pem@),
{
    match format {
        KeyFormat::Pkcs8 => decode_pkcs8_pem(pem),
        KeyFormat::Pkcs1 => decode_pkcs1_pem(pem),
    }
}

/// The private key that the PEM text `pem` holds. It fails only where the
/// text is a key in neither container.
pub fn load_private_key(pem: &str) -> (out: Result<rsa::RsaPrivateKey, SignError>)
    ensures
        match loaded_key(pem@) {
            Some(key) => out == Ok::<rsa::RsaPrivateKey, SignError>(key),
            None => out == Err::<rsa::RsaPrivateKey, SignError>(SignError::KeyParse),
        },
{
    let formats: Vec<KeyFormat> = vec![KeyFormat::Pkcs8, KeyFormat::Pkcs1];
    proof {
        assert(formats@ =~= key_formats());
        assert(formats@.subrange(0, formats@.len() as int) =~= formats@);
    }
    let mut i: usize = 0;
    while i < formats.len()
        invariant
            i <= formats@.len(),
            first_decoded(formats@.subrange(i as int, formats@.len() as int), pem@) == loaded_key(
                pem@,
            ),
        decreases formats@.len() - i,
    {
        proof {
            assert(formats@.subrange(i as int, formats@.len() as int).drop_first()
                =~= formats@.subrange(i + 1, formats@.len() as int));
        }
        if let Some(key) = decode_key(formats[i], pem) {
            return Ok(key);
        }
        i += 1;
    }
    Err(SignError::KeyParse)
}

/// The body that is signed: empty where the request has none.
fn body_of(request: &SigningRequest) -> (body: &str)
    ensures
        body.spec_bytes() == body_bytes(request@.body),
{
    match &request.body {
        Some(b) => b.as_str(),
        None => "",
    }
}

fn pair(name: &str, value: String) -> (out: (String, String))
    ensures
        out.0@ == name@,
        out.1@ == value@,
{
    (String::from_str(name), value)
}

/// The components of `request` that are signed at `date`.
pub fn signing_components(request: &SigningRequest, date: &str) -> (out: Vec<(String, String)>)
    ensures
        pair_views(out@) == signed_components(request@, date@),
{
    let mut target = String::from_str(request.method.token());
    target.append(" ");
    target.append(request.path.as_str());
    let mut out: Vec<(String, String)> = Vec::new();
    out.push(pair("date", String::from_str(date)));
    out.push(pair("(request-target)", target));
    out.push(pair("host", request.host.clone()));
    if request.method.carries_body() {
        let bytes = body_of(request).as_bytes();
        let digest = sha256_digest(bytes);
        out.push(pair("content-length", decimal_string(bytes.len())));
        out.push(pair("content-type", String::from_str("application/json")));
        out.push(pair("x-content-sha256", base64_encode(digest.as_slice())));
    }
    proof {
        let want = signed_components(request@, date@);
        assert(pair_views(out@).len() == want.len());
        assert forall|i: int| 0 <= i < want.len() implies pair_views(out@)[i] == want[i] by {
            assert(pair_views(out@)[i] == (out@[i].0@, out@[i].1@));
        }
        assert(pair_views(out@) =~= want);
    }
    out
}

/// The canonical text of `components`: what is signed.
pub fn join_components(components: &Vec<(String, String)>) -> (out: String)
    ensures
        out@ == signing_text(pair_views(components@)),
{
    let mut out = String::new();
    let mut i: usize = 0;
    while i < components.len()
        invariant
            i <= components@.len(),
            out@ == signing_text(pair_views(components@).subrange(0, i as int)),
        decreases components@.len() - i,
    {
        proof {
            let after = pair_views(components@).subrange(0, i + 1);
            assert(after.drop_last() =~= pair_views(components@).subrange(0, i as int));
        }
        let ghost start = out@;
        if i > 0 {
            out.append("\n");
        }
        out.append(components[i].0.as_str());
        out.append(": ");
        out.append(components[i].1.as_str());
        proof {
            let line = component_line(pair_views(components@)[i as int]);
            if i == 0 {
                assert(start =~= Seq::empty());
                assert(out@ =~= line);
            } else {
                assert(out@ =~= start + "\n"@ + line);
            }
        }
        i += 1;
    }
    proof {
        assert(pair_views(components@).subrange(0, components@.len() as int) =~= pair_views(
            components@,
        ));
    }
    out
}

/// The names of `components`, with a space between two of them.
pub fn join_names(components: &Vec<(String, String)>) -> (out: String)
    ensures
        out@ == component_names(pair_views(components@)),
{
    let mut out = String::new();
    let mut i: usize = 0;
    while i < components.len()
        invariant
            i <= components@.len(),
            out@ == component_names(pair_views(components@).subrange(0, i as int)),
        decreases components@.len() - i,
    {
        proof {
            let after = pair_views(components@).subrange(0, i + 1);
            assert(after.drop_last() =~= pair_views(components@).subrange(0, i as int));
        }
        let ghost start = out@;
        if i > 0 {
            out.append(" ");
        }
        out.append(components[i].0.as_str());
        proof {
            if i == 0 {
                assert(start =~= Seq::empty());
                assert(out@ =~= components@[0].0@);
            }
        }
        i += 1;
    }
    proof {
        assert(pair_views(components@).subrange(0, components@.len() as int) =~= pair_views(
            components@,
        ));
    }
    out
}

/// The canonical signing string of `request` at `date`.
pub fn signing_string(request: &SigningRequest, date: &str) -> (out: String)
    ensures
        out@ == signing_text(signed_components(request@, date@)),
{
    let components = signing_components(request, date);
    join_components(&components)
}

/// The headers of `request`, signed at `date` with `key` for `profile`.
/// It fails only where the signature cannot be computed.
pub fn sign_request_at(
    profile: &OciProfile,
    request: &SigningRequest,
    date: &str,
    key: rsa::RsaPrivateKey,
) -> (out: Result<Vec<(String, String)>, SignError>)
    ensures
        match signed_headers(profile@, request@, date@, key) {
            Ok(headers) => out is Ok && pair_views(out->Ok_0@) == headers,
            Err(e) => out is Err && out->Err_0 == e,
        },
{
    let components = signing_components(request, date);
    let text = join_components(&components);
    let signature = match rsa_sha256_sign(key, text.as_str().as_bytes()) {
        Some(bytes) => base64_encode(bytes.as_slice()),
        None => {
            return Err(SignError::Sign);
        },
    };
    let mut key_id = profile.tenancy.clone();
    key_id.append("/");
    key_id.append(profile.user.as_str());
    key_id.append("/");
    key_id.append(profile.fingerprint.as_str());
    let names = join_names(&components);
    let mut auth = String::from_str("Signature version=\"1\",headers=\"");
    auth.append(names.as_str());
    auth.append("\",keyId=\"");
    auth.append(key_id.as_str());
    auth.append("\",algorithm=\"rsa-sha256\",signature=\"");
    auth.append(signature.as_str());
    auth.append("\"");
    let mut headers: Vec<(String, String)> = Vec::new();
    headers.push(pair("date", String::from_str(date)));
    headers.push(pair("host", request.host.clone()));
    headers.push(pair("Authorization", auth));
    if request.method.carries_body() {
        let bytes = body_of(request).as_bytes();
        let digest = sha256_digest(bytes);
        headers.push(pair("content-type", String::from_str("application/json")));
        headers.push(pair("content-length", decimal_string(bytes.len())));
        headers.push(pair("x-content-sha256", base64_encode(digest.as_slice())));
    }
    proof {
        let want = header_set(request@, date@, auth@);
        assert(pair_views(headers@).len() == want.len());
        assert forall|i: int| 0 <= i < want.len() implies pair_views(headers@)[i] == want[i] by {
            assert(pair_views(headers@)[i] == (headers@[i].0@, headers@[i].1@));
        }
        assert(pair_views(headers@) =~= want);
    }
    Ok(headers)
}

/// The headers of `request`, signed now with the private key that the PEM
/// text `key_pem` holds. Where the text holds no key, nothing is signed and
/// the clock is not read.
pub fn sign_request(profile: &OciProfile, request: &SigningRequest, key_pem: &str) -> (out: Result<
    Vec<(String, String)>,
    SignError,
>)
    ensures
        match loaded_key(key_pem@) {
            None => out is Err && out->Err_0 == SignError::KeyParse,
            Some(key) => exists|date: Seq<char>|
                match #[trigger] signed_headers(profile@, request@, date, key) {
                    Ok(headers) => out is Ok && pair_views(out->Ok_0@) == headers,
                    Err(e) => out is Err && out->Err_0 == e,
                },
        },
{
    let key = match load_private_key(key_pem) {
        Ok(key) => key,
        Err(e) => {
            return Err(e);
        },
    };
    let date = utc_now_formatted("%a, %d %b %Y %H:%M:%S GMT");
    let out = sign_request_at(profile, request, date.as_str(), key);
    proof {
        let shown = signed_headers(profile@, request@, date@, key);
        assert(match shown {
            Ok(headers) => out is Ok && pair_views(out->Ok_0@) == headers,
            Err(e) => out is Err && out->Err_0 == e,
        });
    }
    out
}

} // verus!
