use base64::Engine;
use oci_desktop::models::profile::OciProfile;
use oci_desktop::oci::signature::{
    load_private_key, sign_request, sign_request_at, signing_components, signing_string, Method,
    SignError, SigningRequest,
};
use rsa::pkcs1::EncodeRsaPrivateKey;
use rsa::pkcs8::EncodePrivateKey;
use rsa::signature::Verifier;

fn test_key() -> rsa::RsaPrivateKey {
    let p = rsa::BigUint::parse_bytes(
        b"10951007315904338378958159444813937275925208766851845018312490152867400661377516134221432305379838487767883140145903006090145970347959856669715016251418693",
        10,
    )
    .unwrap();
    let q = rsa::BigUint::parse_bytes(
        b"11932035191303492346993716427183418248790386632044878202423880206992005814800374353715993159098975147775473350876890996711274475562022527803525548769852799",
        10,
    )
    .unwrap();
    rsa::RsaPrivateKey::from_p_q(p, q, rsa::BigUint::from(65537u32)).unwrap()
}

fn pkcs8_pem() -> String {
    test_key().to_pkcs8_pem(rsa::pkcs8::LineEnding::LF).unwrap().to_string()
}

fn pkcs1_pem() -> String {
    test_key().to_pkcs1_pem(rsa::pkcs1::LineEnding::LF).unwrap().to_string()
}

fn profile() -> OciProfile {
    OciProfile {
        name: "DEFAULT".to_string(),
        user: "ocid1.user.oc1..u".to_string(),
        tenancy: "ocid1.tenancy.oc1..t".to_string(),
        region: "ap-tokyo-1".to_string(),
        fingerprint: "aa:bb".to_string(),
        key_file: "/k.pem".to_string(),
    }
}

fn get(path: &str) -> SigningRequest {
    SigningRequest {
        method: Method::Get,
        path: path.to_string(),
        host: "identity.ap-tokyo-1.oraclecloud.com".to_string(),
        body: None,
    }
}

fn pairs(list: &[(&str, &str)]) -> Vec<(String, String)> {
    list.iter().map(|(a, b)| (a.to_string(), b.to_string())).collect()
}

const DATE: &str = "Thu, 05 Jan 2014 21:31:40 GMT";

#[test]
fn signing_string_of_a_get_request() {
    let text = signing_string(&get("/20160918/users?limit=5"), DATE);
    assert_eq!(
        text,
        "date: Thu, 05 Jan 2014 21:31:40 GMT\n(request-target): get /20160918/users?limit=5\nhost: identity.ap-tokyo-1.oraclecloud.com"
    );
    assert_eq!(text, signing_string(&get("/20160918/users?limit=5"), DATE));
}

#[test]
fn signing_string_of_a_delete_request_has_three_components() {
    let mut request = get("/n/");
    request.method = Method::Delete;
    request.body = Some("ignored".to_string());
    assert_eq!(
        signing_components(&request, DATE),
        pairs(&[
            ("date", DATE),
            ("(request-target)", "delete /n/"),
            ("host", "identity.ap-tokyo-1.oraclecloud.com"),
        ])
    );
}

#[test]
fn signing_components_of_a_post_request_describe_the_body() {
    let mut request = get("/n/");
    request.method = Method::Post;
    request.body = Some("{\"a\":1}".to_string());
    assert_eq!(
        signing_components(&request, DATE),
        pairs(&[
            ("date", DATE),
            ("(request-target)", "post /n/"),
            ("host", "identity.ap-tokyo-1.oraclecloud.com"),
            ("content-length", "7"),
            ("content-type", "application/json"),
            ("x-content-sha256", "AVq9f1zFei3ZS3WQ8ErYCEJzkF7jPsXOvq5iJ2qX+GI="),
        ])
    );
    assert_eq!(
        signing_string(&request, DATE),
        "date: Thu, 05 Jan 2014 21:31:40 GMT\n(request-target): post /n/\nhost: identity.ap-tokyo-1.oraclecloud.com\ncontent-length: 7\ncontent-type: application/json\nx-content-sha256: AVq9f1zFei3ZS3WQ8ErYCEJzkF7jPsXOvq5iJ2qX+GI="
    );
}

#[test]
fn put_without_a_body_signs_the_empty_body() {
    let mut request = get("/n/");
    request.method = Method::Put;
    let components = signing_components(&request, DATE);
    assert_eq!(components[1].1, "put /n/");
    assert_eq!(components[3], ("content-length".to_string(), "0".to_string()));
    assert_eq!(
        components[5],
        (
            "x-content-sha256".to_string(),
            "47DEQpj8HBSa+/TImW+5JCeuQeRkm5NMpJWZG3hSuFU=".to_string()
        )
    );
}

#[test]
fn content_length_counts_bytes() {
    let mut request = get("/n/");
    request.method = Method::Post;
    request.body = Some("東京".to_string());
    assert_eq!(signing_components(&request, DATE)[3].1, "6");
}

#[test]
fn method_tokens_are_lower_case() {
    assert_eq!(Method::Get.token(), "get");
    assert_eq!(Method::Post.token(), "post");
    assert_eq!(Method::Put.token(), "put");
    assert_eq!(Method::Delete.token(), "delete");
    assert_eq!(Method::Head.token(), "head");
    assert_eq!(Method::Options.token(), "options");
    assert_eq!(Method::Patch.token(), "patch");
    assert_eq!(Method::Connect.token(), "connect");
    assert_eq!(Method::Trace.token(), "trace");
    assert!(Method::Post.carries_body());
    assert!(Method::Put.carries_body());
    assert!(!Method::Get.carries_body());
    assert!(!Method::Patch.carries_body());
}

#[test]
fn both_key_containers_are_read() {
    let from_pkcs8 = load_private_key(&pkcs8_pem()).unwrap();
    let from_pkcs1 = load_private_key(&pkcs1_pem()).unwrap();
    assert_eq!(from_pkcs8, test_key());
    assert_eq!(from_pkcs1, test_key());
}

#[test]
fn garbage_is_no_key() {
    assert_eq!(load_private_key("this is not a key").err(), Some(SignError::KeyParse));
    assert_eq!(load_private_key("").err(), Some(SignError::KeyParse));
    assert_eq!(
        sign_request(&profile(), &get("/n/"), "-----BEGIN NOTHING-----\nxx\n-----END NOTHING-----\n"),
        Err(SignError::KeyParse)
    );
}

#[test]
fn signed_get_request_has_three_headers_and_a_valid_signature() {
    let request = get("/20160918/tenancies/ocid1.tenancy.oc1..t");
    let headers = sign_request_at(&profile(), &request, DATE, test_key()).unwrap();
    assert_eq!(headers.len(), 3);
    assert_eq!(headers[0], ("date".to_string(), DATE.to_string()));
    assert_eq!(
        headers[1],
        ("host".to_string(), "identity.ap-tokyo-1.oraclecloud.com".to_string())
    );
    assert_eq!(headers[2].0, "Authorization");
    let prefix = "Signature version=\"1\",headers=\"date (request-target) host\",keyId=\"ocid1.tenancy.oc1..t/ocid1.user.oc1..u/aa:bb\",algorithm=\"rsa-sha256\",signature=\"";
    let value = &headers[2].1;
    assert!(value.starts_with(prefix));
    assert!(value.ends_with('"'));
    let signature = &value[prefix.len()..value.len() - 1];
    let bytes = base64::engine::general_purpose::STANDARD.decode(signature).unwrap();
    assert_eq!(bytes.len(), 128);
    let verifier = rsa::pkcs1v15::VerifyingKey::<sha2::Sha256>::new(test_key().to_public_key());
    let parsed = rsa::pkcs1v15::Signature::try_from(bytes.as_slice()).unwrap();
    let text = signing_string(&request, DATE);
    assert!(verifier.verify(text.as_bytes(), &parsed).is_ok());
    assert!(verifier.verify(b"another text", &parsed).is_err());
}

#[test]
fn signing_twice_gives_the_same_headers() {
    let request = get("/n/");
    let first = sign_request_at(&profile(), &request, DATE, test_key()).unwrap();
    let second = sign_request_at(&profile(), &request, DATE, test_key()).unwrap();
    assert_eq!(first, second);
    let other = sign_request_at(&profile(), &get("/m/"), DATE, test_key()).unwrap();
    assert_ne!(first[2], other[2]);
}

#[test]
fn signed_post_request_carries_the_body_headers() {
    let mut request = get("/n/");
    request.method = Method::Post;
    request.body = Some("{}".to_string());
    let headers = sign_request_at(&profile(), &request, DATE, test_key()).unwrap();
    assert_eq!(headers.len(), 6);
    assert_eq!(headers[3], ("content-type".to_string(), "application/json".to_string()));
    assert_eq!(headers[4], ("content-length".to_string(), "2".to_string()));
    assert_eq!(
        headers[5],
        (
            "x-content-sha256".to_string(),
            "RBNvo1WzZ4oRRq0W9+hknpT7T8If536DEMBg9hyq/4o=".to_string()
        )
    );
    assert!(headers[2].1.contains(
        "headers=\"date (request-target) host content-length content-type x-content-sha256\""
    ));
}

#[test]
fn sign_request_reads_the_clock_and_the_key() {
    let request = get("/n/");
    let headers = sign_request(&profile(), &request, &pkcs1_pem()).unwrap();
    assert_eq!(headers.len(), 3);
    assert_eq!(headers[0].0, "date");
    let date = &headers[0].1;
    assert_eq!(date.len(), 29);
    assert!(date.ends_with(" GMT"));
    assert_eq!(&date[3..5], ", ");
    let again = sign_request_at(&profile(), &request, date, test_key()).unwrap();
    assert_eq!(headers, again);
}

#[test]
fn sign_errors_have_messages() {
    assert_eq!(
        SignError::KeyParse.message(),
        "秘密鍵の解析に失敗しました。PKCS#1 または PKCS#8 形式の PEM ファイルを指定してください。"
    );
    assert_eq!(SignError::Sign.message(), "署名の生成に失敗しました");
}

#[test]
fn key_too_short_for_the_digest_fails_to_sign() {
    let p = rsa::BigUint::parse_bytes(b"305372726483331676834611371909105056819", 10).unwrap();
    let q = rsa::BigUint::parse_bytes(b"283418963972943811077317262590764767871", 10).unwrap();
    let short = rsa::RsaPrivateKey::from_p_q(p, q, rsa::BigUint::from(65537u32)).unwrap();
    assert_eq!(sign_request_at(&profile(), &get("/n/"), DATE, short), Err(SignError::Sign));
}
