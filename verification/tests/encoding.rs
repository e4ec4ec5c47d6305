use ceremony_coordinator::decimal::{parse_u64, u64_to_string};
use ceremony_coordinator::errors::{HeaderName, ResponseError};
use ceremony_coordinator::headers::{RequestContent, SignatureHeaders};
use ceremony_coordinator::rest::validate_body;
use ceremony_coordinator::s3::{
    challenge_key, contribution_key, contribution_sig_key, retry_decision, tokens_key,
};
use sha2::Digest;
use ceremony_coordinator::authentication::Dummy;

#[test]
fn decimal_rendering() {
    assert_eq!(u64_to_string(0), "0");
    assert_eq!(u64_to_string(7), "7");
    assert_eq!(u64_to_string(10), "10");
    assert_eq!(u64_to_string(1234567890), "1234567890");
    assert_eq!(u64_to_string(u64::MAX), format!("{}", u64::MAX));
}

#[test]
fn decimal_parsing() {
    assert_eq!(parse_u64("0"), Some(0));
    assert_eq!(parse_u64("42"), Some(42));
    assert_eq!(parse_u64("18446744073709551615"), Some(u64::MAX));
    assert_eq!(parse_u64("18446744073709551616"), None);
    assert_eq!(parse_u64(""), None);
    assert_eq!(parse_u64("12a"), None);
    assert_eq!(parse_u64("-3"), None);
}

#[test]
fn object_store_keys() {
    assert_eq!(challenge_key(1), "round_1/chunk_0/contribution_0.verified");
    assert_eq!(challenge_key(42), "round_42/chunk_0/contribution_0.verified");
    assert_eq!(contribution_key(1), "round_1/chunk_0/contribution_1.unverified");
    assert_eq!(
        contribution_sig_key(1),
        "round_1/chunk_0/contribution_1.unverified.signature"
    );
    assert_eq!(tokens_key(true), "production/tokens.zip");
    assert_eq!(tokens_key(false), "master/tokens.zip");
}

#[test]
fn retry_schedule() {
    assert_eq!(retry_decision(429, 0), Some(100));
    assert_eq!(retry_decision(500, 1), Some(200));
    assert_eq!(retry_decision(502, 3), Some(800));
    assert_eq!(retry_decision(503, 7), Some(12800));
    assert_eq!(retry_decision(504, 8), None);
    assert_eq!(retry_decision(404, 0), None);
    assert_eq!(retry_decision(200, 0), None);
}

#[test]
fn request_content_digest() {
    // The base64 SHA-256 of the empty byte string; fails if either
    // primitive handed its input back unchanged.
    let content = RequestContent::new(0, sha2::Sha256::digest(b"").as_slice());
    let (len, header) = content.to_header();
    assert_eq!(len, 0);
    assert_eq!(header, "sha-256=47DEQpj8HBSa+/TImW+5JCeuQeRkm5NMpJWZG3hSuFU=");
}

#[test]
fn request_content_from_header() {
    let content =
        RequestContent::try_from_header("12", "sha-256=47DEQpj8HBSa+/TImW+5JCeuQeRkm5NMpJWZG3hSuFU=")
            .unwrap();
    let (len, header) = content.to_header();
    assert_eq!(len, 12);
    assert_eq!(header, "sha-256=47DEQpj8HBSa+/TImW+5JCeuQeRkm5NMpJWZG3hSuFU=");

    match RequestContent::try_from_header("12", "no separator here") {
        Err(ResponseError::InvalidHeader(HeaderName::BodyDigest)) => {}
        other => panic!("unexpected: {:?}", other),
    }
    // Only the sha-256 algorithm prefix is accepted.
    match RequestContent::try_from_header("12", "md5=AAAA") {
        Err(ResponseError::InvalidHeader(HeaderName::BodyDigest)) => {}
        other => panic!("unexpected: {:?}", other),
    }
    match RequestContent::try_from_header("12", "SHA-256=AAAA") {
        Err(ResponseError::InvalidHeader(HeaderName::BodyDigest)) => {}
        other => panic!("unexpected: {:?}", other),
    }
    match RequestContent::try_from_header("12", "sha-256=!!!not-base64!!!") {
        Err(ResponseError::WrongDigestEncoding(_)) => {}
        other => panic!("unexpected: {:?}", other),
    }
    match RequestContent::try_from_header("twelve", "sha-256=AAAA") {
        Err(ResponseError::InvalidHeader(HeaderName::ContentLength)) => {}
        other => panic!("unexpected: {:?}", other),
    }
}

#[test]
fn canonical_message() {
    let body = b"{\"x\":1}";
    let content = RequestContent::new(body.len(), sha2::Sha256::digest(body).as_slice());
    let headers = SignatureHeaders::new("pubkey1", Some(content), Some("sig".to_string()));
    let expected = format!(
        "pubkey1{}{}",
        body.len(),
        base64::encode(sha2::Sha256::digest(body))
    );
    assert_eq!(headers.to_string(), expected);

    let bodyless = SignatureHeaders::new("pubkey1", None, Some("sig".to_string()));
    assert_eq!(bodyless.to_string(), "pubkey1");
}

#[test]
fn signature_verification_with_dummy() {
    let headers = SignatureHeaders::new("pk", None, Some("sig".to_string()));
    assert_eq!(headers.try_verify_signature(&Dummy).unwrap(), true);

    let unsigned = SignatureHeaders::new("pk", None, None);
    match unsigned.try_verify_signature(&Dummy) {
        Err(ResponseError::MissingSigningKey) => {}
        other => panic!("unexpected: {:?}", other),
    }
}

#[test]
fn from_parts_missing_headers() {
    match SignatureHeaders::from_parts(None, Some("sig"), false, None, None) {
        Err(ResponseError::InvalidHeader(HeaderName::Pubkey)) => {}
        other => panic!("unexpected: {:?}", other),
    }
    match SignatureHeaders::from_parts(Some("pk"), None, false, None, None) {
        Err(ResponseError::InvalidHeader(HeaderName::Signature)) => {}
        other => panic!("unexpected: {:?}", other),
    }
    match SignatureHeaders::from_parts(Some("pk"), Some("sig"), true, Some("sha-256=AAAA"), None) {
        Err(ResponseError::InvalidHeader(HeaderName::ContentLength)) => {}
        other => panic!("unexpected: {:?}", other),
    }
    let ok = SignatureHeaders::from_parts(Some("pk"), Some("sig"), true, Some("sha-256=AAAA"), Some("3"))
        .unwrap();
    assert_eq!(ok.pubkey, "pk");
    assert!(ok.content.is_some());
}

#[test]
fn body_digest_accepted() {
    let body: Vec<u8> = b"hello ceremony".to_vec();
    let digest = base64::encode(sha2::Sha256::digest(&body));
    let header = format!("sha-256={}", digest);
    let len = format!("{}", body.len());
    let content = validate_body(Some(&header), Some(&len), &body).unwrap();
    assert_eq!(content.len, body.len());
    assert_eq!(content.digest, digest);
}

#[test]
fn body_digest_mismatch() {
    // A valid base64 digest that is not the body's: the bad-digest request
    // is refused with the mismatching-checksum kind and status 400.
    let body: Vec<u8> = b"some body bytes".to_vec();
    let header = "sha-256=AAAAAAAAAAAAAAAAAAAAAAAAAAAAAAAAAAAAAAAAAAA=";
    let len = format!("{}", body.len());
    let err = validate_body(Some(header), Some(&len), &body).unwrap_err();
    assert_eq!(err.http_status(), 400);
    match err {
        ResponseError::MismatchingChecksum(expected, actual) => {
            assert_eq!(expected, "AAAAAAAAAAAAAAAAAAAAAAAAAAAAAAAAAAAAAAAAAAA=");
            assert_eq!(actual, base64::encode(sha2::Sha256::digest(&body)));
        }
        other => panic!("unexpected: {:?}", other),
    }
}

#[test]
fn missing_body_headers() {
    let body: Vec<u8> = Vec::new();
    match validate_body(None, Some("0"), &body) {
        Err(e) => {
            assert_eq!(e.http_status(), 400);
            assert!(matches!(e, ResponseError::MissingRequiredHeader(HeaderName::BodyDigest)));
        }
        other => panic!("unexpected: {:?}", other),
    }
    match validate_body(Some("sha-256=AAAA"), None, &body) {
        Err(e) => {
            // A missing content length is reported as 411.
            assert_eq!(e.http_status(), 411);
            assert!(matches!(
                e,
                ResponseError::MissingRequiredHeader(HeaderName::ContentLength)
            ));
        }
        other => panic!("unexpected: {:?}", other),
    }
}

#[test]
fn error_descriptions() {
    assert_eq!(
        ResponseError::CeremonyIsOver.description(),
        "Ceremony is over, no more contributions are allowed"
    );
    assert_eq!(
        ResponseError::InvalidToken(0).description(),
        "Authentification token for cohort 0 is invalid"
    );
    assert_eq!(
        ResponseError::InvalidHeader(HeaderName::ContentLength).description(),
        "Header Content-Length is badly formatted"
    );
    assert_eq!(ResponseError::CeremonyIsOver.http_status(), 401);
    assert_eq!(ResponseError::InvalidTokenFormat.http_status(), 400);
    assert_eq!(ResponseError::SerdeError("x".to_string()).http_status(), 422);
    assert_eq!(ResponseError::IoError("x".to_string()).http_status(), 500);
}
