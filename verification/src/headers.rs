//! The headers involved in the signature of a request, and the canonical
//! message they sign.
//!
//! For a side-effect-free request the message is the public key alone; for a
//! request with a body it is `pubkey || content_length || base64(sha256(body))`
//! with no separators, which binds the body's digest into the signature.

use vstd::prelude::*;
use vstd::string::StrSliceExecFns;

use crate::authentication::Signature;
use crate::crypto::base64_decode;
use crate::crypto::base64_decode_of;
use crate::crypto::base64_encode;
use crate::crypto::base64_of;
use crate::decimal::{dec_digits, dec_value, is_dec_seq, parse_u64, u64_to_string};
use crate::errors::{HeaderName, ResponseError};

verus! {

/// Length and base64 digest of a request body, as carried by the
/// `Content-Length` and `Digest` headers.
#[derive(Debug)]
pub struct RequestContent {
    pub len: usize,
    /// Base64 text of the body's SHA-256 digest.
    pub digest: String,
}

/// The base64 text of a `Digest` header value, defined exactly when the
/// value has the required form `sha-256=<text>`.
pub open spec fn spec_digest_value(s: Seq<char>) -> Option<Seq<char>> {
    if s.len() >= 8 && s.subrange(0, 8) == "sha-256="@ {
        Some(s.skip(8))
    } else {
        None
    }
}

/// Whether a `Content-Length` text parses to a length that fits in memory.
pub open spec fn spec_len_ok(t: Seq<char>) -> bool {
    t.len() > 0 && is_dec_seq(t) && dec_value(t) <= usize::MAX
}

/// Law: a `Digest` header built from a digest text parses back to exactly
/// that text, and a rendered length is a well-formed `Content-Length`.
/// Together with the encoder's round-trip clause this makes a header
/// produced by [`RequestContent::to_header`] acceptable to
/// [`RequestContent::try_from_header`].
pub proof fn lemma_header_round_trip(d: Seq<char>, len: usize)
    ensures
        spec_digest_value("sha-256="@ + d) == Some(d),
        spec_len_ok(dec_digits(len as int)),
        dec_value(dec_digits(len as int)) == len,
{
    reveal_strlit("sha-256=");
    let s = "sha-256="@ + d;
    assert(s.subrange(0, 8) =~= "sha-256="@);
    assert(s.skip(8) =~= d);
    crate::decimal::lemma_dec_digits_value(len as int);
}

impl RequestContent {
    /// Packs a body's length and its SHA-256 digest for the headers.
    pub fn new(len: usize, digest: &[u8]) -> (r: RequestContent)
        ensures
            r.len == len,
            r.digest@ == base64_of(digest@),
    {
        RequestContent { len, digest: base64_encode(digest) }
    }

    /// Returns the pair correctly formatted for the http headers:
    /// the length, and `sha-256=<base64 digest>`.
    pub fn to_header(&self) -> (r: (usize, String))
        ensures
            r.0 == self.len,
            r.1@ == "sha-256="@ + self.digest@,
    {
        let mut d = "sha-256=".to_owned();
        d.append(self.digest.as_str());
        (self.len, d)
    }

    /// Constructs from the `Content-Length` and `Digest` header values.
    ///
    /// The `Digest` value must have the form `sha-256=<base64 text>` —
    /// any other algorithm prefix is refused — and the length must be a
    /// decimal number that fits. Each failure is a distinct kind.
    pub fn try_from_header(len: &str, digest: &str) -> (r: Result<RequestContent, ResponseError>)
        ensures
            r is Ok <==> spec_digest_value(digest@) is Some && base64_decode_of(
                spec_digest_value(digest@)->Some_0,
            ) is Some && spec_len_ok(len@),
            r is Ok ==> r->Ok_0.digest@ == spec_digest_value(digest@)->Some_0 && r->Ok_0.len
                == dec_value(len@),
            r is Err ==> match r->Err_0 {
                ResponseError::InvalidHeader(h) => (h == HeaderName::BodyDigest
                    && spec_digest_value(digest@) is None) || (h == HeaderName::ContentLength
                    && spec_digest_value(digest@) is Some && base64_decode_of(
                    spec_digest_value(digest@)->Some_0,
                ) is Some && !spec_len_ok(len@)),
                ResponseError::WrongDigestEncoding(_) => spec_digest_value(digest@) is Some
                    && base64_decode_of(spec_digest_value(digest@)->Some_0) is None,
                _ => false,
            },
    {
        let d_len = digest.unicode_len();
        if d_len < 8 {
            return Err(ResponseError::InvalidHeader(HeaderName::BodyDigest));
        }
        let prefix = digest.substring_char(0, 8).to_owned();
        if !prefix.eq(&"sha-256=".to_owned()) {
            return Err(ResponseError::InvalidHeader(HeaderName::BodyDigest));
        }
        let part = digest.substring_char(8, d_len);
        proof {
            assert(part@ =~= digest@.skip(8));
        }
        // Check that the digest text is base64.
        if let Err(e) = base64_decode(part) {
            return Err(ResponseError::WrongDigestEncoding(e));
        }
        let parsed = match parse_u64(len) {
            Some(v) => v,
            None => {
                return Err(ResponseError::InvalidHeader(HeaderName::ContentLength));
            },
        };
        if parsed > usize::MAX as u64 {
            return Err(ResponseError::InvalidHeader(HeaderName::ContentLength));
        }
        Ok(RequestContent { len: parsed as usize, digest: part.to_owned() })
    }
}

/// The headers involved in the signature of the request.
#[derive(Debug)]
pub struct SignatureHeaders {
    pub pubkey: String,
    pub content: Option<RequestContent>,
    pub signature: Option<String>,
}

/// The canonical message a request signs: the public key alone for a
/// bodyless request, else `pubkey || content_length || digest` with no
/// separators.
pub open spec fn spec_message(h: &SignatureHeaders) -> Seq<char> {
    match h.content {
        Some(c) => h.pubkey@ + dec_digits(c.len as int) + c.digest@,
        None => h.pubkey@,
    }
}

impl SignatureHeaders {
    pub fn new(pubkey: &str, content: Option<RequestContent>, signature: Option<String>) -> (r:
        SignatureHeaders)
        ensures
            r.pubkey@ == pubkey@,
            r.content == content,
            r.signature == signature,
    {
        SignatureHeaders { pubkey: pubkey.to_owned(), content, signature }
    }

    /// Produces the canonical message on which the signature is computed.
    pub fn to_string(&self) -> (r: String)
        ensures
            r@ == spec_message(self),
    {
        match &self.content {
            Some(content) => {
                let mut m = self.pubkey.clone();
                m.append(u64_to_string(content.len as u64).as_str());
                m.append(content.digest.as_str());
                m
            },
            None => self.pubkey.clone(),
        }
    }

    /// Verifies the carried signature over the canonical message, with the
    /// given scheme; fails only when no signature was carried.
    pub fn try_verify_signature<S: Signature>(&self, scheme: &S) -> (r: Result<
        bool,
        ResponseError,
    >)
        ensures
            r is Ok <==> self.signature is Some,
            r is Ok ==> r->Ok_0 == scheme.verify_spec(
                self.pubkey@,
                spec_message(self),
                self.signature->Some_0@,
            ),
            r is Err ==> r->Err_0 is MissingSigningKey,
    {
        match &self.signature {
            Some(sig) => {
                let message = self.to_string();
                Ok(scheme.verify(self.pubkey.as_str(), message.as_str(), sig.as_str()))
            },
            None => Err(ResponseError::MissingSigningKey),
        }
    }

    /// Assembles the signature headers of a request from its raw header
    /// values, with a distinct error for each missing or malformed header.
    ///
    /// A body is expected exactly when the request is a POST that carries a
    /// `Digest` header; then the `Content-Length` header must be present and
    /// both must parse.
    pub fn from_parts(
        pubkey: Option<&str>,
        signature: Option<&str>,
        is_post: bool,
        digest_header: Option<&str>,
        content_length: Option<&str>,
    ) -> (r: Result<SignatureHeaders, ResponseError>)
        ensures
            r is Ok <==> pubkey is Some && signature is Some && ((is_post && digest_header is Some)
                ==> (content_length is Some && spec_digest_value(digest_header->Some_0@) is Some
                && base64_decode_of(spec_digest_value(digest_header->Some_0@)->Some_0) is Some
                && spec_len_ok(content_length->Some_0@))),
            r is Ok ==> {
                let h = r->Ok_0;
                &&& h.pubkey@ == pubkey->Some_0@
                &&& h.signature is Some && h.signature->Some_0@ == signature->Some_0@
                &&& if is_post && digest_header is Some {
                    h.content is Some && h.content->Some_0.digest@ == spec_digest_value(
                        digest_header->Some_0@,
                    )->Some_0 && h.content->Some_0.len == dec_value(content_length->Some_0@)
                } else {
                    h.content is None
                }
            },
            r is Err ==> match r->Err_0 {
                ResponseError::InvalidHeader(h) => {
                    ||| (h == HeaderName::Pubkey && pubkey is None)
                    ||| (h == HeaderName::Signature && pubkey is Some && signature is None)
                    ||| (h == HeaderName::ContentLength && pubkey is Some && signature is Some
                        && is_post && digest_header is Some && (content_length is None || (
                    spec_digest_value(digest_header->Some_0@) is Some && base64_decode_of(
                        spec_digest_value(digest_header->Some_0@)->Some_0,
                    ) is Some && !spec_len_ok(content_length->Some_0@))))
                    ||| (h == HeaderName::BodyDigest && pubkey is Some && signature is Some
                        && is_post && digest_header is Some && content_length is Some
                        && spec_digest_value(digest_header->Some_0@) is None)
                },
                ResponseError::WrongDigestEncoding(_) => pubkey is Some && signature is Some
                    && is_post && digest_header is Some && content_length is Some
                    && spec_digest_value(digest_header->Some_0@) is Some && base64_decode_of(
                    spec_digest_value(digest_header->Some_0@)->Some_0,
                ) is None,
                _ => false,
            },
    {
        let pk = match pubkey {
            Some(p) => p,
            None => {
                return Err(ResponseError::InvalidHeader(HeaderName::Pubkey));
            },
        };
        let sig = match signature {
            Some(s) => s,
            None => {
                return Err(ResponseError::InvalidHeader(HeaderName::Signature));
            },
        };
        let mut body: Option<RequestContent> = None;
        if is_post {
            if let Some(d) = digest_header {
                let cl = match content_length {
                    Some(c) => c,
                    None => {
                        return Err(ResponseError::InvalidHeader(HeaderName::ContentLength));
                    },
                };
                match RequestContent::try_from_header(cl, d) {
                    Ok(content) => {
                        body = Some(content);
                    },
                    Err(e) => {
                        return Err(e);
                    },
                }
            }
        }
        Ok(SignatureHeaders::new(pk, body, Some(sig.to_owned())))
    }
}

/// Checks the signature of a request and returns the authenticated public
/// key.
///
/// Succeeds exactly when a signature was carried and the scheme accepts it
/// over the canonical message; a missing signature and a refused one are
/// distinct kinds.
pub fn verify_signature<S: Signature>(headers: &SignatureHeaders, scheme: &S) -> (r: Result<
    String,
    ResponseError,
>)
    ensures
        r is Ok <==> headers.signature is Some && scheme.verify_spec(
            headers.pubkey@,
            spec_message(headers),
            headers.signature->Some_0@,
        ),
        r is Ok ==> r->Ok_0@ == headers.pubkey@,
        r is Err ==> (r->Err_0 is MissingSigningKey && headers.signature is None) || (
        r->Err_0 is InvalidSignature && headers.signature is Some && !scheme.verify_spec(
            headers.pubkey@,
            spec_message(headers),
            headers.signature->Some_0@,
        )),
{
    match headers.try_verify_signature(scheme) {
        Ok(true) => Ok(headers.pubkey.clone()),
        Ok(false) => Err(ResponseError::InvalidSignature),
        Err(e) => Err(e),
    }
}

} // verus!
