//! Error taxonomy of the request pipeline and the coordinator.
//!
//! Every failure is a distinct kind; kinds are distinguishable by HTTP status
//! and by the prefix of their reason string, so clients can branch on them.
//! Authentication and integrity failures never mutate coordinator state.

use vstd::prelude::*;

use crate::decimal::{dec_digits, u64_to_string};
use crate::objects::Task;
use crate::participant::Participant;
use crate::s3::S3Error;

verus! {

/// The request headers that the pipeline reads.
#[derive(Clone, Copy, PartialEq, Eq, Structural, Debug)]
pub enum HeaderName {
    /// `Digest`: `sha-256=<base64>` of the body.
    BodyDigest,
    /// `ATS-Pubkey`: the participant's public key.
    Pubkey,
    /// `ATS-Signature`: detached signature over the canonical message.
    Signature,
    /// `Content-Length`: byte length of the body.
    ContentLength,
    /// `Access-Secret`: shared secret of the status endpoint.
    AccessSecret,
}

/// The wire name of a header.
pub open spec fn spec_header_name(h: HeaderName) -> Seq<char> {
    match h {
        HeaderName::BodyDigest => "Digest"@,
        HeaderName::Pubkey => "ATS-Pubkey"@,
        HeaderName::Signature => "ATS-Signature"@,
        HeaderName::ContentLength => "Content-Length"@,
        HeaderName::AccessSecret => "Access-Secret"@,
    }
}

impl HeaderName {
    /// The wire name of the header.
    pub fn as_str(&self) -> (r: &'static str)
        ensures
            r@ == spec_header_name(*self),
    {
        match self {
            HeaderName::BodyDigest => "Digest",
            HeaderName::Pubkey => "ATS-Pubkey",
            HeaderName::Signature => "ATS-Signature",
            HeaderName::ContentLength => "Content-Length",
            HeaderName::AccessSecret => "Access-Secret",
        }
    }
}

/// Failures of the coordinator's own state machine.
#[derive(Clone, Copy, PartialEq, Eq, Structural, Debug)]
pub enum CoordinatorError {
    /// The participant is already in the queue or active in the round.
    ParticipantAlreadyAdded,
    /// The participant was banned from the ceremony.
    ParticipantBanned,
    /// The participant was dropped from the ceremony.
    ParticipantDropped,
    /// The participant is not known to the coordinator.
    ParticipantUnknown,
    /// Another queued participant presented the same source address.
    AddressAlreadyInQueue,
    /// The participant is not the current contributor.
    NotCurrentContributor,
    /// The round's chunk is already locked.
    ChunkAlreadyLocked,
    /// The round's chunk was never locked.
    ChunkNotLocked,
    /// The request names a round other than the current one.
    WrongRoundHeight,
    /// The request names a chunk other than the single chunk 0.
    WrongChunk,
    /// There is no contribution awaiting verification.
    NoPendingVerification,
    /// No finished contributor exists in the current round.
    NoFinishedContributor,
    /// A finished contributor cannot be banned before the round is reset.
    CannotBanFinished,
    /// The round counter cannot grow any further.
    RoundHeightOverflow,
    /// The coordinator was shut down; mutating operations fail.
    CeremonyShutdown,
}

/// The reason text of a coordinator failure.
pub open spec fn spec_coordinator_error_text(e: CoordinatorError) -> Seq<char> {
    match e {
        CoordinatorError::ParticipantAlreadyAdded => "participant is already added"@,
        CoordinatorError::ParticipantBanned => "participant is banned"@,
        CoordinatorError::ParticipantDropped => "participant was dropped"@,
        CoordinatorError::ParticipantUnknown => "participant is unknown"@,
        CoordinatorError::AddressAlreadyInQueue => "address is already in the queue"@,
        CoordinatorError::NotCurrentContributor => "participant is not the current contributor"@,
        CoordinatorError::ChunkAlreadyLocked => "chunk is already locked"@,
        CoordinatorError::ChunkNotLocked => "chunk is not locked"@,
        CoordinatorError::WrongRoundHeight => "round height does not match the current round"@,
        CoordinatorError::WrongChunk => "this ceremony has a single chunk, chunk 0"@,
        CoordinatorError::NoPendingVerification => "no contribution is pending verification"@,
        CoordinatorError::NoFinishedContributor => "current round has no finished contributor"@,
        CoordinatorError::CannotBanFinished => "a finished contributor cannot be banned"@,
        CoordinatorError::RoundHeightOverflow => "round height cannot grow any further"@,
        CoordinatorError::CeremonyShutdown => "coordinator was shut down"@,
    }
}

impl CoordinatorError {
    /// The reason text of the failure.
    pub fn text(&self) -> (r: &'static str)
        ensures
            r@ == spec_coordinator_error_text(*self),
    {
        match self {
            CoordinatorError::ParticipantAlreadyAdded => "participant is already added",
            CoordinatorError::ParticipantBanned => "participant is banned",
            CoordinatorError::ParticipantDropped => "participant was dropped",
            CoordinatorError::ParticipantUnknown => "participant is unknown",
            CoordinatorError::AddressAlreadyInQueue => "address is already in the queue",
            CoordinatorError::NotCurrentContributor => "participant is not the current contributor",
            CoordinatorError::ChunkAlreadyLocked => "chunk is already locked",
            CoordinatorError::ChunkNotLocked => "chunk is not locked",
            CoordinatorError::WrongRoundHeight => "round height does not match the current round",
            CoordinatorError::WrongChunk => "this ceremony has a single chunk, chunk 0",
            CoordinatorError::NoPendingVerification => "no contribution is pending verification",
            CoordinatorError::NoFinishedContributor => "current round has no finished contributor",
            CoordinatorError::CannotBanFinished => "a finished contributor cannot be banned",
            CoordinatorError::RoundHeightOverflow => "round height cannot grow any further",
            CoordinatorError::CeremonyShutdown => "coordinator was shut down",
        }
    }
}

/// Server errors, including errors of the managed coordinator.
#[derive(Debug)]
pub enum ResponseError {
    /// Ceremony is over, no more contributions are allowed.
    CeremonyIsOver,
    /// The coordinator's state machine refused the operation.
    CoordinatorError(CoordinatorError),
    /// Contribution info is not valid.
    InvalidContributionInfo(String),
    /// The required access secret is either missing or invalid.
    InvalidSecret,
    /// A header is badly formatted.
    InvalidHeader(HeaderName),
    /// Updated tokens for the current cohort don't match the old ones.
    InvalidNewTokens,
    /// The request's signature is invalid.
    InvalidSignature,
    /// The admission token is not in the cohort's set.
    InvalidToken(usize),
    /// The admission token is not 20 hexadecimal digits.
    InvalidTokenFormat,
    /// An I/O failure outside the coordinator.
    IoError(String),
    /// Checksum of the body doesn't match the expected one (expected,
    /// actual).
    MismatchingChecksum(String, String),
    /// A required header was missing from the incoming request.
    MissingRequiredHeader(HeaderName),
    /// The signature header was absent, so nothing could be verified.
    MissingSigningKey,
    /// A numeric string could not be parsed.
    ParseError(String),
    /// A background task failed.
    RuntimeError(String),
    /// The object-store gateway failed.
    S3Error(S3Error),
    /// A well-formed body failed to deserialize.
    SerdeError(String),
    /// Shutdown could not complete cleanly.
    ShutdownError(String),
    /// Correct signature but wrong role: (participant, endpoint, cause).
    UnauthorizedParticipant(Participant, String, String),
    /// No contributor with this public key.
    UnknownContributor(String),
    /// The named task is not in the coordinator's state.
    UnknownTask(Task),
    /// The digest header's value is not base64.
    WrongDigestEncoding(String),
}

/// The HTTP status under which an error is reported.
pub open spec fn spec_status(e: &ResponseError) -> u16 {
    match e {
        ResponseError::CeremonyIsOver => 401,
        ResponseError::InvalidHeader(_) => 400,
        ResponseError::InvalidSecret => 401,
        ResponseError::InvalidNewTokens => 400,
        ResponseError::InvalidSignature => 400,
        ResponseError::InvalidToken(_) => 401,
        ResponseError::InvalidTokenFormat => 400,
        ResponseError::MismatchingChecksum(_, _) => 400,
        ResponseError::MissingRequiredHeader(h) => if h == HeaderName::ContentLength {
            411
        } else {
            400
        },
        ResponseError::MissingSigningKey => 400,
        ResponseError::SerdeError(_) => 422,
        ResponseError::UnauthorizedParticipant(_, _, _) => 401,
        ResponseError::WrongDigestEncoding(_) => 400,
        _ => 500,
    }
}

/// The reason string of an error.
pub open spec fn spec_description(e: &ResponseError) -> Seq<char> {
    match e {
        ResponseError::CeremonyIsOver => "Ceremony is over, no more contributions are allowed"@,
        ResponseError::CoordinatorError(c) => "Coordinator failed: "@
            + spec_coordinator_error_text(*c),
        ResponseError::InvalidContributionInfo(s) => "Contribution info is not valid: "@ + s@,
        ResponseError::InvalidSecret => "The required access secret is either missing or invalid"@,
        ResponseError::InvalidHeader(h) => "Header "@ + spec_header_name(*h)
            + " is badly formatted"@,
        ResponseError::InvalidNewTokens => "Updated tokens for current cohort don't match the old ones"@,
        ResponseError::InvalidSignature => "Request's signature is invalid"@,
        ResponseError::InvalidToken(c) => "Authentification token for cohort "@ + dec_digits(
            *c as int,
        ) + " is invalid"@,
        ResponseError::InvalidTokenFormat => "Authentification token has an invalid token format (hexadecimal 10 bytes)"@,
        ResponseError::IoError(s) => "Io Error: "@ + s@,
        ResponseError::MismatchingChecksum(e1, a) => "Checksum of body doesn't match the expected one: expc "@
            + e1@ + ", act: "@ + a@,
        ResponseError::MissingRequiredHeader(h) => "The required "@ + spec_header_name(*h)
            + " header was missing from the incoming request"@,
        ResponseError::MissingSigningKey => "Couldn't verify signature because of missing signing key"@,
        ResponseError::ParseError(s) => "Couldn't parse string to int: "@ + s@,
        ResponseError::RuntimeError(s) => "Thread panicked: "@ + s@,
        ResponseError::S3Error(s) => "Error with S3: "@ + spec_s3_error_text(s),
        ResponseError::SerdeError(s) => "Error with Serde: "@ + s@,
        ResponseError::ShutdownError(s) => "Error while terminating the ceremony: "@ + s@,
        ResponseError::UnauthorizedParticipant(p, endpoint, cause) => "The participant "@ + p@.1
            + " is not allowed to access the endpoint "@ + endpoint@ + " because of: "@ + cause@,
        ResponseError::UnknownContributor(s) => "Could not find contributor with public key "@
            + s@,
        ResponseError::UnknownTask(t) => "Could not find the provided Task "@ + dec_digits(
            t.round_height as int,
        ) + "/"@ + dec_digits(t.chunk_id as int) + "/"@ + dec_digits(t.contribution_id as int)
            + " in coordinator state"@,
        ResponseError::WrongDigestEncoding(s) => "Digest of request's body is not base64 encoded: "@
            + s@,
    }
}

/// The reason text of a gateway failure.
pub open spec fn spec_s3_error_text(e: &S3Error) -> Seq<char> {
    match e {
        S3Error::Client(s) => "Error while creating the http client: "@ + s@,
        S3Error::Credentials(s) => "Error while generating S3 credentials: "@ + s@,
        S3Error::DeleteError(s) => "Delete of S3 file failed: "@ + s@,
        S3Error::DownloadError(s) => "Download of S3 file failed: "@ + s@,
        S3Error::EmptyContribution => "S3 contribution file is present but empty"@,
        S3Error::EmptyContributionSignature => "S3 contribution file signature is present but empty"@,
        S3Error::IOError(s) => "Error in IO: "@ + s@,
        S3Error::UploadError(s) => "Upload of file to S3 failed: "@ + s@,
    }
}

fn s3_error_text(e: &S3Error) -> (r: String)
    ensures
        r@ == spec_s3_error_text(e),
{
    let (prefix, payload): (&'static str, Option<&String>) = match e {
        S3Error::Client(s) => ("Error while creating the http client: ", Some(s)),
        S3Error::Credentials(s) => ("Error while generating S3 credentials: ", Some(s)),
        S3Error::DeleteError(s) => ("Delete of S3 file failed: ", Some(s)),
        S3Error::DownloadError(s) => ("Download of S3 file failed: ", Some(s)),
        S3Error::EmptyContribution => ("S3 contribution file is present but empty", None),
        S3Error::EmptyContributionSignature => (
            "S3 contribution file signature is present but empty",
            None,
        ),
        S3Error::IOError(s) => ("Error in IO: ", Some(s)),
        S3Error::UploadError(s) => ("Upload of file to S3 failed: ", Some(s)),
    };
    let mut r = prefix.to_owned();
    match payload {
        Some(s) => {
            r.append(s.as_str());
        },
        None => {
            proof {
                assert(r@ =~= spec_s3_error_text(e));
            }
        },
    }
    r
}

impl ResponseError {
    /// The HTTP status under which the error is reported: 401 for a wrong
    /// role or secret, 411 for a missing content length, 422 for a body that
    /// fails to deserialize, 400 for the other client faults, 500 for
    /// internal ones.
    pub fn http_status(&self) -> (s: u16)
        ensures
            s == spec_status(self),
    {
        match self {
            ResponseError::CeremonyIsOver => 401,
            ResponseError::InvalidHeader(_) => 400,
            ResponseError::InvalidSecret => 401,
            ResponseError::InvalidNewTokens => 400,
            ResponseError::InvalidSignature => 400,
            ResponseError::InvalidToken(_) => 401,
            ResponseError::InvalidTokenFormat => 400,
            ResponseError::MismatchingChecksum(_, _) => 400,
            ResponseError::MissingRequiredHeader(h) => {
                if matches!(h, HeaderName::ContentLength) {
                    411
                } else {
                    400
                }
            },
            ResponseError::MissingSigningKey => 400,
            ResponseError::SerdeError(_) => 422,
            ResponseError::UnauthorizedParticipant(_, _, _) => 401,
            ResponseError::WrongDigestEncoding(_) => 400,
            _ => 500,
        }
    }

    /// The human-readable reason string of the error.
    pub fn description(&self) -> (r: String)
        ensures
            r@ == spec_description(self),
    {
        match self {
            ResponseError::CeremonyIsOver => {
                "Ceremony is over, no more contributions are allowed".to_owned()
            },
            ResponseError::CoordinatorError(c) => {
                let mut r = "Coordinator failed: ".to_owned();
                r.append(c.text());
                r
            },
            ResponseError::InvalidContributionInfo(s) => {
                let mut r = "Contribution info is not valid: ".to_owned();
                r.append(s.as_str());
                r
            },
            ResponseError::InvalidSecret => {
                "The required access secret is either missing or invalid".to_owned()
            },
            ResponseError::InvalidHeader(h) => {
                let mut r = "Header ".to_owned();
                r.append(h.as_str());
                r.append(" is badly formatted");
                r
            },
            ResponseError::InvalidNewTokens => {
                "Updated tokens for current cohort don't match the old ones".to_owned()
            },
            ResponseError::InvalidSignature => "Request's signature is invalid".to_owned(),
            ResponseError::InvalidToken(c) => {
                let mut r = "Authentification token for cohort ".to_owned();
                r.append(u64_to_string(*c as u64).as_str());
                r.append(" is invalid");
                r
            },
            ResponseError::InvalidTokenFormat => {
                "Authentification token has an invalid token format (hexadecimal 10 bytes)".to_owned()
            },
            ResponseError::IoError(s) => {
                let mut r = "Io Error: ".to_owned();
                r.append(s.as_str());
                r
            },
            ResponseError::MismatchingChecksum(e1, a) => {
                let mut r = "Checksum of body doesn't match the expected one: expc ".to_owned();
                r.append(e1.as_str());
                r.append(", act: ");
                r.append(a.as_str());
                r
            },
            ResponseError::MissingRequiredHeader(h) => {
                let mut r = "The required ".to_owned();
                r.append(h.as_str());
                r.append(" header was missing from the incoming request");
                r
            },
            ResponseError::MissingSigningKey => {
                "Couldn't verify signature because of missing signing key".to_owned()
            },
            ResponseError::ParseError(s) => {
                let mut r = "Couldn't parse string to int: ".to_owned();
                r.append(s.as_str());
                r
            },
            ResponseError::RuntimeError(s) => {
                let mut r = "Thread panicked: ".to_owned();
                r.append(s.as_str());
                r
            },
            ResponseError::S3Error(s) => {
                let mut r = "Error with S3: ".to_owned();
                r.append(s3_error_text(s).as_str());
                r
            },
            ResponseError::SerdeError(s) => {
                let mut r = "Error with Serde: ".to_owned();
                r.append(s.as_str());
                r
            },
            ResponseError::ShutdownError(s) => {
                let mut r = "Error while terminating the ceremony: ".to_owned();
                r.append(s.as_str());
                r
            },
            ResponseError::UnauthorizedParticipant(p, endpoint, cause) => {
                let mut r = "The participant ".to_owned();
                r.append(p.address().as_str());
                r.append(" is not allowed to access the endpoint ");
                r.append(endpoint.as_str());
                r.append(" because of: ");
                r.append(cause.as_str());
                r
            },
            ResponseError::UnknownContributor(s) => {
                let mut r = "Could not find contributor with public key ".to_owned();
                r.append(s.as_str());
                r
            },
            ResponseError::UnknownTask(t) => {
                let mut r = "Could not find the provided Task ".to_owned();
                r.append(u64_to_string(t.round_height).as_str());
                r.append("/");
                r.append(u64_to_string(t.chunk_id).as_str());
                r.append("/");
                r.append(u64_to_string(t.contribution_id).as_str());
                r.append(" in coordinator state");
                r
            },
            ResponseError::WrongDigestEncoding(s) => {
                let mut r = "Digest of request's body is not base64 encoded: ".to_owned();
                r.append(s.as_str());
                r
            },
        }
    }
}

} // verus!
