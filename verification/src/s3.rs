//! Object-store exchange protocol: the stable key schema under which
//! artifacts live, the retry policy for transient failures, and the error
//! kinds of the gateway.
//!
//! The gateway itself performs network I/O and lives outside the library; it
//! asks these functions which keys to address and whether (and how long) to
//! back off after a transient response.

use vstd::prelude::*;

use crate::decimal::{dec_digits, u64_to_string};

verus! {

/// File name of the persisted token archive.
pub const TOKENS_ZIP_FILE: &'static str = "tokens.zip";

/// Retries are abandoned after this many backoff rounds.
pub const MAX_REQUEST_RETRY: u32 = 8;

/// Errors of the object-store gateway.
#[derive(Debug)]
pub enum S3Error {
    /// Error while creating the http client.
    Client(String),
    /// Error while generating credentials.
    Credentials(String),
    /// Delete of a remote file failed.
    DeleteError(String),
    /// Download of a remote file failed.
    DownloadError(String),
    /// The remote contribution file is present but empty.
    EmptyContribution,
    /// The remote contribution file signature is present but empty.
    EmptyContributionSignature,
    /// Error in IO.
    IOError(String),
    /// Upload of a file failed.
    UploadError(String),
}

/// Key of the round's verified starting point:
/// `round_{R}/chunk_0/contribution_0.verified`.
pub open spec fn spec_challenge_key(round: int) -> Seq<char> {
    "round_"@ + dec_digits(round) + "/chunk_0/contribution_0.verified"@
}

/// Key of the contributor's output, pending verification:
/// `round_{R}/chunk_0/contribution_1.unverified`.
pub open spec fn spec_contribution_key(round: int) -> Seq<char> {
    "round_"@ + dec_digits(round) + "/chunk_0/contribution_1.unverified"@
}

/// Key of the detached signature over the contributor's output.
pub open spec fn spec_contribution_sig_key(round: int) -> Seq<char> {
    "round_"@ + dec_digits(round) + "/chunk_0/contribution_1.unverified.signature"@
}

/// Key of the current token archive, by deployment flavour.
pub open spec fn spec_tokens_key(prod: bool) -> Seq<char> {
    if prod {
        "production/"@ + "tokens.zip"@
    } else {
        "master/"@ + "tokens.zip"@
    }
}

/// Builds the key of the verified starting point of `round`.
pub fn challenge_key(round: u64) -> (r: String)
    ensures
        r@ == spec_challenge_key(round as int),
{
    let mut s = "round_".to_owned();
    s.append(u64_to_string(round).as_str());
    s.append("/chunk_0/contribution_0.verified");
    s
}

/// Builds the key under which the contributor of `round` uploads its output.
pub fn contribution_key(round: u64) -> (r: String)
    ensures
        r@ == spec_contribution_key(round as int),
{
    let mut s = "round_".to_owned();
    s.append(u64_to_string(round).as_str());
    s.append("/chunk_0/contribution_1.unverified");
    s
}

/// Builds the key under which the contributor of `round` uploads the
/// detached signature of its output.
pub fn contribution_sig_key(round: u64) -> (r: String)
    ensures
        r@ == spec_contribution_sig_key(round as int),
{
    let mut s = "round_".to_owned();
    s.append(u64_to_string(round).as_str());
    s.append("/chunk_0/contribution_1.unverified.signature");
    s
}

/// Builds the key of the token archive: `production/tokens.zip` in the
/// production deployment, `master/tokens.zip` otherwise.
pub fn tokens_key(prod: bool) -> (r: String)
    ensures
        r@ == spec_tokens_key(prod),
{
    let mut s = if prod {
        "production/".to_owned()
    } else {
        "master/".to_owned()
    };
    s.append(TOKENS_ZIP_FILE);
    s
}

/// Whether an HTTP status names a transient condition worth retrying.
pub open spec fn is_transient_status(code: u16) -> bool {
    code == 429 || code == 500 || code == 502 || code == 503 || code == 504
}

/// Backoff before retry number `attempt`: 100 ms doubled per attempt.
pub open spec fn backoff_ms(attempt: int) -> int
    decreases attempt,
{
    if attempt <= 0 {
        100
    } else {
        2 * backoff_ms(attempt - 1)
    }
}

/// Decides whether a failed object-store request is retried.
///
/// Returns the backoff in milliseconds exactly when the response status is
/// transient (429, 500, 502, 503 or 504) and fewer than
/// [`MAX_REQUEST_RETRY`] retries have been spent; any other error is
/// surfaced immediately.
pub fn retry_decision(status: u16, attempt: u32) -> (r: Option<u64>)
    ensures
        r is Some <==> is_transient_status(status) && attempt < MAX_REQUEST_RETRY,
        r is Some ==> r->Some_0 == backoff_ms(attempt as int),
{
    if !(status == 429 || status == 500 || status == 502 || status == 503 || status == 504) {
        return None;
    }
    if attempt >= MAX_REQUEST_RETRY {
        return None;
    }
    proof {
        reveal_with_fuel(backoff_ms, 9);
    }
    match attempt {
        0 => Some(100),
        1 => Some(200),
        2 => Some(400),
        3 => Some(800),
        4 => Some(1600),
        5 => Some(3200),
        6 => Some(6400),
        _ => Some(12800),
    }
}

} // verus!
