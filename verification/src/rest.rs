//! The request pipeline behind the REST surface.
//!
//! Every mutating endpoint composes three guards in order: signature
//! verification producing an authenticated public key, body integrity
//! (content length, digest header, recomputed digest equal), and a role
//! check against the coordinator's state. Each guard maps a failure to a
//! distinct error kind; none of them mutates coordinator state.

use vstd::prelude::*;

use crate::coordinator::CoordinatorState;
use crate::crypto::{base64_decode_of, base64_encode, base64_of, sha256, sha256_of};
use crate::decimal::{dec_value, u64_to_string};
use crate::errors::{spec_coordinator_error_text, CoordinatorError, HeaderName, ResponseError};
use crate::headers::{spec_len_ok, spec_digest_value, RequestContent};
use crate::participant::Participant;
use crate::tokens::{spec_token_format, spec_token_set};

verus! {

/// A deserialized request body whose digest was checked before parsing.
#[derive(Debug)]
pub struct LazyJson<T>(pub T);

impl<T> LazyJson<T> {
    pub fn new(value: T) -> (r: LazyJson<T>)
        ensures
            r.0 == value,
    {
        LazyJson(value)
    }

    pub fn get(&self) -> (r: &T)
        ensures
            r == &self.0,
    {
        &self.0
    }

    pub fn into_inner(self) -> (r: T)
        ensures
            r == self.0,
    {
        self.0
    }
}

/// Checks the integrity of a request body against the `Digest` and
/// `Content-Length` headers: both present and well formed, and the
/// server-side SHA-256 of the received bytes equal, in base64, to the
/// digest the client declared.
///
/// Succeeds exactly then, with the parsed content; every failure is a
/// distinct kind, and a digest mismatch reports expected and actual.
pub fn validate_body(
    digest_header: Option<&str>,
    content_length: Option<&str>,
    body: &Vec<u8>,
) -> (r: Result<RequestContent, ResponseError>)
    ensures
        r is Ok <==> digest_header is Some && content_length is Some && spec_digest_value(
            digest_header->Some_0@,
        ) is Some && base64_decode_of(spec_digest_value(digest_header->Some_0@)->Some_0) is Some
            && spec_len_ok(content_length->Some_0@) && base64_of(sha256_of(body@))
            == spec_digest_value(digest_header->Some_0@)->Some_0,
        r is Ok ==> r->Ok_0.digest@ == spec_digest_value(digest_header->Some_0@)->Some_0
            && r->Ok_0.len == dec_value(content_length->Some_0@),
        r is Err ==> match r->Err_0 {
            ResponseError::MissingRequiredHeader(h) => (h == HeaderName::BodyDigest
                && digest_header is None) || (h == HeaderName::ContentLength
                && digest_header is Some && content_length is None),
            ResponseError::InvalidHeader(h) => digest_header is Some && content_length is Some
                && ((h == HeaderName::BodyDigest && spec_digest_value(
                digest_header->Some_0@,
            ) is None) || (h == HeaderName::ContentLength && spec_digest_value(
                digest_header->Some_0@,
            ) is Some && base64_decode_of(spec_digest_value(digest_header->Some_0@)->Some_0) is Some
                && !spec_len_ok(content_length->Some_0@))),
            ResponseError::WrongDigestEncoding(_) => digest_header is Some
                && content_length is Some && spec_digest_value(digest_header->Some_0@) is Some
                && base64_decode_of(spec_digest_value(digest_header->Some_0@)->Some_0) is None,
            ResponseError::MismatchingChecksum(e, a) => digest_header is Some
                && content_length is Some && spec_digest_value(digest_header->Some_0@) is Some
                && base64_decode_of(spec_digest_value(digest_header->Some_0@)->Some_0) is Some
                && spec_len_ok(content_length->Some_0@) && base64_of(sha256_of(body@))
                != spec_digest_value(digest_header->Some_0@)->Some_0 && e@ == spec_digest_value(
                digest_header->Some_0@,
            )->Some_0 && a@ == base64_of(sha256_of(body@)),
            _ => false,
        },
{
    let dh = match digest_header {
        Some(d) => d,
        None => {
            return Err(ResponseError::MissingRequiredHeader(HeaderName::BodyDigest));
        },
    };
    let cl = match content_length {
        Some(c) => c,
        None => {
            return Err(ResponseError::MissingRequiredHeader(HeaderName::ContentLength));
        },
    };
    let content = match RequestContent::try_from_header(cl, dh) {
        Ok(c) => c,
        Err(e) => {
            return Err(e);
        },
    };
    let digest = base64_encode(sha256(body.as_slice()).as_slice());
    if !digest.eq(&content.digest) {
        return Err(ResponseError::MismatchingChecksum(content.digest, digest));
    }
    Ok(content)
}

/// The access guard of the status endpoint: the request must carry the
/// process-wide shared secret.
#[derive(Debug)]
pub struct Secret;

impl Secret {
    /// Accepts exactly a provided secret equal to the expected one.
    pub fn from_header(provided: Option<&String>, expected: &String) -> (r: Result<
        Secret,
        ResponseError,
    >)
        ensures
            r is Ok <==> provided is Some && provided->Some_0@ == expected@,
            r is Err ==> r->Err_0 is InvalidSecret,
    {
        match provided {
            Some(s) if s.eq(expected) => Ok(Secret),
            _ => Err(ResponseError::InvalidSecret),
        }
    }
}

/// The guard of administrative endpoints: the authenticated key must be
/// the coordinator's own (first) verifier.
#[derive(Debug)]
pub struct ServerAuth;

impl ServerAuth {
    pub fn check(state: &CoordinatorState, pubkey: &str, endpoint: &str) -> (r: Result<
        ServerAuth,
        ResponseError,
    >)
        ensures
            r is Ok <==> state.verifiers@.len() > 0 && state.verifiers@[0]@ == (false, pubkey@),
            r is Err ==> match r->Err_0 {
                ResponseError::UnauthorizedParticipant(p, ep, cause) => p@ == (false, pubkey@)
                    && ep@ == endpoint@ && cause@ == "Not the coordinator's verifier"@,
                _ => false,
            },
    {
        let verifier = Participant::new_verifier(pubkey);
        if state.verifiers.len() > 0 && state.verifiers[0].eq(&verifier) {
            Ok(ServerAuth)
        } else {
            Err(
                ResponseError::UnauthorizedParticipant(
                    verifier,
                    endpoint.to_owned(),
                    "Not the coordinator's verifier".to_owned(),
                ),
            )
        }
    }
}

/// The guard of contributor endpoints: the authenticated key must be the
/// current contributor.
#[derive(Debug)]
pub struct CurrentContributor(pub Participant);

impl CurrentContributor {
    /// The authenticated participant.
    pub fn participant(&self) -> (r: &Participant)
        ensures
            r == &self.0,
    {
        &self.0
    }

    /// Accepts exactly the current contributor; a banned, a dropped and a
    /// merely non-current participant are refused with distinct causes.
    pub fn from_pubkey(state: &CoordinatorState, pubkey: &str, endpoint: &str) -> (r: Result<
        CurrentContributor,
        ResponseError,
    >)
        ensures
            r is Ok <==> state.is_current((true, pubkey@)),
            r is Ok ==> r->Ok_0.0@ == (true, pubkey@),
            r is Err ==> match r->Err_0 {
                ResponseError::UnauthorizedParticipant(p, ep, cause) => p@ == (true, pubkey@)
                    && ep@ == endpoint@ && cause@ == (if state.in_banned((true, pubkey@)) {
                    "Participant has been banned from the ceremony"@
                } else if state.in_dropped((true, pubkey@)) {
                    "Participant has been dropped from the ceremony"@
                } else {
                    "Participant is not the current contributor"@
                }),
                _ => false,
            },
    {
        let participant = Participant::new_contributor(pubkey);
        if state.is_current_contributor(&participant) {
            return Ok(CurrentContributor(participant));
        }
        let cause: &'static str = if state.is_banned_participant(&participant) {
            "Participant has been banned from the ceremony"
        } else if state.is_dropped_participant(&participant) {
            "Participant has been dropped from the ceremony"
        } else {
            "Participant is not the current contributor"
        };
        Err(ResponseError::UnauthorizedParticipant(participant, endpoint.to_owned(), cause.to_owned()))
    }
}

/// The guard of the admission endpoint: the authenticated key must be
/// entirely unknown to the ceremony and its address not yet queued.
#[derive(Debug)]
pub struct NewParticipant {
    pub participant: Participant,
    pub ip_address: Option<String>,
}

impl NewParticipant {
    pub fn participant(&self) -> (r: &Participant)
        ensures
            r == &self.participant,
    {
        &self.participant
    }

    pub fn ip_address(&self) -> (r: &Option<String>)
        ensures
            r == &self.ip_address,
    {
        &self.ip_address
    }

    /// Accepts exactly a participant that passes the coordinator's
    /// admission checks; the refusal carries the coordinator's reason.
    pub fn from_pubkey(
        state: &CoordinatorState,
        pubkey: &str,
        ip_address: Option<String>,
        endpoint: &str,
    ) -> (r: Result<NewParticipant, ResponseError>)
        ensures
            r is Ok <==> !state.done && !state.known((true, pubkey@)) && (ip_address is Some
                ==> !crate::coordinator::queue_holds_address(state.queue@, ip_address->Some_0@)),
            r is Ok ==> r->Ok_0.participant@ == (true, pubkey@) && r->Ok_0.ip_address
                == ip_address,
            r is Err ==> match r->Err_0 {
                ResponseError::UnauthorizedParticipant(p, ep, cause) => p@ == (true, pubkey@)
                    && ep@ == endpoint@ && exists|ce: CoordinatorError|
                    cause@ == spec_coordinator_error_text(ce),
                _ => false,
            },
    {
        let participant = Participant::new_contributor(pubkey);
        match state.add_to_queue_checks(&participant, ip_address.as_ref()) {
            Ok(()) => Ok(NewParticipant { participant, ip_address }),
            Err(e) => {
                let cause = e.text().to_owned();
                proof {
                    assert(cause@ == spec_coordinator_error_text(e));
                }
                Err(
                    ResponseError::UnauthorizedParticipant(
                        participant,
                        endpoint.to_owned(),
                        cause,
                    ),
                )
            },
        }
    }
}

/// Admits a contributor: the admission token must be well formed and in
/// the current cohort's set, and the participant must pass the
/// coordinator's checks; then it joins the queue with the configured
/// initial reliability. Nothing changes on failure.
pub fn join_queue(
    state: &mut CoordinatorState,
    new_participant: NewParticipant,
    token: &String,
    reliability: u64,
    now: u64,
) -> (r: Result<(), ResponseError>)
    requires
        old(state).wf(),
    ensures
        final(state).wf(),
        final(state).round_height == old(state).round_height,
        ({
            let ts = old(state).tokens;
            let token_ok = spec_token_format(token@) && ts.current_cohort < ts.cohorts@.len()
                && spec_token_set(ts.cohorts@[ts.current_cohort as int]@).contains(token@);
            let admit_ok = !old(state).done && !old(state).known(new_participant.participant@) && (
            new_participant.ip_address is Some ==> !crate::coordinator::queue_holds_address(
                old(state).queue@,
                new_participant.ip_address->Some_0@,
            ));
            &&& r is Ok <==> token_ok && admit_ok
            &&& r is Ok ==> spec_token_set(ts.cohorts@[ts.current_cohort as int]@).contains(
                token@,
            ) && final(state).in_queue(new_participant.participant@) && final(state).queue@.len()
                == old(state).queue@.len() + 1 && final(state).queue@.last().participant@
                == new_participant.participant@ && final(state).queue@.last().reliability
                == reliability && final(state).queue@.last().admitted_at == now
            &&& r is Err ==> *final(state) == *old(state) && match r->Err_0 {
                ResponseError::InvalidTokenFormat => !spec_token_format(token@),
                ResponseError::CeremonyIsOver => spec_token_format(token@) && ts.current_cohort
                    >= ts.cohorts@.len(),
                ResponseError::InvalidToken(c) => c == ts.current_cohort && spec_token_format(
                    token@,
                ) && ts.current_cohort < ts.cohorts@.len() && !spec_token_set(
                    ts.cohorts@[ts.current_cohort as int]@,
                ).contains(token@),
                ResponseError::CoordinatorError(_) => token_ok && !admit_ok,
                _ => false,
            }
        }),
{
    if let Err(e) = state.tokens.check_token(token) {
        return Err(e);
    }
    let NewParticipant { participant, ip_address } = new_participant;
    match state.add_to_queue(participant, ip_address, reliability, now) {
        Ok(()) => Ok(()),
        Err(e) => Err(ResponseError::CoordinatorError(e)),
    }
}

/// Registers a finished and uploaded contribution for the round's single
/// chunk, advancing the caller to finished contributor; the bytes
/// themselves were fetched and persisted outside the state machine before
/// this is called.
pub fn contribute_chunk(
    state: &mut CoordinatorState,
    participant: &CurrentContributor,
    chunk_id: u64,
) -> (r: Result<(), ResponseError>)
    requires
        old(state).wf(),
    ensures
        final(state).wf(),
        final(state).round_height == old(state).round_height,
        r is Ok <==> !old(state).done && chunk_id == 0 && old(state).is_current(participant.0@)
            && old(state).current_locked,
        r is Ok ==> final(state).current is None && final(state).finished@.len() == 1 && final(state).finished@[0]@ == participant.0@ && final(state).pending_verification == Some(
            crate::objects::Task {
                round_height: old(state).round_height,
                chunk_id: 0u64,
                contribution_id: 1u64,
            },
        ),
        r is Err ==> *final(state) == *old(state) && r->Err_0 is CoordinatorError,
{
    match state.try_contribute(&participant.0, chunk_id) {
        Ok(()) => Ok(()),
        Err(e) => Err(ResponseError::CoordinatorError(e)),
    }
}

/// The canonical refusal texts of a contribution info record.
pub open spec fn spec_info_pubkey_mismatch(info_key: Seq<char>, participant_key: Seq<char>) -> Seq<
    char,
> {
    "Public key in info "@ + info_key + " doesnt' match the participant one "@ + participant_key
}

pub open spec fn spec_info_round_mismatch(info_round: int, current_round: int) -> Seq<char> {
    "Round height in info "@ + crate::decimal::dec_digits(info_round)
        + " doesnt' match the current round height "@ + crate::decimal::dec_digits(current_round)
}

/// Validates contributor-supplied contribution info: its public key must
/// be the authenticated participant's and its round the current one.
/// Persisting the record is the storage layer's business and happens only
/// after this accepts.
pub fn post_contribution_info(
    state: &CoordinatorState,
    participant: &CurrentContributor,
    info: &crate::objects::ContributionInfo,
) -> (r: Result<(), ResponseError>)
    ensures
        r is Ok <==> info.public_key@ == participant.0@.1 && info.ceremony_round
            == state.round_height,
        r is Err ==> match r->Err_0 {
            ResponseError::InvalidContributionInfo(m) => (info.public_key@ != participant.0@.1
                && m@ == spec_info_pubkey_mismatch(info.public_key@, participant.0@.1)) || (
            info.public_key@ == participant.0@.1 && info.ceremony_round != state.round_height && m@
                == spec_info_round_mismatch(
                info.ceremony_round as int,
                state.round_height as int,
            )),
            _ => false,
        },
{
    if !info.public_key.eq(participant.0.address()) {
        let mut m = "Public key in info ".to_owned();
        m.append(info.public_key.as_str());
        m.append(" doesnt' match the participant one ");
        m.append(participant.0.address().as_str());
        return Err(ResponseError::InvalidContributionInfo(m));
    }
    if info.ceremony_round != state.round_height {
        let mut m = "Round height in info ".to_owned();
        m.append(u64_to_string(info.ceremony_round).as_str());
        m.append(" doesnt' match the current round height ");
        m.append(u64_to_string(state.round_height).as_str());
        return Err(ResponseError::InvalidContributionInfo(m));
    }
    Ok(())
}

/// One verification pass of the periodic driver: applies the verifier's
/// verdict on the pending contribution. On a rejected artifact the round
/// is reset and the offending contributor banned and returned, so the
/// next tick can promote a replacement.
pub fn perform_verify_chunks(state: &mut CoordinatorState, outcome: bool) -> (r: Result<
    Option<Participant>,
    ResponseError,
>)
    requires
        old(state).wf(),
    ensures
        final(state).wf(),
        final(state).round_height == old(state).round_height,
        r is Ok <==> !old(state).done,
        r is Err ==> *final(state) == *old(state) && r->Err_0 is CoordinatorError,
        r is Ok && old(state).pending_verification is None ==> *final(state) == *old(state)
            && r->Ok_0 is None,
        r is Ok && old(state).pending_verification is Some && outcome ==> r->Ok_0 is None && final(state).pending_verification is None && final(state).finished == old(state).finished
            && final(state).queue == old(state).queue && final(state).current == old(state).current
            && final(state).current_locked == old(state).current_locked && final(state).dropped
            == old(state).dropped && final(state).banned == old(state).banned && final(state).history == old(state).history && final(state).tokens == old(state).tokens && final(state).done == old(state).done && final(state).verifiers == old(state).verifiers,
        r is Ok && old(state).pending_verification is Some && !outcome ==> r->Ok_0 is Some
            && r->Ok_0->Some_0@ == old(state).finished@[0]@ && final(state).pending_verification is None && final(state).finished@.len() == 0 && final(state).in_banned(old(state).finished@[0]@)
            && final(state).current is None && !final(state).current_locked && final(state).banned@
            == old(state).banned@.push(final(state).banned@.last()) && final(state).banned@.last()@
            == old(state).finished@[0]@ && final(state).queue == old(state).queue && final(state).dropped == old(state).dropped && final(state).history == old(state).history && final(state).tokens == old(state).tokens && final(state).done == old(state).done && final(state).verifiers == old(state).verifiers,
{
    match state.apply_verification(outcome) {
        Ok(banned) => Ok(banned),
        Err(e) => Err(ResponseError::CoordinatorError(e)),
    }
}

/// One advancement pass of the periodic driver: drops unresponsive
/// participants, then advances the round if it is eligible.
///
/// The composed effect is exactly the two steps in order: some
/// intermediate state is the old one with the unresponsive participants
/// dropped ([`crate::coordinator::spec_drop_effect`]), and the final state
/// is that one advanced ([`crate::coordinator::spec_advance_effect`]) — or
/// unchanged from it when the advancement step refuses (only possible at
/// the round counter's ceiling).
pub fn perform_coordinator_update(
    state: &mut CoordinatorState,
    now: u64,
    timeout: u64,
) -> (r: Result<(), ResponseError>)
    requires
        old(state).wf(),
    ensures
        final(state).wf(),
        final(state).round_height >= old(state).round_height,
        r is Ok <==> !old(state).done && !(old(state).pending_verification is None && old(state).finished@.len() == 1 && old(state).round_height == u64::MAX),
        old(state).done ==> r is Err && *final(state) == *old(state),
        r is Err ==> r->Err_0 is CoordinatorError,
        !old(state).done ==> exists|mid: CoordinatorState|
            #![auto]
            crate::coordinator::spec_drop_effect(*old(state), mid, now, timeout) && (if r is Ok {
                exists|advanced: bool|
                    crate::coordinator::spec_advance_effect(mid, *final(state), advanced)
            } else {
                *final(state) == mid
            }),
{
    if let Err(e) = state.drop_unresponsive(now, timeout) {
        return Err(ResponseError::CoordinatorError(e));
    }
    let ghost mid = *state;
    match state.update() {
        Ok(advanced) => {
            proof {
                assert(crate::coordinator::spec_advance_effect(mid, *state, advanced));
            }
            Ok(())
        },
        Err(e) => Err(ResponseError::CoordinatorError(e)),
    }
}

/// Stops the coordinator; further mutating operations fail. The refusal
/// of a repeated stop is reported as a shutdown error, as the wire surface
/// does.
pub fn stop_coordinator(state: &mut CoordinatorState) -> (r: Result<(), ResponseError>)
    requires
        old(state).wf(),
    ensures
        final(state).wf(),
        final(state).round_height == old(state).round_height,
        r is Ok <==> !old(state).done,
        final(state).done,
        final(state).queue == old(state).queue && final(state).current == old(state).current
            && final(state).current_locked == old(state).current_locked && final(state).finished
            == old(state).finished && final(state).dropped == old(state).dropped && final(state).banned == old(state).banned && final(state).pending_verification == old(state).pending_verification && final(state).history == old(state).history && final(state).tokens
            == old(state).tokens && final(state).verifiers == old(state).verifiers,
        r is Err ==> match r->Err_0 {
            ResponseError::ShutdownError(m) => m@ == spec_coordinator_error_text(
                CoordinatorError::CeremonyShutdown,
            ),
            _ => false,
        },
{
    match state.shutdown() {
        Ok(()) => Ok(()),
        Err(e) => Err(ResponseError::ShutdownError(e.text().to_owned())),
    }
}

} // verus!
