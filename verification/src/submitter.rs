//! The submitter's verified core: deriving the persisted fields of a
//! fetched challenge, the upstream URLs, the acceptance test on an HTTP
//! status, the refresh cadence, and how one submission outcome is recorded
//! on a solution row. The unverified shell owns the HTTP client and the
//! two loops.

use vstd::prelude::*;
use crate::types::Challenge;
use crate::types::spec_solution_empty;
use crate::types::is_failed_status;
use crate::store::SubmitStore;
use crate::store::StoreError;
use crate::store::store_wf;
use crate::store::store_has_id;
use crate::store::spec_apply_submission;
use crate::utils::handle_submit_error;
use crate::utils::spec_classify_submit_error;
use crate::codec::u64_to_dec;
use crate::codec::spec_dec;

verus! {

/// Where the upstream API lives.
#[derive(Debug, Clone)]
pub struct Config {
    pub base_url: String,
}

/// What chrono reads from an RFC3339 date-and-time string: its epoch
/// seconds, or nothing when the string does not parse.
pub uninterp spec fn rfc3339_epoch_of(s: Seq<char>) -> Option<i64>;

/// Relies on chrono's DateTime::parse_from_rfc3339 and timestamp: whether
/// the string parses, and the epoch it denotes, are functions of the
/// string alone.
#[verifier::external_body]
fn parse_rfc3339_epoch(s: &str) -> (r: Option<i64>)
    ensures
        r == rfc3339_epoch_of(s@),
{
    match chrono::DateTime::parse_from_rfc3339(s) {
        Ok(dt) => Some(dt.timestamp()),
        Err(_) => None,
    }
}

/// Why a fetched challenge cannot be persisted.
#[derive(Debug, Clone, Copy, PartialEq, Eq, Structural)]
pub enum ChallengeError {
    /// `latest_submission` is no RFC3339 timestamp, or its epoch does not
    /// fit the persisted field.
    BadTimestamp,
}

/// Derive the persisted fields of a fetched challenge: its key becomes
/// its challenge id, and its deadline epoch is read from
/// `latest_submission`.
pub fn finalize_challenge(data: Challenge) -> (r: Result<Challenge, ChallengeError>)
    ensures
        (match r {
            Ok(c) => {
                &&& rfc3339_epoch_of(data.challenge.latest_submission@) == Some(
                    c.latest_submission_epoch as i64,
                )
                &&& c.id@ == data.challenge.challenge_id@
                &&& c.challenge == data.challenge
                &&& c.total_challenges == data.total_challenges
                &&& c.next_challenge_starts_at == data.next_challenge_starts_at
            },
            Err(_) => rfc3339_epoch_of(data.challenge.latest_submission@) is None || !(i32::MIN
                <= rfc3339_epoch_of(data.challenge.latest_submission@)->0 <= i32::MAX),
        }),
{
    let e = match parse_rfc3339_epoch(data.challenge.latest_submission.as_str()) {
        Some(e) => e,
        None => {
            return Err(ChallengeError::BadTimestamp);
        },
    };
    if e < -2147483648i64 || e > 2147483647i64 {
        return Err(ChallengeError::BadTimestamp);
    }
    let id = data.challenge.challenge_id.clone();
    Ok(
        Challenge {
            id,
            challenge: data.challenge,
            total_challenges: data.total_challenges,
            next_challenge_starts_at: data.next_challenge_starts_at,
            latest_submission_epoch: e as i32,
        },
    )
}

/// The upstream challenge endpoint.
pub fn challenge_url(base: &String) -> (r: String)
    ensures
        r@ == base@ + "/challenge"@,
{
    let mut out = base.clone();
    out.append("/challenge");
    out
}

/// The upstream submission endpoint for one solution: base, address,
/// challenge id and nonce, slash-separated.
pub fn submission_url(base: &String, address: &String, challenge_id: &String, nonce: &String)
    -> (r: String)
    ensures
        r@ == base@ + "/solution/"@ + address@ + seq!['/'] + challenge_id@ + seq!['/']
            + nonce@,
{
    let mut out = base.clone();
    out.append("/solution/");
    out.append(address.as_str());
    out.append("/");
    out.append(challenge_id.as_str());
    out.append("/");
    out.append(nonce.as_str());
    proof {
        reveal_strlit("/");
        assert(out@ =~= base@ + "/solution/"@ + address@ + seq!['/'] + challenge_id@ + seq!['/']
            + nonce@);
    }
    out
}

/// Whether an upstream status accepts a submission: 200 or 201.
pub fn accept_status(status: u16) -> (r: bool)
    ensures
        r == (status == 200 || status == 201),
{
    status == 200 || status == 201
}

/// The error text for an unexpected upstream status, carrying the body
/// the classification later searches.
pub fn non_ok_message(status: u16, body: &String) -> (r: String)
    ensures
        r@ == "non-OK HTTP status: "@ + spec_dec(status as int) + ", body: "@ + body@,
{
    let mut out = String::new();
    out.append("non-OK HTTP status: ");
    let d = u64_to_dec(status as u64);
    out.append(d.as_str());
    out.append(", body: ");
    out.append(body.as_str());
    out
}

/// Whether the challenge refresher must fetch again: more than five
/// seconds passed since the last update.
pub fn should_refresh(now: u64, last_update: u64) -> (r: bool)
    requires
        last_update <= now,
    ensures
        r == (now - last_update > 5),
{
    now - last_update > 5
}

/// What one submission try came to.
pub enum SubmitOutcome {
    /// The upstream accepted with a 2xx and a receipt; the time it was
    /// recorded at.
    Accepted { submitted_time: i64 },
    /// Anything else; the error text to classify.
    Failed { message: String },
}

/// How a row reads after an outcome was recorded on it: `submitted` with
/// the submission time on acceptance, else the terminal status classified
/// from the error text; everything else untouched.
pub open spec fn submission_row_matches(
    updated: crate::types::Solution,
    before: crate::types::Solution,
    outcome: SubmitOutcome,
) -> bool {
    &&& (match outcome {
        SubmitOutcome::Accepted { submitted_time } => updated.status@ == "submitted"@
            && updated.submitted_time == submitted_time,
        SubmitOutcome::Failed { message } => updated.status@ == spec_classify_submit_error(
            message@,
        ) && updated.submitted_time == before.submitted_time,
    })
    &&& updated.id == before.id
    &&& updated.challenge_id == before.challenge_id
    &&& updated.address == before.address
    &&& updated.instance_id == before.instance_id
    &&& updated.submitter_id == before.submitter_id
    &&& updated.nonce == before.nonce
    &&& updated.hash == before.hash
    &&& updated.preimage == before.preimage
    &&& updated.create_time == before.create_time
    &&& updated.found_time == before.found_time
    &&& updated.time_taken_sec == before.time_taken_sec
    &&& updated.total_hashes == before.total_hashes
}

/// Record one submission outcome on the solution row that was submitted.
/// The row must be beyond its claim phase, as every `found` row is.
pub fn record_submission_outcome(
    store: &mut SubmitStore,
    id: &String,
    outcome: &SubmitOutcome,
    ) -> (r: Result<(), StoreError>)
    requires
        store_wf(*old(store)),
        forall|i: int|
            0 <= i < old(store).rows@.len() && (#[trigger] old(store).rows@[i]).id@ == id@
                ==> !spec_solution_empty(old(store).rows@[i]),
    ensures
        store_wf(*final(store)),
        r is Ok <==> store_has_id(*old(store), id@),
        r is Err ==> r == Err::<(), StoreError>(StoreError::MissingRow) && *final(store)
            == *old(store),
        r is Ok ==> final(store).rows@.len() == old(store).rows@.len() && exists|i: int|
            0 <= i < old(store).rows@.len() && (#[trigger] old(store).rows@[i]).id@ == id@
                && submission_row_matches(final(store).rows@[i], old(store).rows@[i], *outcome)
                && (forall|j: int|
                0 <= j < old(store).rows@.len() && j != i ==> final(store).rows@[j] == old(
                    store,
                ).rows@[j]),
{
    let (status, submitted_time) = match outcome {
        SubmitOutcome::Accepted { submitted_time } => {
            let mut s = String::new();
            s.append("submitted");
            (s, *submitted_time)
        },
        SubmitOutcome::Failed { message } => {
            let s = handle_submit_error(message.as_str());
            proof {
                assert(is_failed_status(s@));
            }
            (s, 0i64)
        },
    };
    let ghost status_spec = status;
    match store.mark_submission(id, status, submitted_time) {
        Ok(_) => {
            proof {
                crate::types::lemma_status_classes();
                assert(crate::types::is_found_like_status("submitted"@));
                let i0 = choose|i: int|
                    0 <= i < old(store).rows@.len() && (#[trigger] old(store).rows@[i]).id@
                        == id@ && store.rows@ == old(store).rows@.update(
                        i,
                        spec_apply_submission(old(store).rows@[i], status_spec, submitted_time),
                    );
                assert(store.rows@[i0] == spec_apply_submission(
                    old(store).rows@[i0],
                    status_spec,
                    submitted_time,
                ));
                assert(submission_row_matches(store.rows@[i0], old(store).rows@[i0], *outcome));
            }
            Ok(())
        },
        Err(_) => Err(StoreError::MissingRow),
    }
}

} // verus!
