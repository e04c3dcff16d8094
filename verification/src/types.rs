//! The domain records: challenges, addresses, solutions (claim rows),
//! per-instance configuration, and the statuses a solution row moves
//! through, with the invariants the store keeps over them.

use vstd::prelude::*;
use crate::utils::spec_short_address;

verus! {

/// The claim row and final artifact for one (challenge, address) task.
/// Keyed by `id`, which is always `challenge_id:short_address`.
#[derive(Debug, Clone)]
pub struct Solution {
    pub id: String,
    pub instance_id: String,
    pub challenge_id: String,
    pub address: String,
    pub nonce: String,
    pub hash: String,
    pub preimage: String,
    pub create_time: i64,
    pub found_time: i64,
    pub submitted_time: i64,
    pub time_taken_sec: i32,
    pub total_hashes: i32,
    pub status: String,
    pub submitter_id: String,
}

/// A claim that is still being searched.
pub open spec fn is_claim_status(s: Seq<char>) -> bool {
    s == "onit"@ || s == "onit_self_submit"@
}

/// A solution whose nonce, hash and preimage are owed: found (either
/// submission path) or already submitted.
pub open spec fn is_found_like_status(s: Seq<char>) -> bool {
    s == "found"@ || s == "found_self_submit"@ || s == "submitted"@
}

/// A terminal submission failure.
pub open spec fn is_failed_status(s: Seq<char>) -> bool {
    s == "failed_to_submit_deadline_exceeded"@
    || s == "failed_to_submit_timeout"@
    || s == "failed_to_submit_solution_exists"@
    || s == "failed_to_submit_submission_window_closed"@
    || s == "failed_to_submit_general"@
}

/// Any status a stored solution row may carry.
pub open spec fn is_known_status(s: Seq<char>) -> bool {
    is_claim_status(s) || is_found_like_status(s) || is_failed_status(s)
}

/// The three status classes are disjoint: a claim is neither found-like
/// nor failed, and a found-like status is no failure.
pub proof fn lemma_status_classes()
    ensures
        forall|s: Seq<char>| #[trigger] is_found_like_status(s) ==> !is_claim_status(s)
            && !is_failed_status(s),
        forall|s: Seq<char>| #[trigger] is_failed_status(s) ==> !is_claim_status(s),
{
    reveal_strlit("onit");
    reveal_strlit("onit_self_submit");
    reveal_strlit("found");
    reveal_strlit("found_self_submit");
    reveal_strlit("submitted");
    reveal_strlit("failed_to_submit_deadline_exceeded");
    reveal_strlit("failed_to_submit_timeout");
    reveal_strlit("failed_to_submit_solution_exists");
    reveal_strlit("failed_to_submit_submission_window_closed");
    reveal_strlit("failed_to_submit_general");
    assert("onit"@.len() == 4);
    assert("onit_self_submit"@.len() == 16);
    assert("found"@.len() == 5);
    assert("found_self_submit"@.len() == 17);
    assert("submitted"@.len() == 9);
    assert("failed_to_submit_deadline_exceeded"@.len() == 34);
    assert("failed_to_submit_timeout"@.len() == 24);
    assert("failed_to_submit_solution_exists"@.len() == 32);
    assert("failed_to_submit_submission_window_closed"@.len() == 41);
    assert("failed_to_submit_general"@.len() == 24);
}

/// A solution is empty when any of nonce, hash and preimage is missing.
pub open spec fn spec_solution_empty(s: Solution) -> bool {
    s.nonce@.len() == 0 || s.hash@.len() == 0 || s.preimage@.len() == 0
}

/// The key a solution row must carry: its challenge, a colon, and the
/// short form of its address.
pub open spec fn spec_solution_key(s: Solution) -> Seq<char> {
    s.challenge_id@ + seq![':'] + spec_short_address(s.address@)
}

/// What the store keeps of every row: the key shape, a known status, and
/// nonce/hash/preimage present exactly beyond the claim phase.
pub open spec fn solution_wf(s: Solution) -> bool {
    &&& s.id@ == spec_solution_key(s)
    &&& is_known_status(s.status@)
    &&& (is_claim_status(s.status@) <==> spec_solution_empty(s))
}

impl Solution {
    /// A copy whose every field is known equal to the original's.
    pub fn cloned(&self) -> (r: Solution)
        ensures
            r == *self,
    {
        Solution {
            id: self.id.clone(),
            instance_id: self.instance_id.clone(),
            challenge_id: self.challenge_id.clone(),
            address: self.address.clone(),
            nonce: self.nonce.clone(),
            hash: self.hash.clone(),
            preimage: self.preimage.clone(),
            create_time: self.create_time,
            found_time: self.found_time,
            submitted_time: self.submitted_time,
            time_taken_sec: self.time_taken_sec,
            total_hashes: self.total_hashes,
            status: self.status.clone(),
            submitter_id: self.submitter_id.clone(),
        }
    }

    /// Whether the search has not filled this solution yet.
    pub fn is_empty(&self) -> (r: bool)
        ensures
            r == spec_solution_empty(*self),
    {
        self.nonce.as_str().is_empty() || self.hash.as_str().is_empty()
            || self.preimage.as_str().is_empty()
    }
}

/// The payload of a challenge as issued upstream.
#[derive(Debug, Clone)]
pub struct ChallengeData {
    pub challenge_id: String,
    pub challenge_number: i32,
    pub day: i32,
    pub issued_at: String,
    pub latest_submission: String,
    pub difficulty: String,
    pub no_pre_mine: String,
    pub no_pre_mine_hour: String,
}

/// A challenge as persisted: the upstream envelope plus the derived
/// submission deadline in epoch seconds.
#[derive(Debug, Clone)]
pub struct Challenge {
    pub id: String,
    pub challenge: ChallengeData,
    pub total_challenges: i32,
    pub next_challenge_starts_at: String,
    pub latest_submission_epoch: i32,
}

impl ChallengeData {
    /// A copy whose every field is known equal to the original's.
    pub fn cloned(&self) -> (r: ChallengeData)
        ensures
            r == *self,
    {
        ChallengeData {
            challenge_id: self.challenge_id.clone(),
            challenge_number: self.challenge_number,
            day: self.day,
            issued_at: self.issued_at.clone(),
            latest_submission: self.latest_submission.clone(),
            difficulty: self.difficulty.clone(),
            no_pre_mine: self.no_pre_mine.clone(),
            no_pre_mine_hour: self.no_pre_mine_hour.clone(),
        }
    }
}

impl Challenge {
    /// A copy whose every field is known equal to the original's.
    pub fn cloned(&self) -> (r: Challenge)
        ensures
            r == *self,
    {
        Challenge {
            id: self.id.clone(),
            challenge: self.challenge.cloned(),
            total_challenges: self.total_challenges,
            next_challenge_starts_at: self.next_challenge_starts_at.clone(),
            latest_submission_epoch: self.latest_submission_epoch,
        }
    }

    /// Whether fewer than `minute` minutes remain before this challenge's
    /// submission deadline, measured at `now` epoch seconds.
    pub fn is_late(&self, minute: i64, now: i64) -> (r: bool)
        requires
            0 <= now <= 0x7fff_ffff_ffff,
            0 <= minute <= 0x3fff_ffff,
        ensures
            r == (self.latest_submission_epoch - now <= minute * 60),
    {
        (self.latest_submission_epoch as i64) - now <= minute * 60
    }
}

/// An earlier shape of the challenge envelope, kept for reference.
#[derive(Debug, Clone)]
pub struct MidnightScavengerChallenge {
    pub code: String,
    pub challenge: ChallengeData,
    pub mining_period_ends: String,
    pub max_day: i32,
    pub total_challenges: i32,
    pub current_day: i32,
    pub next_challenge_starts_at: String,
    pub latest_submission_epoch: i32,
}

/// A mined account: a grouping tag and the opaque account string.
#[derive(Debug, Clone)]
pub struct Address {
    pub tag: String,
    pub address: String,
}

/// One (challenge, address) pair of work, with the handle of the mixing
/// table shared by every task derived from the same seed.
#[derive(Clone)]
pub struct Task {
    pub rom: crate::rom::RomId,
    pub addr: String,
    pub challenge: Challenge,
    pub solution: Solution,
}

/// Where the document store lives and what its collections are called.
#[derive(Debug, Clone)]
pub struct MongodbConfig {
    pub mongo_url: String,
    pub mongo_db: String,
    pub coll_config: String,
    pub coll_challenge: String,
    pub coll_address: String,
    pub coll_submit: String,
}

/// What the upstream returns for an accepted solution.
#[derive(Debug, Clone)]
pub struct SubmitResponse {
    pub crypto_receipt: CryptoReceipt,
}

/// The receipt inside an accepted submission.
#[derive(Debug, Clone)]
pub struct CryptoReceipt {
    pub preimage: String,
    pub timestamp: String,
    pub signature: String,
}

/// Per-instance miner configuration, keyed by the instance id.
#[derive(Debug, Clone)]
pub struct Config {
    pub id: String,
    pub address_id: String,
    pub num_threads: i32,
    pub self_submit: bool,
    pub submitter_id: String,
    pub timeout_sec: i32,
    pub max_hash_count: i32,
}

impl Config {
    /// Fill the defaults a fetched configuration is owed: nonpositive
    /// thread counts fall back to the host's parallelism, then to one
    /// thread; nonpositive timeouts become an hour; nonpositive hash caps
    /// become ten million.
    pub fn normalized(self, available_parallelism: i32) -> (r: Config)
        ensures
            r.num_threads == if self.num_threads > 0 {
                self.num_threads as int
            } else if available_parallelism > 0 {
                available_parallelism as int
            } else {
                1int
            },
            r.timeout_sec == if self.timeout_sec > 0 { self.timeout_sec as int } else { 3600int },
            r.max_hash_count == if self.max_hash_count > 0 {
                self.max_hash_count as int
            } else {
                10_000_000int
            },
            r.id == self.id,
            r.address_id == self.address_id,
            r.self_submit == self.self_submit,
            r.submitter_id == self.submitter_id,
    {
        let mut cfg = self;
        if cfg.num_threads <= 0 {
            cfg.num_threads = if available_parallelism > 0 { available_parallelism } else { 1 };
        }
        if cfg.timeout_sec <= 0 {
            cfg.timeout_sec = 3600;
        }
        if cfg.max_hash_count <= 0 {
            cfg.max_hash_count = 10_000_000;
        }
        cfg
    }
}

/// The status a fresh claim row carries.
pub fn claim_status(self_submit: bool) -> (r: String)
    ensures
        r@ == if self_submit { "onit_self_submit"@ } else { "onit"@ },
        is_claim_status(r@),
{
    if self_submit {
        String::from_str("onit_self_submit")
    } else {
        String::from_str("onit")
    }
}

/// The status a solved row is updated to.
pub fn found_status(self_submit: bool) -> (r: String)
    ensures
        r@ == if self_submit { "found_self_submit"@ } else { "found"@ },
        is_found_like_status(r@),
{
    if self_submit {
        String::from_str("found_self_submit")
    } else {
        String::from_str("found")
    }
}

} // verus!
