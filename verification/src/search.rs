//! The verified core of the parallel search engine: the per-worker
//! context, candidate construction, the difficulty test on a digest, and
//! the state the workers share — a stop flag, a single winner slot and a
//! hash counter. The shell owns threads and the memory-hard hash call; it
//! computes a digest for each candidate and feeds it back here.

use vstd::prelude::*;
use crate::codec::spec_parse_hex_u32;
use crate::codec::parse_difficulty;
use crate::codec::spec_nonce_hex;
use crate::codec::nonce_hex;
use crate::codec::be_u32;
use crate::codec::be_u32_of;
use crate::codec::hex_encoding;
use crate::codec::to_hex;
use crate::types::Solution;
use crate::types::Task;
use crate::types::ChallengeData;
use crate::types::spec_solution_empty;

verus! {

/// Relies on rand's thread-local generator for a fresh 64-bit draw;
/// nothing is assumed of the value.
#[verifier::external_body]
fn random_u64() -> u64 {
    rand::Rng::random(&mut rand::rng())
}

/// The static tail of every preimage of one task: address, challenge id,
/// difficulty, seed, deadline and hour seed, concatenated in this exact
/// order with no separators.
pub open spec fn spec_static_suffix(c: ChallengeData, addr: Seq<char>) -> Seq<char> {
    addr + c.challenge_id@ + c.difficulty@ + c.no_pre_mine@ + c.latest_submission@
        + c.no_pre_mine_hour@
}

/// What one worker needs per task: the difficulty mask and the static
/// preimage suffix.
pub struct WorkerContext {
    pub difficulty: u32,
    pub static_suffix: String,
}

impl WorkerContext {
    /// Prepare a worker for a task; `None` when the challenge's
    /// difficulty string is no lowercase hex `u32`.
    pub fn new(task: &Task) -> (r: Option<WorkerContext>)
        ensures
            r is Some <==> spec_parse_hex_u32(task.challenge.challenge.difficulty@) is Some,
            r matches Some(ctx) ==> Some(ctx.difficulty)
                == spec_parse_hex_u32(task.challenge.challenge.difficulty@)
                && ctx.static_suffix@
                    == spec_static_suffix(task.challenge.challenge, task.addr@),
    {
        let difficulty = match parse_difficulty(task.challenge.challenge.difficulty.as_str()) {
            Some(d) => d,
            None => {
                return None;
            },
        };
        let mut s = String::new();
        s.append(task.addr.as_str());
        s.append(task.challenge.challenge.challenge_id.as_str());
        s.append(task.challenge.challenge.difficulty.as_str());
        s.append(task.challenge.challenge.no_pre_mine.as_str());
        s.append(task.challenge.challenge.latest_submission.as_str());
        s.append(task.challenge.challenge.no_pre_mine_hour.as_str());
        Some(WorkerContext { difficulty, static_suffix: s })
    }
}

/// One candidate: the drawn nonce and the preimage it induces.
pub struct Candidate {
    pub nonce_value: u64,
    pub nonce: String,
    pub preimage: String,
}

/// A candidate fits its task: the nonce string renders the drawn value
/// and the preimage is that string followed by the task's suffix.
pub open spec fn candidate_wf(c: Candidate, suffix: Seq<char>) -> bool {
    c.nonce@ == spec_nonce_hex(c.nonce_value) && c.preimage@ == c.nonce@ + suffix
}

/// Draw a fresh nonce and form its preimage.
pub fn next_candidate(ctx: &WorkerContext) -> (c: Candidate)
    ensures
        candidate_wf(c, ctx.static_suffix@),
{
    let nv = random_u64();
    let nonce = nonce_hex(nv);
    let mut preimage = nonce.clone();
    preimage.append(ctx.static_suffix.as_str());
    Candidate { nonce_value: nv, nonce, preimage }
}

/// A hit: the candidate's nonce and preimage, the digest rendered as hex,
/// and, in ghost form, the digest and mask that witnessed the hit.
pub struct FoundSolution {
    pub nonce: String,
    pub hash: String,
    pub preimage: String,
    pub digest: Ghost<Seq<u8>>,
    pub difficulty: Ghost<u32>,
}

/// A hit is witnessed: the digest is 32 bytes, the stored hash is its hex
/// form, every set bit of its leading 32 bits is set in the mask, and the
/// nonce has its 16 rendered characters.
pub open spec fn found_wf(f: FoundSolution) -> bool {
    &&& f.digest@.len() == 32
    &&& f.hash@ == hex_encoding(f.digest@)
    &&& ((be_u32_of(f.digest@) as u32) | f.difficulty@) == f.difficulty@
    &&& f.nonce@.len() == 16
    &&& f.preimage@.len() >= 16
}

/// Test a digest against the task's difficulty mask: a hit exactly when
/// the big-endian leading 32 bits, or-ed with the mask, leave the mask
/// unchanged.
pub fn check_candidate(ctx: &WorkerContext, cand: Candidate, digest: &Vec<u8>) -> (r: Option<
    FoundSolution,
>)
    requires
        digest@.len() == 32,
        candidate_wf(cand, ctx.static_suffix@),
    ensures
        r is Some <==> ((be_u32_of(digest@) as u32) | ctx.difficulty) == ctx.difficulty,
        r matches Some(f) ==> f.nonce == cand.nonce && f.preimage == cand.preimage
            && f.hash@ == hex_encoding(digest@) && f.digest@ == digest@
            && f.difficulty@ == ctx.difficulty && found_wf(f),
{
    let hv = be_u32(digest);
    if (hv | ctx.difficulty) == ctx.difficulty {
        let hash_string = to_hex(digest);
        Some(
            FoundSolution {
                nonce: cand.nonce,
                hash: hash_string,
                preimage: cand.preimage,
                digest: Ghost(digest@),
                difficulty: Ghost(ctx.difficulty),
            },
        )
    } else {
        None
    }
}

/// What one task's workers share: the stop flag, the winner slot and the
/// folded hash counter. The shell guards it with its own synchronization;
/// each transition below is one atomic step of the search.
pub struct SearchShared {
    pub stop: bool,
    pub winner: Option<FoundSolution>,
    pub hash_counter: i32,
}

/// A winner is only ever recorded with the stop flag raised, and is a
/// witnessed hit; the counter never goes negative.
pub open spec fn shared_wf(s: SearchShared) -> bool {
    &&& s.winner matches Some(f) ==> s.stop && found_wf(f)
    &&& s.hash_counter >= 0
}

impl SearchShared {
    /// A fresh search: not stopped, no winner, no hashes counted.
    pub fn new() -> (r: SearchShared)
        ensures
            shared_wf(r),
            !r.stop,
            r.winner is None,
            r.hash_counter == 0,
    {
        SearchShared { stop: false, winner: None, hash_counter: 0 }
    }

    /// Elect a winner: the first worker to arrive with a hit swaps the
    /// stop flag and owns the slot; everyone later changes nothing.
    pub fn try_claim_win(&mut self, f: FoundSolution) -> (won: bool)
        requires
            shared_wf(*old(self)),
            found_wf(f),
        ensures
            shared_wf(*final(self)),
            final(self).hash_counter >= old(self).hash_counter,
            won == !old(self).stop,
            won ==> final(self).stop && final(self).winner == Some(f)
                && final(self).hash_counter == old(self).hash_counter,
            !won ==> *final(self) == *old(self),
    {
        if self.stop {
            false
        } else {
            self.stop = true;
            self.winner = Some(f);
            true
        }
    }

    /// Fold a worker's local hash count into the shared counter. The
    /// counter never decreases; it saturates rather than wraps.
    pub fn add_hashes(&mut self, k: u32)
        requires
            shared_wf(*old(self)),
        ensures
            shared_wf(*final(self)),
            final(self).hash_counter >= old(self).hash_counter,
            final(self).hash_counter == if old(self).hash_counter + k <= i32::MAX {
                old(self).hash_counter + k
            } else {
                i32::MAX as int
            },
            final(self).stop == old(self).stop,
            final(self).winner == old(self).winner,
    {
        if k <= 0x7fff_ffff && self.hash_counter <= 0x7fff_ffff - (k as i32) {
            self.hash_counter = self.hash_counter + (k as i32);
        } else {
            self.hash_counter = 0x7fff_ffff;
        }
    }

    /// Whether the search must end: the wall clock passed the timeout, or
    /// the counted hashes reached the cap.
    pub fn should_stop(&self, elapsed_sec: i64, timeout_sec: i32, max_hash_count: i32) -> (r:
        bool)
        ensures
            r == (elapsed_sec >= timeout_sec || self.hash_counter >= max_hash_count),
    {
        elapsed_sec >= (timeout_sec as i64) || self.hash_counter >= max_hash_count
    }

    /// Raise the stop flag without electing a winner.
    pub fn request_stop(&mut self)
        requires
            shared_wf(*old(self)),
        ensures
            shared_wf(*final(self)),
            final(self).hash_counter == old(self).hash_counter,
            final(self).stop,
            final(self).winner == old(self).winner,
    {
        self.stop = true;
    }

    /// What the coordinator returns once the search stopped: the winner's
    /// solution on the claimed row, or an empty solution; either way the
    /// folded hash count.
    pub fn finish_search(&self, base: &Solution, found_time: i64) -> (r: Solution)
        requires
            shared_wf(*self),
        ensures
            r.total_hashes == self.hash_counter,
            self.winner matches Some(f) ==> r.nonce == f.nonce && r.hash == f.hash
                && r.preimage == f.preimage && r.found_time == found_time
                && !spec_solution_empty(r) && r.id == base.id
                && r.challenge_id == base.challenge_id && r.address == base.address
                && r.instance_id == base.instance_id && r.submitter_id == base.submitter_id
                && r.status == base.status && r.create_time == base.create_time,
            self.winner is None ==> spec_solution_empty(r),
    {
        match &self.winner {
            Some(f) => Solution {
                id: base.id.clone(),
                instance_id: base.instance_id.clone(),
                challenge_id: base.challenge_id.clone(),
                address: base.address.clone(),
                nonce: f.nonce.clone(),
                hash: f.hash.clone(),
                preimage: f.preimage.clone(),
                create_time: base.create_time,
                found_time,
                submitted_time: base.submitted_time,
                time_taken_sec: base.time_taken_sec,
                total_hashes: self.hash_counter,
                status: base.status.clone(),
                submitter_id: base.submitter_id.clone(),
            },
            None => Solution {
                id: String::new(),
                instance_id: String::new(),
                challenge_id: String::new(),
                address: String::new(),
                nonce: String::new(),
                hash: String::new(),
                preimage: String::new(),
                create_time: 0,
                found_time: 0,
                submitted_time: 0,
                time_taken_sec: 0,
                total_hashes: self.hash_counter,
                status: String::new(),
                submitter_id: String::new(),
            },
        }
    }
}

} // verus!
