//! A model of the submit collection: solution rows keyed by their `id`,
//! with the unique-key constraint that is the mining fleet's only mutual
//! exclusion primitive. The unverified shell binds these operations to the
//! real document store; the model pins down what each operation does and
//! what every stored row satisfies.

use vstd::prelude::*;
use crate::types::Solution;
use crate::types::solution_wf;
use crate::types::spec_solution_empty;
use crate::types::is_found_like_status;
use crate::types::is_failed_status;

verus! {

/// How the store refuses an operation.
#[derive(Debug, Clone, Copy, PartialEq, Eq, Structural)]
pub enum StoreError {
    DuplicateKey,
    MissingRow,
}

/// The submit collection: solution rows in insertion order.
pub struct SubmitStore {
    pub rows: Vec<Solution>,
}

/// Whether a row with this key is stored.
pub open spec fn store_has_id(s: SubmitStore, id: Seq<char>) -> bool {
    exists|i: int| 0 <= i < s.rows@.len() && (#[trigger] s.rows@[i]).id@ == id
}

/// What always holds of the collection: keys are unique, and every row is
/// well-formed — its key has the `challenge_id:short_address` shape, its
/// status is recognized, and its nonce, hash and preimage are present
/// exactly beyond the claim phase.
pub open spec fn store_wf(s: SubmitStore) -> bool {
    &&& forall|i: int, j: int|
        0 <= i < j < s.rows@.len() ==> (#[trigger] s.rows@[i]).id@ != (#[trigger] s.rows@[j]).id@
    &&& forall|i: int| 0 <= i < s.rows@.len() ==> solution_wf(#[trigger] s.rows@[i])
}

/// One claim attempt against given rows: the row is appended when its key
/// is absent, and nothing changes when it is present.
pub open spec fn spec_claim_attempt(rows: Seq<Solution>, sol: Solution) -> (Seq<Solution>, bool) {
    if exists|i: int| 0 <= i < rows.len() && (#[trigger] rows[i]).id@ == sol.id@ {
        (rows, false)
    } else {
        (rows.push(sol), true)
    }
}

/// The fields a solved row is updated with.
pub struct FoundUpdate {
    pub nonce: String,
    pub hash: String,
    pub preimage: String,
    pub found_time: i64,
    pub time_taken_sec: i32,
    pub total_hashes: i32,
    pub status: String,
}

/// A solved-row update carries all three artifacts and a found-like status.
pub open spec fn found_update_ok(u: FoundUpdate) -> bool {
    &&& u.nonce@.len() > 0
    &&& u.hash@.len() > 0
    &&& u.preimage@.len() > 0
    &&& is_found_like_status(u.status@)
}

/// A row after its solved-row update: artifacts, times, counters and
/// status replaced, identity untouched.
pub open spec fn spec_apply_found(row: Solution, u: FoundUpdate) -> Solution {
    Solution {
        id: row.id,
        instance_id: row.instance_id,
        challenge_id: row.challenge_id,
        address: row.address,
        nonce: u.nonce,
        hash: u.hash,
        preimage: u.preimage,
        create_time: row.create_time,
        found_time: u.found_time,
        submitted_time: row.submitted_time,
        time_taken_sec: u.time_taken_sec,
        total_hashes: u.total_hashes,
        status: u.status,
        submitter_id: row.submitter_id,
    }
}

/// A row after the submitter recorded an outcome: only the status, and on
/// acceptance the submission time, change.
pub open spec fn spec_apply_submission(row: Solution, status: String, submitted_time: i64)
    -> Solution {
    Solution {
        id: row.id,
        instance_id: row.instance_id,
        challenge_id: row.challenge_id,
        address: row.address,
        nonce: row.nonce,
        hash: row.hash,
        preimage: row.preimage,
        create_time: row.create_time,
        found_time: row.found_time,
        submitted_time: if status@ == "submitted"@ { submitted_time } else { row.submitted_time },
        time_taken_sec: row.time_taken_sec,
        total_hashes: row.total_hashes,
        status: status,
        submitter_id: row.submitter_id,
    }
}

impl SubmitStore {
    /// An empty collection.
    pub fn new() -> (r: SubmitStore)
        ensures
            store_wf(r),
            r.rows@.len() == 0,
    {
        SubmitStore { rows: Vec::new() }
    }

    /// Race to claim: insert a row, refused with `DuplicateKey` exactly
    /// when its key is already stored. This is the only mutual-exclusion
    /// primitive of the fleet.
    pub fn insert_one(&mut self, sol: Solution) -> (r: Result<(), StoreError>)
        requires
            store_wf(*old(self)),
            solution_wf(sol),
        ensures
            store_wf(*final(self)),
            (final(self).rows@, r is Ok) == spec_claim_attempt(old(self).rows@, sol),
            r is Ok <==> !store_has_id(*old(self), sol.id@),
            r is Err ==> r == Err::<(), StoreError>(StoreError::DuplicateKey) && *final(self)
                == *old(self),
    {
        let n = self.rows.len();
        let mut k: usize = 0;
        while k < n
            invariant
                0 <= k <= n,
                n == self.rows@.len(),
                *self == *old(self),
                store_wf(*self),
                forall|i: int| 0 <= i < k ==> (#[trigger] self.rows@[i]).id@ != sol.id@,
            decreases n - k,
        {
            if self.rows[k].id == sol.id {
                return Err(StoreError::DuplicateKey);
            }
            k += 1;
        }
        self.rows.push(sol);
        Ok(())
    }

    /// Update the claimed row with what the search found. Refused with
    /// `MissingRow` exactly when no row carries the key.
    pub fn mark_found(&mut self, id: &String, up: FoundUpdate) -> (r: Result<(), StoreError>)
        requires
            store_wf(*old(self)),
            found_update_ok(up),
        ensures
            store_wf(*final(self)),
            r is Ok <==> store_has_id(*old(self), id@),
            r is Err ==> r == Err::<(), StoreError>(StoreError::MissingRow) && *final(self)
                == *old(self),
            r is Ok ==> exists|i: int|
                0 <= i < old(self).rows@.len() && (#[trigger] old(self).rows@[i]).id@ == id@
                    && final(self).rows@ == old(self).rows@.update(
                    i,
                    spec_apply_found(old(self).rows@[i], up),
                ),
    {
        let n = self.rows.len();
        let mut k: usize = 0;
        while k < n
            invariant
                0 <= k <= n,
                n == self.rows@.len(),
                *self == *old(self),
                store_wf(*self),
                found_update_ok(up),
                forall|i: int| 0 <= i < k ==> (#[trigger] self.rows@[i]).id@ != id@,
            decreases n - k,
        {
            if self.rows[k].id == *id {
                let row = self.rows[k].cloned();
                let updated = Solution {
                    nonce: up.nonce,
                    hash: up.hash,
                    preimage: up.preimage,
                    found_time: up.found_time,
                    time_taken_sec: up.time_taken_sec,
                    total_hashes: up.total_hashes,
                    status: up.status,
                    ..row
                };
                proof {
                    crate::types::lemma_status_classes();
                    assert(solution_wf(updated));
                }
                self.rows.set(k, updated);
                return Ok(());
            }
            k += 1;
        }
        Err(StoreError::MissingRow)
    }

    /// Record the submitter's outcome on a row: `submitted` with its time
    /// on acceptance, a terminal failure status otherwise. The row must be
    /// beyond its claim phase. Refused with `MissingRow` exactly when no
    /// row carries the key.
    pub fn mark_submission(&mut self, id: &String, status: String, submitted_time: i64) -> (r:
        Result<(), StoreError>)
        requires
            store_wf(*old(self)),
            status@ == "submitted"@ || is_failed_status(status@),
            forall|i: int|
                0 <= i < old(self).rows@.len() && (#[trigger] old(self).rows@[i]).id@ == id@
                    ==> !spec_solution_empty(old(self).rows@[i]),
        ensures
            store_wf(*final(self)),
            r is Ok <==> store_has_id(*old(self), id@),
            r is Err ==> r == Err::<(), StoreError>(StoreError::MissingRow) && *final(self)
                == *old(self),
            r is Ok ==> exists|i: int|
                0 <= i < old(self).rows@.len() && (#[trigger] old(self).rows@[i]).id@ == id@
                    && final(self).rows@ == old(self).rows@.update(
                    i,
                    spec_apply_submission(old(self).rows@[i], status, submitted_time),
                ),
    {
        let n = self.rows.len();
        let is_accept = crate::utils::str_eq(status.as_str(), "submitted");
        let mut k: usize = 0;
        while k < n
            invariant
                0 <= k <= n,
                n == self.rows@.len(),
                *self == *old(self),
                store_wf(*self),
                status@ == "submitted"@ || is_failed_status(status@),
                forall|i: int|
                    0 <= i < self.rows@.len() && (#[trigger] self.rows@[i]).id@ == id@
                        ==> !spec_solution_empty(self.rows@[i]),
                is_accept == (status@ == "submitted"@),
                forall|i: int| 0 <= i < k ==> (#[trigger] self.rows@[i]).id@ != id@,
            decreases n - k,
        {
            if self.rows[k].id == *id {
                let row = self.rows[k].cloned();
                let updated = Solution {
                    status: status,
                    submitted_time: if is_accept { submitted_time } else { row.submitted_time },
                    ..row
                };
                proof {
                    crate::types::lemma_status_classes();
                    assert(!spec_solution_empty(self.rows@[k as int]));
                    assert(is_found_like_status(status@) || is_failed_status(status@));
                    assert(!crate::types::is_claim_status(status@));
                    assert(solution_wf(updated));
                }
                self.rows.set(k, updated);
                return Ok(());
            }
            k += 1;
        }
        Err(StoreError::MissingRow)
    }

    /// The rows awaiting the submitter: status exactly `found`.
    pub fn find_found(&self) -> (r: Vec<Solution>)
        ensures
            r@ == self.rows@.filter(|x: Solution| x.status@ == "found"@),
    {
        let n = self.rows.len();
        let mut out: Vec<Solution> = Vec::new();
        let mut k: usize = 0;
        while k < n
            invariant
                0 <= k <= n,
                n == self.rows@.len(),
                out@ == self.rows@.take(k as int).filter(|x: Solution| x.status@ == "found"@),
            decreases n - k,
        {
            let ghost pred = |x: Solution| x.status@ == "found"@;
            proof {
                assert(self.rows@.take(k + 1).drop_last() =~= self.rows@.take(k as int));
                assert(self.rows@.take(k + 1).last() == self.rows@[k as int]);
                reveal_with_fuel(Seq::filter, 2);
            }
            if crate::utils::str_eq(self.rows[k].status.as_str(), "found") {
                out.push(self.rows[k].cloned());
            }
            k += 1;
        }
        proof {
            assert(self.rows@.take(n as int) =~= self.rows@);
        }
        out
    }

    /// The addresses that already have a row for a challenge, whatever the
    /// row's status: those tasks are already owned or finished.
    pub fn addresses_for_challenge(&self, challenge_id: &String) -> (r: Vec<String>)
        ensures
            r@ == self.rows@.filter(
                |x: Solution| x.challenge_id@ == challenge_id@,
            ).map_values(|x: Solution| x.address),
    {
        let ghost pred = |x: Solution| x.challenge_id@ == challenge_id@;
        let ghost f = |x: Solution| x.address;
        let n = self.rows.len();
        let mut out: Vec<String> = Vec::new();
        let mut k: usize = 0;
        while k < n
            invariant
                0 <= k <= n,
                n == self.rows@.len(),
                out@ == self.rows@.take(k as int).filter(pred).map_values(f),
                pred == (|x: Solution| x.challenge_id@ == challenge_id@),
                f == (|x: Solution| x.address),
            decreases n - k,
        {
            proof {
                assert(self.rows@.take(k + 1).drop_last() =~= self.rows@.take(k as int));
                assert(self.rows@.take(k + 1).last() == self.rows@[k as int]);
                reveal_with_fuel(Seq::filter, 2);
                if pred(self.rows@[k as int]) {
                    assert(self.rows@.take(k + 1).filter(pred).map_values(f) =~= self.rows@.take(
                        k as int,
                    ).filter(pred).map_values(f).push(self.rows@[k as int].address));
                }
            }
            if self.rows[k].challenge_id == *challenge_id {
                out.push(self.rows[k].address.clone());
            }
            k += 1;
        }
        proof {
            assert(self.rows@.take(n as int) =~= self.rows@);
        }
        out
    }
}

/// The success flags of a run of claim attempts, in order.
pub open spec fn spec_run_attempts(rows: Seq<Solution>, sols: Seq<Solution>) -> Seq<bool>
    decreases sols.len(),
{
    if sols.len() == 0 {
        Seq::empty()
    } else {
        let stepped = spec_claim_attempt(rows, sols[0]);
        seq![stepped.1] + spec_run_attempts(stepped.0, sols.skip(1))
    }
}

proof fn lemma_attempts_all_fail(rows: Seq<Solution>, sols: Seq<Solution>, id: Seq<char>)
    requires
        exists|i: int| 0 <= i < rows.len() && (#[trigger] rows[i]).id@ == id,
        forall|k: int| 0 <= k < sols.len() ==> (#[trigger] sols[k]).id@ == id,
    ensures
        spec_run_attempts(rows, sols) =~= Seq::new(sols.len(), |k: int| false),
    decreases sols.len(),
{
    if sols.len() > 0 {
        assert(sols[0].id@ == id);
        assert(spec_claim_attempt(rows, sols[0]) == (rows, false));
        assert(forall|k: int|
            0 <= k < sols.skip(1).len() ==> (#[trigger] sols.skip(1)[k]).id@ == id);
        lemma_attempts_all_fail(rows, sols.skip(1), id);
    }
}

/// Claim uniqueness: when any number of racers attempt to claim one key
/// against a store that does not hold it yet, exactly the first attempt
/// succeeds and every later one observes the duplicate-key refusal.
pub proof fn lemma_claim_uniqueness(rows: Seq<Solution>, sols: Seq<Solution>, id: Seq<char>)
    requires
        sols.len() > 0,
        !(exists|i: int| 0 <= i < rows.len() && (#[trigger] rows[i]).id@ == id),
        forall|k: int| 0 <= k < sols.len() ==> (#[trigger] sols[k]).id@ == id,
    ensures
        spec_run_attempts(rows, sols).len() == sols.len(),
        spec_run_attempts(rows, sols)[0],
        forall|k: int| 1 <= k < sols.len() ==> !(#[trigger] spec_run_attempts(rows, sols)[k]),
{
    let stepped = spec_claim_attempt(rows, sols[0]);
    assert(stepped.1);
    let rows2 = rows.push(sols[0]);
    assert(stepped.0 == rows2);
    assert(rows2[rows.len() as int].id@ == id);
    assert(forall|k: int| 0 <= k < sols.skip(1).len() ==> (#[trigger] sols.skip(1)[k]).id@ == id);
    lemma_attempts_all_fail(rows2, sols.skip(1), id);
    assert(spec_run_attempts(rows, sols) =~= seq![true] + Seq::new(
        (sols.len() - 1) as nat,
        |k: int| false,
    ));
}

/// Every stored row's key is its challenge id, a colon, and the short
/// form of its address.
pub proof fn lemma_stored_solution_key(s: SubmitStore, i: int)
    requires
        store_wf(s),
        0 <= i < s.rows@.len(),
    ensures
        s.rows@[i].id@ == s.rows@[i].challenge_id@ + seq![':']
            + crate::utils::spec_short_address(s.rows@[i].address@),
{
}

/// Every stored row beyond the claim phase — found, found for self
/// submission, or submitted — carries all of nonce, hash and preimage;
/// and a row missing any of them is still in its claim phase.
pub proof fn lemma_stored_solution_filled(s: SubmitStore, i: int)
    requires
        store_wf(s),
        0 <= i < s.rows@.len(),
    ensures
        is_found_like_status(s.rows@[i].status@) ==> !spec_solution_empty(s.rows@[i]),
        is_failed_status(s.rows@[i].status@) ==> !spec_solution_empty(s.rows@[i]),
        spec_solution_empty(s.rows@[i]) ==> s.rows@[i].status@ == "onit"@
            || s.rows@[i].status@ == "onit_self_submit"@,
{
    crate::types::lemma_status_classes();
}

} // verus!
