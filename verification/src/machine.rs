//! The miner's task machine: build the claim row and the tasks of a
//! challenge, race to claim a task, record what the search found, classify
//! failures, and keep the per-run ledger of outcomes. The unverified shell
//! drives one task at a time: claim here, search with the engine, then
//! record here.

use vstd::prelude::*;
use crate::types::Config;
use crate::types::Challenge;
use crate::types::Solution;
use crate::types::Task;
use crate::types::solution_wf;
use crate::types::spec_solution_empty;
use crate::types::claim_status;
use crate::types::found_status;
use crate::store::SubmitStore;
use crate::store::StoreError;
use crate::store::FoundUpdate;
use crate::store::store_wf;
use crate::store::store_has_id;
use crate::store::spec_claim_attempt;
use crate::store::spec_apply_found;
use crate::utils::shorten_address;
use crate::utils::spec_short_address;
use crate::utils::format_duration;
use crate::utils::spec_format_duration;
use crate::utils::spec_contains;
use crate::utils::contains_sub;
use crate::codec::i64_to_dec;
use crate::codec::spec_dec_signed;
use crate::rom::RomCache;
use crate::rom::RomId;
use crate::rom::cache_wf;
use crate::rom::cache_has;

verus! {

/// Why one task ended without a success.
#[derive(Debug, Clone, PartialEq, Eq, Structural)]
pub enum TaskError {
    /// Fewer than an hour left before the submission deadline; no claim
    /// is placed. Carries the seconds remaining, possibly negative.
    Late { seconds_left: i64 },
    /// Another instance holds the claim row: the duplicate-key refusal.
    AlreadyClaimed,
    /// The search stopped on its timeout or hash cap with nothing found.
    SearchExhausted { time_taken_sec: i32, total_hashes: i32 },
    /// The claimed row vanished before the result could be recorded.
    RowMissing,
}

/// The per-run ledger of task outcomes.
pub struct Ledger {
    pub success: i32,
    pub skip: i32,
    pub error: i32,
    pub total_task: i32,
}

impl Ledger {
    /// A fresh ledger.
    pub fn new() -> (r: Ledger)
        ensures
            r.success == 0 && r.skip == 0 && r.error == 0 && r.total_task == 0,
    {
        Ledger { success: 0, skip: 0, error: 0, total_task: 0 }
    }

    /// Count one finished task: a success, a skip for a claim another
    /// instance holds, an error for everything else. Counters saturate.
    pub fn record(&mut self, outcome: &Result<(), TaskError>)
        ensures
            final(self).total_task == old(self).total_task,
            final(self).success == if outcome is Ok && old(self).success < i32::MAX {
                old(self).success + 1
            } else {
                old(self).success as int
            },
            final(self).skip == if outcome == Err::<(), TaskError>(TaskError::AlreadyClaimed)
                && old(self).skip < i32::MAX {
                old(self).skip + 1
            } else {
                old(self).skip as int
            },
            final(self).error == if (outcome is Err && !(outcome
                == Err::<(), TaskError>(TaskError::AlreadyClaimed))) && old(self).error
                < i32::MAX {
                old(self).error + 1
            } else {
                old(self).error as int
            },
    {
        match outcome {
            Ok(_) => {
                if self.success < i32::MAX {
                    self.success = self.success + 1;
                }
            },
            Err(TaskError::AlreadyClaimed) => {
                if self.skip < i32::MAX {
                    self.skip = self.skip + 1;
                }
            },
            Err(_) => {
                if self.error < i32::MAX {
                    self.error = self.error + 1;
                }
            },
        }
    }
}

/// The claim row a task starts from: empty artifacts, the claim status for
/// this instance's submission mode, and the `challenge_id:short_address`
/// key.
pub fn build_base_solution(cfg: &Config, challenge: &Challenge, addr: &String, create_time: i64)
    -> (r: Solution)
    ensures
        solution_wf(r),
        r.id@ == challenge.challenge.challenge_id@ + seq![':'] + spec_short_address(addr@),
        r.challenge_id@ == challenge.challenge.challenge_id@,
        r.address@ == addr@,
        r.instance_id@ == cfg.id@,
        r.submitter_id@ == cfg.submitter_id@,
        r.status@ == if cfg.self_submit { "onit_self_submit"@ } else { "onit"@ },
        spec_solution_empty(r),
        r.create_time == create_time,
        r.found_time == 0 && r.submitted_time == 0 && r.time_taken_sec == 0 && r.total_hashes
            == 0,
{
    let mut id = challenge.challenge.challenge_id.clone();
    id.append(":");
    let short = shorten_address(addr);
    id.append(short.as_str());
    proof {
        reveal_strlit(":");
        assert(id@ =~= challenge.challenge.challenge_id@ + seq![':'] + spec_short_address(addr@));
    }
    Solution {
        id,
        instance_id: cfg.id.clone(),
        challenge_id: challenge.challenge.challenge_id.clone(),
        address: addr.clone(),
        nonce: String::new(),
        hash: String::new(),
        preimage: String::new(),
        create_time,
        found_time: 0,
        submitted_time: 0,
        time_taken_sec: 0,
        total_hashes: 0,
        status: claim_status(cfg.self_submit),
        submitter_id: cfg.submitter_id.clone(),
    }
}

/// One built task fits its challenge, address, configuration and table
/// handle: shared handle, faithful fields, and a well-formed claim row.
pub open spec fn task_matches(
    t: Task,
    cfg: Config,
    challenge: Challenge,
    addr: String,
    rom_id: RomId,
) -> bool {
    &&& t.rom == rom_id
    &&& t.addr@ == addr@
    &&& t.challenge == challenge
    &&& solution_wf(t.solution)
    &&& t.solution.id@ == challenge.challenge.challenge_id@ + seq![':'] + spec_short_address(
        addr@,
    )
    &&& t.solution.address@ == addr@
    &&& t.solution.challenge_id@ == challenge.challenge.challenge_id@
    &&& spec_solution_empty(t.solution)
    &&& t.solution.status@ == (if cfg.self_submit {
        "onit_self_submit"@
    } else {
        "onit"@
    })
}

/// The tasks of one challenge: one per address, all sharing one mixing
/// table handle for the challenge's seed; the flag says whether the shell
/// must build that table first.
pub fn build_tasks(
    cfg: &Config,
    challenge: &Challenge,
    addresses: &Vec<String>,
    cache: &mut RomCache,
    create_time: i64,
) -> (r: (Vec<Task>, RomId, bool))
    requires
        cache_wf(*old(cache)),
    ensures
        cache_wf(*final(cache)),
        r.1.index < final(cache).seeds@.len(),
        final(cache).seeds@[r.1.index as int]@ == challenge.challenge.no_pre_mine@,
        r.2 == !cache_has(*old(cache), challenge.challenge.no_pre_mine@),
        r.0@.len() == addresses@.len(),
        forall|k: int|
            0 <= k < r.0@.len() ==> #[trigger] task_matches(
                r.0@[k],
                *cfg,
                *challenge,
                addresses@[k],
                r.1,
            ),
{
    let (rom_id, fresh) = cache.rom_for_seed(&challenge.challenge.no_pre_mine);
    let n = addresses.len();
    let mut tasks: Vec<Task> = Vec::new();
    let mut k: usize = 0;
    while k < n
        invariant
            0 <= k <= n,
            n == addresses@.len(),
            tasks@.len() == k,
            forall|i: int|
                0 <= i < k ==> #[trigger] task_matches(
                    tasks@[i],
                    *cfg,
                    *challenge,
                    addresses@[i],
                    rom_id,
                ),
        decreases n - k,
    {
        let addr = &addresses[k];
        let solution = build_base_solution(cfg, challenge, addr, create_time);
        let task = Task {
            rom: rom_id,
            addr: addr.clone(),
            challenge: challenge.cloned(),
            solution,
        };
        let ghost prev = tasks@;
        let ghost tval = task;
        tasks.push(task);
        proof {
            assert(tasks@[k as int] == tval);
            assert(task_matches(tval, *cfg, *challenge, addresses@[k as int], rom_id));
            assert forall|i: int| 0 <= i < k + 1 implies #[trigger] task_matches(
                tasks@[i],
                *cfg,
                *challenge,
                addresses@[i],
                rom_id,
            ) by {
                if i < k {
                    assert(tasks@[i] == prev[i]);
                    assert(task_matches(prev[i], *cfg, *challenge, addresses@[i], rom_id));
                }
            }
        }
        k += 1;
    }
    (tasks, rom_id, fresh)
}

/// Whether a challenge is too close to its deadline to start at `now`:
/// an hour or less remains.
pub open spec fn spec_is_late(c: Challenge, now: int) -> bool {
    c.latest_submission_epoch - now <= 3600
}

/// Race to claim one task: refuse a late challenge before any write, then
/// try to insert the claim row; the duplicate-key refusal means another
/// instance owns the task.
pub fn claim_task(store: &mut SubmitStore, task: &Task, now: i64) -> (r: Result<(), TaskError>)
    requires
        store_wf(*old(store)),
        solution_wf(task.solution),
        0 <= now <= 0x7fff_ffff_ffff,
    ensures
        store_wf(*final(store)),
        spec_is_late(task.challenge, now as int) ==> r == Err::<(), TaskError>(
            (TaskError::Late {
                seconds_left: (task.challenge.latest_submission_epoch - now) as i64,
            }),
        ) && *final(store) == *old(store),
        !spec_is_late(task.challenge, now as int) ==> (final(store).rows@, r is Ok)
            == spec_claim_attempt(old(store).rows@, task.solution) && (r is Ok
            <==> !store_has_id(*old(store), task.solution.id@)) && (r is Err ==> r == Err::<
            (),
            TaskError,
        >(TaskError::AlreadyClaimed)),
{
    if task.challenge.is_late(60, now) {
        let seconds_left = (task.challenge.latest_submission_epoch as i64) - now;
        return Err(TaskError::Late { seconds_left });
    }
    match store.insert_one(task.solution.cloned()) {
        Ok(_) => Ok(()),
        Err(_) => Err(TaskError::AlreadyClaimed),
    }
}

/// How a claimed row reads after the search's result was recorded on it:
/// the artifacts, times and counters are the search's, the found status
/// matches the submission mode, and the row's identity is untouched.
pub open spec fn found_row_matches(
    updated: Solution,
    before: Solution,
    searched: Solution,
    time_taken_sec: i32,
    self_submit: bool,
) -> bool {
    &&& updated.nonce@ == searched.nonce@
    &&& updated.hash@ == searched.hash@
    &&& updated.preimage@ == searched.preimage@
    &&& updated.found_time == searched.found_time
    &&& updated.time_taken_sec == time_taken_sec
    &&& updated.total_hashes == searched.total_hashes
    &&& updated.status@ == (if self_submit { "found_self_submit"@ } else { "found"@ })
    &&& updated.id == before.id
    &&& updated.challenge_id == before.challenge_id
    &&& updated.address == before.address
    &&& updated.instance_id == before.instance_id
    &&& updated.submitter_id == before.submitter_id
    &&& updated.create_time == before.create_time
    &&& updated.submitted_time == before.submitted_time
}

/// Record what the search produced: an exhausted search is a task error
/// and writes nothing; a filled solution updates the claimed row with its
/// artifacts, counters and the found status for this instance's
/// submission mode.
pub fn record_search_result(
    store: &mut SubmitStore,
    searched: &Solution,
    self_submit: bool,
    time_taken_sec: i32,
) -> (r: Result<(), TaskError>)
    requires
        store_wf(*old(store)),
    ensures
        store_wf(*final(store)),
        spec_solution_empty(*searched) ==> r == Err::<(), TaskError>(
            (TaskError::SearchExhausted {
                time_taken_sec,
                total_hashes: searched.total_hashes,
            }),
        ) && *final(store) == *old(store),
        !spec_solution_empty(*searched) ==> {
            &&& r is Ok <==> store_has_id(*old(store), searched.id@)
            &&& r is Err ==> r == Err::<(), TaskError>(TaskError::RowMissing) && *final(store)
                == *old(store)
            &&& r is Ok ==> final(store).rows@.len() == old(store).rows@.len() && exists|i: int|
                0 <= i < old(store).rows@.len() && (#[trigger] old(store).rows@[i]).id@
                    == searched.id@ && found_row_matches(
                    final(store).rows@[i],
                    old(store).rows@[i],
                    *searched,
                    time_taken_sec,
                    self_submit,
                ) && (forall|j: int|
                    0 <= j < old(store).rows@.len() && j != i ==> final(store).rows@[j] == old(
                        store,
                    ).rows@[j])
        },
{
    if searched.is_empty() {
        return Err(
            TaskError::SearchExhausted { time_taken_sec, total_hashes: searched.total_hashes },
        );
    }
    let status = found_status(self_submit);
    let up = FoundUpdate {
        nonce: searched.nonce.clone(),
        hash: searched.hash.clone(),
        preimage: searched.preimage.clone(),
        found_time: searched.found_time,
        time_taken_sec,
        total_hashes: searched.total_hashes,
        status,
    };
    match store.mark_found(&searched.id, up) {
        Ok(_) => Ok(()),
        Err(_) => Err(TaskError::RowMissing),
    }
}

/// A challenge worth starting at `now`: more than an hour remains before
/// its deadline and it is not among the done ids.
pub open spec fn spec_eligible(c: Challenge, done: Seq<String>, now: int) -> bool {
    &&& c.latest_submission_epoch > now + 3600
    &&& forall|i: int| 0 <= i < done.len() ==> (#[trigger] done[i])@ != c.id@
}

/// Ascending by submission deadline: oldest-expiring first.
pub open spec fn spec_epoch_sorted(s: Seq<Challenge>) -> bool {
    forall|i: int, j: int|
        0 <= i < j < s.len() ==> (#[trigger] s[i]).latest_submission_epoch
            <= (#[trigger] s[j]).latest_submission_epoch
}

/// Whether a challenge passes the selection filter.
fn is_eligible(c: &Challenge, done: &Vec<String>, now: i64) -> (r: bool)
    requires
        0 <= now <= 0x7fff_ffff_ffff,
    ensures
        r == spec_eligible(*c, done@, now as int),
{
    if (c.latest_submission_epoch as i64) <= now + 3600 {
        return false;
    }
    let n = done.len();
    let mut k: usize = 0;
    while k < n
        invariant
            0 <= k <= n,
            n == done@.len(),
            forall|i: int| 0 <= i < k ==> (#[trigger] done@[i])@ != c.id@,
        decreases n - k,
    {
        if done[k] == c.id {
            return false;
        }
        k += 1;
    }
    true
}

proof fn lemma_insert_to_multiset(s: Seq<Challenge>, pos: int, x: Challenge)
    requires
        0 <= pos <= s.len(),
    ensures
        s.insert(pos, x).to_multiset() == s.to_multiset().insert(x),
{
    broadcast use vstd::seq_lib::group_to_multiset_ensures;
    broadcast use vstd::multiset::group_multiset_axioms;

    let a = s.subrange(0, pos);
    let b = s.subrange(pos, s.len() as int);
    assert(s.insert(pos, x) == a.push(x) + b);
    assert(s =~= a + b);
    vstd::seq_lib::lemma_multiset_commutative(a.push(x), b);
    vstd::seq_lib::lemma_multiset_commutative(a, b);
    assert(a.push(x).to_multiset() =~= a.to_multiset().insert(x));
    assert(s.insert(pos, x).to_multiset() =~= s.to_multiset().insert(x));
}

proof fn lemma_drop_last_subset(s: Seq<Challenge>)
    requires
        s.len() > 0,
    ensures
        s.drop_last().to_multiset().subset_of(s.to_multiset()),
{
    broadcast use vstd::seq_lib::group_to_multiset_ensures;
    broadcast use vstd::multiset::group_multiset_axioms;

    assert(s.drop_last() =~= s.remove(s.len() - 1));
    assert(s.remove(s.len() - 1).to_multiset() =~= s.to_multiset().remove(s[s.len() - 1]));
}

/// Select the challenges to mine at `now`: drop what expires within an
/// hour or is already done, take the oldest-expiring first, at most
/// `limit` of them.
pub fn fetch_challenges(challs: &Vec<Challenge>, done: &Vec<String>, now: i64, limit: usize)
    -> (r: Vec<Challenge>)
    requires
        0 <= now <= 0x7fff_ffff_ffff,
    ensures
        spec_epoch_sorted(r@),
        r@.len() <= limit,
        forall|k: int| 0 <= k < r@.len() ==> spec_eligible(#[trigger] r@[k], done@, now as int),
        challs@.filter(|c: Challenge| spec_eligible(c, done@, now as int)).len() <= limit
            ==> r@.to_multiset() == challs@.filter(
            |c: Challenge| spec_eligible(c, done@, now as int),
        ).to_multiset(),
        challs@.filter(|c: Challenge| spec_eligible(c, done@, now as int)).len() > limit
            ==> r@.len() == limit && r@.to_multiset().subset_of(
            challs@.filter(|c: Challenge| spec_eligible(c, done@, now as int)).to_multiset(),
        ),
        r@.len() > 0 ==> forall|v: Challenge|
            #[trigger] r@.to_multiset().count(v) < challs@.filter(
                |c: Challenge| spec_eligible(c, done@, now as int),
            ).to_multiset().count(v) ==> v.latest_submission_epoch >= r@[r@.len()
                - 1].latest_submission_epoch,
{
    let ghost pred = |c: Challenge| spec_eligible(c, done@, now as int);
    let n = challs.len();
    let mut sorted: Vec<Challenge> = Vec::new();
    proof {
        reveal_with_fuel(Seq::filter, 1);
        assert(challs@.take(0).filter(pred) =~= sorted@);
    }
    let mut i: usize = 0;
    while i < n
        invariant
            0 <= i <= n,
            n == challs@.len(),
            0 <= now <= 0x7fff_ffff_ffff,
            pred == (|c: Challenge| spec_eligible(c, done@, now as int)),
            spec_epoch_sorted(sorted@),
            sorted@.to_multiset() == challs@.take(i as int).filter(pred).to_multiset(),
            forall|k: int| 0 <= k < sorted@.len() ==> pred(#[trigger] sorted@[k]),
        decreases n - i,
    {
        proof {
            assert(challs@.take(i + 1).drop_last() =~= challs@.take(i as int));
            assert(challs@.take(i + 1).last() == challs@[i as int]);
            reveal_with_fuel(Seq::filter, 2);
            broadcast use vstd::seq_lib::group_to_multiset_ensures;

        }
        if is_eligible(&challs[i], done, now) {
            let x = challs[i].cloned();
            let m = sorted.len();
            let mut pos: usize = 0;
            while pos < m && sorted[pos].latest_submission_epoch <= x.latest_submission_epoch
                invariant
                    0 <= pos <= m,
                    m == sorted@.len(),
                    forall|j: int|
                        0 <= j < pos ==> (#[trigger] sorted@[j]).latest_submission_epoch
                            <= x.latest_submission_epoch,
                decreases m - pos,
            {
                pos += 1;
            }
            let ghost before = sorted@;
            proof {
                lemma_insert_to_multiset(sorted@, pos as int, x);
            }
            sorted.insert(pos, x);
            proof {
                before.insert_ensures(pos as int, x);
                assert forall|a: int, b: int| 0 <= a < b < sorted@.len() implies (
                #[trigger] sorted@[a]).latest_submission_epoch
                    <= (#[trigger] sorted@[b]).latest_submission_epoch by {
                    if b < pos {
                    } else if a == pos {
                        assert(sorted@[b] == before[b - 1]);
                        assert(pos < m ==> before[pos as int].latest_submission_epoch
                            > x.latest_submission_epoch);
                    } else if b == pos {
                        assert(sorted@[a] == before[a]);
                    } else if a > pos {
                        assert(sorted@[a] == before[a - 1]);
                        assert(sorted@[b] == before[b - 1]);
                    } else {
                        assert(sorted@[a] == before[a]);
                        assert(sorted@[b] == before[b - 1]);
                        assert(before[b - 1].latest_submission_epoch
                            >= (if pos < m {
                                before[pos as int].latest_submission_epoch
                            } else {
                                before[b - 1].latest_submission_epoch
                            }));
                    }
                }
            }
        }
        i += 1;
    }
    proof {
        assert(challs@.take(n as int) =~= challs@);
    }
    if sorted.len() <= limit {
        proof {
            broadcast use vstd::seq_lib::group_to_multiset_ensures;

            assert(sorted@.to_multiset().len() == sorted@.len());
            assert(challs@.filter(pred).to_multiset().len() == challs@.filter(pred).len());
        }
        return sorted;
    }
    proof {
        broadcast use vstd::seq_lib::group_to_multiset_ensures;

        assert(sorted@.to_multiset().len() == sorted@.len());
        assert(challs@.filter(pred).to_multiset().len() == challs@.filter(pred).len());
    }
    while sorted.len() > limit
        invariant
            spec_epoch_sorted(sorted@),
            challs@.filter(pred).len() > limit,
            sorted@.len() >= limit,
            forall|k: int| 0 <= k < sorted@.len() ==> pred(#[trigger] sorted@[k]),
            pred == (|c: Challenge| spec_eligible(c, done@, now as int)),
            sorted@.to_multiset().subset_of(challs@.filter(pred).to_multiset()),
            sorted@.len() > 0 ==> forall|v: Challenge|
                #[trigger] sorted@.to_multiset().count(v) < challs@.filter(
                    pred,
                ).to_multiset().count(v) ==> v.latest_submission_epoch >= sorted@[sorted@.len()
                    - 1].latest_submission_epoch,
        decreases sorted@.len(),
    {
        proof {
            broadcast use vstd::seq_lib::group_to_multiset_ensures;
            broadcast use vstd::multiset::group_multiset_axioms;

            lemma_drop_last_subset(sorted@);
            let s = sorted@;
            let t = s.drop_last();
            let last = s[s.len() - 1];
            assert(t =~= s.remove(s.len() - 1));
            assert(t.to_multiset() =~= s.to_multiset().remove(last));
            if t.len() > 0 {
                assert forall|v: Challenge|
                    #[trigger] t.to_multiset().count(v) < challs@.filter(
                        pred,
                    ).to_multiset().count(v) implies v.latest_submission_epoch >= t[t.len()
                        - 1].latest_submission_epoch by {
                    assert(t[t.len() - 1] == s[s.len() - 2]);
                    assert(t[t.len() - 1].latest_submission_epoch
                        <= last.latest_submission_epoch);
                    if v == last {
                    } else {
                        assert(t.to_multiset().count(v) == s.to_multiset().count(v));
                        assert(v.latest_submission_epoch >= last.latest_submission_epoch);
                    }
                }
            }
        }
        sorted.pop();
    }
    sorted
}

/// Whether an address is among the already-done addresses of a challenge.
pub fn should_skip(done: &Vec<String>, addr: &String) -> (r: bool)
    ensures
        r == exists|k: int| 0 <= k < done@.len() && (#[trigger] done@[k])@ == addr@,
{
    let n = done.len();
    let mut k: usize = 0;
    while k < n
        invariant
            0 <= k <= n,
            n == done@.len(),
            forall|i: int| 0 <= i < k ==> (#[trigger] done@[i])@ != addr@,
        decreases n - k,
    {
        if done[k] == *addr {
            return true;
        }
        k += 1;
    }
    false
}

/// Whether a driver error is the duplicate-key refusal, recognized by its
/// prose.
pub fn is_duplicate_key_error(msg: &str) -> (r: bool)
    ensures
        r == spec_contains(msg@, "duplicate key error"@),
{
    contains_sub(msg, "duplicate key error")
}

/// The message of a late task: key, then how few minutes remain.
pub fn late_message(challenge_id: &String, addr_short: &String, minutes_left: i64) -> (r: String)
    ensures
        r@ == challenge_id@ + seq![':'] + addr_short@ + " is late, only "@ + spec_dec_signed(
            minutes_left as int,
        ) + " minutes left"@,
{
    let mut out = challenge_id.clone();
    out.append(":");
    out.append(addr_short.as_str());
    out.append(" is late, only ");
    let d = i64_to_dec(minutes_left);
    out.append(d.as_str());
    out.append(" minutes left");
    proof {
        reveal_strlit(":");
        assert(out@ =~= challenge_id@ + seq![':'] + addr_short@ + " is late, only "@
            + spec_dec_signed(minutes_left as int) + " minutes left"@);
    }
    out
}

/// The message of an exhausted search: how long it ran and how many
/// hashes were counted.
pub fn exhausted_message(time_taken_sec: i32, total_hashes: i32) -> (r: String)
    requires
        time_taken_sec >= 0,
    ensures
        r@ == "timeout/max hash reached, time taken: "@ + spec_format_duration(
            time_taken_sec as int,
        ) + ", hashes: "@ + spec_dec_signed(total_hashes as int),
{
    let mut out = String::new();
    out.append("timeout/max hash reached, time taken: ");
    let d = format_duration(time_taken_sec);
    out.append(d.as_str());
    out.append(", hashes: ");
    let h = i64_to_dec(total_hashes as i64);
    out.append(h.as_str());
    out
}

} // verus!
