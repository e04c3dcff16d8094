use miner::machine::{
    build_base_solution, build_tasks, claim_task, exhausted_message, fetch_challenges,
    is_duplicate_key_error, late_message, record_search_result, should_skip, Ledger, TaskError,
};
use miner::rom::RomCache;
use miner::search::{SearchShared, WorkerContext};
use miner::store::SubmitStore;
use miner::submitter::{
    accept_status, challenge_url, finalize_challenge, non_ok_message, record_submission_outcome,
    should_refresh, submission_url, SubmitOutcome,
};
use miner::types::{Challenge, ChallengeData, Config};

const NOW: i64 = 1_700_000_000;

fn mk_challenge(id: &str, difficulty: &str, no_pre_mine: &str, epoch: i32) -> Challenge {
    Challenge {
        id: String::from(id),
        challenge: ChallengeData {
            challenge_id: String::from(id),
            challenge_number: 1,
            day: 1,
            issued_at: String::from("2024-01-01T00:00:00Z"),
            latest_submission: String::from("2015-05-15T00:00:00Z"),
            difficulty: String::from(difficulty),
            no_pre_mine: String::from(no_pre_mine),
            no_pre_mine_hour: String::from("hour"),
        },
        total_challenges: 1,
        next_challenge_starts_at: String::from(""),
        latest_submission_epoch: epoch,
    }
}

fn mk_config(self_submit: bool) -> Config {
    Config {
        id: String::from("miner-1"),
        address_id: String::from("tag"),
        num_threads: 1,
        self_submit,
        submitter_id: String::from("submitter-1"),
        timeout_sec: 60,
        max_hash_count: 10_000_000,
    }
}

fn live_epoch() -> i32 {
    (NOW + 7200) as i32
}

#[test]
fn base_solution_key_and_status() {
    let cfg = mk_config(false);
    let ch = mk_challenge("C1", "ffffffff", "seed", live_epoch());
    let addr = String::from("abc");
    let s = build_base_solution(&cfg, &ch, &addr, NOW);
    assert_eq!(s.id, "C1:abc");
    assert_eq!(s.challenge_id, "C1");
    assert_eq!(s.address, "abc");
    assert_eq!(s.status, "onit");
    assert!(s.is_empty());
    let cfg2 = mk_config(true);
    let s2 = build_base_solution(&cfg2, &ch, &addr, NOW);
    assert_eq!(s2.status, "onit_self_submit");
}

#[test]
fn base_solution_key_shortens_long_addresses() {
    let cfg = mk_config(false);
    let ch = mk_challenge("C1", "ffffffff", "seed", live_epoch());
    let addr = String::from("abcdefghijklmnopqrstuvwxy");
    let s = build_base_solution(&cfg, &ch, &addr, NOW);
    assert_eq!(s.id, "C1:abcdefghij...uvwxy");
    assert_eq!(s.address, addr);
}

#[test]
fn tasks_of_one_seed_share_one_rom() {
    let cfg = mk_config(false);
    let mut cache = RomCache::new();
    let ch1 = mk_challenge("C1", "ffffffff", "X", live_epoch());
    let ch2 = mk_challenge("C2", "ffffffff", "X", live_epoch());
    let addrs = vec![String::from("a1"), String::from("a2")];
    let (tasks1, rom1, fresh1) = build_tasks(&cfg, &ch1, &addrs, &mut cache, NOW);
    let (tasks2, rom2, fresh2) = build_tasks(&cfg, &ch2, &addrs, &mut cache, NOW);
    assert!(fresh1);
    assert!(!fresh2);
    assert_eq!(rom1, rom2);
    assert!(tasks1.iter().all(|t| t.rom == rom1));
    assert!(tasks2.iter().all(|t| t.rom == rom1));
    assert_eq!(tasks1.len(), 2);
    assert_eq!(tasks1[0].solution.id, "C1:a1");
    assert_eq!(tasks1[1].solution.id, "C1:a2");
}

#[test]
fn happy_path_single_worker() {
    let cfg = mk_config(false);
    let mut cache = RomCache::new();
    let ch = mk_challenge("C1", "ffffffff", "seed", live_epoch());
    let addrs = vec![String::from("abc")];
    let (mut tasks, _, _) = build_tasks(&cfg, &ch, &addrs, &mut cache, NOW);
    let task = tasks.remove(0);
    let mut store = SubmitStore::new();
    let mut ledger = Ledger::new();

    let claim = claim_task(&mut store, &task, NOW);
    assert!(claim.is_ok());

    let ctx = WorkerContext::new(&task).unwrap();
    let mut shared = SearchShared::new();
    let cand = miner::search::next_candidate(&ctx);
    let digest = vec![0u8; 32];
    let found = miner::search::check_candidate(&ctx, cand, &digest).unwrap();
    shared.add_hashes(1);
    assert!(shared.try_claim_win(found));
    let searched = shared.finish_search(&task.solution, NOW + 5);

    let rec = record_search_result(&mut store, &searched, cfg.self_submit, 5);
    assert!(rec.is_ok());
    ledger.record(&rec);

    assert_eq!(store.rows.len(), 1);
    let row = &store.rows[0];
    assert_eq!(row.id, "C1:abc");
    assert_eq!(row.status, "found");
    assert!(!row.nonce.is_empty() && !row.hash.is_empty() && !row.preimage.is_empty());
    assert!(row.total_hashes >= 1);
    assert_eq!(ledger.success, 1);
}

#[test]
fn exhausted_search_reports_timeout() {
    let cfg = mk_config(false);
    let mut cache = RomCache::new();
    let ch = mk_challenge("C1", "00000000", "seed", live_epoch());
    let addrs = vec![String::from("abc")];
    let (mut tasks, _, _) = build_tasks(&cfg, &ch, &addrs, &mut cache, NOW);
    let task = tasks.remove(0);
    let mut store = SubmitStore::new();
    claim_task(&mut store, &task, NOW).unwrap();

    let mut shared = SearchShared::new();
    shared.add_hashes(12);
    shared.request_stop();
    let searched = shared.finish_search(&task.solution, NOW);
    let rec = record_search_result(&mut store, &searched, false, 61);
    assert_eq!(
        rec,
        Err(TaskError::SearchExhausted { time_taken_sec: 61, total_hashes: 12 })
    );
    let msg = exhausted_message(61, 12);
    assert_eq!(msg, "timeout/max hash reached, time taken: 1m1s, hashes: 12");
    assert!(msg.starts_with("timeout/max hash reached"));
    assert_eq!(store.rows[0].status, "onit");
}

#[test]
fn claim_race_has_one_winner() {
    let cfg = mk_config(false);
    let mut cache = RomCache::new();
    let ch = mk_challenge("C1", "ffffffff", "seed", live_epoch());
    let addrs = vec![String::from("abc")];
    let (mut tasks1, _, _) = build_tasks(&cfg, &ch, &addrs, &mut cache, NOW);
    let (mut tasks2, _, _) = build_tasks(&cfg, &ch, &addrs, &mut cache, NOW);
    let mut store = SubmitStore::new();
    let mut ledger = Ledger::new();

    let first = claim_task(&mut store, &tasks1.remove(0), NOW);
    let second = claim_task(&mut store, &tasks2.remove(0), NOW);
    assert!(first.is_ok());
    assert_eq!(second, Err(TaskError::AlreadyClaimed));
    ledger.record(&second);
    assert_eq!(ledger.skip, 1);
    assert_eq!(store.rows.len(), 1);
    assert!(is_duplicate_key_error(
        "E11000 duplicate key error collection: defensio.submit"
    ));
}

#[test]
fn late_challenge_is_refused_before_any_write() {
    let cfg = mk_config(false);
    let mut cache = RomCache::new();
    let ch = mk_challenge("C1", "ffffffff", "seed", (NOW + 30) as i32);
    let addrs = vec![String::from("abc")];
    let (mut tasks, _, _) = build_tasks(&cfg, &ch, &addrs, &mut cache, NOW);
    let mut store = SubmitStore::new();
    let mut ledger = Ledger::new();

    let r = claim_task(&mut store, &tasks.remove(0), NOW);
    assert_eq!(r, Err(TaskError::Late { seconds_left: 30 }));
    ledger.record(&r);
    assert_eq!(ledger.error, 1);
    assert_eq!(store.rows.len(), 0);
    let msg = late_message(&String::from("C1"), &String::from("abc"), 0);
    assert_eq!(msg, "C1:abc is late, only 0 minutes left");
    assert!(msg.contains("is late"));
}

#[test]
fn challenge_selection_filters_and_sorts() {
    let now: i64 = NOW;
    let challs = vec![
        mk_challenge("far", "ffffffff", "s", (now + 90000) as i32),
        mk_challenge("soon", "ffffffff", "s", (now + 30) as i32),
        mk_challenge("edge", "ffffffff", "s", (now + 3600) as i32),
        mk_challenge("mid", "ffffffff", "s", (now + 7200) as i32),
        mk_challenge("done1", "ffffffff", "s", (now + 7200) as i32),
    ];
    let done = vec![String::from("done1")];
    let r = fetch_challenges(&challs, &done, now, 1000);
    let ids: Vec<&str> = r.iter().map(|c| c.id.as_str()).collect();
    assert_eq!(ids, vec!["mid", "far"]);
    let limited = fetch_challenges(&challs, &done, now, 1);
    assert_eq!(limited.len(), 1);
    assert_eq!(limited[0].id, "mid");
}

#[test]
fn done_addresses_are_skipped() {
    let done = vec![String::from("a1"), String::from("a2")];
    assert!(should_skip(&done, &String::from("a1")));
    assert!(!should_skip(&done, &String::from("a3")));
}

#[test]
fn config_defaults_are_filled() {
    let mut cfg = mk_config(false);
    cfg.num_threads = 0;
    cfg.timeout_sec = -1;
    cfg.max_hash_count = 0;
    let n = cfg.normalized(8);
    assert_eq!(n.num_threads, 8);
    assert_eq!(n.timeout_sec, 3600);
    assert_eq!(n.max_hash_count, 10_000_000);
    let mut cfg2 = mk_config(false);
    cfg2.num_threads = 0;
    let n2 = cfg2.normalized(0);
    assert_eq!(n2.num_threads, 1);
    let n3 = mk_config(false).normalized(8);
    assert_eq!(n3.num_threads, 1);
    assert_eq!(n3.timeout_sec, 60);
}

#[test]
fn challenge_lateness_is_measured_in_minutes() {
    let ch = mk_challenge("C1", "ffffffff", "seed", (NOW + 3600) as i32);
    assert!(ch.is_late(60, NOW));
    let ch2 = mk_challenge("C1", "ffffffff", "seed", (NOW + 3601) as i32);
    assert!(!ch2.is_late(60, NOW));
    assert!(ch2.is_late(61, NOW));
}

#[test]
fn fetched_challenge_is_finalized() {
    let ch = mk_challenge("C9", "ffffffff", "seed", 0);
    let out = finalize_challenge(ch).unwrap();
    assert_eq!(out.id, "C9");
    assert_eq!(out.latest_submission_epoch, 1431648000);
}

#[test]
fn unparsable_deadline_is_refused() {
    let mut ch = mk_challenge("C9", "ffffffff", "seed", 0);
    ch.challenge.latest_submission = String::from("yesterday at noon");
    assert!(finalize_challenge(ch).is_err());
}

#[test]
fn upstream_urls() {
    let base = String::from("https://mine.defensio.io/api");
    assert_eq!(challenge_url(&base), "https://mine.defensio.io/api/challenge");
    let url = submission_url(
        &base,
        &String::from("abc"),
        &String::from("C1"),
        &String::from("00000000deadbeef"),
    );
    assert_eq!(url, "https://mine.defensio.io/api/solution/abc/C1/00000000deadbeef");
}

#[test]
fn only_200_and_201_accept() {
    assert!(accept_status(200));
    assert!(accept_status(201));
    assert!(!accept_status(204));
    assert!(!accept_status(409));
    assert!(!accept_status(500));
}

#[test]
fn refresh_every_five_seconds() {
    assert!(!should_refresh(100, 100));
    assert!(!should_refresh(105, 100));
    assert!(should_refresh(106, 100));
}

fn store_with_found_row() -> SubmitStore {
    let cfg = mk_config(false);
    let mut cache = RomCache::new();
    let ch = mk_challenge("C1", "ffffffff", "seed", live_epoch());
    let addrs = vec![String::from("abc")];
    let (mut tasks, _, _) = build_tasks(&cfg, &ch, &addrs, &mut cache, NOW);
    let task = tasks.remove(0);
    let mut store = SubmitStore::new();
    claim_task(&mut store, &task, NOW).unwrap();
    let ctx = WorkerContext::new(&task).unwrap();
    let mut shared = SearchShared::new();
    let cand = miner::search::next_candidate(&ctx);
    let digest = vec![0u8; 32];
    let found = miner::search::check_candidate(&ctx, cand, &digest).unwrap();
    shared.add_hashes(1);
    assert!(shared.try_claim_win(found));
    let searched = shared.finish_search(&task.solution, NOW);
    record_search_result(&mut store, &searched, false, 1).unwrap();
    store
}

#[test]
fn accepted_submission_is_recorded() {
    let mut store = store_with_found_row();
    let id = store.rows[0].id.clone();
    let r = record_submission_outcome(
        &mut store,
        &id,
        &SubmitOutcome::Accepted { submitted_time: NOW + 9 },
    );
    assert!(r.is_ok());
    assert_eq!(store.rows[0].status, "submitted");
    assert_eq!(store.rows[0].submitted_time, NOW + 9);
}

#[test]
fn conflicting_submission_is_classified_terminal() {
    let mut store = store_with_found_row();
    let id = store.rows[0].id.clone();
    let body = String::from("Solution already exists");
    let msg = non_ok_message(409, &body);
    assert_eq!(msg, "non-OK HTTP status: 409, body: Solution already exists");
    let r = record_submission_outcome(&mut store, &id, &SubmitOutcome::Failed { message: msg });
    assert!(r.is_ok());
    assert_eq!(store.rows[0].status, "failed_to_submit_solution_exists");
    assert!(store.find_found().is_empty());
}

#[test]
fn missing_row_refuses_submission_record() {
    let mut store = SubmitStore::new();
    let r = record_submission_outcome(
        &mut store,
        &String::from("nope"),
        &SubmitOutcome::Accepted { submitted_time: 0 },
    );
    assert!(r.is_err());
}
