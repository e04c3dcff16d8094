use miner::rom::RomCache;
use miner::search::{SearchShared, WorkerContext};
use miner::store::{StoreError, SubmitStore};
use miner::types::{Challenge, ChallengeData, Config, Task};

fn mk_challenge(id: &str, difficulty: &str, no_pre_mine: &str, epoch: i32) -> Challenge {
    Challenge {
        id: String::from(id),
        challenge: ChallengeData {
            challenge_id: String::from(id),
            challenge_number: 1,
            day: 1,
            issued_at: String::from("2024-01-01T00:00:00Z"),
            latest_submission: String::from("2024-01-02T00:00:00Z"),
            difficulty: String::from(difficulty),
            no_pre_mine: String::from(no_pre_mine),
            no_pre_mine_hour: String::from("hour"),
        },
        total_challenges: 1,
        next_challenge_starts_at: String::from(""),
        latest_submission_epoch: epoch,
    }
}

fn mk_config(self_submit: bool) -> Config {
    Config {
        id: String::from("miner-1"),
        address_id: String::from("tag"),
        num_threads: 1,
        self_submit,
        submitter_id: String::from("submitter-1"),
        timeout_sec: 60,
        max_hash_count: 10_000_000,
    }
}

fn mk_task(challenge: &Challenge, addr: &str) -> Task {
    let cfg = mk_config(false);
    let mut cache = RomCache::new();
    let addrs = vec![String::from(addr)];
    let (mut tasks, _, _) = miner::machine::build_tasks(&cfg, challenge, &addrs, &mut cache, 0);
    tasks.remove(0)
}

#[test]
fn worker_context_builds_static_suffix() {
    let ch = mk_challenge("C1", "ffffffff", "seed", 100);
    let task = mk_task(&ch, "abc");
    let ctx = WorkerContext::new(&task).unwrap();
    assert_eq!(ctx.difficulty, 0xffffffff);
    assert_eq!(ctx.static_suffix, "abcC1ffffffffseed2024-01-02T00:00:00Zhour");
}

#[test]
fn worker_context_rejects_bad_difficulty() {
    let ch = mk_challenge("C1", "nothex", "seed", 100);
    let task = mk_task(&ch, "abc");
    assert!(WorkerContext::new(&task).is_none());
}

#[test]
fn candidate_preimage_is_nonce_then_suffix() {
    let ch = mk_challenge("C1", "ffffffff", "seed", 100);
    let task = mk_task(&ch, "abc");
    let ctx = WorkerContext::new(&task).unwrap();
    let cand = miner::search::next_candidate(&ctx);
    assert_eq!(cand.nonce.len(), 16);
    assert!(cand.nonce.chars().all(|c| c.is_ascii_hexdigit() && !c.is_ascii_uppercase()));
    assert_eq!(cand.preimage, format!("{}{}", cand.nonce, ctx.static_suffix));
}

#[test]
fn full_mask_accepts_any_digest() {
    let ch = mk_challenge("C1", "ffffffff", "seed", 100);
    let task = mk_task(&ch, "abc");
    let ctx = WorkerContext::new(&task).unwrap();
    let cand = miner::search::next_candidate(&ctx);
    let digest = vec![0xabu8; 32];
    let found = miner::search::check_candidate(&ctx, cand, &digest).unwrap();
    assert_eq!(found.hash, "ab".repeat(32));
}

#[test]
fn zero_mask_accepts_only_zero_prefix() {
    let ch = mk_challenge("C1", "00000000", "seed", 100);
    let task = mk_task(&ch, "abc");
    let ctx = WorkerContext::new(&task).unwrap();
    let mut digest = vec![0u8; 32];
    let cand = miner::search::next_candidate(&ctx);
    assert!(miner::search::check_candidate(&ctx, cand, &digest).is_some());
    digest[0] = 1;
    let cand2 = miner::search::next_candidate(&ctx);
    assert!(miner::search::check_candidate(&ctx, cand2, &digest).is_none());
}

#[test]
fn mask_test_is_bit_subset_not_order() {
    // 0x0f000000 under mask 0xff000000: subset, accepted even though larger tests would differ
    let ch = mk_challenge("C1", "ff000000", "seed", 100);
    let task = mk_task(&ch, "abc");
    let ctx = WorkerContext::new(&task).unwrap();
    let mut digest = vec![0u8; 32];
    digest[0] = 0x0f;
    let cand = miner::search::next_candidate(&ctx);
    assert!(miner::search::check_candidate(&ctx, cand, &digest).is_some());
    // a set bit outside the mask is refused
    digest[1] = 0x01;
    let cand2 = miner::search::next_candidate(&ctx);
    assert!(miner::search::check_candidate(&ctx, cand2, &digest).is_none());
}

fn some_found(ctx: &WorkerContext) -> miner::search::FoundSolution {
    let cand = miner::search::next_candidate(ctx);
    let digest = vec![0u8; 32];
    miner::search::check_candidate(ctx, cand, &digest).unwrap()
}

#[test]
fn first_hit_wins_the_stop_race() {
    let ch = mk_challenge("C1", "ffffffff", "seed", 100);
    let task = mk_task(&ch, "abc");
    let ctx = WorkerContext::new(&task).unwrap();
    let mut shared = SearchShared::new();
    let f1 = some_found(&ctx);
    let nonce1 = f1.nonce.clone();
    assert!(shared.try_claim_win(f1));
    assert!(shared.stop);
    let f2 = some_found(&ctx);
    assert!(!shared.try_claim_win(f2));
    assert_eq!(shared.winner.as_ref().unwrap().nonce, nonce1);
}

#[test]
fn hash_counter_is_monotonic_and_saturates() {
    let mut shared = SearchShared::new();
    shared.add_hashes(5);
    assert_eq!(shared.hash_counter, 5);
    shared.add_hashes(0);
    assert_eq!(shared.hash_counter, 5);
    shared.add_hashes(u32::MAX);
    assert_eq!(shared.hash_counter, i32::MAX);
    shared.add_hashes(1);
    assert_eq!(shared.hash_counter, i32::MAX);
}

#[test]
fn budget_checks_stop_the_search() {
    let mut shared = SearchShared::new();
    assert!(!shared.should_stop(10, 60, 1000));
    assert!(shared.should_stop(60, 60, 1000));
    shared.add_hashes(1000);
    assert!(shared.should_stop(0, 60, 1000));
    shared.request_stop();
    assert!(shared.stop);
}

#[test]
fn finish_search_fills_the_claimed_row() {
    let ch = mk_challenge("C1", "ffffffff", "seed", 100);
    let task = mk_task(&ch, "abc");
    let ctx = WorkerContext::new(&task).unwrap();
    let mut shared = SearchShared::new();
    shared.add_hashes(7);
    let f = some_found(&ctx);
    let nonce = f.nonce.clone();
    assert!(shared.try_claim_win(f));
    let out = shared.finish_search(&task.solution, 1_700_000_123);
    assert!(!out.is_empty());
    assert_eq!(out.nonce, nonce);
    assert_eq!(out.id, "C1:abc");
    assert_eq!(out.total_hashes, 7);
    assert_eq!(out.found_time, 1_700_000_123);
}

#[test]
fn finish_search_without_winner_is_empty() {
    let ch = mk_challenge("C1", "00000000", "seed", 100);
    let task = mk_task(&ch, "abc");
    let mut shared = SearchShared::new();
    shared.add_hashes(42);
    shared.request_stop();
    let out = shared.finish_search(&task.solution, 0);
    assert!(out.is_empty());
    assert_eq!(out.total_hashes, 42);
}

#[test]
fn store_refuses_duplicate_claims() {
    let ch = mk_challenge("C1", "ffffffff", "seed", 100);
    let t1 = mk_task(&ch, "abc");
    let t2 = mk_task(&ch, "abc");
    let mut store = SubmitStore::new();
    assert!(store.insert_one(t1.solution).is_ok());
    assert_eq!(store.insert_one(t2.solution), Err(StoreError::DuplicateKey));
    assert_eq!(store.rows.len(), 1);
}

#[test]
fn store_finds_found_rows_only() {
    let ch = mk_challenge("C1", "ffffffff", "seed", 100);
    let task = mk_task(&ch, "abc");
    let mut store = SubmitStore::new();
    store.insert_one(task.solution.cloned()).unwrap();
    assert!(store.find_found().is_empty());
    let ctx = WorkerContext::new(&task).unwrap();
    let mut shared = SearchShared::new();
    shared.add_hashes(3);
    assert!(shared.try_claim_win(some_found(&ctx)));
    let searched = shared.finish_search(&task.solution, 1);
    miner::machine::record_search_result(&mut store, &searched, false, 9).unwrap();
    let found = store.find_found();
    assert_eq!(found.len(), 1);
    assert_eq!(found[0].status, "found");
    assert_eq!(found[0].total_hashes, 3);
    assert_eq!(found[0].time_taken_sec, 9);
}

#[test]
fn store_lists_addresses_for_challenge() {
    let ch = mk_challenge("C1", "ffffffff", "seed", 100);
    let other = mk_challenge("C2", "ffffffff", "seed", 100);
    let mut store = SubmitStore::new();
    store.insert_one(mk_task(&ch, "a1").solution).unwrap();
    store.insert_one(mk_task(&ch, "a2").solution).unwrap();
    store.insert_one(mk_task(&other, "b1").solution).unwrap();
    let done = store.addresses_for_challenge(&String::from("C1"));
    assert_eq!(done, vec![String::from("a1"), String::from("a2")]);
}

#[test]
fn protocol_constants() {
    let rp = miner::rom::rom_params();
    assert_eq!(rp.pre_size, 16 * 1024 * 1024);
    assert_eq!(rp.mixing_numbers, 4);
    assert_eq!(rp.final_size, 1024 * 1024 * 1024);
    let hp = miner::rom::hash_params();
    assert_eq!(hp.rounds, 8);
    assert_eq!(hp.digest_bits, 256);
}

#[test]
fn rom_cache_builds_once_per_seed() {
    let mut cache = RomCache::new();
    let (id1, fresh1) = cache.rom_for_seed(&String::from("X"));
    let (id2, fresh2) = cache.rom_for_seed(&String::from("X"));
    let (id3, fresh3) = cache.rom_for_seed(&String::from("Y"));
    assert!(fresh1);
    assert!(!fresh2);
    assert!(fresh3);
    assert_eq!(id1, id2);
    assert_ne!(id1.index, id3.index);
}
