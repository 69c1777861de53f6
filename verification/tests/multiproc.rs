use rust_py_monitor::multiproc::{
    alive_from_probe, init_from_env, is_shard_name, prepare_shard, record, reset_shard, set_dir,
    shard_action, shard_file_name, shard_len_ok, shard_owner, DirPlan, Merged, MultiprocState,
    ShardAction, BUCKET_BOUNDS_MS, FORMAT_VERSION, I_BUCKETS_START,
    I_ERRORS, I_HEARTBEAT, I_MAX_US, I_MIN_US, I_PID, I_SUM_US, I_TOTAL, I_VERSION, MIN_EMPTY,
    NUM_BUCKETS, SHARD_BYTES, SHARD_LEN_U64,
};

fn fresh(pid: u32, now: u64) -> Vec<u64> {
    let mut slots = vec![0u64; SHARD_LEN_U64];
    let kept = prepare_shard(&mut slots, pid, now);
    assert!(!kept);
    slots
}

fn fake_shard(pid: u32, total: u64, errors: u64, bucket: usize) -> Vec<u64> {
    let mut slots = vec![0u64; SHARD_LEN_U64];
    slots[I_VERSION] = FORMAT_VERSION;
    slots[I_PID] = pid as u64;
    slots[I_TOTAL] = total;
    slots[I_ERRORS] = errors;
    slots[I_MIN_US] = 5_000;
    slots[I_MAX_US] = 5_000;
    slots[I_BUCKETS_START + bucket] = total;
    slots
}

#[test]
fn disabled_by_default_returns_none() {
    assert!(matches!(set_dir(None), DirPlan::Disable));
    let state: MultiprocState<()> = MultiprocState::Disabled;
    assert!(state.dir().is_none());
    assert!(!state.enabled());
}

#[test]
fn records_into_own_shard() {
    let mut slots = fresh(4242, 100);
    record(&mut slots, 200, 10_000, 3, 101);
    record(&mut slots, 500, 20_000, 4, 102);
    let mut m = Merged::new();
    assert!(m.merge_fits(&slots));
    m.merge_shard(&slots);
    assert_eq!(m.total, 2);
    assert_eq!(m.errors, 1);
    assert_eq!(m.min_us, 10_000);
    assert_eq!(m.max_us, 20_000);
}

#[test]
fn merges_multiple_live_shards() {
    let mut own = fresh(4242, 100);
    record(&mut own, 200, 10_000, 3, 101);
    let other = fake_shard(4242, 4, 2, 3);
    let mut m = Merged::new();
    m.merge_shard(&own);
    assert!(m.merge_fits(&other));
    m.merge_shard(&other);
    assert_eq!(m.total, 5);
    assert_eq!(m.errors, 2);
}

#[test]
fn record_updates_every_counter() {
    let mut slots = fresh(7, 1);
    record(&mut slots, 404, 1_500, 1, 9);
    assert_eq!(slots[I_TOTAL], 1);
    assert_eq!(slots[I_ERRORS], 1);
    assert_eq!(slots[I_SUM_US], 1_500);
    assert_eq!(slots[I_MIN_US], 1_500);
    assert_eq!(slots[I_MAX_US], 1_500);
    assert_eq!(slots[I_BUCKETS_START + 1], 1);
    assert_eq!(slots[I_HEARTBEAT], 9);
    record(&mut slots, 399, 700, 0, 10);
    assert_eq!(slots[I_TOTAL], 2);
    assert_eq!(slots[I_ERRORS], 1);
    assert_eq!(slots[I_SUM_US], 2_200);
    assert_eq!(slots[I_MIN_US], 700);
    assert_eq!(slots[I_MAX_US], 1_500);
    assert_eq!(slots[I_HEARTBEAT], 10);
    let buckets: u64 = slots[I_BUCKETS_START..].iter().sum();
    assert_eq!(buckets, slots[I_TOTAL]);
}

#[test]
fn record_counters_wrap_like_atomics() {
    let mut slots = fresh(7, 1);
    slots[I_SUM_US] = u64::MAX;
    record(&mut slots, 200, 2, 0, 1);
    assert_eq!(slots[I_SUM_US], 1);
}

#[test]
fn prepare_shard_resets_foreign_and_keeps_own() {
    let mut slots = vec![9u64; SHARD_LEN_U64];
    assert!(!prepare_shard(&mut slots, 12, 555));
    assert_eq!(slots[I_VERSION], FORMAT_VERSION);
    assert_eq!(slots[I_PID], 12);
    assert_eq!(slots[I_MIN_US], MIN_EMPTY);
    assert_eq!(slots[I_HEARTBEAT], 555);
    assert_eq!(slots[I_TOTAL], 0);
    assert!(slots[I_BUCKETS_START..].iter().all(|&b| b == 0));

    record(&mut slots, 200, 3, 0, 556);
    let before = slots.clone();
    assert!(prepare_shard(&mut slots, 12, 999));
    assert_eq!(slots, before);

    // Same layout but another owner: reset.
    assert!(!prepare_shard(&mut slots, 13, 1000));
    assert_eq!(slots[I_PID], 13);
    assert_eq!(slots[I_TOTAL], 0);
}

#[test]
fn fresh_shard_merges_as_nothing() {
    let mut m = Merged::new();
    m.merge_shard(&fake_shard(1, 3, 1, 2));
    let (t, e, s, mi, ma, b) = (m.total, m.errors, m.sum_us, m.min_us, m.max_us, m.buckets);
    m.merge_shard(&fresh(2, 5));
    assert_eq!((m.total, m.errors, m.sum_us, m.min_us, m.max_us, m.buckets), (t, e, s, mi, ma, b));
}

#[test]
fn merge_order_does_not_matter() {
    let mut a = fresh(1, 1);
    record(&mut a, 500, 3_000, 2, 1);
    record(&mut a, 200, 90_000, 6, 1);
    let mut b = fresh(2, 1);
    record(&mut b, 200, 400, 0, 1);
    let mut ab = Merged::new();
    ab.merge_shard(&a);
    ab.merge_shard(&b);
    let mut ba = Merged::new();
    ba.merge_shard(&b);
    ba.merge_shard(&a);
    assert_eq!(
        (ab.total, ab.errors, ab.sum_us, ab.min_us, ab.max_us, ab.buckets),
        (ba.total, ba.errors, ba.sum_us, ba.min_us, ba.max_us, ba.buckets)
    );
    assert_eq!(ab.total, 3);
    assert_eq!(ab.min_us, 400);
    assert_eq!(ab.max_us, 90_000);
    assert_eq!(ab.buckets.iter().sum::<u64>(), ab.total);
}

#[test]
fn merge_sum_saturates() {
    let mut a = fake_shard(1, 1, 0, 0);
    a[I_SUM_US] = u64::MAX - 1;
    let mut b = fake_shard(1, 1, 0, 0);
    b[I_SUM_US] = 10;
    let mut m = Merged::new();
    m.merge_shard(&a);
    m.merge_shard(&b);
    assert_eq!(m.sum_us, u64::MAX);
}

#[test]
fn merge_fits_detects_overflow() {
    let mut m = Merged::new();
    m.merge_shard(&fake_shard(1, u64::MAX, 0, 5));
    assert!(!m.merge_fits(&fake_shard(1, 1, 0, 0)));
    assert!(m.merge_fits(&fake_shard(1, 0, 0, 0)));
}

#[test]
fn observed_min_ignores_empty_shards() {
    let mut m = Merged::new();
    assert_eq!(m.observed_min_us(), None);
    m.merge_shard(&fresh(3, 0));
    assert_eq!(m.observed_min_us(), None);
    m.merge_shard(&fake_shard(3, 1, 0, 3));
    assert_eq!(m.observed_min_us(), Some(5_000));
}

#[test]
fn shard_owner_requires_current_version() {
    let s = fake_shard(77, 1, 0, 0);
    assert_eq!(shard_owner(&s), Some(77));
    let mut old = s.clone();
    old[I_VERSION] = 0;
    assert_eq!(shard_owner(&old), None);
}

#[test]
fn shard_size_check() {
    assert_eq!(SHARD_BYTES, 176);
    assert!(shard_len_ok(176));
    assert!(shard_len_ok(4096));
    assert!(!shard_len_ok(175));
    assert!(!shard_len_ok(0));
}

#[test]
fn shard_names() {
    assert_eq!(shard_file_name(4242), "rpy-4242.shard");
    assert_eq!(shard_file_name(0), "rpy-0.shard");
    assert!(is_shard_name(&shard_file_name(u32::MAX)));
    assert!(is_shard_name("rpy-other.shard"));
    assert!(is_shard_name("rpy-.shard"));
    assert!(!is_shard_name("rpy-1.shard.tmp"));
    assert!(!is_shard_name("xrpy-1.shard"));
    assert!(!is_shard_name("rpy.shard"));
}

#[test]
fn set_dir_plans() {
    match set_dir(Some("/tmp/rpy-metrics")) {
        DirPlan::Open { dir, reset } => {
            assert_eq!(dir, "/tmp/rpy-metrics");
            assert!(reset);
        }
        DirPlan::Disable => panic!("expected a directory to open"),
    }
    match set_dir(Some("  /tmp/x ")) {
        DirPlan::Open { dir, .. } => assert_eq!(dir, "  /tmp/x "),
        DirPlan::Disable => panic!("expected a directory to open"),
    }
    match init_from_env(Some("/tmp/rpy-metrics")) {
        DirPlan::Open { dir, reset } => {
            assert_eq!(dir, "/tmp/rpy-metrics");
            assert!(!reset);
        }
        DirPlan::Disable => panic!("expected a directory to open"),
    }
    assert!(matches!(init_from_env(None), DirPlan::Disable));
    assert!(matches!(init_from_env(Some(" ")), DirPlan::Disable));
    assert!(matches!(set_dir(Some("\u{3000}")), DirPlan::Disable));
    assert!(matches!(set_dir(Some("")), DirPlan::Disable));
    assert!(matches!(set_dir(Some(" \t\n")), DirPlan::Disable));
}

#[test]
fn state_after_open() {
    let on: MultiprocState<u8> = MultiprocState::opened(String::from("/tmp/d"), Some(1));
    assert!(on.enabled());
    assert_eq!(on.dir(), Some(String::from("/tmp/d")));
    assert!(!on.needs_init());
    let off: MultiprocState<u8> = MultiprocState::opened(String::from("/tmp/d"), None);
    assert!(!off.enabled());
    assert_eq!(off.dir(), None);
    let fresh_state: MultiprocState<u8> = MultiprocState::Uninit;
    assert!(fresh_state.needs_init());
    assert!(!fresh_state.enabled());
}

#[test]
fn liveness_probe_reading() {
    assert!(alive_from_probe(0, None, 1));
    assert!(alive_from_probe(-1, Some(1), 1));
    assert!(!alive_from_probe(-1, Some(3), 1));
    assert!(!alive_from_probe(-1, None, 1));
}

#[test]
fn bucket_layout() {
    assert_eq!(NUM_BUCKETS, BUCKET_BOUNDS_MS.len() + 1);
    assert_eq!(SHARD_LEN_U64, I_BUCKETS_START + NUM_BUCKETS);
    assert!(BUCKET_BOUNDS_MS.windows(2).all(|w| w[0] < w[1]));
    assert_eq!(BUCKET_BOUNDS_MS[0], 1);
    assert_eq!(BUCKET_BOUNDS_MS[12], 10_000);
}

#[test]
fn explicit_reopen_resets_own_shard() {
    // Open, record a request, open again explicitly: counting starts over.
    let mut slots = fresh(4242, 100);
    record(&mut slots, 200, 10_000, 3, 101);
    let mut again = slots.clone();
    reset_shard(&mut again, 4242, 200);
    let mut m = Merged::new();
    m.merge_shard(&again);
    assert_eq!(m.total, 0);
    assert_eq!(again, fresh(4242, 200));
    // The first use through the environment keeps this process's counters.
    let mut kept = slots.clone();
    assert!(prepare_shard(&mut kept, 4242, 200));
    assert_eq!(kept[I_TOTAL], 1);
}

#[test]
fn disabled_state_hands_out_no_shard() {
    let off: MultiprocState<u8> = MultiprocState::Disabled;
    assert!(off.writer().is_none());
    let uninit: MultiprocState<u8> = MultiprocState::Uninit;
    assert!(uninit.writer().is_none());
    let on: MultiprocState<u8> = MultiprocState::opened(String::from("/d"), Some(5));
    assert_eq!(on.writer(), Some(&5));
}

#[test]
fn shard_actions() {
    let live = fake_shard(1, 2, 0, 0);
    assert_eq!(shard_action(176, &live, true), ShardAction::Merge);
    assert_eq!(shard_action(176, &live, false), ShardAction::Prune);
    assert_eq!(shard_action(100, &[], true), ShardAction::Skip);
    let mut other = live.clone();
    other[I_VERSION] = 2;
    assert_eq!(shard_action(176, &other, true), ShardAction::Skip);
    assert_eq!(shard_action(176, &other, false), ShardAction::Skip);
}

#[test]
fn walk_adds_only_live_shards() {
    let a = fake_shard(1, 3, 1, 2);
    let b = fake_shard(2, 999, 999, 5);
    let mut c = fake_shard(3, 4, 2, 3);
    c[I_MIN_US] = 700;
    c[I_MAX_US] = 9_000;
    let mut old = fake_shard(4, 50, 50, 1);
    old[I_VERSION] = 0;
    let mut m = Merged::new();
    assert_eq!(m.absorb(176, &a, true), ShardAction::Merge);
    assert_eq!(m.absorb(176, &b, false), ShardAction::Prune);
    assert_eq!(m.absorb(10, &[], true), ShardAction::Skip);
    assert_eq!(m.absorb(176, &old, true), ShardAction::Skip);
    assert_eq!(m.absorb(176, &c, true), ShardAction::Merge);
    assert_eq!(m.total, 7);
    assert_eq!(m.errors, 3);
    assert_eq!(m.min_us, 700);
    assert_eq!(m.max_us, 9_000);
    assert_eq!(m.buckets[2], 3);
    assert_eq!(m.buckets[3], 4);
    assert_eq!(m.buckets[5], 0);
}
