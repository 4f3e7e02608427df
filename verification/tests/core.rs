use ssh_key_sync::aggregate::{build_aggregate, key_block};
use ssh_key_sync::collect::{order_results, Arrival};
use ssh_key_sync::config::{owner_only_dir_mode, owner_only_file_mode, SyncConfig, DIR_MODE, FILE_MODE};
use ssh_key_sync::cycle::plan_cycle;
use ssh_key_sync::errors::FetchError;
use ssh_key_sync::schedule::sleep_nanos;
use ssh_key_sync::url::keys_url;

fn bytes(s: &str) -> Vec<u8> {
    s.as_bytes().to_vec()
}

#[test]
fn aggregate_two_identities_exact_bytes() {
    let ids = vec![bytes("alice"), bytes("bob")];
    let keys = vec![bytes("keyA\n"), bytes("keyB\n")];
    let out = build_aggregate(&ids, &keys);
    assert_eq!(out, bytes("# alice\nkeyA\n\n\n# bob\nkeyB\n\n"));
}

#[test]
fn aggregate_single_identity_no_trailing_separator() {
    let ids = vec![bytes("alice")];
    let keys = vec![bytes("keyA\n")];
    let out = build_aggregate(&ids, &keys);
    assert_eq!(out, bytes("# alice\nkeyA\n\n"));
}

#[test]
fn aggregate_empty_list_is_empty() {
    let ids: Vec<Vec<u8>> = vec![];
    let keys: Vec<Vec<u8>> = vec![];
    let out = build_aggregate(&ids, &keys);
    assert_eq!(out, Vec::<u8>::new());
}

#[test]
fn aggregate_keeps_duplicate_identities() {
    let ids = vec![bytes("alice"), bytes("alice")];
    let keys = vec![bytes("k\n"), bytes("k\n")];
    let out = build_aggregate(&ids, &keys);
    assert_eq!(out, bytes("# alice\nk\n\n\n# alice\nk\n\n"));
}

#[test]
fn key_block_format() {
    let out = key_block(&bytes("carol"), &bytes("ssh-ed25519 AAA\n"));
    assert_eq!(out, bytes("# carol\nssh-ed25519 AAA\n\n"));
}

#[test]
fn order_results_ignores_completion_order() {
    let ids = vec![bytes("alice"), bytes("bob")];
    // identity 1 finishes before identity 0
    let late_first = vec![
        Arrival { index: 1, outcome: Ok(bytes("keyB\n")) },
        Arrival { index: 0, outcome: Ok(bytes("keyA\n")) },
    ];
    let in_order = vec![
        Arrival { index: 0, outcome: Ok(bytes("keyA\n")) },
        Arrival { index: 1, outcome: Ok(bytes("keyB\n")) },
    ];
    let a = plan_cycle(&ids, order_results(2, late_first)).unwrap();
    let b = plan_cycle(&ids, order_results(2, in_order)).unwrap();
    assert_eq!(a, b);
    assert_eq!(a, bytes("# alice\nkeyA\n\n\n# bob\nkeyB\n\n"));
}

#[test]
fn plan_cycle_all_ok_builds_aggregate() {
    let ids = vec![bytes("alice"), bytes("bob")];
    let results = vec![Ok(bytes("keyA\n")), Ok(bytes("keyB\n"))];
    let out = plan_cycle(&ids, results);
    assert_eq!(out, Ok(bytes("# alice\nkeyA\n\n\n# bob\nkeyB\n\n")));
}

#[test]
fn plan_cycle_fails_fast_with_first_error() {
    let ids = vec![bytes("alice"), bytes("bob"), bytes("carol")];
    let results = vec![
        Ok(bytes("keyA\n")),
        Err(FetchError::Status(404)),
        Err(FetchError::Decode),
    ];
    let out = plan_cycle(&ids, results);
    assert_eq!(out, Err(FetchError::Status(404)));
}

#[test]
fn plan_cycle_surfaces_request_error() {
    let ids = vec![bytes("alice")];
    let out = plan_cycle(&ids, vec![Err(FetchError::Request)]);
    assert_eq!(out, Err(FetchError::Request));
}

#[test]
fn plan_cycle_surfaces_decode_error() {
    let ids = vec![bytes("alice"), bytes("bob")];
    let out = plan_cycle(&ids, vec![Ok(bytes("keyA\n")), Err(FetchError::Decode)]);
    assert_eq!(out, Err(FetchError::Decode));
}

#[test]
fn repeated_cycles_same_results_are_idempotent() {
    let ids = vec![bytes("alice"), bytes("bob")];
    let first = plan_cycle(&ids, vec![Ok(bytes("keyA\n")), Ok(bytes("keyB\n"))]).unwrap();
    let second = plan_cycle(&ids, vec![Ok(bytes("keyA\n")), Ok(bytes("keyB\n"))]).unwrap();
    assert_eq!(first, second);
}

#[test]
fn sleep_covers_remainder_of_interval() {
    // interval 10 s, cycle took 3 s: wait exactly the remaining 7 s
    assert_eq!(sleep_nanos(10_000_000_000, 3_000_000_000), 7_000_000_000);
}

#[test]
fn sleep_is_zero_when_cycle_ran_over() {
    // interval 10 s, cycle took 12 s: next cycle starts immediately
    assert_eq!(sleep_nanos(10_000_000_000, 12_000_000_000), 0);
}

#[test]
fn sleep_is_zero_at_exact_boundary() {
    assert_eq!(sleep_nanos(10_000_000_000, 10_000_000_000), 0);
}

#[test]
fn config_rejects_zero_interval() {
    let cfg = SyncConfig::new(bytes("/tmp/authorized_keys"), vec![bytes("alice")], 0);
    assert!(cfg.is_none());
}

#[test]
fn config_rejects_empty_identity() {
    let cfg = SyncConfig::new(bytes("/tmp/authorized_keys"), vec![bytes("alice"), bytes("")], 1);
    assert!(cfg.is_none());
}

#[test]
fn config_accepts_valid_fields_unchanged() {
    let cfg = SyncConfig::new(
        bytes("/tmp/authorized_keys"),
        vec![bytes("alice"), bytes("bob")],
        5_000_000_000,
    )
    .unwrap();
    assert_eq!(cfg.dest_path, bytes("/tmp/authorized_keys"));
    assert_eq!(cfg.identities, vec![bytes("alice"), bytes("bob")]);
    assert_eq!(cfg.interval_ns, 5_000_000_000);
}

#[test]
fn config_accepts_empty_identity_list() {
    let cfg = SyncConfig::new(bytes("/tmp/authorized_keys"), vec![], 1);
    assert!(cfg.is_some());
}

#[test]
fn permission_modes_are_owner_only() {
    assert_eq!(FILE_MODE, 0o600);
    assert_eq!(DIR_MODE, 0o700);
    assert!(owner_only_file_mode(0o600));
    assert!(!owner_only_file_mode(0o644));
    assert!(owner_only_dir_mode(0o700));
    assert!(!owner_only_dir_mode(0o755));
}

#[test]
fn keys_url_names_the_identity() {
    assert_eq!(keys_url(&bytes("alice")), bytes("https://github.com/alice.keys"));
}
