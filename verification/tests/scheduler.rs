use oasis_rofl_client::scheduler::bundle::{
    bundle_location, METADATA_KEY_DEPLOYMENT_ORC_REF,
    add_storage, add_streamed, available_storage, validate_descriptors, BundleError, Descriptor,
    PullBudget, OCI_TYPE_ORC_CONFIG, OCI_TYPE_ORC_LAYER,
};
use oasis_rofl_client::scheduler::metadata::Metadata;
use oasis_rofl_client::scheduler::plan::{
    discover_pass, manage_pass, ManagedInstance, MarketInstance,
    chunk_ids, derive_desired_state, random_jittered_secs, removal_delay, RoundTracker, discover_decision, instance_action, jittered_secs,
    offer_acceptable, pending_decision, removal_blocked, removal_due, should_claim_payment,
    unknown_instances, CommandAction, DiscoverDecision, InstanceAction, InstanceStatus,
    PendingDecision, QueuedCommand, JOB_CHUNK_SIZE, REMOVE_INSTANCE_AFTER_SECS,
};
use oasis_rofl_client::scheduler::state::{
    InstanceRegistry, InstanceState, RetryBackoff, MAX_RETRY_DELAY_MILLIS,
};
use oasis_rofl_client::scheduler::updates::{
    discovered_updates, finalize_updates, is_error_truncatable, truncate_error, InstanceUpdates, METADATA_KEY_ERROR,
    METADATA_KEY_SCHEDULER_RAK,
};

fn cmd(id: u64, action: CommandAction) -> QueuedCommand {
    QueuedCommand { id, action }
}

fn deploy(d: &[u8], wipe: bool) -> CommandAction {
    CommandAction::Deploy { deployment: d.to_vec(), wipe_storage: wipe }
}

#[test]
fn no_commands_keep_current_deployment() {
    let d = derive_desired_state(Some(b"v1"), &vec![]);
    assert_eq!(d.deployment, Some(b"v1".to_vec()));
    assert!(!d.wipe_storage && !d.force_restart);
    assert_eq!(d.last_processed_cmd, None);
}

#[test]
fn last_deploy_or_terminate_decides() {
    let cmds = vec![
        cmd(1, deploy(b"v2", false)),
        cmd(2, CommandAction::Restart { wipe_storage: false }),
        cmd(3, CommandAction::Unrecognized),
    ];
    let d = derive_desired_state(Some(b"v1"), &cmds);
    assert_eq!(d.deployment, Some(b"v2".to_vec()));
    assert!(d.force_restart);
    assert!(!d.wipe_storage);
    assert_eq!(d.last_processed_cmd, Some(3));

    let cmds = vec![
        cmd(7, deploy(b"v2", true)),
        cmd(8, CommandAction::Terminate { wipe_storage: false }),
    ];
    let d = derive_desired_state(None, &cmds);
    assert_eq!(d.deployment, None);
    assert!(d.wipe_storage);
    assert!(!d.force_restart);
    assert_eq!(d.last_processed_cmd, Some(8));
}

#[test]
fn instance_actions() {
    assert_eq!(
        instance_action(Some("h1"), Some("h1"), false, false),
        InstanceAction::Nothing
    );
    assert_eq!(
        instance_action(Some("h1"), Some("h1"), true, true),
        InstanceAction::Start { wipe_storage: true }
    );
    assert_eq!(
        instance_action(Some(""), Some("h1"), false, false),
        InstanceAction::Start { wipe_storage: false }
    );
    assert_eq!(
        instance_action(None, Some("h1"), false, false),
        InstanceAction::Start { wipe_storage: false }
    );
    assert_eq!(
        instance_action(Some("h1"), None, false, true),
        InstanceAction::Stop { wipe_storage: true }
    );
    assert_eq!(instance_action(None, None, true, true), InstanceAction::Nothing);
}

#[test]
fn discovery_decisions() {
    assert_eq!(
        discover_decision(InstanceStatus::Created, true, 100, 5, 50, true),
        DiscoverDecision::Skip
    );
    assert_eq!(
        discover_decision(InstanceStatus::Cancelled, true, 100, 5, 50, true),
        DiscoverDecision::ScheduleRemoval { since: 5 }
    );
    assert_eq!(
        discover_decision(InstanceStatus::Accepted, false, 100, 5, 50, true),
        DiscoverDecision::Skip
    );
    assert_eq!(
        discover_decision(InstanceStatus::Accepted, true, 40, 5, 50, true),
        DiscoverDecision::Unpaid { stop: true, since: 40 }
    );
    assert_eq!(
        discover_decision(InstanceStatus::Accepted, true, 50, 5, 50, false),
        DiscoverDecision::Manage
    );
}

#[test]
fn pending_decisions() {
    assert_eq!(
        pending_decision(InstanceStatus::Created, false, false, true, true, true),
        PendingDecision::Accept { transfer: false }
    );
    assert_eq!(
        pending_decision(InstanceStatus::Created, false, false, false, true, true),
        PendingDecision::Reject { maybe_remove: true }
    );
    assert_eq!(
        pending_decision(InstanceStatus::Accepted, true, true, true, true, true),
        PendingDecision::Skip
    );
    assert_eq!(
        pending_decision(InstanceStatus::Accepted, false, false, true, true, true),
        PendingDecision::Skip
    );
    assert_eq!(
        pending_decision(InstanceStatus::Accepted, false, true, true, true, true),
        PendingDecision::Accept { transfer: true }
    );
    assert_eq!(
        pending_decision(InstanceStatus::Accepted, false, true, true, false, true),
        PendingDecision::Reject { maybe_remove: false }
    );
    assert_eq!(
        pending_decision(InstanceStatus::Cancelled, false, true, true, true, true),
        PendingDecision::Skip
    );
}

#[test]
fn offers() {
    let none: Vec<String> = vec![];
    let some = vec!["a".to_string(), "b".to_string()];
    assert!(!offer_acceptable(None, &none));
    assert!(offer_acceptable(Some("x"), &none));
    assert!(offer_acceptable(Some("b"), &some));
    assert!(!offer_acceptable(Some("c"), &some));
}

#[test]
fn payment_and_removal_timing() {
    assert_eq!(jittered_secs(REMOVE_INSTANCE_AFTER_SECS, 75), 1350);
    assert_eq!(jittered_secs(3600, 124), 4464);
    assert!(should_claim_payment(101, 0, 100));
    assert!(!should_claim_payment(100, 0, 100));
    assert!(!should_claim_payment(u64::MAX, u64::MAX - 1, 10));
    assert!(removal_due(2000, 100, 1800));
    assert!(!removal_due(1000, 100, 1800));
    assert!(!removal_due(10, 100, 1));
    assert!(removal_due(10, 100, 0));
    assert!(removal_blocked(5, 5));
    assert!(!removal_blocked(5, 6));
}

#[test]
fn retry_state_of_an_instance() {
    let mut reg = InstanceRegistry::new();
    assert!(reg.get_instance(1).is_none());
    assert!(reg.should_start_instance(1, b"d1", 0));
    assert!(reg.get_instance(1).is_some());

    reg.set_last_instance_deployment(1, b"d1");
    reg.ignore_instance_start(1, "boom".to_string(), 1_000);
    let s = reg.get_instance(1).unwrap();
    assert_eq!(s.last_error().map(|e| e.as_str()), Some("boom"));
    let until = s.ignore_start_until().expect("an unbounded backoff always gives a delay");
    assert!(until > 1_000 && until <= 1_000 + MAX_RETRY_DELAY_MILLIS);
    assert_eq!(reg.should_start_instance(1, b"d1", until), true);
    assert!(!reg.should_start_instance(1, b"d1", 1_000));
    // A different deployment starts at once.
    assert!(reg.should_start_instance(1, b"d2", 1_000));

    reg.allow_instance_start(1);
    let s = reg.get_instance(1).unwrap();
    assert!(s.last_error().is_none());
    assert!(s.ignore_start_until().is_none());
    assert!(reg.should_start_instance(1, b"d1", 1_000));

    reg.set_admin(1, vec![1, 2, 3]);
    assert_eq!(reg.get_instance(1).unwrap().admin(), &vec![1, 2, 3]);
    reg.remove_instance(1);
    assert!(reg.get_instance(1).is_none());

    // Allowing an unknown instance leaves it unknown.
    reg.allow_instance_start(9);
    assert!(reg.get_instance(9).is_none());
    assert!(InstanceState::new().admin().is_empty());
}

fn desc(media_type: &str, size: i64) -> Descriptor {
    Descriptor { media_type: media_type.to_string(), size }
}

#[test]
fn descriptor_checks() {
    let config = desc(OCI_TYPE_ORC_CONFIG, 1000);
    let layers = vec![desc(OCI_TYPE_ORC_LAYER, 10), desc(OCI_TYPE_ORC_LAYER, 20)];
    assert_eq!(validate_descriptors(&config, &layers), Ok(1030));
    assert_eq!(
        validate_descriptors(&desc("x", 1), &layers),
        Err(BundleError::InvalidConfigMediaType)
    );
    assert_eq!(
        validate_descriptors(&desc(OCI_TYPE_ORC_CONFIG, 16385), &layers),
        Err(BundleError::ManifestTooBig)
    );
    assert_eq!(
        validate_descriptors(&config, &vec![desc("y", 1)]),
        Err(BundleError::InvalidLayerMediaType)
    );
    assert_eq!(
        validate_descriptors(&config, &vec![desc(OCI_TYPE_ORC_LAYER, 134217729)]),
        Err(BundleError::LayerTooBig)
    );
    assert_eq!(
        validate_descriptors(
            &config,
            &vec![desc(OCI_TYPE_ORC_LAYER, 134217728), desc(OCI_TYPE_ORC_LAYER, 1)]
        ),
        Err(BundleError::BundleTooBig)
    );
    assert_eq!(BundleError::BundleTooBig.to_string(), "ORC bundle too big");
}

#[test]
fn pull_budget() {
    let mut b = PullBudget::new();
    assert_eq!(b.start_layer(Some(134217729)), Err(BundleError::LayerTooBig));
    assert_eq!(b.start_layer(Some(100)), Ok(()));
    assert_eq!(b.add_chunk(100), Ok(()));
    assert_eq!(b.total(), 100);
    assert_eq!(b.start_layer(None), Ok(()));
    assert_eq!(b.add_chunk(134217728), Err(BundleError::BundleTooBig));
    let mut c = PullBudget::new();
    assert_eq!(c.start_layer(None), Ok(()));
    assert_eq!(c.add_chunk(134217729), Err(BundleError::LayerTooBig));
    assert_eq!(available_storage(2), 2 * 1024 * 1024);
    assert_eq!(add_storage(10, 20, 30), Ok(30));
    assert_eq!(add_storage(10, 21, 30), Err(BundleError::StorageExceeded));
    assert_eq!(add_streamed(10, 20), Ok(30));
    assert_eq!(add_streamed(134217728, 1), Err(BundleError::BundleTooBig));
}

#[test]
fn metadata_map() {
    let mut m = Metadata::new();
    m.insert("a".to_string(), "1".to_string());
    m.insert("b".to_string(), "2".to_string());
    m.insert("a".to_string(), "3".to_string());
    assert_eq!(m.get("a").map(|s| s.as_str()), Some("3"));
    assert_eq!(m.entries().len(), 2);
    let c = m.copy();
    assert!(c.same_as(&m));
    m.remove("a");
    assert!(m.get("a").is_none());
    assert!(!c.same_as(&m));
    m.remove("zzz");
    assert_eq!(m.entries().len(), 1);
}

#[test]
fn metadata_entries_are_in_key_order() {
    let mut m = Metadata::new();
    for k in ["net.oasis.b", "z", "a", "net.oasis.a", "é", "B", ""] {
        m.insert(k.to_string(), format!("v-{k}"));
    }
    m.insert("z".to_string(), "again".to_string());
    let keys: Vec<&str> = m.entries().iter().map(|(k, _)| k.as_str()).collect();
    let mut expected = vec!["net.oasis.b", "z", "a", "net.oasis.a", "é", "B", ""];
    expected.sort();
    assert_eq!(keys, expected);
    m.remove("a");
    let keys: Vec<&str> = m.entries().iter().map(|(k, _)| k.as_str()).collect();
    assert_eq!(keys, vec!["", "B", "net.oasis.a", "net.oasis.b", "z", "é"]);
}

#[test]
fn discovery_updates() {
    let mut meta = Metadata::new();
    meta.insert("k".to_string(), "v".to_string());
    let desired = derive_desired_state(Some(b"v1"), &vec![cmd(4, deploy(b"v2", false))]);
    let u = discovered_updates(Some(b"v1"), &desired, &meta, "rak");
    assert_eq!(u.complete_cmds, Some(4));
    assert_eq!(u.deployment, Some(Some(b"v2".to_vec())));
    let m = u.metadata.as_ref().unwrap();
    assert_eq!(m.entries().len(), 1);
    assert_eq!(m.get(METADATA_KEY_SCHEDULER_RAK).map(|s| s.as_str()), Some("rak"));
    assert!(u.has_updates());

    meta.insert(METADATA_KEY_SCHEDULER_RAK.to_string(), "rak".to_string());
    let same = derive_desired_state(Some(b"v1"), &vec![]);
    let u = discovered_updates(Some(b"v1"), &same, &meta, "rak");
    assert!(!u.has_updates());
}

#[test]
fn final_updates_follow_last_error() {
    let mut meta = Metadata::new();
    meta.insert("k".to_string(), "v".to_string());
    assert!(finalize_updates(InstanceUpdates::new(), &meta, None).is_none());

    let u = finalize_updates(InstanceUpdates::new(), &meta, Some("failed")).unwrap();
    let m = u.metadata.unwrap();
    assert_eq!(m.get(METADATA_KEY_ERROR).map(|s| s.as_str()), Some("failed"));
    assert_eq!(m.get("k").map(|s| s.as_str()), Some("v"));

    let mut with_error = meta.copy();
    with_error.insert(METADATA_KEY_ERROR.to_string(), "old".to_string());
    let u = finalize_updates(InstanceUpdates::new(), &with_error, None).unwrap();
    assert!(u.metadata.unwrap().get(METADATA_KEY_ERROR).is_none());

    let long = "x".repeat(2000);
    assert_eq!(truncate_error(&long).len(), 1024);
    assert_eq!(truncate_error("short"), "short");
    assert!(is_error_truncatable(&long));
    assert!(is_error_truncatable("short"));
    let split = format!("{}é", "x".repeat(1023));
    assert!(!is_error_truncatable(&split));
    assert!(is_error_truncatable(&format!("{}é", "x".repeat(1022))));
}

#[test]
fn retry_delays_stay_within_the_backoff_bounds() {
    let mut b = RetryBackoff::new();
    for _ in 0..30 {
        let d = b.next_delay_millis();
        assert!(d >= 250 && d <= MAX_RETRY_DELAY_MILLIS);
    }
    let mut s = InstanceState::new();
    s.ignore_start("failed".to_string(), u64::MAX - 10);
    assert!(s.ignore_start_until().is_none());
    s.ignore_start("failed".to_string(), 5);
    let until = s.ignore_start_until().unwrap();
    assert!(until > 5 && until <= 5 + MAX_RETRY_DELAY_MILLIS);
}

#[test]
fn rounds_are_processed_once() {
    let mut t = RoundTracker::new();
    assert!(!t.should_process(0));
    assert!(t.should_process(7));
    t.complete(7);
    assert!(!t.should_process(7));
    assert!(!t.should_process(6));
    assert!(t.should_process(8));
}

#[test]
fn jitter_stays_within_bounds() {
    for _ in 0..50 {
        let r = random_jittered_secs(1000);
        assert!((750..=1240).contains(&r));
        let d = removal_delay();
        assert!((1350..=2232).contains(&d));
    }
    assert_eq!(jittered_secs(1800, 75), 1350);
}

#[test]
fn unknown_and_chunked() {
    let mut r = unknown_instances(&vec![1, 2, 3], &vec![3, 4, 4], &vec![2]);
    r.sort();
    assert_eq!(r, vec![1, 3, 4]);
    let ids: Vec<u64> = (0..35).collect();
    let chunks = chunk_ids(&ids, JOB_CHUNK_SIZE);
    assert_eq!(chunks.len(), 3);
    assert_eq!(chunks[0].len(), 16);
    assert_eq!(chunks[2].len(), 3);
    assert_eq!(chunks.concat(), ids);
    assert!(chunk_ids(&vec![], 16).is_empty());
}

#[test]
fn bundle_location_must_be_set() {
    let mut m = Metadata::new();
    let e = bundle_location(&m).unwrap_err();
    assert_eq!(e, BundleError::LocationNotSet);
    assert_eq!(e.to_string(), "bundle location not set");
    m.insert(METADATA_KEY_DEPLOYMENT_ORC_REF.to_string(), "reg.io/app:1".to_string());
    assert_eq!(bundle_location(&m).unwrap(), "reg.io/app:1");
}

#[test]
fn discovery_pass_sorts_instances() {
    let mk = |id, status, hosted_here, paid_until| MarketInstance {
        id,
        status,
        hosted_here,
        paid_until,
        updated_at: 7,
    };
    let instances = vec![
        mk(1, InstanceStatus::Created, false, 100),
        mk(2, InstanceStatus::Cancelled, false, 100),
        mk(3, InstanceStatus::Accepted, false, 100),
        mk(4, InstanceStatus::Accepted, true, 10),
        mk(5, InstanceStatus::Accepted, true, 10),
        mk(6, InstanceStatus::Accepted, true, 100),
    ];
    let r = discover_pass(&instances, 50, &vec![4, 6, 9]);
    assert_eq!(r.maybe_remove, vec![(2, 7), (4, 10), (5, 10)]);
    assert_eq!(r.stop_unpaid, vec![4]);
    assert_eq!(r.managed, vec![6]);
    assert_eq!(r.known, vec![4, 5, 6]);
    let mut unknown = unknown_instances(&vec![4, 6, 9], &vec![5, 11], &r.known);
    unknown.sort();
    assert_eq!(unknown, vec![9, 11]);
}

#[test]
fn manage_pass_queues_starts_stops_and_claims() {
    let mk = |id, running: Option<&str>, desired: Option<&str>, force, paid_from| ManagedInstance {
        id,
        running_hash: running.map(|s| s.to_string()),
        desired_hash: desired.map(|s| s.to_string()),
        force_restart: force,
        wipe_storage: id == 2,
        paid_from,
    };
    let instances = vec![
        mk(1, Some("h"), Some("h"), false, 0),
        mk(2, None, Some("h"), false, 10_000),
        mk(3, Some("h"), None, false, 0),
        mk(4, Some("h"), Some("h"), true, 10_000),
        mk(5, Some("old"), Some("new"), false, 0),
        mk(6, None, None, false, 0),
    ];
    // With a base of 100 s the jittered interval lies within 75..=124 s.
    let r = manage_pass(&instances, 1_000, 100);
    assert_eq!(r.start, vec![(2, true), (4, false), (5, false)]);
    assert_eq!(r.stop, vec![(3, false)]);
    assert_eq!(r.claim_payment, vec![1, 3, 5, 6]);
}
