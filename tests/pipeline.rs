use kafka_proxy::gateway::{ingest, Reply};
use kafka_proxy::models::{BackupRecord, Configuration, MessagePayload};
use kafka_proxy::recovery::{Recovery, RecoveryAction, RecoveryEvent};
use kafka_proxy::stats::{Stat, StatCounter};
use kafka_proxy::worker::{DeliveryWorker, WorkerAction, WorkerEvent, WorkerMode};
use std::collections::BTreeMap;

fn envelope(topic: &str, payload: &str) -> MessagePayload {
    MessagePayload::new(topic.to_string(), payload.to_string())
}

fn mode(dry_run: bool, panic_on_backup: bool) -> WorkerMode {
    WorkerMode { dry_run, panic_on_backup }
}

fn is_envelope(e: &MessagePayload, topic: &str, payload: &str) -> bool {
    e.topic == topic && e.payload == payload
}

#[test]
fn stat_counters() {
    let s = Stat::new(true, false);
    assert!(s.is_http_request && !s.was_successful);
    assert_eq!(Stat::new(true, true).counter(), StatCounter::HttpSuccess);
    assert_eq!(Stat::new(true, false).counter(), StatCounter::HttpFailure);
    assert_eq!(Stat::new(false, true).counter(), StatCounter::BrokerSuccess);
    assert_eq!(Stat::new(false, false).counter(), StatCounter::BrokerFailure);
    assert_eq!(StatCounter::HttpSuccess.statsd_key(), "http.success");
    assert_eq!(StatCounter::HttpFailure.statsd_key(), "http.failure");
    assert_eq!(StatCounter::BrokerSuccess.statsd_key(), "kafka.success");
    assert_eq!(StatCounter::BrokerFailure.statsd_key(), "kafka.failure");
}

#[test]
fn ingest_accepts_a_body() {
    let r = ingest("orders".to_string(), Some("hello".to_string()));
    assert_eq!(r.reply, Reply::Accepted);
    assert!(is_envelope(r.envelope.as_ref().unwrap(), "orders", "hello"));
    assert_eq!(r.stat, Stat::new(true, true));
}

#[test]
fn ingest_rejects_missing_or_empty_body() {
    for body in [None, Some(String::new())] {
        let r = ingest("orders".to_string(), body);
        assert_eq!(r.reply, Reply::Rejected);
        assert!(r.envelope.is_none());
        assert_eq!(r.stat, Stat::new(true, false));
    }
}

#[test]
fn worker_mode_from_configuration() {
    let config = Configuration {
        cert_path: "/c".to_string(),
        key_path: "/k".to_string(),
        brokers: vec!["b:1".to_string()],
        port: 3000,
        panic_on_backup: true,
        dry_run: false,
    };
    assert_eq!(WorkerMode::from_config(&config), mode(false, true));
}

#[test]
fn delivery_with_reachable_broker() {
    let accepted = ingest("orders".to_string(), Some("hello".to_string()));
    assert_eq!(accepted.reply, Reply::Accepted);
    let mut worker = DeliveryWorker::new(mode(false, false));
    match worker.step(WorkerEvent::Dequeued(accepted.envelope.unwrap())) {
        WorkerAction::Publish(e) => assert!(is_envelope(&e, "orders", "hello")),
        _ => panic!("expected a publish"),
    }
    match worker.step(WorkerEvent::PublishSucceeded) {
        WorkerAction::Finish { stat, failure_signal } => {
            assert_eq!(stat.counter(), StatCounter::BrokerSuccess);
            assert!(!failure_signal);
        },
        _ => panic!("expected the envelope to be settled"),
    }
    assert!(worker.is_idle());
}

#[test]
fn delivery_with_unreachable_broker_backs_up() {
    let accepted = ingest("orders".to_string(), Some("hello".to_string()));
    assert_eq!(accepted.reply, Reply::Accepted);
    let mut worker = DeliveryWorker::new(mode(false, false));
    assert!(matches!(worker.step(WorkerEvent::Dequeued(accepted.envelope.unwrap())), WorkerAction::Publish(_)));
    match worker.step(WorkerEvent::PublishFailed) {
        WorkerAction::Save(e) => assert!(is_envelope(&e, "orders", "hello")),
        _ => panic!("expected a save"),
    }
    match worker.step(WorkerEvent::SaveSucceeded) {
        WorkerAction::Finish { stat, failure_signal } => {
            assert_eq!(stat.counter(), StatCounter::BrokerFailure);
            assert!(failure_signal);
        },
        _ => panic!("expected the envelope to be settled"),
    }
    assert!(worker.is_idle());
}

#[test]
fn failed_backup_without_panic_is_reported_lost() {
    let mut worker = DeliveryWorker::new(mode(false, false));
    worker.step(WorkerEvent::Dequeued(envelope("t", "p")));
    worker.step(WorkerEvent::PublishFailed);
    match worker.step(WorkerEvent::SaveFailed) {
        WorkerAction::Abandon { lost, stat } => {
            assert!(is_envelope(&lost, "t", "p"));
            assert_eq!(stat.counter(), StatCounter::BrokerFailure);
        },
        _ => panic!("expected the loss to be reported"),
    }
    assert!(worker.is_idle());
}

#[test]
fn failed_backup_with_panic_terminates() {
    let mut worker = DeliveryWorker::new(mode(false, true));
    worker.step(WorkerEvent::Dequeued(envelope("t", "p")));
    worker.step(WorkerEvent::PublishFailed);
    match worker.step(WorkerEvent::SaveFailed) {
        WorkerAction::Terminate(e) => assert!(is_envelope(&e, "t", "p")),
        _ => panic!("expected termination"),
    }
    assert!(worker.is_halted());
    match worker.step(WorkerEvent::Dequeued(envelope("t", "next"))) {
        WorkerAction::Refuse(e) => assert!(is_envelope(&e, "t", "next")),
        _ => panic!("expected the envelope to be handed back"),
    }
    assert!(matches!(worker.step(WorkerEvent::PublishSucceeded), WorkerAction::Ignore));
}

#[test]
fn dry_run_only_logs() {
    let mut worker = DeliveryWorker::new(mode(true, true));
    for payload in ["a", "b"] {
        match worker.step(WorkerEvent::Dequeued(envelope("t", payload))) {
            WorkerAction::Log(e) => assert!(is_envelope(&e, "t", payload)),
            _ => panic!("expected a log"),
        }
    }
    assert!(matches!(worker.step(WorkerEvent::PublishFailed), WorkerAction::Ignore));
    assert!(worker.is_idle());
    let (recovery, first) = Recovery::start(true);
    assert!(matches!(first, RecoveryAction::Skipped));
    assert!(recovery.is_done());
}

#[test]
fn busy_worker_hands_back_an_envelope() {
    let mut worker = DeliveryWorker::new(mode(false, false));
    worker.step(WorkerEvent::Dequeued(envelope("t", "first")));
    match worker.step(WorkerEvent::Dequeued(envelope("t", "second"))) {
        WorkerAction::Refuse(e) => assert!(is_envelope(&e, "t", "second")),
        _ => panic!("expected the envelope to be handed back"),
    }
    match worker.step(WorkerEvent::PublishFailed) {
        WorkerAction::Save(e) => assert!(is_envelope(&e, "t", "first")),
        _ => panic!("expected a save of the first envelope"),
    }
}

#[test]
fn unexpected_events_change_nothing() {
    let mut worker = DeliveryWorker::new(mode(false, false));
    assert!(matches!(worker.step(WorkerEvent::SaveSucceeded), WorkerAction::Ignore));
    worker.step(WorkerEvent::Dequeued(envelope("t", "p")));
    assert!(matches!(worker.step(WorkerEvent::SaveFailed), WorkerAction::Ignore));
    assert!(matches!(worker.step(WorkerEvent::PublishSucceeded), WorkerAction::Finish { .. }));
}

/// Runs a recovery pass against an in-memory store and a broker that takes
/// a publish when `accept` says so; returns the envelopes published.
fn run_recovery(store: &mut BTreeMap<String, MessagePayload>, accept: impl Fn(&MessagePayload) -> bool) -> Vec<MessagePayload> {
    let (mut recovery, mut action) = Recovery::start(false);
    let mut published = Vec::new();
    loop {
        let event = match action {
            RecoveryAction::List => RecoveryEvent::Listed(
                store.iter().map(|(id, e)| BackupRecord::new(id.clone(), e.clone())).collect(),
            ),
            RecoveryAction::Publish(e) => {
                if accept(&e) {
                    published.push(e);
                    RecoveryEvent::PublishSucceeded
                } else {
                    RecoveryEvent::PublishFailed
                }
            },
            RecoveryAction::Delete(id) => {
                store.remove(&id);
                RecoveryEvent::DeleteFinished
            },
            RecoveryAction::Complete => break,
            _ => panic!("unexpected request"),
        };
        action = recovery.step(event);
    }
    assert!(recovery.is_done());
    published
}

#[test]
fn recovery_drains_a_store_when_broker_accepts_all() {
    let mut store = BTreeMap::new();
    store.insert("A".to_string(), envelope("t", "a"));
    store.insert("B".to_string(), envelope("t", "b"));
    let published = run_recovery(&mut store, |_| true);
    assert!(store.is_empty());
    assert_eq!(published.len(), 2);
    assert!(is_envelope(&published[0], "t", "a"));
    assert!(is_envelope(&published[1], "t", "b"));
}

#[test]
fn recovery_after_outage_replays_backed_up_message() {
    let mut store = BTreeMap::new();
    store.insert("id-1".to_string(), envelope("orders", "hello"));
    let published = run_recovery(&mut store, |_| true);
    assert_eq!(published.len(), 1);
    assert!(is_envelope(&published[0], "orders", "hello"));
    assert!(store.is_empty());
}

#[test]
fn recovery_keeps_records_that_fail_again() {
    let mut store = BTreeMap::new();
    store.insert("A".to_string(), envelope("t", "a"));
    store.insert("B".to_string(), envelope("t", "b"));
    let published = run_recovery(&mut store, |e| e.payload == "b");
    assert_eq!(published.len(), 1);
    assert_eq!(store.len(), 1);
    assert!(store.contains_key("A"));
}

#[test]
fn recovery_of_empty_store_completes_at_once() {
    let (mut recovery, first) = Recovery::start(false);
    assert!(matches!(first, RecoveryAction::List));
    assert!(matches!(recovery.step(RecoveryEvent::Listed(Vec::new())), RecoveryAction::Complete));
    assert!(recovery.is_done());
}

#[test]
fn recovery_is_skipped_when_store_cannot_be_listed() {
    let (mut recovery, _) = Recovery::start(false);
    assert!(matches!(recovery.step(RecoveryEvent::PublishSucceeded), RecoveryAction::Ignore));
    assert!(matches!(recovery.step(RecoveryEvent::ListFailed), RecoveryAction::Skipped));
    assert!(recovery.is_done());
    assert!(matches!(recovery.step(RecoveryEvent::Listed(Vec::new())), RecoveryAction::Ignore));
}
