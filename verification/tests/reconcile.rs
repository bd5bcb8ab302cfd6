use pods_operator::classify::{ClassifiedAction, InfoKind};
use pods_operator::event::{Event, ObjectReference, Timestamp, WatchNotification};
use pods_operator::labels::EventLabels;
use pods_operator::reconcile::{
    initialize_counters, label_list, reconcile, reconcile_all, record, LoopStep,
    POD_CREATE_COUNTER, POD_DELETE_COUNTER, POD_ID_LABEL, TIME_METRIC_LABEL,
};
use pods_operator::registry::{Label, MetricsRegistry, Unit};

const AT: Timestamp = Timestamp { secs: 1_704_164_645, nanos: 123_000_000 };
const AT_TEXT: &str = "2024-01-02T03:04:05.123Z";

fn event(kind: &str, reason: Option<&str>, uid: Option<&str>, at: Option<Timestamp>) -> Event {
    Event {
        involved_object: ObjectReference { kind: kind.to_string(), uid: uid.map(|u| u.to_string()) },
        reason: reason.map(|r| r.to_string()),
        first_timestamp: at,
        name: "web-0.17d0".to_string(),
    }
}

fn pod_event(reason: &str, uid: &str) -> Event {
    event("Pod", Some(reason), Some(uid), Some(AT))
}

fn key(time: &str, id: &str) -> Vec<Label> {
    vec![
        Label { name: "event_time".to_string(), value: time.to_string() },
        Label { name: "pod_id".to_string(), value: id.to_string() },
    ]
}

#[test]
fn counter_and_label_names() {
    assert_eq!(POD_DELETE_COUNTER, "deleted_pods");
    assert_eq!(POD_CREATE_COUNTER, "created_pods");
    assert_eq!(TIME_METRIC_LABEL, "event_time");
    assert_eq!(POD_ID_LABEL, "pod_id");
}

#[test]
fn initialize_counters_declares_both_counters() {
    let mut registry = MetricsRegistry::new();
    initialize_counters(&mut registry);
    let deleted = registry.description("deleted_pods").unwrap();
    assert_eq!(deleted.text, "The number of deleted pods");
    assert_eq!(deleted.unit, Unit::Count);
    let created = registry.description("created_pods").unwrap();
    assert_eq!(created.text, "The number of created pods");
    assert_eq!(created.unit, Unit::Count);
    assert_eq!(
        registry.snapshot(),
        "# HELP deleted_pods The number of deleted pods\n\
         # TYPE deleted_pods counter\n\
         # HELP created_pods The number of created pods\n\
         # TYPE created_pods counter\n"
    );
    let once = registry.snapshot();
    initialize_counters(&mut registry);
    assert_eq!(registry.snapshot(), once);
}

#[test]
fn label_list_names_the_two_labels() {
    let list = label_list(EventLabels { time: "t".to_string(), object_id: "u".to_string() });
    assert_eq!(list.len(), 2);
    assert_eq!((list[0].name.as_str(), list[0].value.as_str()), ("event_time", "t"));
    assert_eq!((list[1].name.as_str(), list[1].value.as_str()), ("pod_id", "u"));
}

#[test]
fn record_counts_creations_and_deletions_only() {
    let labels = || EventLabels { time: "t".to_string(), object_id: "u".to_string() };
    let mut registry = MetricsRegistry::new();
    record(&mut registry, ClassifiedAction::Created, labels());
    record(&mut registry, ClassifiedAction::Created, labels());
    record(&mut registry, ClassifiedAction::Deleted, labels());
    record(&mut registry, ClassifiedAction::Ignore, labels());
    record(&mut registry, ClassifiedAction::Informational(InfoKind::Started), labels());
    assert_eq!(registry.value("created_pods", &key("t", "u")), 2);
    assert_eq!(registry.value("deleted_pods", &key("t", "u")), 1);
    assert_eq!(
        registry.snapshot(),
        "# TYPE created_pods counter\n\
         created_pods{event_time=\"t\",pod_id=\"u\"} 2\n\
         # TYPE deleted_pods counter\n\
         deleted_pods{event_time=\"t\",pod_id=\"u\"} 1\n"
    );
}

#[test]
fn a_created_event_counts_once_under_its_labels() {
    let mut registry = MetricsRegistry::new();
    initialize_counters(&mut registry);
    let step = reconcile(&mut registry, &WatchNotification::Apply(pod_event("Created", "abc-123")));
    assert_eq!(step, LoopStep::Handled(ClassifiedAction::Created));
    assert_eq!(registry.value("created_pods", &key(AT_TEXT, "abc-123")), 1);
    assert_eq!(registry.value("deleted_pods", &key(AT_TEXT, "abc-123")), 0);
    assert_eq!(
        registry.snapshot(),
        "# HELP deleted_pods The number of deleted pods\n\
         # TYPE deleted_pods counter\n\
         # HELP created_pods The number of created pods\n\
         # TYPE created_pods counter\n\
         created_pods{event_time=\"2024-01-02T03:04:05.123Z\",pod_id=\"abc-123\"} 1\n"
    );
}

#[test]
fn a_killing_event_counts_as_a_deletion_even_when_applied() {
    let mut registry = MetricsRegistry::new();
    let step = reconcile(&mut registry, &WatchNotification::Apply(pod_event("Killing", "abc-123")));
    assert_eq!(step, LoopStep::Handled(ClassifiedAction::Deleted));
    assert_eq!(registry.value("deleted_pods", &key(AT_TEXT, "abc-123")), 1);
    assert_eq!(registry.value("created_pods", &key(AT_TEXT, "abc-123")), 0);
}

#[test]
fn a_deleted_event_resource_is_counted_by_its_reason() {
    let mut registry = MetricsRegistry::new();
    let step =
        reconcile(&mut registry, &WatchNotification::Delete(pod_event("Created", "abc-123")));
    assert_eq!(step, LoopStep::Handled(ClassifiedAction::Created));
    assert_eq!(registry.value("created_pods", &key(AT_TEXT, "abc-123")), 1);
    assert_eq!(registry.value("deleted_pods", &key(AT_TEXT, "abc-123")), 0);
}

#[test]
fn counted_events_without_timestamp_or_uid_use_empty_labels() {
    let mut registry = MetricsRegistry::new();
    reconcile(&mut registry, &WatchNotification::Apply(event("Pod", Some("Created"), None, None)));
    assert_eq!(registry.value("created_pods", &key("", "")), 1);
}

#[test]
fn stream_notifications_and_uncounted_events_change_nothing() {
    let mut registry = MetricsRegistry::new();
    initialize_counters(&mut registry);
    let before = registry.snapshot();
    assert_eq!(reconcile(&mut registry, &WatchNotification::Init), LoopStep::StreamStarting);
    assert_eq!(reconcile(&mut registry, &WatchNotification::InitDone), LoopStep::StreamReady);
    assert_eq!(
        reconcile(&mut registry, &WatchNotification::Error("watch expired".to_string())),
        LoopStep::StreamError
    );
    assert_eq!(
        reconcile(&mut registry, &WatchNotification::Apply(pod_event("Pulled", "a"))),
        LoopStep::Handled(ClassifiedAction::Informational(InfoKind::ImagePulled))
    );
    assert_eq!(
        reconcile(&mut registry, &WatchNotification::Apply(pod_event("Scheduled", "a"))),
        LoopStep::Handled(ClassifiedAction::Informational(InfoKind::Scheduled))
    );
    assert_eq!(
        reconcile(&mut registry, &WatchNotification::Apply(pod_event("Started", "a"))),
        LoopStep::Handled(ClassifiedAction::Informational(InfoKind::Started))
    );
    assert_eq!(
        reconcile(&mut registry, &WatchNotification::Delete(pod_event("Updated", "a"))),
        LoopStep::Handled(ClassifiedAction::Informational(InfoKind::Updated))
    );
    assert_eq!(
        reconcile(&mut registry, &WatchNotification::Apply(pod_event("BackOff", "a"))),
        LoopStep::Handled(ClassifiedAction::Ignore)
    );
    assert_eq!(
        reconcile(
            &mut registry,
            &WatchNotification::Apply(event("Node", Some("Created"), Some("a"), Some(AT)))
        ),
        LoopStep::Handled(ClassifiedAction::Ignore)
    );
    assert_eq!(registry.snapshot(), before);
}

#[test]
fn the_same_notification_fed_twice_counts_twice() {
    let mut registry = MetricsRegistry::new();
    let notification = WatchNotification::Apply(pod_event("Killing", "abc-123"));
    reconcile(&mut registry, &notification);
    reconcile(&mut registry, &notification);
    assert_eq!(registry.value("deleted_pods", &key(AT_TEXT, "abc-123")), 2);
}

#[test]
fn redelivery_after_a_resync_is_counted_again() {
    let mut registry = MetricsRegistry::new();
    let run = vec![
        WatchNotification::Init,
        WatchNotification::Apply(pod_event("Killing", "pod-a")),
        WatchNotification::InitDone,
        WatchNotification::Error("too old resource version".to_string()),
        WatchNotification::Init,
        WatchNotification::Apply(pod_event("Killing", "pod-a")),
        WatchNotification::InitDone,
    ];
    reconcile_all(&mut registry, &run);
    assert_eq!(registry.value("deleted_pods", &key(AT_TEXT, "pod-a")), 2);
}

#[test]
fn counts_after_a_run_are_the_numbers_of_notifications_that_counted() {
    let mut registry = MetricsRegistry::new();
    initialize_counters(&mut registry);
    let run = vec![
        WatchNotification::Init,
        WatchNotification::Apply(pod_event("Scheduled", "pod-a")),
        WatchNotification::Apply(pod_event("Pulled", "pod-a")),
        WatchNotification::Apply(pod_event("Created", "pod-a")),
        WatchNotification::Apply(pod_event("Started", "pod-a")),
        WatchNotification::InitDone,
        WatchNotification::Apply(pod_event("Created", "pod-b")),
        WatchNotification::Error("connection reset".to_string()),
        WatchNotification::Apply(pod_event("Created", "pod-a")),
        WatchNotification::Apply(event("Node", Some("Created"), Some("pod-a"), Some(AT))),
        WatchNotification::Delete(pod_event("Killing", "pod-a")),
        WatchNotification::Apply(pod_event("Unhealthy", "pod-b")),
        WatchNotification::Apply(event("Pod", None, Some("pod-b"), Some(AT))),
    ];
    let steps = reconcile_all(&mut registry, &run);
    assert_eq!(steps.len(), run.len());
    assert_eq!(steps[0], LoopStep::StreamStarting);
    assert_eq!(steps[3], LoopStep::Handled(ClassifiedAction::Created));
    assert_eq!(steps[5], LoopStep::StreamReady);
    assert_eq!(steps[7], LoopStep::StreamError);
    assert_eq!(steps[9], LoopStep::Handled(ClassifiedAction::Ignore));
    assert_eq!(steps[10], LoopStep::Handled(ClassifiedAction::Deleted));
    assert_eq!(registry.value("created_pods", &key(AT_TEXT, "pod-a")), 2);
    assert_eq!(registry.value("created_pods", &key(AT_TEXT, "pod-b")), 1);
    assert_eq!(registry.value("deleted_pods", &key(AT_TEXT, "pod-a")), 1);
    assert_eq!(registry.value("deleted_pods", &key(AT_TEXT, "pod-b")), 0);
}

#[test]
fn counts_never_go_down_along_a_run() {
    let mut registry = MetricsRegistry::new();
    let reasons = ["Created", "Killing", "Pulled", "Created", "Nope", "Killing", "Created"];
    let mut created = 0;
    let mut deleted = 0;
    for (i, reason) in reasons.iter().enumerate() {
        let before_created = registry.value("created_pods", &key(AT_TEXT, "p"));
        let before_deleted = registry.value("deleted_pods", &key(AT_TEXT, "p"));
        if i % 2 == 0 {
            reconcile(&mut registry, &WatchNotification::Error("fault".to_string()));
        }
        reconcile(&mut registry, &WatchNotification::Apply(pod_event(reason, "p")));
        if *reason == "Created" {
            created += 1;
        }
        if *reason == "Killing" {
            deleted += 1;
        }
        let after_created = registry.value("created_pods", &key(AT_TEXT, "p"));
        let after_deleted = registry.value("deleted_pods", &key(AT_TEXT, "p"));
        assert!(after_created >= before_created && after_deleted >= before_deleted);
        assert_eq!(after_created, created);
        assert_eq!(after_deleted, deleted);
    }
}

#[test]
fn a_run_in_one_call_equals_the_same_run_one_by_one() {
    let run = vec![
        WatchNotification::Apply(pod_event("Created", "pod-a")),
        WatchNotification::Apply(pod_event("Killing", "pod-a")),
        WatchNotification::Apply(pod_event("Created", "pod-b")),
    ];
    let mut at_once = MetricsRegistry::new();
    reconcile_all(&mut at_once, &run);
    let mut stepwise = MetricsRegistry::new();
    for notification in &run {
        reconcile(&mut stepwise, notification);
    }
    assert_eq!(at_once.snapshot(), stepwise.snapshot());
    let mut empty = MetricsRegistry::new();
    assert!(reconcile_all(&mut empty, &[]).is_empty());
    assert_eq!(empty.snapshot(), "");
}
