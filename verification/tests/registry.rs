use pods_operator::registry::{labels_equal, Label, MetricsRegistry, Unit};

fn label(name: &str, value: &str) -> Label {
    Label { name: name.to_string(), value: value.to_string() }
}

fn pod(time: &str, id: &str) -> Vec<Label> {
    vec![label("event_time", time), label("pod_id", id)]
}

#[test]
fn a_new_registry_is_empty() {
    let registry = MetricsRegistry::new();
    assert_eq!(registry.snapshot(), "");
    assert_eq!(registry.value("created_pods", &pod("", "")), 0);
    assert!(registry.description("created_pods").is_none());
}

#[test]
fn increment_creates_the_partition_on_first_use_and_then_adds_one() {
    let mut registry = MetricsRegistry::new();
    registry.increment("created_pods", pod("t1", "a"));
    assert_eq!(registry.value("created_pods", &pod("t1", "a")), 1);
    registry.increment("created_pods", pod("t1", "a"));
    registry.increment("created_pods", pod("t1", "a"));
    assert_eq!(registry.value("created_pods", &pod("t1", "a")), 3);
}

#[test]
fn partitions_and_counters_are_counted_apart() {
    let mut registry = MetricsRegistry::new();
    registry.increment("created_pods", pod("t1", "a"));
    registry.increment("created_pods", pod("t1", "b"));
    registry.increment("created_pods", pod("t2", "a"));
    registry.increment("deleted_pods", pod("t1", "a"));
    registry.increment("deleted_pods", pod("t1", "a"));
    assert_eq!(registry.value("created_pods", &pod("t1", "a")), 1);
    assert_eq!(registry.value("created_pods", &pod("t1", "b")), 1);
    assert_eq!(registry.value("created_pods", &pod("t2", "a")), 1);
    assert_eq!(registry.value("deleted_pods", &pod("t1", "a")), 2);
    assert_eq!(registry.value("deleted_pods", &pod("t1", "b")), 0);
    assert_eq!(registry.value("other", &pod("t1", "a")), 0);
}

#[test]
fn label_order_is_part_of_the_label_set() {
    let mut registry = MetricsRegistry::new();
    registry.increment("c", vec![label("a", "1"), label("b", "2")]);
    assert_eq!(registry.value("c", &vec![label("a", "1"), label("b", "2")]), 1);
    assert_eq!(registry.value("c", &vec![label("b", "2"), label("a", "1")]), 0);
    assert_eq!(registry.value("c", &vec![label("a", "1")]), 0);
    assert_eq!(registry.value("c", &vec![]), 0);
}

#[test]
fn declare_is_idempotent_and_the_first_declaration_stands() {
    let mut registry = MetricsRegistry::new();
    registry.declare("created_pods", "The number of created pods", Unit::Count);
    let once = registry.snapshot();
    registry.declare("created_pods", "The number of created pods", Unit::Count);
    assert_eq!(registry.snapshot(), once);
    registry.declare("created_pods", "something else", Unit::Seconds);
    assert_eq!(registry.snapshot(), once);
    let found = registry.description("created_pods").unwrap();
    assert_eq!(found.text, "The number of created pods");
    assert_eq!(found.unit, Unit::Count);
}

#[test]
fn declare_changes_no_count_and_describes_a_counter_that_was_counted_first() {
    let mut registry = MetricsRegistry::new();
    registry.increment("deleted_pods", pod("t", "x"));
    assert!(registry.description("deleted_pods").is_none());
    registry.declare("deleted_pods", "The number of deleted pods", Unit::Count);
    assert_eq!(registry.value("deleted_pods", &pod("t", "x")), 1);
    assert_eq!(registry.description("deleted_pods").unwrap().text, "The number of deleted pods");
    assert_eq!(
        registry.snapshot(),
        "# HELP deleted_pods The number of deleted pods\n\
         # TYPE deleted_pods counter\n\
         deleted_pods{event_time=\"t\",pod_id=\"x\"} 1\n"
    );
}

#[test]
fn snapshot_lists_each_counter_once_with_all_its_partitions() {
    let mut registry = MetricsRegistry::new();
    registry.declare("deleted_pods", "The number of deleted pods", Unit::Count);
    registry.declare("created_pods", "The number of created pods", Unit::Count);
    registry.increment("created_pods", pod("2024-01-02T03:04:05.123Z", "abc-123"));
    registry.increment("created_pods", pod("", ""));
    registry.increment("created_pods", pod("2024-01-02T03:04:05.123Z", "abc-123"));
    registry.increment("deleted_pods", pod("2024-01-02T03:04:06.000Z", "abc-123"));
    assert_eq!(
        registry.snapshot(),
        "# HELP deleted_pods The number of deleted pods\n\
         # TYPE deleted_pods counter\n\
         deleted_pods{event_time=\"2024-01-02T03:04:06.000Z\",pod_id=\"abc-123\"} 1\n\
         # HELP created_pods The number of created pods\n\
         # TYPE created_pods counter\n\
         created_pods{event_time=\"2024-01-02T03:04:05.123Z\",pod_id=\"abc-123\"} 2\n\
         created_pods{event_time=\"\",pod_id=\"\"} 1\n"
    );
}

#[test]
fn snapshot_of_an_undeclared_counter_has_no_help_line() {
    let mut registry = MetricsRegistry::new();
    registry.increment("requests", vec![]);
    registry.increment("requests", vec![label("path", "/ping")]);
    assert_eq!(
        registry.snapshot(),
        "# TYPE requests counter\nrequests 1\nrequests{path=\"/ping\"} 1\n"
    );
}

#[test]
fn snapshot_escapes_help_texts_and_label_values() {
    let mut registry = MetricsRegistry::new();
    registry.declare("c", "two\nlines \\ \"quoted\"", Unit::Bytes);
    registry.increment("c", vec![label("v", "a\"b\\c\nd")]);
    assert_eq!(
        registry.snapshot(),
        "# HELP c two\\nlines \\\\ \"quoted\"\n# TYPE c counter\nc{v=\"a\\\"b\\\\c\\nd\"} 1\n"
    );
}

#[test]
fn snapshot_values_never_go_down_between_reads() {
    let mut registry = MetricsRegistry::new();
    let mut last = 0;
    for round in 1..=50u64 {
        registry.increment("created_pods", pod("t", "p"));
        if round % 3 == 0 {
            registry.increment("deleted_pods", pod("t", "p"));
        }
        let text = registry.snapshot();
        let line = text.lines().find(|l| l.starts_with("created_pods{")).unwrap();
        let shown: u64 = line.rsplit(' ').next().unwrap().parse().unwrap();
        assert!(shown >= last);
        assert_eq!(shown, round);
        assert_eq!(shown, registry.value("created_pods", &pod("t", "p")));
        last = shown;
    }
}

#[test]
fn labels_equal_compares_names_and_values_in_order() {
    assert!(labels_equal(&vec![], &vec![]));
    assert!(labels_equal(&pod("t", "a"), &pod("t", "a")));
    assert!(!labels_equal(&pod("t", "a"), &pod("t", "b")));
    assert!(!labels_equal(&pod("t", "a"), &vec![label("event_time", "t")]));
    assert!(!labels_equal(
        &vec![label("a", "1"), label("b", "2")],
        &vec![label("b", "2"), label("a", "1")]
    ));
    assert!(!labels_equal(&vec![label("a", "1")], &vec![label("A", "1")]));
}
