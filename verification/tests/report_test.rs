use open_course::curriculum::Topic;
use open_course::session::report::{target_topic_name, weak_topic_indices};

fn topic(id: &str, name: &str) -> Topic {
    Topic { id: id.to_string(), name: name.to_string(), ..Default::default() }
}

fn score(id: &str, value: f64) -> (String, u64) {
    (id.to_string(), value.to_bits())
}

#[test]
fn weak_topics_are_the_scored_ones_under_fifty() {
    let topics = vec![topic("a", "A"), topic("b", "B"), topic("c", "C"), topic("d", "D")];
    let scores = vec![score("a", 49.5), score("b", 50.0), score("c", 80.0), score("c", 10.0)];
    // "c" was scored twice: the last score counts; "d" was not scored.
    assert_eq!(weak_topic_indices(&topics, &scores), vec![0, 2]);
    assert!(weak_topic_indices(&topics, &[]).is_empty());
    assert!(weak_topic_indices(&topics, &[score("a", f64::NAN)]).is_empty());
}

#[test]
fn target_topic_name_is_looked_up_by_id() {
    let topics = vec![topic("a", "A"), topic("b", "B"), topic("b", "B2")];
    assert_eq!(target_topic_name(&topics, Some("b")), Some("B".to_string()));
    assert_eq!(target_topic_name(&topics, Some("z")), None);
    assert_eq!(target_topic_name(&topics, None), None);
}
