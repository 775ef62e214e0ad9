use openkite::push::PushRegistry;

#[test]
fn subscribe_allocates_unique_ids_and_unsubscribe_removes() {
    let mut reg = PushRegistry::default();
    let a = reg.subscribe("pods", None);
    let b = reg.subscribe("pods", Some("default".into()));
    assert_ne!(a, b);
    assert_eq!(reg.len(), 2);
    assert!(reg.unsubscribe(a));
    assert!(!reg.unsubscribe(a), "second unsubscribe is a no-op");
    assert_eq!(reg.len(), 1);
}

#[test]
fn matching_honours_namespace_rules() {
    let mut reg = PushRegistry::default();
    let all = reg.subscribe("pods", None);
    let one = reg.subscribe("pods", Some("default".into()));
    let other = reg.subscribe("pods", Some("kube-system".into()));

    let got = reg.matching("pods", None);
    assert_eq!(got, vec![all]);

    let mut got = reg.matching("pods", Some("default"));
    got.sort();
    assert_eq!(got, vec![all, one]);
    assert!(!got.contains(&other));

    assert!(reg.matching("secrets", Some("default")).is_empty());
}

#[test]
fn revisions_increase_per_subscription() {
    let mut reg = PushRegistry::default();
    let sub = reg.subscribe("pods", None);
    assert_eq!(reg.advance(sub), 1);
    assert_eq!(reg.advance(sub), 2);
    assert_eq!(reg.advance(999), 0);
}

#[test]
fn subscription_ids_stay_fresh_after_unsubscribe() {
    let mut reg = PushRegistry::default();
    let a = reg.subscribe("pods", None);
    assert!(reg.unsubscribe(a));
    let b = reg.subscribe("pods", None);
    assert!(b > a);
    assert!(reg.is_empty() == false);
}

#[test]
fn revision_of_reports_the_last_revision_handed_out() {
    let mut reg = PushRegistry::new();
    let sub = reg.subscribe("pods", None);
    assert_eq!(reg.revision_of(sub), Some(0));
    assert_eq!(reg.advance(sub), 1);
    assert_eq!(reg.advance(sub), 2);
    assert_eq!(reg.revision_of(sub), Some(2));
    assert_eq!(reg.revision_of(sub + 1), None);
    assert!(reg.unsubscribe(sub));
    assert_eq!(reg.revision_of(sub), None);
}
