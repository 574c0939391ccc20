use webtail::server::broadcaster::{new_broadcasters, Broadcasters, BROADCAST_CAPACITY};
use webtail::{Applicatiton, MultiPodApplication};

fn single(name: &str) -> Applicatiton {
    Applicatiton::SinglePod(name.to_string())
}

fn pod(application: &str, pod_name: &str) -> Applicatiton {
    Applicatiton::MultiPod(MultiPodApplication::new(
        application.to_string(),
        pod_name.to_string(),
    ))
}

#[test]
fn a_new_registry_is_empty() {
    let registry: Broadcasters<&str> = new_broadcasters();
    assert_eq!(registry.len(), 0);
    assert!(registry.applications().is_empty());
    assert!(!registry.contains_key(&single("shop")));
    assert_eq!(registry.subscribe(&single("shop")), None);
}

#[test]
fn a_registered_identity_can_be_subscribed_to() {
    let mut registry = Broadcasters::new();
    assert_eq!(registry.register(single("shop"), "first"), None);
    assert!(registry.contains_key(&single("shop")));
    assert_eq!(registry.subscribe(&single("shop")), Some(&"first"));
    assert_eq!(registry.len(), 1);
}

#[test]
fn subscribing_creates_nothing() {
    let mut registry = Broadcasters::new();
    registry.register(single("shop"), 1);
    assert_eq!(registry.subscribe(&single("bank")), None);
    assert_eq!(registry.subscribe(&pod("shop", "shop")), None);
    assert_eq!(registry.len(), 1);
    assert!(!registry.contains_key(&single("bank")));
}

#[test]
fn registering_again_replaces_the_channel() {
    let mut registry = Broadcasters::new();
    registry.register(single("shop"), "first");
    registry.register(single("bank"), "other");
    assert_eq!(registry.register(single("shop"), "second"), Some("first"));
    assert_eq!(registry.subscribe(&single("shop")), Some(&"second"));
    assert_eq!(registry.subscribe(&single("bank")), Some(&"other"));
    assert_eq!(registry.len(), 2);
}

#[test]
fn pods_of_one_application_are_different_identities() {
    let mut registry = Broadcasters::new();
    registry.register(pod("shop", "blue"), 1);
    registry.register(pod("shop", "green"), 2);
    registry.register(single("shop"), 3);
    assert_eq!(registry.subscribe(&pod("shop", "blue")), Some(&1));
    assert_eq!(registry.subscribe(&pod("shop", "green")), Some(&2));
    assert_eq!(registry.subscribe(&single("shop")), Some(&3));
    assert_eq!(registry.len(), 3);
}

#[test]
fn a_removed_identity_is_gone() {
    let mut registry = Broadcasters::new();
    registry.register(single("shop"), 1);
    registry.register(single("bank"), 2);
    registry.register(single("park"), 3);
    assert_eq!(registry.remove(&single("bank")), Some(2));
    assert_eq!(registry.remove(&single("bank")), None);
    assert!(!registry.contains_key(&single("bank")));
    assert_eq!(registry.subscribe(&single("shop")), Some(&1));
    assert_eq!(registry.subscribe(&single("park")), Some(&3));
    assert_eq!(registry.len(), 2);
}

#[test]
fn removing_what_is_not_there_changes_nothing() {
    let mut registry = Broadcasters::new();
    registry.register(single("shop"), 1);
    assert_eq!(registry.remove(&single("bank")), None);
    assert_eq!(registry.len(), 1);
    assert_eq!(registry.subscribe(&single("shop")), Some(&1));
}

#[test]
fn every_registered_identity_is_listed_once() {
    let mut registry = Broadcasters::new();
    registry.register(single("shop"), 1);
    registry.register(pod("shop", "blue"), 2);
    registry.register(single("bank"), 3);
    registry.register(single("shop"), 4);
    registry.remove(&single("bank"));
    assert_eq!(registry.applications(), vec![single("shop"), pod("shop", "blue")]);
}

#[test]
fn identities_are_listed_in_ascending_order() {
    let mut registry = Broadcasters::new();
    for identity in [
        pod("shop", "green"),
        single("zoo"),
        pod("bank", "red"),
        single("bank"),
        pod("shop", "blue"),
        single("Zoo"),
        pod("shop", "Pod 10"),
        pod("shop", "Pod 9"),
    ] {
        registry.register(identity, 0);
    }
    let listed = registry.applications();
    assert_eq!(
        listed,
        vec![
            single("Zoo"),
            single("bank"),
            single("zoo"),
            pod("bank", "red"),
            pod("shop", "Pod 10"),
            pod("shop", "Pod 9"),
            pod("shop", "blue"),
            pod("shop", "green"),
        ]
    );
    let mut sorted = listed.clone();
    sorted.sort();
    assert_eq!(listed, sorted);
}

#[test]
fn a_channel_holds_a_hundred_messages() {
    assert_eq!(BROADCAST_CAPACITY, 100);
}
