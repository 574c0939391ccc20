use webtail::server::broadcaster::Broadcasters;
use webtail::text::{comes_before, equals_ignoring_ascii_case};
use webtail::{Applicatiton, MultiPodApplication, DEFAULT_APPLICATION};

fn single(name: &str) -> Applicatiton {
    Applicatiton::SinglePod(name.to_string())
}

fn pod(application: &str, pod_name: &str) -> Applicatiton {
    Applicatiton::MultiPod(MultiPodApplication::new(
        application.to_string(),
        pod_name.to_string(),
    ))
}

fn default_pod(application: &str) -> Applicatiton {
    pod(application, DEFAULT_APPLICATION)
}

fn chars(text: &str) -> Vec<char> {
    text.chars().collect()
}

#[test]
fn sentinel_is_the_documented_text() {
    assert_eq!(DEFAULT_APPLICATION, "<--DEFAULT-->");
}

#[test]
fn name_of_a_single_pod_is_its_name() {
    assert_eq!(single("billing").name(), "billing");
}

#[test]
fn name_of_a_multi_pod_is_the_application() {
    assert_eq!(pod("billing", "blue").name(), "billing");
}

#[test]
fn same_as_tells_identities_apart() {
    assert!(single("a").same_as(&single("a")));
    assert!(!single("a").same_as(&single("b")));
    assert!(!single("a").same_as(&pod("a", "a")));
    assert!(pod("a", "x").same_as(&pod("a", "x")));
    assert!(!pod("a", "x").same_as(&pod("a", "y")));
    assert!(!pod("a", "x").same_as(&pod("b", "x")));
}

#[test]
fn duplicate_is_equal() {
    assert_eq!(pod("a", "x").duplicate(), pod("a", "x"));
    assert_eq!(single("a").duplicate(), single("a"));
}

#[test]
fn three_default_pods_are_numbered_in_turn() {
    let mut registry: Broadcasters<u32> = Broadcasters::new();
    for expected in ["Pod 0", "Pod 1", "Pod 2"] {
        let resolved = default_pod("shop").configure_default_pods(&registry);
        assert_eq!(resolved, pod("shop", expected));
        assert!(!registry.contains_key(&resolved));
        registry.register(resolved, 7);
    }
    assert_eq!(registry.len(), 3);
}

#[test]
fn numbering_does_not_depend_on_who_else_is_registered() {
    let mut registry: Broadcasters<u32> = Broadcasters::new();
    registry.register(single("shop"), 1);
    registry.register(pod("other", "Pod 0"), 2);
    registry.register(pod("shop", "blue"), 3);
    let first = default_pod("shop").configure_default_pods(&registry);
    assert_eq!(first, pod("shop", "Pod 0"));
    registry.register(first, 4);
    let second = default_pod("shop").configure_default_pods(&registry);
    assert_eq!(second, pod("shop", "Pod 1"));
    let elsewhere = default_pod("other").configure_default_pods(&registry);
    assert_eq!(elsewhere, pod("other", "Pod 1"));
}

#[test]
fn lowest_unused_number_is_taken() {
    let mut registry: Broadcasters<u32> = Broadcasters::new();
    registry.register(pod("shop", "Pod 0"), 1);
    registry.register(pod("shop", "Pod 2"), 2);
    assert_eq!(
        default_pod("shop").configure_default_pods(&registry),
        pod("shop", "Pod 1")
    );
    registry.register(pod("shop", "Pod 1"), 3);
    assert_eq!(
        default_pod("shop").configure_default_pods(&registry),
        pod("shop", "Pod 3")
    );
}

#[test]
fn numbers_above_nine_are_written_in_decimal() {
    let mut registry: Broadcasters<u32> = Broadcasters::new();
    for _ in 0..12 {
        let resolved = default_pod("shop").configure_default_pods(&registry);
        registry.register(resolved, 0);
    }
    assert!(registry.contains_key(&pod("shop", "Pod 10")));
    assert!(registry.contains_key(&pod("shop", "Pod 11")));
    assert_eq!(
        default_pod("shop").configure_default_pods(&registry),
        pod("shop", "Pod 12")
    );
}

#[test]
fn sentinel_is_read_in_any_case() {
    let registry: Broadcasters<u32> = Broadcasters::new();
    assert_eq!(
        pod("shop", "<--default-->").configure_default_pods(&registry),
        pod("shop", "Pod 0")
    );
    assert_eq!(
        pod("shop", "<--DeFaUlT-->").configure_default_pods(&registry),
        pod("shop", "Pod 0")
    );
}

#[test]
fn other_identities_pass_unchanged() {
    let mut registry: Broadcasters<u32> = Broadcasters::new();
    registry.register(single("shop"), 1);
    registry.register(pod("shop", "blue"), 1);
    assert_eq!(single("shop").configure_default_pods(&registry), single("shop"));
    assert_eq!(
        pod("shop", "blue").configure_default_pods(&registry),
        pod("shop", "blue")
    );
    assert_eq!(
        pod("shop", "<-DEFAULT->").configure_default_pods(&registry),
        pod("shop", "<-DEFAULT->")
    );
    assert_eq!(
        single(DEFAULT_APPLICATION).configure_default_pods(&registry),
        single(DEFAULT_APPLICATION)
    );
}

#[test]
fn case_is_ignored_for_ascii_letters_only() {
    assert!(equals_ignoring_ascii_case("Pod", "pOD"));
    assert!(equals_ignoring_ascii_case("", ""));
    assert!(!equals_ignoring_ascii_case("Pod", "Pods"));
    assert!(!equals_ignoring_ascii_case("a-b", "a_b"));
    assert!(!equals_ignoring_ascii_case("É", "é"));
    assert!(!equals_ignoring_ascii_case("[", "{"));
    assert!(!equals_ignoring_ascii_case("@", "`"));
}

#[test]
fn texts_are_ordered_character_by_character() {
    assert!(comes_before(&chars("app.1.log"), &chars("app.2.log")));
    assert!(!comes_before(&chars("app.2.log"), &chars("app.1.log")));
    assert!(comes_before(&chars("app"), &chars("app.log")));
    assert!(!comes_before(&chars("app.log"), &chars("app")));
    assert!(!comes_before(&chars("same"), &chars("same")));
    assert!(comes_before(&chars(""), &chars("a")));
    assert!(!comes_before(&chars(""), &chars("")));
    assert!(comes_before(&chars("Z"), &chars("a")));
}

#[test]
fn identities_are_ordered_as_their_derived_order() {
    let all = [
        single(""),
        single("a"),
        single("b"),
        single("ab"),
        pod("", ""),
        pod("a", "x"),
        pod("a", "y"),
        pod("b", "a"),
        pod("ab", ""),
        single("é"),
        pod("é", "z"),
    ];
    for left in &all {
        for right in &all {
            assert_eq!(left.comes_before(right), left < right);
        }
    }
}
