use push_config_injecter::annotation::{get_inject_annotation, Annotation};

fn ann(pairs: &[(&str, &str)]) -> Vec<(String, String)> {
    pairs.iter().map(|(k, v)| (k.to_string(), v.to_string())).collect()
}

#[test]
fn resolves_three_part_reference() {
    let annotations = ann(&[("pubsub-push-config/inject-from", "ns1/secretA/url")]);
    match get_inject_annotation(&annotations) {
        Annotation::Valid(av) => {
            assert_eq!(av.namespace, "ns1");
            assert_eq!(av.name, "secretA");
            assert_eq!(av.key, "url");
        }
        _ => panic!("expected a valid reference"),
    }
}

#[test]
fn two_parts_are_invalid() {
    let annotations = ann(&[("pubsub-push-config/inject-from", "ns1/secretA")]);
    assert!(matches!(get_inject_annotation(&annotations), Annotation::Invalid));
}

#[test]
fn four_parts_are_invalid() {
    let annotations = ann(&[("pubsub-push-config/inject-from", "ns1/secretA/url/extra")]);
    assert!(matches!(get_inject_annotation(&annotations), Annotation::Invalid));
}

#[test]
fn empty_segment_is_invalid() {
    let annotations = ann(&[("pubsub-push-config/inject-from", "ns1//url")]);
    assert!(matches!(get_inject_annotation(&annotations), Annotation::Invalid));
    let annotations = ann(&[("pubsub-push-config/inject-from", "/secretA/url")]);
    assert!(matches!(get_inject_annotation(&annotations), Annotation::Invalid));
    let annotations = ann(&[("pubsub-push-config/inject-from", "ns1/secretA/")]);
    assert!(matches!(get_inject_annotation(&annotations), Annotation::Invalid));
}

#[test]
fn empty_value_is_invalid() {
    let annotations = ann(&[("pubsub-push-config/inject-from", "")]);
    assert!(matches!(get_inject_annotation(&annotations), Annotation::Invalid));
}

#[test]
fn absent_key_is_not_present() {
    let annotations = ann(&[("another/annotation", "ns1/secretA/url"), ("x", "y")]);
    assert!(matches!(get_inject_annotation(&annotations), Annotation::NotPresent));
    let empty: Vec<(String, String)> = Vec::new();
    assert!(matches!(get_inject_annotation(&empty), Annotation::NotPresent));
}
