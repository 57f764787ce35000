use push_config_injecter::admission::{
    mutate_annotation_step, mutate_secret_step, validate_content_header, AdmissionOutcome,
    MutateStep,
};
use push_config_injecter::annotation::AnnotationValues;
use push_config_injecter::patch::{JsonValue, PatchOperation};

const UID: &str = "1b3e6c9a-request";
const NAME: &str = "myobj";

fn ann(pairs: &[(&str, &str)]) -> Vec<(String, String)> {
    pairs.iter().map(|(k, v)| (k.to_string(), v.to_string())).collect()
}

fn data(pairs: &[(&str, &[u8])]) -> Vec<(String, Vec<u8>)> {
    pairs.iter().map(|(k, v)| (k.to_string(), v.to_vec())).collect()
}

#[test]
fn content_type_json_passes() {
    assert!(validate_content_header(Some("application/json")).is_none());
}

#[test]
fn content_type_other_is_rejected() {
    let msg = validate_content_header(Some("text/plain")).expect("must be rejected");
    assert_eq!(msg, "invalid content-type: text/plain");
}

#[test]
fn absent_content_type_is_rejected() {
    let msg = validate_content_header(None).expect("must be rejected");
    assert_eq!(msg, "missing content-type");
}

#[test]
fn no_annotation_allows_without_patch() {
    let annotations = ann(&[("unrelated", "x")]);
    match mutate_annotation_step(UID, NAME, &annotations) {
        MutateStep::Done(AdmissionOutcome::Allow { uid, patch }) => {
            assert_eq!(uid, UID);
            assert!(patch.is_none());
        }
        _ => panic!("expected a pass-through allow"),
    }
}

#[test]
fn two_part_annotation_denies_with_invalid_value_message() {
    let annotations = ann(&[("pubsub-push-config/inject-from", "ns1/secretA")]);
    match mutate_annotation_step(UID, NAME, &annotations) {
        MutateStep::Done(AdmissionOutcome::Deny { uid, message }) => {
            assert_eq!(uid, UID);
            assert!(message.contains("invalid value"));
            assert_eq!(
                message,
                "[myobj] invalid value of 'pubsub-push-config/inject-from' annotation."
            );
        }
        _ => panic!("expected a denial"),
    }
}

fn need_secret(value: &str) -> AnnotationValues {
    let annotations = ann(&[("pubsub-push-config/inject-from", value)]);
    match mutate_annotation_step(UID, NAME, &annotations) {
        MutateStep::NeedSecret(av) => av,
        _ => panic!("expected the secret stage"),
    }
}

#[test]
fn missing_secret_denies_naming_secret_and_namespace() {
    let av = need_secret("ns1/secretA/url");
    match mutate_secret_step(UID, NAME, &av, None) {
        Ok(AdmissionOutcome::Deny { uid, message }) => {
            assert_eq!(uid, UID);
            assert!(message.contains("secretA") && message.contains("ns1"));
            assert_eq!(message, "[myobj] secret \"secretA\" not found in namespace \"ns1\"");
        }
        _ => panic!("expected a denial"),
    }
}

#[test]
fn missing_key_denies_naming_key_and_secret() {
    let av = need_secret("ns1/secretA/url");
    let d = data(&[("token", b"abc")]);
    match mutate_secret_step(UID, NAME, &av, Some(&d)) {
        Ok(AdmissionOutcome::Deny { uid, message }) => {
            assert_eq!(uid, UID);
            assert!(message.contains("url") && message.contains("secretA"));
            assert_eq!(message, "[myobj] key \"url\" not found in secret \"secretA\"");
        }
        _ => panic!("expected a denial"),
    }
}

#[test]
fn found_value_allows_with_the_two_part_patch() {
    let av = need_secret("ns1/secretA/url");
    let d = data(&[("url", b"https://example.com/push")]);
    match mutate_secret_step(UID, NAME, &av, Some(&d)) {
        Ok(AdmissionOutcome::Allow { uid, patch }) => {
            assert_eq!(uid, UID);
            let ops = patch.expect("a patch must be attached");
            assert_eq!(ops.len(), 2);
            match &ops[0] {
                PatchOperation::Add(a) => {
                    assert_eq!(a.path, "/spec/pushConfig");
                    assert!(matches!(&a.value, JsonValue::Object(f) if f.is_empty()));
                }
            }
            match &ops[1] {
                PatchOperation::Add(a) => {
                    assert_eq!(a.path, "/spec/pushConfig/pushEndpoint");
                    assert!(
                        matches!(&a.value, JsonValue::Text(t) if t == "https://example.com/push")
                    );
                }
            }
        }
        _ => panic!("expected an allow with a patch"),
    }
}

#[test]
fn non_utf8_secret_value_is_an_internal_error() {
    let av = need_secret("ns1/secretA/url");
    let d = data(&[("url", &[0xc0, 0x80])]);
    assert!(mutate_secret_step(UID, NAME, &av, Some(&d)).is_err());
}
