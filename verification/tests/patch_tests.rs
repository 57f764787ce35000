use push_config_injecter::patch::{
    apply_add, apply_patch, get_json_patch, AddOperation, JsonValue, PatchOperation,
};

fn obj(fields: Vec<(&str, JsonValue)>) -> JsonValue {
    JsonValue::Object(fields.into_iter().map(|(k, v)| (k.to_string(), v)).collect())
}

fn get<'a>(doc: &'a JsonValue, key: &str) -> Option<&'a JsonValue> {
    match doc {
        JsonValue::Object(fields) => {
            fields.iter().find(|(k, _)| k == key).map(|(_, v)| v)
        }
        _ => None,
    }
}

#[test]
fn synthesizes_two_operations_in_order() {
    let ops = get_json_patch("https://example.com/push".to_string());
    assert_eq!(ops.len(), 2);
    match &ops[0] {
        PatchOperation::Add(a) => {
            assert_eq!(a.path, "/spec/pushConfig");
            assert!(matches!(&a.value, JsonValue::Object(fields) if fields.is_empty()));
        }
    }
    match &ops[1] {
        PatchOperation::Add(a) => {
            assert_eq!(a.path, "/spec/pushConfig/pushEndpoint");
            assert!(
                matches!(&a.value, JsonValue::Text(t) if t == "https://example.com/push")
            );
        }
    }
}

#[test]
fn applying_both_in_order_injects_the_endpoint() {
    let doc = obj(vec![
        ("metadata", obj(vec![("name", JsonValue::Text("obj".to_string()))])),
        ("spec", obj(vec![("topic", JsonValue::Text("t".to_string()))])),
    ]);
    let ops = get_json_patch("https://example.com/push".to_string());
    let patched = apply_patch(doc, ops).expect("patch must apply");
    let spec = get(&patched, "spec").expect("spec kept");
    let push_config = get(spec, "pushConfig").expect("pushConfig added");
    let endpoint = get(push_config, "pushEndpoint").expect("pushEndpoint added");
    assert!(matches!(endpoint, JsonValue::Text(t) if t == "https://example.com/push"));
    assert!(matches!(get(spec, "topic"), Some(JsonValue::Text(t)) if t == "t"));
}

#[test]
fn applying_second_without_first_fails() {
    let doc = obj(vec![("spec", obj(vec![]))]);
    let mut ops = get_json_patch("https://example.com/push".to_string());
    let second = ops.remove(1);
    assert!(apply_patch(doc, vec![second]).is_err());
}

#[test]
fn add_replaces_an_existing_member() {
    let doc = obj(vec![("spec", obj(vec![("topic", JsonValue::Text("a".to_string()))]))]);
    let out = apply_add(doc, "/spec/topic", JsonValue::Text("b".to_string())).unwrap();
    let spec = get(&out, "spec").unwrap();
    assert!(matches!(get(spec, "topic"), Some(JsonValue::Text(t)) if t == "b"));
}

#[test]
fn add_fails_when_parent_is_missing_or_not_an_object() {
    let doc = obj(vec![("spec", obj(vec![]))]);
    assert!(apply_add(doc, "/other/member", JsonValue::Null).is_err());
    let doc = obj(vec![("spec", JsonValue::Text("flat".to_string()))]);
    assert!(apply_add(doc, "/spec/member", JsonValue::Null).is_err());
}

#[test]
fn add_with_relative_path_fails() {
    let doc = obj(vec![]);
    assert!(apply_add(doc, "spec", JsonValue::Null).is_err());
}

#[test]
fn add_with_empty_path_replaces_the_document() {
    let doc = obj(vec![("spec", obj(vec![]))]);
    let out = apply_add(doc, "", JsonValue::Text("whole".to_string())).unwrap();
    assert!(matches!(out, JsonValue::Text(t) if t == "whole"));
}

#[test]
fn operations_can_be_built_by_hand() {
    let op = PatchOperation::Add(AddOperation {
        path: "/spec".to_string(),
        value: JsonValue::Null,
    });
    let doc = obj(vec![]);
    let out = apply_patch(doc, vec![op]).unwrap();
    assert!(matches!(get(&out, "spec"), Some(JsonValue::Null)));
}
