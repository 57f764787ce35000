use push_config_injecter::annotation::AnnotationValues;
use push_config_injecter::secret::{get_endpoint_secret, Secret};

fn reference() -> AnnotationValues {
    AnnotationValues {
        namespace: "ns1".to_string(),
        name: "secretA".to_string(),
        key: "url".to_string(),
    }
}

fn data(pairs: &[(&str, &[u8])]) -> Vec<(String, Vec<u8>)> {
    pairs.iter().map(|(k, v)| (k.to_string(), v.to_vec())).collect()
}

#[test]
fn absent_secret_is_secret_not_found() {
    match get_endpoint_secret(&reference(), None) {
        Ok(Secret::SecretNotFound(av)) => {
            assert_eq!(av.namespace, "ns1");
            assert_eq!(av.name, "secretA");
            assert_eq!(av.key, "url");
        }
        _ => panic!("expected SecretNotFound"),
    }
}

#[test]
fn absent_key_is_key_not_found() {
    let d = data(&[("token", b"abc"), ("other", b"xyz")]);
    match get_endpoint_secret(&reference(), Some(&d)) {
        Ok(Secret::KeyNotFound(av)) => {
            assert_eq!(av.key, "url");
            assert_eq!(av.name, "secretA");
        }
        _ => panic!("expected KeyNotFound"),
    }
}

#[test]
fn present_key_is_found_and_decoded() {
    let d = data(&[("token", b"abc"), ("url", b"https://example.com/push")]);
    match get_endpoint_secret(&reference(), Some(&d)) {
        Ok(Secret::Found(v)) => assert_eq!(v, "https://example.com/push"),
        _ => panic!("expected Found"),
    }
}

#[test]
fn non_utf8_value_is_an_error() {
    let d = data(&[("url", &[0xff, 0xfe, 0x41])]);
    match get_endpoint_secret(&reference(), Some(&d)) {
        Err(e) => assert_eq!(e.key, "url"),
        _ => panic!("expected a decode error"),
    }
}
