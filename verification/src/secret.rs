//! Secret resolution: given a validated reference and the data the secret
//! store returned for it, decides whether the referenced key resolves to a
//! UTF-8 text value or to a precise not-found outcome.

use vstd::prelude::*;
use vstd::utf8::{decode_utf8, valid_utf8};
use crate::annotation::AnnotationValues;
use crate::text::{spec_lookup, str_eq};

verus! {

/// The outcome of resolving a secret reference against the store's answer.
pub enum Secret {
    /// The referenced key exists and holds this decoded UTF-8 text value.
    Found(String),
    /// No secret of the referenced name exists in the referenced namespace.
    SecretNotFound(AnnotationValues),
    /// The secret exists but its data map lacks the referenced key.
    KeyNotFound(AnnotationValues),
}

/// The referenced key's value is not UTF-8 text; the request cannot proceed.
#[derive(Debug)]
pub struct NotTextError {
    pub key: String,
}

/// The views of a secret's data map entries.
pub open spec fn data_views(pairs: Seq<(String, Vec<u8>)>) -> Seq<(Seq<char>, Seq<u8>)> {
    pairs.map_values(|p: (String, Vec<u8>)| (p.0@, p.1@))
}

/// Finds the first data entry with the given key and returns its bytes.
fn lookup_bytes<'a>(data: &'a Vec<(String, Vec<u8>)>, key: &str) -> (r: Option<&'a Vec<u8>>)
    ensures
        match r {
            Some(v) => spec_lookup(data_views(data@), key@) == Some(v@),
            None => spec_lookup(data_views(data@), key@) is None,
        },
{
    let n = data.len();
    let mut i: usize = 0;
    proof {
        assert(data@.subrange(0, n as int) =~= data@);
    }
    while i < n
        invariant
            i <= n,
            n == data@.len(),
            spec_lookup(data_views(data@), key@) == spec_lookup(
                data_views(data@.subrange(i as int, n as int)),
                key@,
            ),
        decreases n - i,
    {
        let ghost tail = data@.subrange(i as int, n as int);
        if str_eq(data[i].0.as_str(), key) {
            proof {
                assert(data_views(tail)[0].0 == key@);
                assert(data_views(tail)[0].1 == data@[i as int].1@);
            }
            return Some(&data[i].1);
        }
        proof {
            assert(data_views(tail)[0].0 == data@[i as int].0@);
            assert(data_views(tail).drop_first() =~~= data_views(
                data@.subrange(i as int + 1, n as int),
            ));
        }
        i += 1;
    }
    proof {
        assert(data_views(data@.subrange(n as int, n as int)) =~~= Seq::<(
            Seq<char>,
            Seq<u8>,
        )>::empty());
    }
    None
}

/// Relies on `String::from_utf8`: it succeeds exactly on valid UTF-8 input
/// and returns the string those bytes encode.
#[verifier::external_body]
fn decode_text(b: &Vec<u8>) -> (r: Option<String>)
    ensures
        r is Some <==> valid_utf8(b@),
        r is Some ==> r->Some_0@ == decode_utf8(b@),
{
    String::from_utf8(b.clone()).ok()
}

/// Resolves a secret reference against the store's answer for it.
///
/// `data` is what the store returned for the referenced namespace and name:
/// `None` when no such secret exists, otherwise the secret's data map.
/// Returns `SecretNotFound` exactly when the secret is absent, `KeyNotFound`
/// exactly when it exists but lacks the referenced key, `Found` with the
/// decoded UTF-8 value when the key is present and its bytes are valid UTF-8,
/// and an error when they are not.
pub fn get_endpoint_secret(values: &AnnotationValues, data: Option<&Vec<(String, Vec<u8>)>>) -> (r:
    Result<Secret, NotTextError>)
    ensures
        match r {
            Ok(Secret::SecretNotFound(av)) => {
                &&& data is None
                &&& av.namespace@ == values.namespace@
                &&& av.name@ == values.name@
                &&& av.key@ == values.key@
            },
            Ok(Secret::KeyNotFound(av)) => {
                &&& data is Some
                &&& spec_lookup(data_views(data->Some_0@), values.key@) is None
                &&& av.namespace@ == values.namespace@
                &&& av.name@ == values.name@
                &&& av.key@ == values.key@
            },
            Ok(Secret::Found(v)) => {
                let bytes = spec_lookup(data_views(data->Some_0@), values.key@);
                &&& data is Some
                &&& bytes is Some
                &&& valid_utf8(bytes->Some_0)
                &&& v@ == decode_utf8(bytes->Some_0)
            },
            Err(e) => {
                let bytes = spec_lookup(data_views(data->Some_0@), values.key@);
                &&& data is Some
                &&& bytes is Some
                &&& !valid_utf8(bytes->Some_0)
                &&& e.key@ == values.key@
            },
        },
{
    let map = match data {
        Some(m) => m,
        None => {
            return Ok(Secret::SecretNotFound(clone_values(values)));
        },
    };
    let bytes = match lookup_bytes(map, values.key.as_str()) {
        Some(b) => b,
        None => {
            return Ok(Secret::KeyNotFound(clone_values(values)));
        },
    };
    match decode_text(bytes) {
        Some(v) => Ok(Secret::Found(v)),
        None => Err(NotTextError { key: values.key.clone() }),
    }
}

/// Copies a reference field by field.
fn clone_values(values: &AnnotationValues) -> (r: AnnotationValues)
    ensures
        r.namespace@ == values.namespace@,
        r.name@ == values.name@,
        r.key@ == values.key@,
{
    AnnotationValues {
        namespace: values.namespace.clone(),
        name: values.name.clone(),
        key: values.key.clone(),
    }
}

} // verus!
