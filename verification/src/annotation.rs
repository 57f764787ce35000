//! Resolving the injection annotation: extracts a structured secret reference
//! (namespace, secret name, key) from the admitted object's annotation map.

use vstd::prelude::*;
use crate::text::{spec_lookup, spec_split, split_char, str_eq};

verus! {

/// The well-known annotation key that opts an object into endpoint injection.
pub open spec fn spec_inject_key() -> Seq<char> {
    "pubsub-push-config/inject-from"@
}

/// A validated reference to one key of one secret.
///
/// Invariant: all three fields are non-empty.
#[derive(Debug, Clone)]
pub struct AnnotationValues {
    pub namespace: String,
    pub name: String,
    pub key: String,
}

impl AnnotationValues {
    /// All three fields of the reference are non-empty.
    pub open spec fn wf(&self) -> bool {
        self.namespace@.len() > 0 && self.name@.len() > 0 && self.key@.len() > 0
    }
}

/// The outcome of looking for the injection annotation on an object.
pub enum Annotation {
    /// The annotation is present and carries a well-formed reference.
    Valid(AnnotationValues),
    /// The annotation key is absent: the object has not opted in.
    NotPresent,
    /// The annotation is present but its value is not a well-formed reference.
    Invalid,
}

/// The views of an annotation map's entries.
pub open spec fn pair_views(pairs: Seq<(String, String)>) -> Seq<(Seq<char>, Seq<char>)> {
    pairs.map_values(|p: (String, String)| (p.0@, p.1@))
}

/// An annotation value is a well-formed reference when it splits on `/` into
/// exactly three non-empty segments.
pub open spec fn spec_valid_reference(v: Seq<char>) -> bool {
    let p = spec_split(v, '/');
    p.len() == 3 && p[0].len() > 0 && p[1].len() > 0 && p[2].len() > 0
}

/// What the annotation value bound to the injection key is, if any.
pub open spec fn spec_inject_value(annotations: Seq<(String, String)>) -> Option<Seq<char>> {
    spec_lookup(pair_views(annotations), spec_inject_key())
}

/// Finds the first entry with the given key and returns its value.
fn lookup_value<'a>(annotations: &'a Vec<(String, String)>, key: &str) -> (r: Option<&'a String>)
    ensures
        match r {
            Some(v) => spec_lookup(pair_views(annotations@), key@) == Some(v@),
            None => spec_lookup(pair_views(annotations@), key@) is None,
        },
{
    let n = annotations.len();
    let mut i: usize = 0;
    proof {
        assert(annotations@.subrange(0, n as int) =~= annotations@);
    }
    while i < n
        invariant
            i <= n,
            n == annotations@.len(),
            spec_lookup(pair_views(annotations@), key@) == spec_lookup(
                pair_views(annotations@.subrange(i as int, n as int)),
                key@,
            ),
        decreases n - i,
    {
        let ghost tail = annotations@.subrange(i as int, n as int);
        if str_eq(annotations[i].0.as_str(), key) {
            proof {
                assert(pair_views(tail)[0].0 == key@);
                assert(pair_views(tail)[0].1 == annotations@[i as int].1@);
            }
            return Some(&annotations[i].1);
        }
        proof {
            assert(pair_views(tail)[0].0 == annotations@[i as int].0@);
            assert(pair_views(tail).drop_first() =~~= pair_views(
                annotations@.subrange(i as int + 1, n as int),
            ));
        }
        i += 1;
    }
    proof {
        assert(pair_views(annotations@.subrange(n as int, n as int)) =~~= Seq::<(
            Seq<char>,
            Seq<char>,
        )>::empty());
    }
    None
}

/// Resolves the injection annotation on an object's annotation map.
///
/// Returns `NotPresent` when the key is absent, `Invalid` when its value does
/// not split on `/` into exactly three non-empty segments, and otherwise the
/// reference with those segments as namespace, secret name and key, in order.
pub fn get_inject_annotation(annotations: &Vec<(String, String)>) -> (r: Annotation)
    ensures
        match r {
            Annotation::NotPresent => spec_inject_value(annotations@) is None,
            Annotation::Invalid => {
                &&& spec_inject_value(annotations@) is Some
                &&& !spec_valid_reference(spec_inject_value(annotations@)->Some_0)
            },
            Annotation::Valid(av) => {
                let v = spec_inject_value(annotations@)->Some_0;
                &&& spec_inject_value(annotations@) is Some
                &&& spec_valid_reference(v)
                &&& av.namespace@ == spec_split(v, '/')[0]
                &&& av.name@ == spec_split(v, '/')[1]
                &&& av.key@ == spec_split(v, '/')[2]
                &&& av.wf()
            },
        },
{
    let value = match lookup_value(annotations, "pubsub-push-config/inject-from") {
        Some(v) => v,
        None => {
            return Annotation::NotPresent;
        },
    };
    let parts = split_char(value.as_str(), '/');
    if parts.len() != 3 {
        return Annotation::Invalid;
    }
    if parts[0].as_str().is_empty() || parts[1].as_str().is_empty() || parts[2].as_str().is_empty()
    {
        return Annotation::Invalid;
    }
    let av = AnnotationValues {
        namespace: parts[0].clone(),
        name: parts[1].clone(),
        key: parts[2].clone(),
    };
    Annotation::Valid(av)
}

} // verus!
