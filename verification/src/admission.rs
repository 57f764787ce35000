//! The admission decision: sequences annotation resolution, secret lookup and
//! patch synthesis into a terminal outcome, with the exact denial messages.

use vstd::prelude::*;
use vstd::string::StringExecFns;
use vstd::utf8::{decode_utf8, valid_utf8};
use crate::annotation::{
    get_inject_annotation, spec_inject_value, spec_valid_reference, Annotation, AnnotationValues,
};
use crate::patch::{get_json_patch, op_models, spec_synthesize, PatchOperation};
use crate::secret::{data_views, get_endpoint_secret, NotTextError, Secret};
use crate::text::{spec_lookup, spec_split, str_eq};

verus! {

/// The terminal outcome of one admission request. Every outcome echoes the
/// request's correlation identifier.
pub enum AdmissionOutcome {
    /// Admit the object, with the patch to apply to it, if any.
    Allow { uid: String, patch: Option<Vec<PatchOperation>> },
    /// Reject the object, with a human-readable reason.
    Deny { uid: String, message: String },
}

/// The reason given when the annotation value is not a well-formed reference.
pub open spec fn spec_invalid_annotation_message(name: Seq<char>) -> Seq<char> {
    "["@ + name + "] invalid value of 'pubsub-push-config/inject-from' annotation."@
}

/// The reason given when the referenced secret does not exist.
pub open spec fn spec_secret_not_found_message(
    name: Seq<char>,
    secret: Seq<char>,
    namespace: Seq<char>,
) -> Seq<char> {
    "["@ + name + "] secret \""@ + secret + "\" not found in namespace \""@ + namespace + "\""@
}

/// The reason given when the secret lacks the referenced key.
pub open spec fn spec_key_not_found_message(
    name: Seq<char>,
    key: Seq<char>,
    secret: Seq<char>,
) -> Seq<char> {
    "["@ + name + "] key \""@ + key + "\" not found in secret \""@ + secret + "\""@
}

/// Builds the invalid-annotation denial reason.
fn invalid_annotation_message(name: &str) -> (r: String)
    ensures
        r@ == spec_invalid_annotation_message(name@),
{
    let mut m = "[".to_owned();
    m.append(name);
    m.append("] invalid value of 'pubsub-push-config/inject-from' annotation.");
    proof {
        assert(m@ =~= spec_invalid_annotation_message(name@));
    }
    m
}

/// Builds the missing-secret denial reason.
fn secret_not_found_message(name: &str, secret: &str, namespace: &str) -> (r: String)
    ensures
        r@ == spec_secret_not_found_message(name@, secret@, namespace@),
{
    let mut m = "[".to_owned();
    m.append(name);
    m.append("] secret \"");
    m.append(secret);
    m.append("\" not found in namespace \"");
    m.append(namespace);
    m.append("\"");
    proof {
        assert(m@ =~= spec_secret_not_found_message(name@, secret@, namespace@));
    }
    m
}

/// Builds the missing-key denial reason.
fn key_not_found_message(name: &str, key: &str, secret: &str) -> (r: String)
    ensures
        r@ == spec_key_not_found_message(name@, key@, secret@),
{
    let mut m = "[".to_owned();
    m.append(name);
    m.append("] key \"");
    m.append(key);
    m.append("\" not found in secret \"");
    m.append(secret);
    m.append("\"");
    proof {
        assert(m@ =~= spec_key_not_found_message(name@, key@, secret@));
    }
    m
}

/// Checks the request's content type: it must be `application/json`, so an
/// absent or different one is rejected before any domain logic runs, with
/// the returned client-error message.
pub fn validate_content_header(content_type: Option<&str>) -> (r: Option<String>)
    ensures
        match r {
            Some(msg) => {
                &&& content_type is Some ==> content_type->Some_0@ != "application/json"@
                    && msg@ == "invalid content-type: "@ + content_type->Some_0@
                &&& content_type is None ==> msg@ == "missing content-type"@
            },
            None => content_type is Some && content_type->Some_0@ == "application/json"@,
        },
{
    match content_type {
        Some(value) => {
            if str_eq(value, "application/json") {
                None
            } else {
                let mut m = "invalid content-type: ".to_owned();
                m.append(value);
                Some(m)
            }
        },
        None => Some("missing content-type".to_owned()),
    }
}

/// What the annotation stage decided: either a terminal outcome, or the
/// secret reference whose resolution the decision still needs.
pub enum MutateStep {
    Done(AdmissionOutcome),
    NeedSecret(AnnotationValues),
}

/// The annotation stage of the decision. An absent annotation admits the
/// object untouched; a malformed one denies it with the exact reason; a
/// well-formed one asks for the referenced secret.
pub fn mutate_annotation_step(uid: &str, resource_name: &str, annotations: &Vec<(String, String)>)
    -> (r: MutateStep)
    ensures
        match r {
            MutateStep::Done(AdmissionOutcome::Allow { uid: u, patch }) => {
                &&& spec_inject_value(annotations@) is None
                &&& patch is None
                &&& u@ == uid@
            },
            MutateStep::Done(AdmissionOutcome::Deny { uid: u, message }) => {
                &&& spec_inject_value(annotations@) is Some
                &&& !spec_valid_reference(spec_inject_value(annotations@)->Some_0)
                &&& message@ == spec_invalid_annotation_message(resource_name@)
                &&& u@ == uid@
            },
            MutateStep::NeedSecret(av) => {
                let v = spec_inject_value(annotations@)->Some_0;
                &&& spec_inject_value(annotations@) is Some
                &&& spec_valid_reference(v)
                &&& av.namespace@ == spec_split(v, '/')[0]
                &&& av.name@ == spec_split(v, '/')[1]
                &&& av.key@ == spec_split(v, '/')[2]
                &&& av.wf()
            },
        },
{
    match get_inject_annotation(annotations) {
        Annotation::NotPresent => MutateStep::Done(
            AdmissionOutcome::Allow { uid: uid.to_owned(), patch: None },
        ),
        Annotation::Invalid => MutateStep::Done(
            AdmissionOutcome::Deny {
                uid: uid.to_owned(),
                message: invalid_annotation_message(resource_name),
            },
        ),
        Annotation::Valid(av) => MutateStep::NeedSecret(av),
    }
}

/// The secret stage of the decision. `data` is the store's answer for the
/// reference. A missing secret or key denies the object with the exact
/// reason; a found UTF-8 value admits it with the synthesized patch; a value
/// that is not UTF-8 text is an internal error, not a denial.
pub fn mutate_secret_step(
    uid: &str,
    resource_name: &str,
    values: &AnnotationValues,
    data: Option<&Vec<(String, Vec<u8>)>>,
) -> (r: Result<AdmissionOutcome, NotTextError>)
    ensures
        match r {
            Ok(AdmissionOutcome::Allow { uid: u, patch }) => {
                let bytes = spec_lookup(data_views(data->Some_0@), values.key@);
                &&& data is Some
                &&& bytes is Some
                &&& valid_utf8(bytes->Some_0)
                &&& patch is Some
                &&& op_models(patch->Some_0@) == spec_synthesize(decode_utf8(bytes->Some_0))
                &&& u@ == uid@
            },
            Ok(AdmissionOutcome::Deny { uid: u, message }) => {
                &&& u@ == uid@
                &&& if data is None {
                    message@ == spec_secret_not_found_message(
                        resource_name@,
                        values.name@,
                        values.namespace@,
                    )
                } else {
                    &&& spec_lookup(data_views(data->Some_0@), values.key@) is None
                    &&& message@ == spec_key_not_found_message(
                        resource_name@,
                        values.key@,
                        values.name@,
                    )
                }
            },
            Err(e) => {
                let bytes = spec_lookup(data_views(data->Some_0@), values.key@);
                &&& data is Some
                &&& bytes is Some
                &&& !valid_utf8(bytes->Some_0)
                &&& e.key@ == values.key@
            },
        },
{
    match get_endpoint_secret(values, data) {
        Ok(Secret::Found(v)) => {
            let patch = get_json_patch(v);
            Ok(AdmissionOutcome::Allow { uid: uid.to_owned(), patch: Some(patch) })
        },
        Ok(Secret::SecretNotFound(av)) => Ok(
            AdmissionOutcome::Deny {
                uid: uid.to_owned(),
                message: secret_not_found_message(
                    resource_name,
                    av.name.as_str(),
                    av.namespace.as_str(),
                ),
            },
        ),
        Ok(Secret::KeyNotFound(av)) => Ok(
            AdmissionOutcome::Deny {
                uid: uid.to_owned(),
                message: key_not_found_message(
                    resource_name,
                    av.key.as_str(),
                    av.name.as_str(),
                ),
            },
        ),
        Err(e) => Err(e),
    }
}

} // verus!
