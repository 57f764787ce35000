//! A Kubernetes mutating admission webhook library.
//!
//! The library decides, for each admitted object, whether to inject a push
//! endpoint taken from a referenced secret into the object's spec. It parses
//! the `pubsub-push-config/inject-from` annotation, resolves the referenced
//! secret key, synthesizes the JSON patch that performs the injection, and
//! builds the admission outcome. It also assembles the TLS server identity
//! used to serve the webhook, from CA material handed in by the caller.

pub mod text;
pub mod annotation;
pub mod secret;
pub mod patch;
pub mod admission;
pub mod cert;
