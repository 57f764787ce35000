//! The TLS identity bootstrap: the fixed SAN list derived from a namespace,
//! and the assembly of a served certificate chain and private key from CA
//! material, through the certificate generator and PEM decoder.

use vstd::prelude::*;
use vstd::string::StringExecFns;
use crate::text::views_of;

verus! {

/// The served identity: a DER certificate chain and a PKCS#8 DER private key.
#[derive(Debug, Clone)]
pub struct ServerCertificate {
    pub cert_chain: Vec<Vec<u8>>,
    pub private_key: Vec<u8>,
}

/// Why the identity could not be produced; all of these abort startup.
#[derive(Debug)]
pub enum CertError {
    /// The CA key PEM does not parse as a key pair.
    BadCaKey,
    /// The CA certificate PEM does not parse as a certificate.
    BadCaCert,
    /// The leaf certificate could not be generated.
    Generation,
    /// The generated certificate could not be serialized.
    Serialization,
    /// No certificate could be extracted from the serialized PEM.
    CertChainExtraction,
    /// No private key could be extracted from the serialized key PEM.
    KeyExtraction,
    /// The serialized key material held no PKCS#8 key block.
    NoPrivateKey,
}

/// The DNS names the served certificate must answer to: the bare service
/// name and its four namespace-qualified forms.
pub open spec fn spec_san_list(namespace: Seq<char>) -> Seq<Seq<char>> {
    seq![
        "push-config-injecter"@,
        "push-config-injecter."@ + namespace,
        "push-config-injecter."@ + namespace + ".svc"@,
        "push-config-injecter."@ + namespace + ".svc.cluster"@,
        "push-config-injecter."@ + namespace + ".svc.cluster.local"@,
    ]
}

/// Builds the SAN list for the namespace, exactly as [`spec_san_list`] states.
pub fn san_list(namespace: &str) -> (r: Vec<String>)
    ensures
        views_of(r@) == spec_san_list(namespace@),
{
    let mut names: Vec<String> = Vec::new();
    names.push("push-config-injecter".to_owned());
    let mut base = "push-config-injecter.".to_owned();
    base.append(namespace);
    names.push(base.clone());
    let mut svc = base.clone();
    svc.append(".svc");
    names.push(svc);
    let mut cluster = base.clone();
    cluster.append(".svc.cluster");
    names.push(cluster);
    let mut local = base.clone();
    local.append(".svc.cluster.local");
    names.push(local);
    proof {
        assert(views_of(names@).len() == 5);
        assert(views_of(names@)[0] == "push-config-injecter"@);
        assert(views_of(names@)[1] == "push-config-injecter."@ + namespace@);
        assert(views_of(names@)[2] == "push-config-injecter."@ + namespace@ + ".svc"@);
        assert(views_of(names@)[3] == "push-config-injecter."@ + namespace@ + ".svc.cluster"@);
        assert(views_of(names@)[4] == "push-config-injecter."@ + namespace@
            + ".svc.cluster.local"@);
        assert(views_of(names@) =~~= spec_san_list(namespace@));
    }
    names
}

#[verifier::external_type_specification]
#[verifier::external_body]
pub struct ExKeyPair(rcgen::KeyPair);

#[verifier::external_type_specification]
#[verifier::external_body]
pub struct ExCertificateParams(rcgen::CertificateParams);

#[verifier::external_type_specification]
#[verifier::external_body]
pub struct ExCertificate(rcgen::Certificate);

/// Whether the text parses as a PEM key pair.
pub uninterp spec fn pem_parses_as_key(pem: Seq<char>) -> bool;

/// Relies on rcgen::KeyPair::from_pem: whether the PEM text parses as a key
/// pair is a function of the text alone.
#[verifier::external_body]
fn keypair_from_pem(pem: &str) -> (r: Option<rcgen::KeyPair>)
    ensures
        r is Some <==> pem_parses_as_key(pem@),
{
    rcgen::KeyPair::from_pem(pem).ok()
}

/// Whether the text parses as a PEM CA certificate.
pub uninterp spec fn pem_parses_as_ca_cert(pem: Seq<char>) -> bool;

/// Relies on rcgen::CertificateParams::from_ca_cert_pem: the key pair is only
/// stored in the parameters, so success is a function of the text alone.
#[verifier::external_body]
fn params_from_ca_cert_pem(pem: &str, key: rcgen::KeyPair) -> (r: Option<rcgen::CertificateParams>)
    ensures
        r is Some <==> pem_parses_as_ca_cert(pem@),
{
    rcgen::CertificateParams::from_ca_cert_pem(pem, key).ok()
}

/// Relies on rcgen::CertificateParams: its `subject_alt_names` field holds
/// the certificate's SAN entries, each here a DNS name.
#[verifier::external_body]
fn set_subject_alt_names(params: &mut rcgen::CertificateParams, names: Vec<String>) {
    params.subject_alt_names = names.into_iter().map(rcgen::SanType::DnsName).collect();
}

/// Relies on rcgen::Certificate::from_params.
#[verifier::external_body]
fn certificate_from_params(params: rcgen::CertificateParams) -> (r: Option<rcgen::Certificate>) {
    rcgen::Certificate::from_params(params).ok()
}

/// Relies on rcgen::Certificate::serialize_pem; signing may draw randomness,
/// so nothing is stated of the text.
#[verifier::external_body]
fn serialize_cert_pem(cert: &rcgen::Certificate) -> (r: Option<String>) {
    cert.serialize_pem().ok()
}

/// Relies on rcgen::Certificate::serialize_private_key_pem.
#[verifier::external_body]
fn serialize_key_pem(cert: &rcgen::Certificate) -> (r: String) {
    cert.serialize_private_key_pem()
}

/// The DER certificates of the text's CERTIFICATE sections, or nothing when
/// the text cannot be read as PEM.
pub uninterp spec fn pem_certs_of(pem: Seq<char>) -> Option<Seq<Seq<u8>>>;

/// Relies on rustls_pemfile::certs: a pure parse of the text it reads.
#[verifier::external_body]
fn pem_to_der_certs(pem: &str) -> (r: Option<Vec<Vec<u8>>>)
    ensures
        r is Some <==> pem_certs_of(pem@) is Some,
        r is Some ==> r->Some_0.deep_view() == pem_certs_of(pem@)->Some_0,
{
    rustls_pemfile::certs(&mut std::io::BufReader::new(pem.as_bytes())).ok()
}

/// The PKCS#8 DER keys of the text's PRIVATE KEY sections, or nothing when
/// the text cannot be read as PEM.
pub uninterp spec fn pem_keys_of(pem: Seq<char>) -> Option<Seq<Seq<u8>>>;

/// Relies on rustls_pemfile::pkcs8_private_keys: a pure parse of the text it
/// reads.
#[verifier::external_body]
fn pem_to_der_keys(pem: &str) -> (r: Option<Vec<Vec<u8>>>)
    ensures
        r is Some <==> pem_keys_of(pem@) is Some,
        r is Some ==> r->Some_0.deep_view() == pem_keys_of(pem@)->Some_0,
{
    rustls_pemfile::pkcs8_private_keys(&mut std::io::BufReader::new(pem.as_bytes())).ok()
}

/// Extracts the served chain and key from the serialized PEM texts: the
/// chain is every certificate of `cert_pem`, the key the first key block of
/// `key_pem`, and each failure is told apart.
pub fn assemble_identity(cert_pem: &str, key_pem: &str) -> (r: Result<ServerCertificate, CertError>)
    ensures
        match r {
            Ok(sc) => {
                &&& pem_certs_of(cert_pem@) is Some
                &&& pem_keys_of(key_pem@) is Some
                &&& pem_keys_of(key_pem@)->Some_0.len() >= 1
                &&& sc.cert_chain.deep_view() == pem_certs_of(cert_pem@)->Some_0
                &&& sc.private_key@ == pem_keys_of(key_pem@)->Some_0[0]
            },
            Err(CertError::CertChainExtraction) => pem_certs_of(cert_pem@) is None,
            Err(CertError::KeyExtraction) => {
                &&& pem_certs_of(cert_pem@) is Some
                &&& pem_keys_of(key_pem@) is None
            },
            Err(CertError::NoPrivateKey) => {
                &&& pem_certs_of(cert_pem@) is Some
                &&& pem_keys_of(key_pem@) == Some(Seq::<Seq<u8>>::empty())
            },
            Err(_) => false,
        },
{
    let cert_chain = match pem_to_der_certs(cert_pem) {
        Some(c) => c,
        None => {
            return Err(CertError::CertChainExtraction);
        },
    };
    let mut keys = match pem_to_der_keys(key_pem) {
        Some(k) => k,
        None => {
            return Err(CertError::KeyExtraction);
        },
    };
    if keys.len() == 0 {
        proof {
            assert(keys.deep_view() =~~= Seq::<Seq<u8>>::empty());
        }
        return Err(CertError::NoPrivateKey);
    }
    let ghost dv = keys.deep_view();
    let ghost kv = keys@;
    let private_key = keys.remove(0);
    proof {
        assert(dv[0] == kv[0].deep_view());
        assert(private_key@ =~= private_key.deep_view());
        assert(private_key@ == dv[0]);
    }
    Ok(ServerCertificate { cert_chain, private_key })
}

/// Produces the identity the webhook serves: a fresh leaf certificate for
/// the namespace's SAN list, generated from the CA material and decoded back
/// into DER form. Fails exactly on unusable CA material, failed generation
/// or serialization, or unusable serialized output.
pub fn get_server_certificate(ca_key_pem: &str, ca_crt_pem: &str, namespace: &str) -> (r: Result<
    ServerCertificate,
    CertError,
>)
    ensures
        r matches Err(CertError::BadCaKey) <==> !pem_parses_as_key(ca_key_pem@),
        r matches Err(CertError::BadCaCert) <==> pem_parses_as_key(ca_key_pem@)
            && !pem_parses_as_ca_cert(ca_crt_pem@),
        !(r matches Err(CertError::BadCaKey)) && !(r matches Err(CertError::BadCaCert))
            ==> pem_parses_as_key(ca_key_pem@) && pem_parses_as_ca_cert(ca_crt_pem@),
{
    let names = san_list(namespace);
    let ca_key = match keypair_from_pem(ca_key_pem) {
        Some(k) => k,
        None => {
            return Err(CertError::BadCaKey);
        },
    };
    let mut params = match params_from_ca_cert_pem(ca_crt_pem, ca_key) {
        Some(p) => p,
        None => {
            return Err(CertError::BadCaCert);
        },
    };
    set_subject_alt_names(&mut params, names);
    let cert = match certificate_from_params(params) {
        Some(c) => c,
        None => {
            return Err(CertError::Generation);
        },
    };
    let cert_pem = match serialize_cert_pem(&cert) {
        Some(p) => p,
        None => {
            return Err(CertError::Serialization);
        },
    };
    let key_pem = serialize_key_pem(&cert);
    assemble_identity(cert_pem.as_str(), key_pem.as_str())
}

} // verus!
