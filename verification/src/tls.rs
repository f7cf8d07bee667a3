use vstd::prelude::*;

use crate::bytes::clone_bytes;
use crate::error::ServerError;
use x509_parser::prelude::FromDer;

verus! {

/// The certificate sections a PEM byte stream decodes to, as DER bytes in
/// order; nothing when the stream is malformed.
pub uninterp spec fn pem_certs_of(pem: Seq<u8>) -> Option<Seq<Seq<u8>>>;

/// The first private-key section a PEM byte stream decodes to, as DER
/// bytes; nothing when the stream has none or is malformed.
pub uninterp spec fn pem_key_of(pem: Seq<u8>) -> Option<Seq<u8>>;

/// The subject line of a DER-encoded X.509 certificate; nothing when the
/// bytes do not parse as one.
pub uninterp spec fn x509_subject_of(der: Seq<u8>) -> Option<Seq<char>>;

/// Relies on rustls_pemfile::certs: yields every X.509 certificate section
/// of the PEM stream as DER bytes, or an error for a malformed stream.
#[verifier::external_body]
fn pem_certs(pem: &Vec<u8>) -> (r: Option<Vec<Vec<u8>>>)
    ensures
        (r is Some) == (pem_certs_of(pem@) is Some),
        r matches Some(v) ==> (pem_certs_of(pem@) matches Some(cs) && v@.len() == cs.len()
            && forall|i: int| 0 <= i < v@.len() ==> (#[trigger] v@[i])@ == cs[i]),
{
    let mut rd: &[u8] = pem.as_slice();
    rustls_pemfile::certs(&mut rd)
        .collect::<Result<Vec<_>, _>>()
        .ok()
        .map(|v| v.iter().map(|c| c.as_ref().to_vec()).collect())
}

/// Relies on rustls_pemfile::private_key: yields the first private-key
/// section of the PEM stream as DER bytes, of whichever key encoding the
/// section declares; `None` both for a stream without one and for a
/// malformed stream.
#[verifier::external_body]
fn pem_private_key(pem: &Vec<u8>) -> (r: Option<Vec<u8>>)
    ensures
        (r is Some) == (pem_key_of(pem@) is Some),
        r matches Some(k) ==> pem_key_of(pem@) == Some(k@),
{
    let mut rd: &[u8] = pem.as_slice();
    match rustls_pemfile::private_key(&mut rd) {
        Ok(Some(key)) => Some(key.secret_der().to_vec()),
        _ => None,
    }
}

/// Relies on x509_parser's X509Certificate::from_der and the display form
/// of X509Name: parses a DER certificate and renders its subject as text.
#[verifier::external_body]
fn x509_subject(der: &Vec<u8>) -> (r: Option<String>)
    ensures
        (r is Some) == (x509_subject_of(der@) is Some),
        r matches Some(s) ==> x509_subject_of(der@) == Some(s@),
{
    match x509_parser::certificate::X509Certificate::from_der(der.as_slice()) {
        Ok((_, cert)) => Some(cert.subject().to_string()),
        Err(_) => None,
    }
}

/// The TLS material the listener starts with: the server certificate chain
/// and its private key, as DER bytes.
#[derive(Debug)]
pub struct TlsMaterial {
    pub chain: Vec<Vec<u8>>,
    pub key: Vec<u8>,
}

/// Startup validation of the TLS material read from disk: the PEM chain
/// must decode to at least one certificate and the PEM key stream must hold
/// a private key.  Anything less is the gateway error, fatal at startup.
pub fn load_tls_material(cert_pem: &Vec<u8>, key_pem: &Vec<u8>) -> (r: Result<
    TlsMaterial,
    ServerError,
>)
    ensures
        (r is Ok) == (pem_certs_of(cert_pem@) matches Some(cs) && cs.len() > 0 && pem_key_of(
            key_pem@,
        ) is Some),
        r matches Ok(m) ==> (pem_certs_of(cert_pem@) matches Some(cs) && m.chain@.len()
            == cs.len() && (forall|i: int|
            0 <= i < m.chain@.len() ==> (#[trigger] m.chain@[i])@ == cs[i]) && pem_key_of(key_pem@)
            == Some(m.key@)),
{
    let chain = match pem_certs(cert_pem) {
        Some(chain) => chain,
        None => {
            return Err(ServerError);
        },
    };
    if chain.len() == 0 {
        return Err(ServerError);
    }
    let key = match pem_private_key(key_pem) {
        Some(key) => key,
        None => {
            return Err(ServerError);
        },
    };
    Ok(TlsMaterial { chain, key })
}

/// Describes the authenticated TLS peer for the connection log: the subject
/// of the verified client certificate, when one was presented and parses.
pub fn peer_subject(der: &Option<Vec<u8>>) -> (r: Option<String>)
    ensures
        der matches Some(d) ==> ((r is Some) == (x509_subject_of(d@) is Some) && (r matches Some(
            s,
        ) ==> x509_subject_of(d@) == Some(s@))),
        der is None ==> r is None,
{
    match der {
        Some(d) => x509_subject(d),
        None => None,
    }
}

/// A byte-for-byte copy of the certificate chain, for handing one copy to
/// the TLS acceptor and one to the trust store.
pub fn clone_chain(chain: &Vec<Vec<u8>>) -> (r: Vec<Vec<u8>>)
    ensures
        r@.len() == chain@.len(),
        forall|i: int| 0 <= i < chain@.len() ==> (#[trigger] r@[i])@ == chain@[i]@,
{
    let mut r: Vec<Vec<u8>> = Vec::new();
    let mut i: usize = 0;
    while i < chain.len()
        invariant
            i <= chain@.len(),
            r@.len() == i,
            forall|k: int| 0 <= k < i ==> (#[trigger] r@[k])@ == chain@[k]@,
        decreases chain@.len() - i,
    {
        r.push(clone_bytes(&chain[i]));
        i += 1;
    }
    r
}

} // verus!
