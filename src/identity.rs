//! The server's identity: a certificate chain and an EC private key, taken
//! from PEM text.

use vstd::prelude::*;
use crate::scan::views_of;

verus! {

/// The DER certificates that rustls-pemfile finds in PEM text, in order, or
/// none when the text is malformed.
pub uninterp spec fn pem_certificates(pem: Seq<u8>) -> Option<Seq<Seq<u8>>>;

/// The DER EC private keys that rustls-pemfile finds in PEM text, in order,
/// or none when the text is malformed.
pub uninterp spec fn pem_ec_keys(pem: Seq<u8>) -> Option<Seq<Seq<u8>>>;

/// Relies on `rustls_pemfile::certs`: reading from bytes in memory, it
/// returns the certificate sections' contents or an error, from the bytes alone.
#[verifier::external_body]
fn read_pem_certificates(pem: &[u8]) -> (r: Option<Vec<Vec<u8>>>)
    ensures
        match r {
            Some(v) => pem_certificates(pem@) == Some(views_of(v@)),
            None => pem_certificates(pem@).is_none(),
        },
{
    let mut rd: &[u8] = pem;
    rustls_pemfile::certs(&mut rd).ok()
}

/// Relies on `rustls_pemfile::ec_private_keys`: reading from bytes in memory,
/// it returns the EC key sections' contents or an error, from the bytes alone.
#[verifier::external_body]
fn read_pem_ec_keys(pem: &[u8]) -> (r: Option<Vec<Vec<u8>>>)
    ensures
        match r {
            Some(v) => pem_ec_keys(pem@) == Some(views_of(v@)),
            None => pem_ec_keys(pem@).is_none(),
        },
{
    let mut rd: &[u8] = pem;
    rustls_pemfile::ec_private_keys(&mut rd).ok()
}

/// Why no identity could be formed.
#[derive(Clone, Copy, Debug, PartialEq, Eq, Structural)]
pub enum IdentityError {
    /// The certificate text is not well-formed PEM.
    MalformedCertificates,
    /// The certificate text holds no certificate.
    NoCertificates,
    /// The key text holds no EC private key, or is not well-formed PEM.
    NoKey,
}

/// A certificate chain, never empty, and the private key that goes with it.
pub struct ServerIdentity {
    pub chain: Vec<Vec<u8>>,
    pub key: Vec<u8>,
}

impl ServerIdentity {
    pub open spec fn wf(&self) -> bool {
        self.chain@.len() > 0
    }

    /// The identity made of what was found in the two PEM texts: every
    /// certificate, in order, and the first EC key.
    pub fn from_found(certs: Option<Vec<Vec<u8>>>, keys: Option<Vec<Vec<u8>>>) -> (r: Result<
        ServerIdentity,
        IdentityError,
    >)
        ensures
            match r {
                Ok(id) => {
                    &&& id.wf()
                    &&& certs is Some && views_of(id.chain@) == views_of(certs->0@)
                    &&& keys is Some && keys->0@.len() > 0 && id.key@ == keys->0@[0]@
                },
                Err(e) => e == match certs {
                    None => IdentityError::MalformedCertificates,
                    Some(c) => if c@.len() == 0 {
                        IdentityError::NoCertificates
                    } else {
                        IdentityError::NoKey
                    },
                },
            },
            r is Err <==> (certs is None || certs->0@.len() == 0 || keys is None || keys->0@.len() == 0),
    {
        let chain = match certs {
            None => return Err(IdentityError::MalformedCertificates),
            Some(c) => c,
        };
        if chain.len() == 0 {
            return Err(IdentityError::NoCertificates);
        }
        let mut keys = match keys {
            None => return Err(IdentityError::NoKey),
            Some(k) => k,
        };
        if keys.len() == 0 {
            return Err(IdentityError::NoKey);
        }
        let key = keys.swap_remove(0);
        Ok(ServerIdentity { chain, key })
    }

    /// The identity that a certificate PEM text and a key PEM text describe.
    pub fn from_pem(cert_pem: &[u8], key_pem: &[u8]) -> (r: Result<ServerIdentity, IdentityError>)
        ensures
            match r {
                Ok(id) => {
                    &&& id.wf()
                    &&& pem_certificates(cert_pem@) == Some(views_of(id.chain@))
                    &&& pem_ec_keys(key_pem@) matches Some(ks) && ks.len() > 0 && id.key@ == ks[0]
                },
                Err(e) => e == match pem_certificates(cert_pem@) {
                    None => IdentityError::MalformedCertificates,
                    Some(c) => if c.len() == 0 {
                        IdentityError::NoCertificates
                    } else {
                        IdentityError::NoKey
                    },
                },
            },
            r is Ok <==> (pem_certificates(cert_pem@) is Some && pem_certificates(cert_pem@)->0.len() > 0
                && pem_ec_keys(key_pem@) is Some && pem_ec_keys(key_pem@)->0.len() > 0),
    {
        let certs = read_pem_certificates(cert_pem);
        let keys = read_pem_ec_keys(key_pem);
        Self::from_found(certs, keys)
    }
}

} // verus!
