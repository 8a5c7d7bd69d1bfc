//! What a server shows of itself, and how it sets up its connections.

use vstd::prelude::*;

verus! {

/// What some byte lists hold.
pub open spec fn byte_lists(lists: Seq<Vec<u8>>) -> Seq<Seq<u8>> {
    lists.map_values(|list: Vec<u8>| list@)
}

/// The certificates in a PEM file, or none where the file cannot be read.
pub uninterp spec fn pem_certificates(pem: Seq<u8>) -> Option<Seq<Seq<u8>>>;

/// The PKCS#8 private keys in a PEM file, or none where the file cannot be read.
pub uninterp spec fn pem_private_keys(pem: Seq<u8>) -> Option<Seq<Seq<u8>>>;

/// `rustls_pemfile::certs` reads the contents of a PEM file to its end and gives the certificates in
/// it, in the order of the file. The result is named, not described.
#[verifier::external_body]
fn read_certificates(pem: &[u8]) -> (r: Option<Vec<Vec<u8>>>)
    ensures
        match r {
            Some(list) => pem_certificates(pem@) == Some(byte_lists(list@)),
            None => pem_certificates(pem@) is None,
        },
{
    rustls_pemfile::certs(&mut std::io::Cursor::new(pem)).ok()
}

/// `rustls_pemfile::pkcs8_private_keys` reads the contents of a PEM file to its end and gives the
/// private keys in it, in the order of the file. The result is named, not described.
#[verifier::external_body]
fn read_private_keys(pem: &[u8]) -> (r: Option<Vec<Vec<u8>>>)
    ensures
        match r {
            Some(list) => pem_private_keys(pem@) == Some(byte_lists(list@)),
            None => pem_private_keys(pem@) is None,
        },
{
    rustls_pemfile::pkcs8_private_keys(&mut std::io::Cursor::new(pem)).ok()
}

/// Why a file gives no identity.
#[derive(Debug, Clone, Copy, PartialEq, Eq, Structural)]
pub enum IdentityError {
    /// The file of the private key cannot be read.
    KeyUnreadable,
    /// The file of the private key holds none.
    KeyMissing,
    /// The file of the certificates cannot be read.
    CertificatesUnreadable,
    /// The file of the authorities cannot be read.
    AuthoritiesUnreadable,
}

impl IdentityError {
    /// The error in words.
    pub fn message(&self) -> (r: &'static str)
        ensures
            r@ == match self {
                IdentityError::KeyUnreadable => "Quinn .pem parsing of private key failed"@,
                IdentityError::KeyMissing =>
                    "Quinn private key .pem must contain exactly one private key"@,
                IdentityError::CertificatesUnreadable =>
                    "Quinn .pem parsing of certificates failed"@,
                IdentityError::AuthoritiesUnreadable =>
                    "Quinn .pem parsing of authority certificate(s) failed"@,
            },
    {
        match self {
            IdentityError::KeyUnreadable => "Quinn .pem parsing of private key failed",
            IdentityError::KeyMissing => "Quinn private key .pem must contain exactly one private key",
            IdentityError::CertificatesUnreadable => "Quinn .pem parsing of certificates failed",
            IdentityError::AuthoritiesUnreadable =>
                "Quinn .pem parsing of authority certificate(s) failed",
        }
    }
}

/// What a server shows of itself, and the key that goes with it.
#[derive(Debug)]
pub struct ServerIdentity {
    pub cert_chain: Vec<Vec<u8>>,
    pub private_key: Vec<u8>,
}

/// What an identity is made of.
pub struct IdentityView {
    pub cert_chain: Seq<Seq<u8>>,
    pub private_key: Seq<u8>,
}

impl View for ServerIdentity {
    type V = IdentityView;

    open spec fn view(&self) -> IdentityView {
        IdentityView { cert_chain: byte_lists(self.cert_chain@), private_key: self.private_key@ }
    }
}

/// The identity that two files give: the first private key of one and all certificates of the other.
pub open spec fn identity_of(
    keys: Option<Seq<Seq<u8>>>,
    certificates: Option<Seq<Seq<u8>>>,
) -> Result<IdentityView, IdentityError> {
    match (keys, certificates) {
        (None, _) => Err(IdentityError::KeyUnreadable),
        (Some(keys), _) if keys.len() == 0 => Err(IdentityError::KeyMissing),
        (Some(_), None) => Err(IdentityError::CertificatesUnreadable),
        (Some(keys), Some(cert_chain)) => Ok(IdentityView { cert_chain, private_key: keys[0] }),
    }
}

/// Two files give an identity exactly when both can be read and the one of the key holds a key. The
/// identity has the first key and all certificates, in their order. Where it is missing, the key is
/// the reason before the certificates are.
pub proof fn law_identity_needs_both_files(
    keys: Option<Seq<Seq<u8>>>,
    certificates: Option<Seq<Seq<u8>>>,
)
    ensures
        identity_of(keys, certificates) is Ok <==> keys is Some && keys->0.len() > 0
            && certificates is Some,
        identity_of(keys, certificates) matches Ok(identity) ==> identity.private_key == keys->0[0]
            && Some(identity.cert_chain) == certificates,
        identity_of(keys, certificates) matches Err(e) ==> {
            &&& e is KeyUnreadable <==> keys is None
            &&& e is KeyMissing <==> keys is Some && keys->0.len() == 0
            &&& e is CertificatesUnreadable <==> keys is Some && keys->0.len() > 0
            &&& !(e is AuthoritiesUnreadable)
        },
{
}

/// What was read of a file.
pub open spec fn read_lists(read: Option<Vec<Vec<u8>>>) -> Option<Seq<Seq<u8>>> {
    match read {
        Some(lists) => Some(byte_lists(lists@)),
        None => None,
    }
}

/// The identity that is made of the keys and the certificates that were read.
pub fn assemble_identity(keys: Option<Vec<Vec<u8>>>, certificates: Option<Vec<Vec<u8>>>) -> (r:
    Result<ServerIdentity, IdentityError>)
    ensures
        match (r, identity_of(read_lists(keys), read_lists(certificates))) {
            (Ok(identity), Ok(v)) => identity@ == v,
            (Err(e), Err(f)) => e == f,
            _ => false,
        },
{
    match keys {
        None => Err(IdentityError::KeyUnreadable),
        Some(mut keys) => {
            let ghost read = byte_lists(keys@);
            if keys.len() == 0 {
                return Err(IdentityError::KeyMissing);
            }
            assert(read[0] == keys@[0]@);
            let private_key = keys.remove(0);
            match certificates {
                None => Err(IdentityError::CertificatesUnreadable),
                Some(cert_chain) => Ok(ServerIdentity { cert_chain, private_key }),
            }
        },
    }
}

/// The identity that is read from the contents of two files.
pub fn load_identity(cert_pem: &[u8], priv_pem: &[u8]) -> (r: Result<ServerIdentity, IdentityError>)
    ensures
        match (r, identity_of(pem_private_keys(priv_pem@), pem_certificates(cert_pem@))) {
            (Ok(identity), Ok(v)) => identity@ == v,
            (Err(e), Err(f)) => e == f,
            _ => false,
        },
{
    let keys = read_private_keys(priv_pem);
    let certificates = read_certificates(cert_pem);
    assemble_identity(keys, certificates)
}

/// The authorities that were read, which are all trusted.
pub fn assemble_authorities(certificates: Option<Vec<Vec<u8>>>) -> (r: Result<
    Vec<Vec<u8>>,
    IdentityError,
>)
    ensures
        match (r, read_lists(certificates)) {
            (Ok(list), Some(v)) => byte_lists(list@) == v,
            (Err(e), None) => e is AuthoritiesUnreadable,
            _ => false,
        },
{
    match certificates {
        Some(list) => Ok(list),
        None => Err(IdentityError::AuthoritiesUnreadable),
    }
}

/// The authorities that are read from the contents of a file.
pub fn load_authorities(authority_pem: &[u8]) -> (r: Result<Vec<Vec<u8>>, IdentityError>)
    ensures
        match (r, pem_certificates(authority_pem@)) {
            (Ok(list), Some(v)) => byte_lists(list@) == v,
            (Err(e), None) => e is AuthoritiesUnreadable,
            _ => false,
        },
{
    assemble_authorities(read_certificates(authority_pem))
}

/// How the connections of a server are set up.
#[derive(Debug, Clone, Copy, PartialEq, Eq, Structural)]
pub struct TransportSettings {
    /// Seconds after which a silent connection is kept alive.
    pub keep_alive_seconds: u64,
    /// Seconds after which a silent connection is given up.
    pub max_idle_seconds: u64,
    /// Bytes that may be on their way to this end, on all streams together.
    pub receive_window: u32,
    /// Bytes that may be on their way from this end.
    pub send_window: u64,
    /// Bytes that may be on their way to this end, on one stream.
    pub stream_receive_window: u32,
    /// Whether the address of a client is checked before anything is set up for it.
    pub use_retry: bool,
    /// Whether a client may change its address.
    pub migration: bool,
}

impl TransportSettings {
    /// The settings of a server. A connection is kept alive several times before it would be given
    /// up, and eight streams can fill the window of a connection.
    pub fn server() -> (r: TransportSettings)
        ensures
            r.keep_alive_seconds == 5,
            r.max_idle_seconds == 30,
            r.keep_alive_seconds < r.max_idle_seconds,
            r.receive_window == 512 * 1024 * 1024,
            r.send_window == 512 * 1024 * 1024,
            r.stream_receive_window * 8 == r.receive_window,
            r.use_retry,
            r.migration,
    {
        TransportSettings {
            keep_alive_seconds: 5,
            max_idle_seconds: 30,
            receive_window: 512 * 1024 * 1024,
            send_window: 512 * 1024 * 1024,
            stream_receive_window: 512 * 1024 * 1024 / 8,
            use_retry: true,
            migration: true,
        }
    }
}

} // verus!
