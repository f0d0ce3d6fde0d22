//! The TLS side of the server: its certificate chain, its key, and the protocols
//! that it offers.
use tokio_rustls::rustls;
use vstd::prelude::*;
use vstd::string::*;

verus! {

// ---------------------------------------------------------------------------
// Trusted
// ---------------------------------------------------------------------------
/// The error of reading a PEM file.
#[verifier::external_type_specification]
#[verifier::external_body]
pub struct ExIoError(std::io::Error);

/// The error of setting up TLS.
#[verifier::external_type_specification]
#[verifier::external_body]
pub struct ExTlsError(rustls::Error);

/// A TLS server's configuration.
#[verifier::external_type_specification]
#[verifier::external_body]
pub struct ExServerConfig(rustls::ServerConfig);

/// The contents of several byte strings.
pub open spec fn byte_strings(v: Seq<Vec<u8>>) -> Seq<Seq<u8>> {
    v.map_values(|b: Vec<u8>| b@)
}

/// What was read, or nothing where reading failed.
pub open spec fn read_result(r: Result<Vec<Vec<u8>>, std::io::Error>) -> Option<Seq<Seq<u8>>> {
    match r {
        Ok(v) => Some(byte_strings(v@)),
        Err(_) => None,
    }
}

/// The certificates that `rustls_pemfile::certs` finds in a PEM file; nothing
/// where it fails.
pub uninterp spec fn certs_in(pem: Seq<u8>) -> Option<Seq<Seq<u8>>>;

/// The keys that `rustls_pemfile::pkcs8_private_keys` finds in a PEM file;
/// nothing where it fails.
pub uninterp spec fn keys_in(pem: Seq<u8>) -> Option<Seq<Seq<u8>>>;

/// The certificate chain that a configuration was made with.
pub uninterp spec fn config_chain(config: rustls::ServerConfig) -> Seq<Seq<u8>>;

/// The key that a configuration was made with.
pub uninterp spec fn config_key(config: rustls::ServerConfig) -> Seq<u8>;

/// The protocols that a configuration offers, best first.
pub uninterp spec fn config_protocols(config: rustls::ServerConfig) -> Seq<Seq<u8>>;

/// Calls `rustls_pemfile::certs` on a file that has been read. Trusted: what it
/// finds, and whether it fails, depends on the bytes of the file alone.
#[verifier::external_body]
fn read_certs(pem: &[u8]) -> (r: Result<Vec<Vec<u8>>, std::io::Error>)
    ensures
        read_result(r) == certs_in(pem@),
{
    let mut reader = pem;
    rustls_pemfile::certs(&mut reader)
}

/// Calls `rustls_pemfile::pkcs8_private_keys` on a file that has been read.
/// Trusted: what it finds, and whether it fails, depends on the bytes of the
/// file alone.
#[verifier::external_body]
fn read_keys(pem: &[u8]) -> (r: Result<Vec<Vec<u8>>, std::io::Error>)
    ensures
        read_result(r) == keys_in(pem@),
{
    let mut reader = pem;
    rustls_pemfile::pkcs8_private_keys(&mut reader)
}

/// Builds a configuration without client authentication, by
/// `ServerConfig::builder`, `with_safe_defaults`, `with_no_client_auth` and
/// `with_single_cert` of `rustls`, and sets its field `alpn_protocols`. Trusted: a
/// configuration that comes back is made with the chain, the key and the
/// protocols that are given. Whether one comes back is not said here: it is
/// refused where the key is not usable, but also where the system has no random
/// bytes for an elliptic curve key. Nor is anything said of the cipher suites and
/// the other defaults.
#[verifier::external_body]
fn server_config(chain: Vec<Vec<u8>>, key: Vec<u8>, protocols: Vec<Vec<u8>>) -> (r: Result<
    rustls::ServerConfig,
    rustls::Error,
>)
    ensures
        r matches Ok(c) ==> config_chain(c) == byte_strings(chain@),
        r matches Ok(c) ==> config_key(c) == key@,
        r matches Ok(c) ==> config_protocols(c) == byte_strings(protocols@),
{
    let mut config = rustls::ServerConfig::builder()
        .with_safe_defaults()
        .with_no_client_auth()
        .with_single_cert(
            chain.into_iter().map(rustls::Certificate).collect(),
            rustls::PrivateKey(key),
        )?;
    config.alpn_protocols = protocols;
    Ok(config)
}

// ---------------------------------------------------------------------------
// Identity
// ---------------------------------------------------------------------------
/// Why TLS cannot be set up.
#[derive(Clone, Copy, PartialEq, Eq, Structural, Debug)]
pub enum TlsFault {
    /// A PEM file is malformed.
    BadPem,
    /// There is no certificate, or no key.
    NoIdentity,
    /// The key was refused.
    BadKey,
}

/// Why TLS cannot be set up, with the error that was met, if there was one.
#[derive(Debug)]
pub enum TlsError {
    /// A PEM file is malformed.
    BadPem(std::io::Error),
    /// There is no certificate, or no key.
    NoIdentity,
    /// The key was refused.
    BadKey(rustls::Error),
}

impl TlsError {
    /// Which fault the error is.
    pub open spec fn kind(&self) -> TlsFault {
        match *self {
            TlsError::BadPem(_) => TlsFault::BadPem,
            TlsError::NoIdentity => TlsFault::NoIdentity,
            TlsError::BadKey(_) => TlsFault::BadKey,
        }
    }

    /// Which fault the error is.
    pub fn fault(&self) -> (r: TlsFault)
        ensures
            r == self.kind(),
    {
        match self {
            TlsError::BadPem(_) => TlsFault::BadPem,
            TlsError::NoIdentity => TlsFault::NoIdentity,
            TlsError::BadKey(_) => TlsFault::BadKey,
        }
    }

    /// The text of the error, where no other error brings its own.
    pub fn message(&self) -> (r: Option<String>)
        ensures
            match r {
                Some(text) => self.kind() == TlsFault::NoIdentity && text@ == "Certs empty"@,
                None => self.kind() != TlsFault::NoIdentity,
            },
    {
        match self {
            TlsError::NoIdentity => Some(String::from_str("Certs empty")),
            _ => None,
        }
    }
}

/// What the server proves itself with.
#[derive(Debug, PartialEq, Eq)]
pub struct Identity {
    /// The certificates, the server's own first.
    pub chain: Vec<Vec<u8>>,
    /// The key.
    pub key: Vec<u8>,
}

/// The chain and the key, from what was found in the files: all certificates,
/// and the first key. Nothing where one of them is missing.
pub open spec fn chosen_identity(certs: Seq<Seq<u8>>, keys: Seq<Seq<u8>>) -> Option<
    (Seq<Seq<u8>>, Seq<u8>),
> {
    if certs.len() == 0 || keys.len() == 0 {
        None
    } else {
        Some((certs, keys[0]))
    }
}

/// The chain and the key, from what was found in the files, or why there is
/// none. Nothing stands for a file that does not read.
pub open spec fn identity_of(
    certs: Option<Seq<Seq<u8>>>,
    keys: Option<Seq<Seq<u8>>>,
) -> Result<(Seq<Seq<u8>>, Seq<u8>), TlsFault> {
    match (certs, keys) {
        (Some(certs), Some(keys)) => match chosen_identity(certs, keys) {
            Some(identity) => Ok(identity),
            None => Err(TlsFault::NoIdentity),
        },
        _ => Err(TlsFault::BadPem),
    }
}

/// The view of an identity, if there is one.
pub open spec fn identity_view(r: Option<Identity>) -> Option<(Seq<Seq<u8>>, Seq<u8>)> {
    match r {
        Some(i) => Some((byte_strings(i.chain@), i.key@)),
        None => None,
    }
}

/// The protocols that the server offers: `h2` and `http/1.1`.
pub open spec fn offered_protocols() -> Seq<Seq<u8>> {
    seq![
        seq![0x68u8, 0x32u8],
        seq![0x68u8, 0x74u8, 0x74u8, 0x70u8, 0x2fu8, 0x31u8, 0x2eu8, 0x31u8],
    ]
}

/// Chooses the chain and the key from what was found in the files. `None` where
/// there is no certificate, or no key.
pub fn choose_identity(certs: Vec<Vec<u8>>, keys: Vec<Vec<u8>>) -> (r: Option<Identity>)
    ensures
        identity_view(r) == chosen_identity(byte_strings(certs@), byte_strings(keys@)),
        r is None <==> certs@.len() == 0 || keys@.len() == 0,
        r matches Some(i) ==> i.chain@ == certs@ && i.key@ == keys@[0]@,
{
    if certs.len() == 0 || keys.len() == 0 {
        return None;
    }
    let mut keys: Vec<Vec<u8>> = keys;
    assert(byte_strings(keys@)[0] == keys@[0]@);
    let key: Vec<u8> = keys.swap_remove(0);
    Some(Identity { chain: certs, key })
}

/// The protocols that the server offers.
pub fn protocols() -> (r: Vec<Vec<u8>>)
    ensures
        byte_strings(r@) == offered_protocols(),
{
    let h2: Vec<u8> = vec![0x68, 0x32];
    let http: Vec<u8> = vec![0x68, 0x74, 0x74, 0x70, 0x2f, 0x31, 0x2e, 0x31];
    assert(h2@ =~= offered_protocols()[0]);
    assert(http@ =~= offered_protocols()[1]);
    let mut r: Vec<Vec<u8>> = Vec::new();
    r.push(h2);
    r.push(http);
    assert(byte_strings(r@) =~= offered_protocols());
    r
}

/// Sets up TLS from the contents of a certificate file and of a key file. Where
/// both are found, the key may still be refused.
pub fn build_tls_config(cert_pem: &[u8], key_pem: &[u8]) -> (r: Result<
    rustls::ServerConfig,
    TlsError,
>)
    ensures
        match identity_of(certs_in(cert_pem@), keys_in(key_pem@)) {
            Ok((chain, key)) => match r {
                Ok(config) => {
                    &&& config_chain(config) == chain
                    &&& config_key(config) == key
                    &&& config_protocols(config) == offered_protocols()
                },
                Err(e) => e.kind() == TlsFault::BadKey,
            },
            Err(fault) => r matches Err(e) && e.kind() == fault,
        },
{
    let certs: Vec<Vec<u8>> = match read_certs(cert_pem) {
        Ok(v) => v,
        Err(e) => return Err(TlsError::BadPem(e)),
    };
    let keys: Vec<Vec<u8>> = match read_keys(key_pem) {
        Ok(v) => v,
        Err(e) => return Err(TlsError::BadPem(e)),
    };
    match choose_identity(certs, keys) {
        Some(identity) => match server_config(identity.chain, identity.key, protocols()) {
            Ok(config) => Ok(config),
            Err(e) => Err(TlsError::BadKey(e)),
        },
        None => Err(TlsError::NoIdentity),
    }
}

// ---------------------------------------------------------------------------
// Laws
// ---------------------------------------------------------------------------
/// Where at least one certificate and at least one key are found, there is an
/// identity: all certificates, in order, and the first key, however many there
/// are. Where either is missing there is none, and where either file does not read
/// that is the fault.
pub proof fn law_identity_is_found(certs: Seq<Seq<u8>>, keys: Seq<Seq<u8>>)
    ensures
        certs.len() >= 1 && keys.len() >= 1 ==> {
            &&& chosen_identity(certs, keys) == Some((certs, keys.first()))
            &&& identity_of(Some(certs), Some(keys)) == Ok::<(Seq<Seq<u8>>, Seq<u8>), TlsFault>(
                (certs, keys.first()),
            )
        },
        certs.len() < 1 || keys.len() < 1 ==> {
            &&& chosen_identity(certs, keys) is None
            &&& identity_of(Some(certs), Some(keys)) == Err::<(Seq<Seq<u8>>, Seq<u8>), TlsFault>(
                TlsFault::NoIdentity,
            )
        },
        identity_of(None, Some(keys)) == Err::<(Seq<Seq<u8>>, Seq<u8>), TlsFault>(
            TlsFault::BadPem,
        ),
        identity_of(Some(certs), None) == Err::<(Seq<Seq<u8>>, Seq<u8>), TlsFault>(
            TlsFault::BadPem,
        ),
        identity_of(None, None) == Err::<(Seq<Seq<u8>>, Seq<u8>), TlsFault>(TlsFault::BadPem),
{
}

/// More certificates make a longer chain, and more keys change nothing: the chain
/// grows by just what is found, and the key stays the first one.
pub proof fn law_identity_grows(
    certs: Seq<Seq<u8>>,
    keys: Seq<Seq<u8>>,
    more_certs: Seq<Seq<u8>>,
    more_keys: Seq<Seq<u8>>,
)
    requires
        chosen_identity(certs, keys) is Some,
    ensures
        chosen_identity(certs + more_certs, keys + more_keys) == Some(
            (
                chosen_identity(certs, keys).unwrap().0 + more_certs,
                chosen_identity(certs, keys).unwrap().1,
            ),
        ),
{
}

/// Byte strings, identities and errors are what the views show.
pub proof fn law_tls_views(v: Seq<Vec<u8>>, i: Identity, io: std::io::Error, tls: rustls::Error)
    ensures
        byte_strings(v).len() == v.len(),
        forall|k: int| 0 <= k < v.len() ==> #[trigger] byte_strings(v)[k] == v[k]@,
        identity_view(Some(i)) == Some((byte_strings(i.chain@), i.key@)),
        identity_view(None) is None,
        TlsError::BadPem(io).kind() == TlsFault::BadPem,
        TlsError::NoIdentity.kind() == TlsFault::NoIdentity,
        TlsError::BadKey(tls).kind() == TlsFault::BadKey,
{
}

/// The server offers `h2` and `http/1.1`, in this order.
pub proof fn law_offered_protocols()
    ensures
        offered_protocols().len() == 2,
        offered_protocols()[0] == seq!['h' as u8, '2' as u8],
        offered_protocols()[1] == seq![
            'h' as u8,
            't' as u8,
            't' as u8,
            'p' as u8,
            '/' as u8,
            '1' as u8,
            '.' as u8,
            '1' as u8,
        ],
{
    assert(offered_protocols()[0] =~= seq!['h' as u8, '2' as u8]);
    assert(offered_protocols()[1] =~= seq![
        'h' as u8,
        't' as u8,
        't' as u8,
        'p' as u8,
        '/' as u8,
        '1' as u8,
        '.' as u8,
        '1' as u8,
    ]);
}

} // verus!
