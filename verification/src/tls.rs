//! Building TLS configurations from PEM text.
//!
//! A server presents the certificate chain of its certificate file with the
//! first private key of its key file; a client trusts the certificates of
//! its CA file. The caller reads the files; the functions here parse their
//! text and build the configurations, and say which error a bad file gives.
use crate::error::Error;
use vstd::prelude::*;
use vstd::string::StringExecFns;

verus! {

/// rustls's configuration of a TLS server.
#[verifier::external_type_specification]
#[verifier::external_body]
pub struct ExTlsServerConfig(rustls::ServerConfig);

/// rustls's configuration of a TLS client.
#[verifier::external_type_specification]
#[verifier::external_body]
pub struct ExTlsClientConfig(rustls::ClientConfig);

/// rustls's set of trusted root certificates.
#[verifier::external_type_specification]
#[verifier::external_body]
pub struct ExRootCertStore(rustls::RootCertStore);

/// A DER-encoded private key (PKCS#1, PKCS#8 or SEC1).
#[verifier::external_type_specification]
#[verifier::external_body]
pub struct ExPrivateKeyDer<'a>(rustls::pki_types::PrivateKeyDer<'a>);

/// The certificates that PEM text holds, as rustls-pemfile's `certs` reads
/// them: the DER bytes of each certificate section in order (other sections
/// are skipped), or the message of the first error.
pub uninterp spec fn pem_certificates(pem: Seq<u8>) -> Result<Seq<Seq<u8>>, Seq<char>>;

/// Whether PEM text holds a private key, as rustls-pemfile's `private_key`
/// reads it, or the message of the error that stopped the reading.
pub uninterp spec fn pem_private_key_found(pem: Seq<u8>) -> Result<bool, Seq<char>>;

/// The message of the error with which rustls's `RootCertStore::add`
/// rejects DER bytes as a trust anchor, or `None` when it accepts them.
pub uninterp spec fn root_certificate_error(der: Seq<u8>) -> Option<Seq<char>>;

/// The texts of a sequence of byte buffers.
pub open spec fn byte_views(items: Seq<Vec<u8>>) -> Seq<Seq<u8>> {
    Seq::new(items.len(), |i: int| items[i]@)
}

/// Reads the certificates of PEM text.
///
/// Calls rustls-pemfile's `certs` on the text and collects the
/// certificates, stopping at the first error. What it gives is a function of
/// the text, named `pem_certificates`.
#[verifier::external_body]
fn read_pem_certificates(pem: &[u8]) -> (r: Result<Vec<Vec<u8>>, String>)
    ensures
        match r {
            Ok(certs) => pem_certificates(pem@) == Ok::<Seq<Seq<u8>>, Seq<char>>(byte_views(certs@)),
            Err(m) => pem_certificates(pem@) == Err::<Seq<Seq<u8>>, Seq<char>>(m@),
        },
{
    let mut reader = pem;
    rustls_pemfile::certs(&mut reader)
        .map(|cert| cert.map(|der| der.to_vec()))
        .collect::<Result<Vec<_>, _>>()
        .map_err(|e| e.to_string())
}

/// Reads the first private key of PEM text.
/// Public because the contract of `server_config` speaks of its results.
///
/// Calls rustls-pemfile's `private_key` on the text. Whether it finds a key,
/// or the message of its error, is a function of the text, named
/// `pem_private_key_found`; the key itself is opaque here.
#[verifier::external_body]
pub fn read_pem_private_key(pem: &[u8]) -> (r: Result<
    Option<rustls::pki_types::PrivateKeyDer<'static>>,
    String,
>)
    ensures
        match r {
            Ok(key) => pem_private_key_found(pem@) == Ok::<bool, Seq<char>>(key is Some),
            Err(m) => pem_private_key_found(pem@) == Err::<bool, Seq<char>>(m@),
        },
{
    let mut reader = pem;
    rustls_pemfile::private_key(&mut reader).map_err(|e| e.to_string())
}

/// Builds a server configuration without client authentication that
/// presents the certificate chain `certs` with `key`.
/// Public because the contract of `server_config` speaks of its results.
///
/// Calls `ServerConfig::builder().with_no_client_auth().with_single_cert`,
/// which fails when the key is invalid or does not match the first
/// certificate; nothing is stated about that. The builder takes the
/// process's crypto provider; this crate enables rustls's `ring` provider
/// alone, which the builder then resolves.
#[verifier::external_body]
pub fn single_cert_server_config(
    certs: Vec<Vec<u8>>,
    key: rustls::pki_types::PrivateKeyDer<'static>,
) -> Result<rustls::ServerConfig, String> {
    let chain = certs.into_iter().map(rustls::pki_types::CertificateDer::from).collect();
    rustls::ServerConfig::builder()
        .with_no_client_auth()
        .with_single_cert(chain, key)
        .map_err(|e| e.to_string())
}

/// An empty set of trusted roots: calls `RootCertStore::empty`.
#[verifier::external_body]
fn empty_root_store() -> rustls::RootCertStore {
    rustls::RootCertStore::empty()
}

/// Adds DER bytes to a set of trusted roots.
///
/// Calls `RootCertStore::add`, whose source parses the bytes as a trust
/// anchor: whether it fails, and with which message, depends on the bytes
/// alone, named `root_certificate_error`.
#[verifier::external_body]
fn add_root_certificate(store: &mut rustls::RootCertStore, der: Vec<u8>) -> (r: Result<(), String>)
    ensures
        match r {
            Ok(()) => root_certificate_error(der@) is None,
            Err(m) => root_certificate_error(der@) == Some(m@),
        },
{
    store.add(rustls::pki_types::CertificateDer::from(der)).map_err(|e| e.to_string())
}

/// Builds a client configuration without client authentication that
/// trusts the roots of `store`.
///
/// Calls `ClientConfig::builder().with_root_certificates(..)
/// .with_no_client_auth()`. The builder takes the process's crypto provider;
/// this crate enables rustls's `ring` provider alone, which the builder then
/// resolves.
#[verifier::external_body]
fn client_config_with_roots(store: rustls::RootCertStore) -> rustls::ClientConfig {
    rustls::ClientConfig::builder().with_root_certificates(store).with_no_client_auth()
}

/// Whether `r` is what reading a certificate list out of PEM text `pem`
/// gives: the certificates when there is at least one; a parse error
/// reported as `parse_prefix` followed by its message; no certificate
/// reported as `none_message`.
pub open spec fn certificate_list_outcome(
    pem: Seq<u8>,
    parse_prefix: Seq<char>,
    none_message: Seq<char>,
    r: Result<Vec<Vec<u8>>, Error>,
) -> bool {
    match pem_certificates(pem) {
        Err(e) => r matches Err(Error::TlsInvalidCertificate(m)) && m@ == parse_prefix + e,
        Ok(certs) => if certs.len() == 0 {
            r matches Err(Error::TlsInvalidCertificate(m)) && m@ == none_message
        } else {
            r matches Ok(list) && byte_views(list@) == certs
        },
    }
}

/// Reads a non-empty certificate list out of PEM text, reporting errors as
/// in `certificate_list_outcome`.
fn certificate_list(pem: &[u8], parse_prefix: &str, none_message: &str) -> (r: Result<
    Vec<Vec<u8>>,
    Error,
>)
    ensures
        certificate_list_outcome(pem@, parse_prefix@, none_message@, r),
{
    match read_pem_certificates(pem) {
        Err(e) => Err(Error::TlsInvalidCertificate(parse_prefix.to_owned().concat(e.as_str()))),
        Ok(certs) => {
            if certs.len() == 0 {
                Err(Error::TlsInvalidCertificate(none_message.to_owned()))
            } else {
                Ok(certs)
            }
        },
    }
}

/// Reads the certificate chain that a server presents out of the PEM text
/// of its certificate file.
///
/// Fails with `TlsInvalidCertificate` when the text cannot be parsed or
/// holds no certificate.
pub fn server_certificates(cert_pem: &[u8]) -> (r: Result<Vec<Vec<u8>>, Error>)
    ensures
        certificate_list_outcome(
            cert_pem@,
            "Failed to parse certificates: "@,
            "No certificates found in file"@,
            r,
        ),
{
    certificate_list(cert_pem, "Failed to parse certificates: ", "No certificates found in file")
}

/// Whether `built` is what rustls's builder gave for the chain `certs` with
/// the private key that `read_pem_private_key` found in the PEM text
/// `key_pem`.
pub open spec fn server_build(
    certs: Vec<Vec<u8>>,
    key_pem: Seq<u8>,
    built: Result<rustls::ServerConfig, String>,
) -> bool {
    exists|text: &[u8], key: rustls::pki_types::PrivateKeyDer<'static>|
        #![trigger call_ensures(read_pem_private_key, (text,), Ok::<Option<rustls::pki_types::PrivateKeyDer<'static>>, String>(Some(key))), call_ensures(single_cert_server_config, (certs, key), built)]
        {
            &&& text@ == key_pem
            &&& call_ensures(
                read_pem_private_key,
                (text,),
                Ok::<Option<rustls::pki_types::PrivateKeyDer<'static>>, String>(Some(key)),
            )
            &&& call_ensures(single_cert_server_config, (certs, key), built)
        }
}

/// The result of `server_config` for the builder's outcome `built`: its
/// configuration, or its message as `TlsServerConfigBuild`.
pub open spec fn server_config_from(built: Result<rustls::ServerConfig, String>) -> Result<
    rustls::ServerConfig,
    Error,
> {
    match built {
        Ok(config) => Ok(config),
        Err(m) => Err(Error::TlsServerConfigBuild(m)),
    }
}

/// Builds a server's TLS configuration from its certificate chain and the
/// PEM text of its key file, without client authentication.
///
/// Fails with `TlsInvalidKey` when the key text cannot be parsed or holds
/// no private key, and with `TlsServerConfigBuild` when rustls rejects the
/// key for the chain.
pub fn server_config(certs: Vec<Vec<u8>>, key_pem: &[u8]) -> (r: Result<rustls::ServerConfig, Error>)
    ensures
        match pem_private_key_found(key_pem@) {
            Err(e) => r matches Err(Error::TlsInvalidKey(m)) && m@ == "Failed to parse private key: "@ + e,
            Ok(false) => r matches Err(Error::TlsInvalidKey(m)) && m@ == "No private key found in file"@,
            Ok(true) => exists|built: Result<rustls::ServerConfig, String>|
                server_build(certs, key_pem@, built) && r == #[trigger] server_config_from(built),
        },
{
    let read_key = read_pem_private_key;
    let key = match read_key(key_pem) {
        Err(e) => {
            return Err(
                Error::TlsInvalidKey("Failed to parse private key: ".to_owned().concat(e.as_str())),
            );
        },
        Ok(None) => {
            return Err(Error::TlsInvalidKey("No private key found in file".to_owned()));
        },
        Ok(Some(key)) => key,
    };
    let ghost chain = certs;
    let build = single_cert_server_config;
    let built = build(certs, key);
    assert(server_build(chain, key_pem@, built));
    let ghost built_value = built;
    let r = match built {
        Ok(config) => Ok(config),
        Err(e) => Err(Error::TlsServerConfigBuild(e)),
    };
    assert(r == server_config_from(built_value));
    r
}

/// The message of the first of `certs` that is rejected as a trusted root,
/// if any.
pub open spec fn first_rejected_root(certs: Seq<Seq<u8>>) -> Option<Seq<char>>
    decreases certs.len(),
{
    if certs.len() == 0 {
        None
    } else {
        match root_certificate_error(certs[0]) {
            Some(m) => Some(m),
            None => first_rejected_root(certs.drop_first()),
        }
    }
}

/// Builds a client's TLS configuration that trusts the certificates in the
/// PEM text of its CA file, without client authentication.
///
/// Fails with `TlsInvalidCertificate` when the text cannot be parsed, holds
/// no certificate, or holds a certificate that is not a valid trust anchor
/// (the first such one is reported).
pub fn client_config(ca_pem: &[u8]) -> (r: Result<rustls::ClientConfig, Error>)
    ensures
        match pem_certificates(ca_pem@) {
            Err(e) => r matches Err(Error::TlsInvalidCertificate(m)) && m@
                == "Failed to parse CA certificates: "@ + e,
            Ok(certs) => if certs.len() == 0 {
                r matches Err(Error::TlsInvalidCertificate(m)) && m@
                    == "No CA certificates found in file"@
            } else {
                match first_rejected_root(certs) {
                    Some(e) => r matches Err(Error::TlsInvalidCertificate(m)) && m@ == e,
                    None => r is Ok,
                }
            },
        },
{
    let ca_certs = match certificate_list(
        ca_pem,
        "Failed to parse CA certificates: ",
        "No CA certificates found in file",
    ) {
        Ok(certs) => certs,
        Err(e) => {
            return Err(e);
        },
    };
    let ghost all = byte_views(ca_certs@);
    let mut store = empty_root_store();
    let mut rest = ca_certs;
    assert(all.subrange(0, all.len() as int) == all);
    while rest.len() > 0
        invariant
            pem_certificates(ca_pem@) == Ok::<Seq<Seq<u8>>, Seq<char>>(all),
            all.len() > 0,
            rest@.len() <= all.len(),
            byte_views(rest@) == all.subrange(all.len() - rest@.len(), all.len() as int),
            first_rejected_root(all) == first_rejected_root(byte_views(rest@)),
        decreases rest@.len(),
    {
        let ghost before = rest@;
        let der = rest.remove(0);
        proof {
            assert(byte_views(before)[0] == der@);
            assert(byte_views(rest@) =~= byte_views(before).drop_first());
            assert(all.subrange(all.len() - rest@.len(), all.len() as int) =~= all.subrange(
                all.len() - before.len(),
                all.len() as int,
            ).drop_first());
        }
        match add_root_certificate(&mut store, der) {
            Ok(()) => {},
            Err(e) => {
                assert(byte_views(before).len() > 0);
                return Err(Error::TlsInvalidCertificate(e));
            },
        }
    }
    Ok(client_config_with_roots(store))
}

/// A server's configuration is rustls's: when the key text holds a key,
/// `server_config` succeeds exactly with the configuration that rustls's
/// builder gave for the chain and that key, and fails only with the
/// builder's own message; if every build of the chain with the key
/// succeeds, so does `server_config`.
pub proof fn law_server_config_is_the_builders(
    certs: Vec<Vec<u8>>,
    key_pem: Seq<u8>,
    r: Result<rustls::ServerConfig, Error>,
)
    requires
        exists|built: Result<rustls::ServerConfig, String>|
            server_build(certs, key_pem, built) && r == #[trigger] server_config_from(built),
    ensures
        r matches Ok(c) ==> server_build(certs, key_pem, Ok(c)),
        r is Err ==> exists|m: String|
            server_build(certs, key_pem, Err(m)) && r == Err::<rustls::ServerConfig, Error>(
                Error::TlsServerConfigBuild(m),
            ),
        (forall|built: Result<rustls::ServerConfig, String>|
            #[trigger] server_build(certs, key_pem, built) ==> built is Ok) ==> r is Ok,
{
    let built = choose|built: Result<rustls::ServerConfig, String>|
        server_build(certs, key_pem, built) && r == #[trigger] server_config_from(built);
    if let Err(m) = built {
        assert(server_build(certs, key_pem, Err(m)));
    }
}

} // verus!
