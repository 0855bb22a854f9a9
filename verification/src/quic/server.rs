//! Decisions of the QUIC server: admitting connections and reading certificate files.
use vstd::prelude::*;

verus! {

/// What to do with an incoming QUIC connection.
#[derive(Clone, Copy, Debug, PartialEq, Eq, Structural)]
pub enum Admission {
    /// Refuse it: the open-connection limit is reached.
    Refuse,
    /// Ask the client to prove its address with a stateless retry.
    Retry,
    /// Accept it.
    Accept,
}

/// The server's admission policy: refuse at the connection limit, demand a
/// retry from an unvalidated address when stateless retry is on, accept otherwise.
pub fn admit_incoming(
    connection_limit: Option<usize>,
    open_connections: usize,
    stateless_retry: bool,
    remote_address_validated: bool,
) -> (admission: Admission)
    ensures
        admission == if (connection_limit matches Some(n) && open_connections >= n) {
            Admission::Refuse
        } else if stateless_retry && !remote_address_validated {
            Admission::Retry
        } else {
            Admission::Accept
        },
{
    match connection_limit {
        Some(n) => if open_connections >= n {
            return Admission::Refuse;
        },
        None => {},
    }
    if stateless_retry && !remote_address_validated {
        Admission::Retry
    } else {
        Admission::Accept
    }
}

/// How a certificate or key file is encoded.
#[derive(Clone, Copy, Debug, PartialEq, Eq, Structural)]
pub enum FileEncoding {
    /// Raw DER.
    Der,
    /// PEM text.
    Pem,
}

/// `der`
pub open spec fn der_extension() -> Seq<u8> {
    seq![100, 101, 114]
}

/// A file whose extension is `der` holds DER; any other file is read as PEM.
pub fn encoding_for_extension(extension: Option<&[u8]>) -> (encoding: FileEncoding)
    ensures
        encoding == if (extension matches Some(e) && e@ == der_extension()) {
            FileEncoding::Der
        } else {
            FileEncoding::Pem
        },
{
    match extension {
        Some(e) => {
            let der: Vec<u8> = vec![100, 101, 114];
            assert(der@ =~= der_extension());
            if crate::protocol::encoding::bytes_equal(e, der.as_slice()) {
                FileEncoding::Der
            } else {
                FileEncoding::Pem
            }
        },
        None => FileEncoding::Pem,
    }
}

/// The kind of a private key, which fixes how its DER bytes are read.
#[derive(Clone, Copy, Debug, PartialEq, Eq, Structural)]
pub enum PrivateKeyKind {
    /// An RSA key in PKCS #1 form.
    Pkcs1,
    /// An elliptic-curve key in SEC1 form.
    Sec1,
    /// A key in PKCS #8 form.
    Pkcs8,
}

/// Why a private key file could not be decoded.
#[derive(Clone, Copy, Debug, PartialEq, Eq, Structural)]
pub enum KeyFileError {
    /// The PEM text is malformed.
    MalformedPem,
    /// The PEM text holds no private key.
    NoPrivateKey,
}

/// Why a certificate file could not be decoded.
#[derive(Clone, Copy, Debug, PartialEq, Eq, Structural)]
pub enum CertFileError {
    /// The PEM text is malformed.
    MalformedPem,
}

#[verifier::external_type_specification]
#[verifier::external_body]
pub struct ExIoError(std::io::Error);

/// What `rustls_pemfile::private_key` finds in PEM text: the kind and DER
/// bytes of the first private-key section, `None` when there is none, and an
/// error for malformed text. It depends on the text alone.
pub uninterp spec fn pem_first_private_key(pem: Seq<u8>) -> Result<Option<(PrivateKeyKind, Seq<u8>)>, ()>;

/// What `rustls_pemfile::certs`, collected, finds in PEM text: the DER bytes
/// of each certificate section in order, or an error for malformed text. It
/// depends on the text alone.
pub uninterp spec fn pem_certificates(pem: Seq<u8>) -> Result<Seq<Seq<u8>>, ()>;

/// The DER bytes of each certificate in `chain`.
pub open spec fn chain_view(chain: Seq<Vec<u8>>) -> Seq<Seq<u8>> {
    chain.map_values(|der: Vec<u8>| der@)
}

/// `rustls_pemfile::private_key`: the first private key in PEM text, as its
/// kind and DER bytes; the result is named.
#[verifier::external_body]
fn pem_private_key(pem: &[u8]) -> (key: Result<Option<(PrivateKeyKind, Vec<u8>)>, std::io::Error>)
    ensures
        match (key, pem_first_private_key(pem@)) {
            (Ok(Some((kind, der))), Ok(Some((k, d)))) => kind == k && der@ == d,
            (Ok(None), Ok(None)) => true,
            (Err(_), Err(())) => true,
            _ => false,
        },
{
    match rustls_pemfile::private_key(&mut &*pem) {
        Ok(Some(rustls::pki_types::PrivateKeyDer::Pkcs1(k))) => Ok(Some((PrivateKeyKind::Pkcs1, k.secret_pkcs1_der().to_vec()))),
        Ok(Some(rustls::pki_types::PrivateKeyDer::Sec1(k))) => Ok(Some((PrivateKeyKind::Sec1, k.secret_sec1_der().to_vec()))),
        Ok(Some(k)) => Ok(Some((PrivateKeyKind::Pkcs8, k.secret_der().to_vec()))),
        Ok(None) => Ok(None),
        Err(e) => Err(e),
    }
}

/// `rustls_pemfile::certs`, collected: the certificates in PEM text, as DER
/// bytes in order, stopping at the first error; the result is named.
#[verifier::external_body]
fn pem_certificate_chain(pem: &[u8]) -> (chain: Result<Vec<Vec<u8>>, std::io::Error>)
    ensures
        match (chain, pem_certificates(pem@)) {
            (Ok(c), Ok(s)) => chain_view(c@) == s,
            (Err(_), Err(())) => true,
            _ => false,
        },
{
    rustls_pemfile::certs(&mut &*pem).map(|cert| cert.map(|der| der.to_vec())).collect()
}

/// Decodes a private key file: a `.der` file is PKCS #8 DER as it stands;
/// any other file is PEM text, whose first private key is taken.
pub fn decode_private_key(extension: Option<&[u8]>, contents: &[u8]) -> (key: Result<
    (PrivateKeyKind, Vec<u8>),
    KeyFileError,
>)
    ensures
        (extension matches Some(e) && e@ == der_extension()) ==> (key matches Ok((k, d)) && k
            == PrivateKeyKind::Pkcs8 && d@ == contents@),
        !(extension matches Some(e) && e@ == der_extension()) ==> match (
            key,
            pem_first_private_key(contents@),
        ) {
            (Ok((k, d)), Ok(Some((k2, d2)))) => k == k2 && d@ == d2,
            (Err(KeyFileError::NoPrivateKey), Ok(None)) => true,
            (Err(KeyFileError::MalformedPem), Err(())) => true,
            _ => false,
        },
{
    match encoding_for_extension(extension) {
        FileEncoding::Der => {
            let der = crate::protocol::encoding::slice_prefix(contents, contents.len());
            assert(der@ =~= contents@);
            Ok((PrivateKeyKind::Pkcs8, der))
        },
        FileEncoding::Pem => match pem_private_key(contents) {
            Ok(Some((kind, der))) => Ok((kind, der)),
            Ok(None) => Err(KeyFileError::NoPrivateKey),
            Err(_) => Err(KeyFileError::MalformedPem),
        },
    }
}

/// Decodes a certificate file: a `.der` file is one DER certificate as it
/// stands; any other file is PEM text, whose certificates are taken in order.
pub fn decode_certificate_chain(extension: Option<&[u8]>, contents: &[u8]) -> (chain: Result<
    Vec<Vec<u8>>,
    CertFileError,
>)
    ensures
        (extension matches Some(e) && e@ == der_extension()) ==> (chain matches Ok(c)
            && chain_view(c@) == seq![contents@]),
        !(extension matches Some(e) && e@ == der_extension()) ==> match (
            chain,
            pem_certificates(contents@),
        ) {
            (Ok(c), Ok(s)) => chain_view(c@) == s,
            (Err(CertFileError::MalformedPem), Err(())) => true,
            _ => false,
        },
{
    match encoding_for_extension(extension) {
        FileEncoding::Der => {
            let der = crate::protocol::encoding::slice_prefix(contents, contents.len());
            assert(der@ =~= contents@);
            let mut chain: Vec<Vec<u8>> = Vec::new();
            chain.push(der);
            assert(chain_view(chain@) =~= seq![contents@]);
            Ok(chain)
        },
        FileEncoding::Pem => match pem_certificate_chain(contents) {
            Ok(c) => Ok(c),
            Err(_) => Err(CertFileError::MalformedPem),
        },
    }
}

/// The text that reports a private key file that could not be decoded.
pub open spec fn key_file_error_text(e: KeyFileError) -> Seq<char> {
    match e {
        KeyFileError::MalformedPem => "malformed PKCS #1 private key"@,
        KeyFileError::NoPrivateKey => "no private keys found"@,
    }
}

impl KeyFileError {
    /// The text that reports this failure.
    pub fn message(&self) -> (text: &'static str)
        ensures
            text@ == key_file_error_text(*self),
    {
        match self {
            KeyFileError::MalformedPem => "malformed PKCS #1 private key",
            KeyFileError::NoPrivateKey => "no private keys found",
        }
    }
}

/// The text that reports a certificate file that could not be decoded.
pub open spec fn cert_file_error_text(e: CertFileError) -> Seq<char> {
    match e {
        CertFileError::MalformedPem => "invalid PEM-encoded certificate"@,
    }
}

impl CertFileError {
    /// The text that reports this failure.
    pub fn message(&self) -> (text: &'static str)
        ensures
            text@ == cert_file_error_text(*self),
    {
        match self {
            CertFileError::MalformedPem => "invalid PEM-encoded certificate",
        }
    }
}

} // verus!
