//! The certificate authority used to intercept HTTPS: its root certificate
//! is loaded or generated once, and a TLS configuration with a leaf
//! certificate signed by it is made once per domain and then reused.

use vstd::prelude::*;
use std::sync::Arc;
use vstd::hash_map::StringHashMap;
use crate::entry::share;

verus! {

/// `rcgen::Certificate`: a certificate with its key pair.
#[verifier::external_type_specification]
#[verifier::external_body]
pub struct ExCertificate(rcgen::Certificate);

/// `rcgen::CertificateParams`.
#[verifier::external_type_specification]
#[verifier::external_body]
pub struct ExCertificateParams(rcgen::CertificateParams);

/// `rcgen::KeyPair`.
#[verifier::external_type_specification]
#[verifier::external_body]
pub struct ExKeyPair(rcgen::KeyPair);

/// `rcgen::RcgenError`.
#[verifier::external_type_specification]
#[verifier::external_body]
pub struct ExRcgenError(rcgen::RcgenError);

/// `rustls::ServerConfig`.
#[verifier::external_type_specification]
#[verifier::external_body]
pub struct ExServerConfig(tokio_rustls::rustls::ServerConfig);

/// `rustls::Error`.
#[verifier::external_type_specification]
#[verifier::external_body]
pub struct ExTlsError(tokio_rustls::rustls::Error);

/// `std::io::Error`, as reported by the PEM reader.
#[verifier::external_type_specification]
#[verifier::external_body]
pub struct ExIoError(std::io::Error);

/// The DER contents of the `CERTIFICATE` sections of a PEM text, in order,
/// or `None` when the text cannot be read (`rustls_pemfile::certs`).
pub uninterp spec fn pem_certificate_ders(pem: Seq<u8>) -> Option<Seq<Seq<u8>>>;

/// The DER contents of the PKCS #8 `PRIVATE KEY` sections of a PEM text, in
/// order, or `None` when the text cannot be read (`rustls_pemfile::pkcs8_private_keys`).
pub uninterp spec fn pem_pkcs8_key_ders(pem: Seq<u8>) -> Option<Seq<Seq<u8>>>;

/// Why a certificate could not be made or loaded.
pub enum CertError {
    /// Generating, loading or signing a certificate failed.
    Certificate(rcgen::RcgenError),
    /// A PEM text could not be read.
    Pem(std::io::Error),
    /// The leaf's PEM text holds no PKCS #8 private key.
    NoPrivateKey,
    /// The TLS configuration refused the certificate chain or key.
    Tls(tokio_rustls::rustls::Error),
}

/// Which kind of certificate is asked for.
#[derive(Clone, Copy, Debug, PartialEq, Eq, Structural)]
pub enum CaKind {
    /// An end-entity certificate (`rcgen::IsCa::NoCa`).
    NotCa,
    /// A certificate authority without a path length limit
    /// (`rcgen::IsCa::Ca(rcgen::BasicConstraints::Unconstrained)`).
    Unconstrained,
}

/// The signature algorithms `rcgen` offers (its `PKCS_*` statics).
#[derive(Clone, Copy, Debug, PartialEq, Eq, Structural)]
pub enum SignatureChoice {
    RsaSha256,
    RsaSha384,
    RsaSha512,
    EcdsaP256Sha256,
    EcdsaP384Sha384,
    Ed25519,
}

/// The attributes of a distinguished name the authority sets.
#[derive(Clone, Copy, Debug, PartialEq, Eq, Structural)]
pub enum NameAttribute {
    /// `rcgen::DnType::OrganizationName`.
    Organization,
    /// `rcgen::DnType::CommonName`.
    CommonName,
}

/// The attribute type of a distinguished name entry (`rcgen::DnType`).
pub enum NameKind {
    Country,
    Locality,
    StateOrProvince,
    Organization,
    OrganizationalUnit,
    Common,
    Custom(Seq<u64>),
}

/// The value of a distinguished name entry (`rcgen::DnValue`).
pub enum NameText {
    Teletex(Seq<u8>),
    Printable(Seq<char>),
    Universal(Seq<u8>),
    Utf8(Seq<char>),
    Bmp(Seq<u8>),
}

/// A subject alternative name (`rcgen::SanType`); an IP address by its octets.
pub enum AltName {
    Email(Seq<char>),
    Dns(Seq<char>),
    Uri(Seq<char>),
    Ip(Seq<u8>),
}

/// Whether a certificate may sign others (`rcgen::IsCa`).
pub enum CaView {
    NoCa,
    ExplicitNoCa,
    Unconstrained,
    Constrained(u8),
}

/// What certificate parameters say of the certificate's subject: its
/// alternative names, its distinguished name (entries in order, one per
/// attribute type), whether it is a CA, its signature algorithm, and whether
/// they ask for no other extension (no key usages, extended key usages,
/// name constraints, CRL distribution points, custom extensions or
/// authority key identifier).
pub struct ParamsView {
    pub subject_alt_names: Seq<AltName>,
    pub distinguished_name: Seq<(NameKind, NameText)>,
    pub ca: CaView,
    pub algorithm: SignatureChoice,
    pub no_other_extensions: bool,
}

/// What a certificate is made from.
pub struct CertificateRequest {
    /// Each name is given to `rcgen::CertificateParams::new` (which makes it
    /// an IP address or a DNS name) and then added once more as a DNS name.
    pub domain_names: Vec<String>,
    /// The subject's organization and common name; `None` keeps the
    /// distinguished name that `rcgen` gives by default.
    pub distinguished_name: Option<(String, String)>,
    /// Whether the certificate may sign others.
    pub ca: CaKind,
    /// How the certificate is signed.
    pub algorithm: SignatureChoice,
}

/// The contents of a `CertificateRequest` as mathematical values.
pub struct CertificateRequestView {
    pub domain_names: Seq<Seq<char>>,
    pub distinguished_name: Option<(Seq<char>, Seq<char>)>,
    pub ca: CaKind,
    pub algorithm: SignatureChoice,
}

impl View for CertificateRequest {
    type V = CertificateRequestView;

    open spec fn view(&self) -> CertificateRequestView {
        CertificateRequestView {
            domain_names: self.domain_names@.map_values(|n: String| n@),
            distinguished_name: match self.distinguished_name {
                Some((organization, common_name)) => Some((organization@, common_name@)),
                None => None,
            },
            ca: self.ca,
            algorithm: self.algorithm,
        }
    }
}

/// What certificate parameters say of the subject (their fields
/// `subject_alt_names`, `distinguished_name`, `is_ca` and `alg`).
pub uninterp spec fn params_view(params: rcgen::CertificateParams) -> ParamsView;

/// What the parameters held by a certificate (`rcgen::Certificate::get_params`)
/// say of its subject, as `params_view` reads them.
pub uninterp spec fn certificate_params(cert: rcgen::Certificate) -> ParamsView;

/// The octets of the IP address std reads from a text (`std::net::IpAddr`'s
/// `FromStr`), or `None` when the text is no IP address.
pub uninterp spec fn parsed_ip_octets(text: Seq<char>) -> Option<Seq<u8>>;

/// What `rcgen::CertificateParams::from_ca_cert_pem` reads from a CA
/// certificate's PEM text, or `None` when it cannot read it.
pub uninterp spec fn pem_ca_params(cert_pem: Seq<char>) -> Option<ParamsView>;

/// `pem` is the PEM text of `cert` signed with the key pair of `signer`,
/// under `signer`'s distinguished name as issuer.
pub uninterp spec fn signed_pem(pem: Seq<char>, cert: rcgen::Certificate, signer: rcgen::Certificate) -> bool;

/// The PEM text of a certificate's key pair
/// (`rcgen::Certificate::serialize_private_key_pem`), which is an encoding
/// of the key pair it holds.
pub uninterp spec fn certificate_key_pem(cert: rcgen::Certificate) -> Seq<char>;

/// The PEM text `rcgen` writes for a key pair (`rcgen::KeyPair::serialize_pem`),
/// an encoding of the key pair's PKCS #8 DER.
pub uninterp spec fn key_pair_pem(key_pair: rcgen::KeyPair) -> Seq<char>;

/// The PEM text `rcgen` writes for the key pair it reads from `pem`
/// (`rcgen::KeyPair::from_pem`), or `None` when it cannot read one.
pub uninterp spec fn pem_key_pair_pem(pem: Seq<char>) -> Option<Seq<char>>;

/// The PEM text of the key pair that certificate parameters hold
/// (`rcgen::CertificateParams::key_pair`), or `None` when they hold none.
pub uninterp spec fn params_key_pem(params: rcgen::CertificateParams) -> Option<Seq<char>>;

/// The signature algorithm of a key pair (`rcgen::KeyPair::algorithm`).
pub uninterp spec fn key_pair_algorithm(key_pair: rcgen::KeyPair) -> SignatureChoice;

/// The signature algorithm of the key pair `rcgen` reads from `pem`
/// (`rcgen::KeyPair::from_pem`), or `None` when it cannot read one.
pub uninterp spec fn pem_key_algorithm(pem: Seq<char>) -> Option<SignatureChoice>;

/// The signature algorithm of the key pair that certificate parameters
/// hold, or `None` when they hold none.
pub uninterp spec fn params_key_algorithm(params: rcgen::CertificateParams) -> Option<SignatureChoice>;

/// The signature algorithm of a certificate's key pair.
pub uninterp spec fn certificate_key_algorithm(cert: rcgen::Certificate) -> SignatureChoice;

/// Whether a TLS configuration asks clients for a certificate (its client
/// certificate verifier's `offer_client_auth`).
pub uninterp spec fn offers_client_auth(config: tokio_rustls::rustls::ServerConfig) -> bool;

/// The protocols a TLS configuration offers (`rustls::ServerConfig::alpn_protocols`).
pub uninterp spec fn offered_protocols(config: tokio_rustls::rustls::ServerConfig) -> Seq<Seq<u8>>;

/// The DER certificate chain and DER private key a TLS configuration was
/// made with and serves to every client.
pub uninterp spec fn config_credentials(config: tokio_rustls::rustls::ServerConfig) -> (Seq<Seq<u8>>, Seq<u8>);

/// The alternative name `rcgen::CertificateParams::new` makes of a text: an
/// IP address where the text reads as one, else a DNS name.
pub open spec fn alt_name_of(text: Seq<char>, ip: Option<Seq<u8>>) -> AltName {
    match ip {
        Some(octets) => AltName::Ip(octets),
        None => AltName::Dns(text),
    }
}

/// The distinguished name `rcgen` gives by default.
pub open spec fn default_distinguished_name() -> Seq<(NameKind, NameText)> {
    seq![(NameKind::Common, NameText::Utf8("rcgen self signed cert"@))]
}

/// `dn` with the entry `kind` set to `text`: in place where the type is
/// already there, else appended (`rcgen::DistinguishedName::push`).
pub open spec fn dn_set(dn: Seq<(NameKind, NameText)>, kind: NameKind, text: NameText) -> Seq<(NameKind, NameText)> {
    if exists|i: int| 0 <= i < dn.len() && (#[trigger] dn[i]).0 == kind {
        let i = choose|i: int| 0 <= i < dn.len() && (#[trigger] dn[i]).0 == kind;
        dn.update(i, (kind, text))
    } else {
        dn.push((kind, text))
    }
}

/// Parameters of the shape the authority's root has: no alternative names,
/// an organization and a common name as UTF-8 strings, a CA without a path
/// length limit, ECDSA P-256 with SHA-256, and no other extension.
pub open spec fn is_root_shape(params: ParamsView) -> bool {
    &&& params.subject_alt_names.len() == 0
    &&& params.distinguished_name.len() == 2
    &&& params.distinguished_name[0].0 == NameKind::Organization
    &&& params.distinguished_name[0].1 is Utf8
    &&& params.distinguished_name[1].0 == NameKind::Common
    &&& params.distinguished_name[1].1 is Utf8
    &&& params.ca == CaView::Unconstrained
    &&& params.algorithm == SignatureChoice::EcdsaP256Sha256
    &&& params.no_other_extensions
}

/// The attribute type of an attribute the authority sets.
pub open spec fn name_kind(attribute: NameAttribute) -> NameKind {
    match attribute {
        NameAttribute::Organization => NameKind::Organization,
        NameAttribute::CommonName => NameKind::Common,
    }
}

/// The CA flag a request's kind gives.
pub open spec fn ca_view(ca: CaKind) -> CaView {
    match ca {
        CaKind::NotCa => CaView::NoCa,
        CaKind::Unconstrained => CaView::Unconstrained,
    }
}

/// The parameters a request gives: each name as `rcgen::CertificateParams::new`
/// reads it, then each name again as a DNS name; the requested organization
/// and common name, or `rcgen`'s default name; the requested CA flag and
/// algorithm.
pub open spec fn requested_params(request: CertificateRequestView) -> ParamsView {
    ParamsView {
        subject_alt_names: request.domain_names.map_values(|n: Seq<char>| alt_name_of(n, parsed_ip_octets(n)))
            + request.domain_names.map_values(|n: Seq<char>| AltName::Dns(n)),
        distinguished_name: match request.distinguished_name {
            Some((organization, common_name)) => seq![
                (NameKind::Organization, NameText::Utf8(organization)),
                (NameKind::Common, NameText::Utf8(common_name)),
            ],
            None => default_distinguished_name(),
        },
        ca: ca_view(request.ca),
        algorithm: request.algorithm,
        no_other_extensions: true,
    }
}

/// `rcgen::CertificateParams::new` with the given names.
/// Trusted: each name becomes an IP address where std reads it as one and a
/// DNS name otherwise; the rest is `rcgen`'s default (common name
/// `rcgen self signed cert`, not a CA, ECDSA P-256 with SHA-256, no other
/// extension, no key pair).
#[verifier::external_body]
fn params_with_names(names: &Vec<String>) -> (params: rcgen::CertificateParams)
    ensures
        params_view(params) == (ParamsView {
            subject_alt_names: names@.map_values(|n: String| alt_name_of(n@, parsed_ip_octets(n@))),
            distinguished_name: default_distinguished_name(),
            ca: CaView::NoCa,
            algorithm: SignatureChoice::EcdsaP256Sha256,
            no_other_extensions: true,
        }),
        params_key_pem(params) is None,
{
    rcgen::CertificateParams::new(names.clone())
}

/// Appends `rcgen::SanType::DnsName(name)` to the subject alternative names.
/// Trusted: only that list changes, by that one name at its end.
#[verifier::external_body]
fn push_dns_name(params: &mut rcgen::CertificateParams, name: String)
    ensures
        params_view(*final(params)) == (ParamsView {
            subject_alt_names: params_view(*old(params)).subject_alt_names.push(AltName::Dns(name@)),
            ..params_view(*old(params))
        }),
        params_key_pem(*final(params)) == params_key_pem(*old(params)),
{
    params.subject_alt_names.push(rcgen::SanType::DnsName(name));
}

/// Replaces the distinguished name by an empty one (`rcgen::DistinguishedName::new`).
/// Trusted: only the distinguished name changes, and it is empty.
#[verifier::external_body]
fn clear_distinguished_name(params: &mut rcgen::CertificateParams)
    ensures
        params_view(*final(params)) == (ParamsView {
            distinguished_name: Seq::empty(),
            ..params_view(*old(params))
        }),
        params_key_pem(*final(params)) == params_key_pem(*old(params)),
{
    params.distinguished_name = rcgen::DistinguishedName::new();
}

/// `rcgen::DistinguishedName::push` of the attribute with `value` (kept as
/// `rcgen::DnValue::Utf8String`).
/// Trusted: only the distinguished name changes, as `dn_set` says.
#[verifier::external_body]
fn push_name_attribute(params: &mut rcgen::CertificateParams, attribute: NameAttribute, value: &str)
    ensures
        params_view(*final(params)) == (ParamsView {
            distinguished_name: dn_set(
                params_view(*old(params)).distinguished_name,
                name_kind(attribute),
                NameText::Utf8(value@),
            ),
            ..params_view(*old(params))
        }),
        params_key_pem(*final(params)) == params_key_pem(*old(params)),
{
    let kind = match attribute {
        NameAttribute::Organization => rcgen::DnType::OrganizationName,
        NameAttribute::CommonName => rcgen::DnType::CommonName,
    };
    params.distinguished_name.push(kind, value);
}

/// Sets `is_ca`.
/// Trusted: only the CA flag changes, to the one of `ca`.
#[verifier::external_body]
fn set_ca(params: &mut rcgen::CertificateParams, ca: CaKind)
    ensures
        params_view(*final(params)) == (ParamsView { ca: ca_view(ca), ..params_view(*old(params)) }),
        params_key_pem(*final(params)) == params_key_pem(*old(params)),
{
    params.is_ca = match ca {
        CaKind::NotCa => rcgen::IsCa::NoCa,
        CaKind::Unconstrained => rcgen::IsCa::Ca(rcgen::BasicConstraints::Unconstrained),
    };
}

/// Sets `alg` to the `rcgen` static of the algorithm.
/// Trusted: only the algorithm changes, to `algorithm`.
#[verifier::external_body]
fn set_algorithm(params: &mut rcgen::CertificateParams, algorithm: SignatureChoice)
    ensures
        params_view(*final(params)) == (ParamsView { algorithm, ..params_view(*old(params)) }),
        params_key_pem(*final(params)) == params_key_pem(*old(params)),
{
    params.alg = match algorithm {
        SignatureChoice::RsaSha256 => &rcgen::PKCS_RSA_SHA256,
        SignatureChoice::RsaSha384 => &rcgen::PKCS_RSA_SHA384,
        SignatureChoice::RsaSha512 => &rcgen::PKCS_RSA_SHA512,
        SignatureChoice::EcdsaP256Sha256 => &rcgen::PKCS_ECDSA_P256_SHA256,
        SignatureChoice::EcdsaP384Sha384 => &rcgen::PKCS_ECDSA_P384_SHA384,
        SignatureChoice::Ed25519 => &rcgen::PKCS_ED25519,
    };
}

/// The parameters of a request: the names given to
/// `rcgen::CertificateParams::new` and then each pushed again as a DNS name,
/// the distinguished name replaced where the request gives one, then the CA
/// flag and the algorithm.
pub fn params_for(request: &CertificateRequest) -> (params: rcgen::CertificateParams)
    ensures
        params_view(params) == requested_params(request@),
        params_key_pem(params) is None,
{
    let names = &request.domain_names;
    let mut params = params_with_names(names);
    let ghost first = params_view(params).subject_alt_names;
    let mut i: usize = 0;
    while i < names.len()
        invariant
            i <= names@.len(),
            first == names@.map_values(|n: String| alt_name_of(n@, parsed_ip_octets(n@))),
            params_view(params).subject_alt_names == first + names@.take(i as int).map_values(|n: String| AltName::Dns(n@)),
            params_view(params).distinguished_name == default_distinguished_name(),
            params_view(params).ca == CaView::NoCa,
            params_view(params).algorithm == SignatureChoice::EcdsaP256Sha256,
            params_view(params).no_other_extensions,
            params_key_pem(params) is None,
        decreases names@.len() - i,
    {
        let name = names[i].clone();
        push_dns_name(&mut params, name);
        assert(names@.take(i + 1).map_values(|n: String| AltName::Dns(n@))
            =~= names@.take(i as int).map_values(|n: String| AltName::Dns(n@)).push(AltName::Dns(names@[i as int]@)));
        i = i + 1;
    }
    assert(names@.take(i as int) =~= names@);
    proof {
        let texts = request@.domain_names;
        assert(first =~= texts.map_values(|n: Seq<char>| alt_name_of(n, parsed_ip_octets(n))));
        assert(names@.map_values(|n: String| AltName::Dns(n@)) =~= texts.map_values(|n: Seq<char>| AltName::Dns(n)));
    }
    match &request.distinguished_name {
        Some((organization, common_name)) => {
            clear_distinguished_name(&mut params);
            push_name_attribute(&mut params, NameAttribute::Organization, organization.as_str());
            proof {
                let org_only = seq![(NameKind::Organization, NameText::Utf8(organization@))];
                assert(Seq::<(NameKind, NameText)>::empty().push((NameKind::Organization, NameText::Utf8(organization@)))
                    =~= org_only);
                assert(org_only[0].0 != NameKind::Common);
            }
            push_name_attribute(&mut params, NameAttribute::CommonName, common_name.as_str());
            assert(params_view(params).distinguished_name =~= seq![
                (NameKind::Organization, NameText::Utf8(organization@)),
                (NameKind::Common, NameText::Utf8(common_name@)),
            ]);
        },
        None => {},
    }
    set_ca(&mut params, request.ca);
    set_algorithm(&mut params, request.algorithm);
    params
}

/// `rcgen::Certificate::from_params`. A key pair of the parameters'
/// algorithm is generated when they hold none, so whether that succeeds is
/// not stated.
/// Trusted: where the parameters hold a key pair, it succeeds exactly when
/// the key pair's algorithm is theirs (`KeyPair::is_compatible`); the
/// certificate keeps the parameters' subject (named `certificate_params`),
/// the key pair they hold, where they hold one, and its key pair has their
/// algorithm.
#[verifier::external_body]
fn certificate_from_params(params: rcgen::CertificateParams) -> (r: Result<rcgen::Certificate, rcgen::RcgenError>)
    ensures
        params_key_algorithm(params) matches Some(algorithm) ==> (r is Ok <==> algorithm == params_view(params).algorithm),
        r matches Ok(cert) ==> certificate_params(cert) == params_view(params),
        r matches Ok(cert) ==> (params_key_pem(params) matches Some(key) ==> certificate_key_pem(cert) == key),
        r matches Ok(cert) ==> certificate_key_algorithm(cert) == params_view(params).algorithm,
{
    rcgen::Certificate::from_params(params)
}

/// `rcgen::KeyPair::from_pem`.
/// Trusted: it succeeds exactly when a key pair can be read from the text
/// (named `pem_key_pair_pem` and `pem_key_algorithm`), and the key pair is
/// the one read.
#[verifier::external_body]
fn key_pair_from_pem(pem: &str) -> (r: Result<rcgen::KeyPair, rcgen::RcgenError>)
    ensures
        match r {
            Ok(key_pair) => pem_key_pair_pem(pem@) == Some(key_pair_pem(key_pair))
                && pem_key_algorithm(pem@) == Some(key_pair_algorithm(key_pair)),
            Err(_) => pem_key_pair_pem(pem@) is None && pem_key_algorithm(pem@) is None,
        },
{
    rcgen::KeyPair::from_pem(pem)
}

/// `rcgen::CertificateParams::from_ca_cert_pem`, a parse of the text that
/// uses the key pair only to store it.
/// Trusted: it succeeds exactly when the text can be read (named
/// `pem_ca_params`), the parameters are what was read, and they hold the
/// given key pair.
#[verifier::external_body]
fn ca_params_from_pem(cert_pem: &str, key_pair: rcgen::KeyPair) -> (r: Result<rcgen::CertificateParams, rcgen::RcgenError>)
    ensures
        match r {
            Ok(params) => pem_ca_params(cert_pem@) == Some(params_view(params))
                && params_key_pem(params) == Some(key_pair_pem(key_pair))
                && params_key_algorithm(params) == Some(key_pair_algorithm(key_pair)),
            Err(_) => pem_ca_params(cert_pem@) is None,
        },
{
    rcgen::CertificateParams::from_ca_cert_pem(cert_pem, key_pair)
}

/// `rcgen::Certificate::serialize_pem_with_signer`. Signing is randomized,
/// so the text itself is not stated.
/// Trusted: the text is `cert` signed by `ca` (named `signed_pem`).
#[verifier::external_body]
fn pem_signed_by(cert: &rcgen::Certificate, ca: &rcgen::Certificate) -> (r: Result<String, rcgen::RcgenError>)
    ensures
        r matches Ok(pem) ==> signed_pem(pem@, *cert, *ca),
{
    cert.serialize_pem_with_signer(ca)
}

/// `rcgen::Certificate::serialize_pem` (self-signed). Signing is
/// randomized, so the text itself is not stated.
/// Trusted: the text is `cert` signed by itself (named `signed_pem`). For a
/// CA certificate of the shape the authority makes (no alternative names,
/// an organization and a common name as UTF-8 strings, no path length
/// limit, ECDSA P-256 with SHA-256, no other extension), the text is
/// written as the subject, one attribute per name entry, a basic
/// constraints extension with the CA flag set and no limit, and that
/// algorithm's identifier, which `rcgen::CertificateParams::from_ca_cert_pem`
/// reads back as the same parameters.
#[verifier::external_body]
fn self_signed_pem(cert: &rcgen::Certificate) -> (r: Result<String, rcgen::RcgenError>)
    ensures
        r matches Ok(pem) ==> signed_pem(pem@, *cert, *cert),
        r matches Ok(pem) ==> (is_root_shape(certificate_params(*cert)) ==> pem_ca_params(pem@) == Some(
            certificate_params(*cert),
        )),
{
    cert.serialize_pem()
}

/// `rcgen::Certificate::serialize_private_key_pem`.
/// Trusted: the text is the PEM encoding of the certificate's key pair
/// (named `certificate_key_pem`); `rcgen::KeyPair::from_pem` reads it back
/// as a key pair with the same DER, which it writes as the same text, and,
/// but for an RSA key chosen for SHA-384 or SHA-512 (read back as one for
/// SHA-256), with the same algorithm.
#[verifier::external_body]
fn private_key_pem(cert: &rcgen::Certificate) -> (pem: String)
    ensures
        pem@ == certificate_key_pem(*cert),
        pem_key_pair_pem(pem@) == Some(pem@),
        certificate_key_algorithm(*cert) != SignatureChoice::RsaSha384
            && certificate_key_algorithm(*cert) != SignatureChoice::RsaSha512
            ==> pem_key_algorithm(pem@) == Some(certificate_key_algorithm(*cert)),
{
    cert.serialize_private_key_pem()
}

/// `rustls_pemfile::certs` over a byte buffer.
/// Trusted: the result is the certificates of the text (named `pem_certificate_ders`).
#[verifier::external_body]
fn read_pem_certificates(pem: &[u8]) -> (r: Result<Vec<Vec<u8>>, std::io::Error>)
    ensures
        match r {
            Ok(v) => pem_certificate_ders(pem@) == Some(v.deep_view()),
            Err(_) => pem_certificate_ders(pem@) is None,
        },
{
    let mut reader = pem;
    rustls_pemfile::certs(&mut reader)
}

/// `rustls_pemfile::pkcs8_private_keys` over a byte buffer.
/// Trusted: the result is the keys of the text (named `pem_pkcs8_key_ders`).
#[verifier::external_body]
fn read_pem_pkcs8_keys(pem: &[u8]) -> (r: Result<Vec<Vec<u8>>, std::io::Error>)
    ensures
        match r {
            Ok(v) => pem_pkcs8_key_ders(pem@) == Some(v.deep_view()),
            Err(_) => pem_pkcs8_key_ders(pem@) is None,
        },
{
    let mut reader = pem;
    rustls_pemfile::pkcs8_private_keys(&mut reader)
}

/// `rustls::ServerConfig::builder().with_safe_defaults().with_no_client_auth().with_single_cert`,
/// the DER blobs wrapped as `rustls::Certificate` and `rustls::PrivateKey`.
/// It fails when the key is refused, so success is not stated.
/// Trusted: the configuration serves the given chain and key (named
/// `config_credentials`), asks clients for no certificate
/// (`with_no_client_auth`), and offers no protocols yet.
#[verifier::external_body]
fn single_cert_config(chain: Vec<Vec<u8>>, key: Vec<u8>) -> (r: Result<tokio_rustls::rustls::ServerConfig, tokio_rustls::rustls::Error>)
    ensures
        r matches Ok(config) ==> config_credentials(config) == (chain.deep_view(), key@)
            && offered_protocols(config) == Seq::<Seq<u8>>::empty() && !offers_client_auth(config),
{
    let chain = chain.into_iter().map(tokio_rustls::rustls::Certificate).collect();
    tokio_rustls::rustls::ServerConfig::builder()
        .with_safe_defaults()
        .with_no_client_auth()
        .with_single_cert(chain, tokio_rustls::rustls::PrivateKey(key))
}

/// Sets `rustls::ServerConfig::alpn_protocols`.
/// Trusted: the configuration offers exactly those protocols, serves the
/// same chain and key as before, and asks for client certificates as before.
#[verifier::external_body]
fn set_alpn_protocols(config: &mut tokio_rustls::rustls::ServerConfig, protocols: Vec<Vec<u8>>)
    ensures
        offered_protocols(*final(config)) == protocols.deep_view(),
        config_credentials(*final(config)) == config_credentials(*old(config)),
        offers_client_auth(*final(config)) == offers_client_auth(*old(config)),
{
    config.alpn_protocols = protocols;
}

/// The file that holds the root certificate.
pub fn ca_cert_file_name() -> (name: &'static str)
    ensures
        name@ == "ca.crt"@,
{
    "ca.crt"
}

/// The file that holds the root certificate's private key.
pub fn ca_key_file_name() -> (name: &'static str)
    ensures
        name@ == "ca.key"@,
{
    "ca.key"
}

/// How the root certificate is obtained.
#[derive(Clone, Copy, Debug, PartialEq, Eq, Structural)]
pub enum CaSource {
    /// Both files exist: load them.
    Load,
    /// Otherwise: generate a new root certificate and write both files.
    Generate,
}

/// The root certificate is loaded when both its certificate and key files
/// exist, and generated otherwise.
pub fn ca_source(cert_exists: bool, key_exists: bool) -> (s: CaSource)
    ensures
        s == (if cert_exists && key_exists {
            CaSource::Load
        } else {
            CaSource::Generate
        }),
{
    if cert_exists && key_exists {
        CaSource::Load
    } else {
        CaSource::Generate
    }
}

/// The bytes handed to the PEM reader for a leaf: its certificate, a line
/// feed, then the root certificate.
pub open spec fn chain_pem_spec(leaf_pem: Seq<char>, root_pem: Seq<char>) -> Seq<u8> {
    vstd::utf8::encode_utf8(leaf_pem) + seq![10u8] + vstd::utf8::encode_utf8(root_pem)
}

/// The PEM text of a certificate chain: the leaf, a line feed, the root.
pub fn chain_pem(leaf_pem: &str, root_pem: &str) -> (bytes: Vec<u8>)
    ensures
        bytes@ == chain_pem_spec(leaf_pem@, root_pem@),
{
    let mut bytes = leaf_pem.as_bytes_vec();
    bytes.push(10u8);
    let root = root_pem.as_bytes_vec();
    let mut i: usize = 0;
    let ghost start = bytes@;
    while i < root.len()
        invariant
            i <= root@.len(),
            bytes@ == start + root@.take(i as int),
        decreases root@.len() - i,
    {
        bytes.push(root[i]);
        assert(root@.take(i + 1) =~= root@.take(i as int).push(root@[i as int]));
        i = i + 1;
    }
    assert(root@.take(i as int) =~= root@);
    bytes
}

/// The first private key found, which the TLS configuration uses.
pub fn first_private_key(keys: Vec<Vec<u8>>) -> (r: Result<Vec<u8>, CertError>)
    ensures
        keys@.len() == 0 ==> r matches Err(CertError::NoPrivateKey),
        keys@.len() > 0 ==> (r matches Ok(k) && k@ == keys@[0]@),
{
    let mut keys = keys;
    if keys.len() == 0 {
        Err(CertError::NoPrivateKey)
    } else {
        Ok(keys.remove(0))
    }
}

/// The protocol names offered to clients: `h2`, then `http/1.1`.
pub open spec fn alpn_protocols_spec() -> Seq<Seq<u8>> {
    seq![seq![104u8, 50u8], seq![104u8, 116u8, 116u8, 112u8, 47u8, 49u8, 46u8, 49u8]]
}

/// The application protocols offered to clients: HTTP/2, then HTTP/1.1.
pub fn alpn_protocols() -> (ps: Vec<Vec<u8>>)
    ensures
        ps.deep_view() == alpn_protocols_spec(),
{
    let h2: Vec<u8> = vec![104u8, 50u8];
    let http11: Vec<u8> = vec![104u8, 116u8, 116u8, 112u8, 47u8, 49u8, 46u8, 49u8];
    let ps: Vec<Vec<u8>> = vec![h2, http11];
    assert(ps.deep_view()[0] =~= seq![104u8, 50u8]);
    assert(ps.deep_view()[1] =~= seq![104u8, 116u8, 116u8, 112u8, 47u8, 49u8, 46u8, 49u8]);
    assert(ps.deep_view() =~= alpn_protocols_spec());
    ps
}

/// The request for a domain's leaf certificate: the domain as its name, the
/// default distinguished name, no CA, ECDSA P-256 with SHA-256.
pub open spec fn leaf_request_spec(domain: Seq<char>) -> CertificateRequestView {
    CertificateRequestView {
        domain_names: seq![domain],
        distinguished_name: None,
        ca: CaKind::NotCa,
        algorithm: SignatureChoice::EcdsaP256Sha256,
    }
}

/// The request for the root certificate: no names, organization
/// `VeloCache`, common name `VeloCache Root CA (Development)`, a CA without
/// a path length limit, ECDSA P-256 with SHA-256.
pub open spec fn root_request_spec() -> CertificateRequestView {
    CertificateRequestView {
        domain_names: Seq::empty(),
        distinguished_name: Some(("VeloCache"@, "VeloCache Root CA (Development)"@)),
        ca: CaKind::Unconstrained,
        algorithm: SignatureChoice::EcdsaP256Sha256,
    }
}

/// The request for `domain`'s leaf certificate.
pub fn leaf_request(domain: &str) -> (request: CertificateRequest)
    ensures
        request@ == leaf_request_spec(domain@),
{
    let names: Vec<String> = vec![domain.to_string()];
    let request = CertificateRequest {
        domain_names: names,
        distinguished_name: None,
        ca: CaKind::NotCa,
        algorithm: SignatureChoice::EcdsaP256Sha256,
    };
    assert(request@.domain_names =~= seq![domain@]);
    request
}

/// The request for the root certificate.
pub fn root_request() -> (request: CertificateRequest)
    ensures
        request@ == root_request_spec(),
{
    let organization = "VeloCache".to_string();
    let common_name = "VeloCache Root CA (Development)".to_string();
    let request = CertificateRequest {
        domain_names: Vec::new(),
        distinguished_name: Some((organization, common_name)),
        ca: CaKind::Unconstrained,
        algorithm: SignatureChoice::EcdsaP256Sha256,
    };
    assert(request@.domain_names =~= Seq::<Seq<char>>::empty());
    request
}

/// What a domain's TLS configuration holds: a leaf certificate made from the
/// domain's request, the protocols `h2` and `http/1.1`, the certificate
/// chain read from the leaf's text signed by the root, a line feed, and the
/// root's self-signed text, and the first PKCS #8 key of the leaf's key text.
pub open spec fn issued_for(
    config: tokio_rustls::rustls::ServerConfig,
    leaf: rcgen::Certificate,
    root: rcgen::Certificate,
    domain: Seq<char>,
) -> bool {
    &&& certificate_params(leaf) == requested_params(leaf_request_spec(domain))
    &&& offered_protocols(config) == alpn_protocols_spec()
    &&& !offers_client_auth(config)
    &&& exists|leaf_pem: Seq<char>, root_pem: Seq<char>|
        signed_pem(leaf_pem, leaf, root) && signed_pem(root_pem, root, root)
            && pem_certificate_ders(#[trigger] chain_pem_spec(leaf_pem, root_pem)) == Some(config_credentials(config).0)
    &&& pem_pkcs8_key_ders(vstd::utf8::encode_utf8(certificate_key_pem(leaf))) matches Some(keys)
        && keys.len() > 0 && keys[0] == config_credentials(config).1
}

/// The effect of asking for the TLS configuration of `domain`: a
/// configuration made earlier is handed out again and nothing changes;
/// otherwise a new one, when it could be made, is handed out and kept.
pub open spec fn config_outcome(
    before: Map<Seq<char>, Arc<tokio_rustls::rustls::ServerConfig>>,
    after: Map<Seq<char>, Arc<tokio_rustls::rustls::ServerConfig>>,
    domain: Seq<char>,
    r: Result<Arc<tokio_rustls::rustls::ServerConfig>, CertError>,
) -> bool {
    if before.contains_key(domain) {
        &&& r matches Ok(c) && c == before[domain]
        &&& after == before
    } else {
        match r {
            Ok(c) => after == before.insert(domain, c),
            Err(_) => after == before,
        }
    }
}

/// A configuration is made once per domain: once one has been handed out
/// for a domain, every later request for that domain gets the same one.
pub proof fn law_config_made_once(
    c0: Map<Seq<char>, Arc<tokio_rustls::rustls::ServerConfig>>,
    c1: Map<Seq<char>, Arc<tokio_rustls::rustls::ServerConfig>>,
    c2: Map<Seq<char>, Arc<tokio_rustls::rustls::ServerConfig>>,
    domain: Seq<char>,
    other: Seq<char>,
    first: Arc<tokio_rustls::rustls::ServerConfig>,
    r2: Result<Arc<tokio_rustls::rustls::ServerConfig>, CertError>,
)
    requires
        config_outcome(c0, c1, domain, Ok(first)),
        config_outcome(c1, c2, other, r2),
    ensures
        other == domain ==> (r2 matches Ok(c) && c == first),
        c2.contains_key(domain) && c2[domain] == first,
{
}

/// A freshly generated root certificate in PEM form, to be written to disk.
pub struct GeneratedRoot {
    pub cert_pem: String,
    pub key_pem: String,
}

/// Where the root certificate came from.
pub enum RootOrigin {
    /// Newly generated from the root request.
    Generated,
    /// Loaded from these stored certificate and key PEM texts.
    Loaded { cert_pem: Seq<char>, key_pem: Seq<char> },
}

/// What loading an authority from stored PEM texts gives: an authority
/// with no configurations yet whose root holds what is read from the
/// certificate text and the key pair read from the key text. It succeeds
/// exactly when both texts can be read and the key pair's algorithm is the
/// certificate's; otherwise it fails with a certificate error.
pub open spec fn load_outcome(
    dir: Seq<char>,
    cert_pem: Seq<char>,
    key_pem: Seq<char>,
    r: Result<CertificateAuthority, CertError>,
) -> bool {
    &&& r is Ok <==> (pem_ca_params(cert_pem) matches Some(params) && pem_key_algorithm(key_pem) == Some(
        params.algorithm,
    ))
    &&& pem_key_pair_pem(key_pem) is None ==> r is Err
    &&& match r {
        Ok(ca) => {
            &&& ca.wf()
            &&& ca.dir() == dir
            &&& ca.configs() == Map::<Seq<char>, Arc<tokio_rustls::rustls::ServerConfig>>::empty()
            &&& ca.origin() == (RootOrigin::Loaded { cert_pem, key_pem })
            &&& pem_key_pair_pem(key_pem) == Some(certificate_key_pem(ca.root()))
            &&& pem_ca_params(cert_pem) == Some(certificate_params(ca.root()))
        },
        Err(e) => e is Certificate,
    }
}

/// What generating an authority gives: an authority with no configurations
/// yet whose root is made from the root request, the root's self-signed
/// certificate text, which reads back as the root's parameters, and the key
/// text of that root, which reads back as the same key pair; any failure is
/// a certificate error.
pub open spec fn generate_outcome(dir: Seq<char>, r: Result<(CertificateAuthority, GeneratedRoot), CertError>) -> bool {
    match r {
        Ok((ca, root)) => {
            &&& ca.wf()
            &&& ca.dir() == dir
            &&& ca.configs() == Map::<Seq<char>, Arc<tokio_rustls::rustls::ServerConfig>>::empty()
            &&& ca.origin() == RootOrigin::Generated
            &&& certificate_params(ca.root()) == requested_params(root_request_spec())
            &&& signed_pem(root.cert_pem@, ca.root(), ca.root())
            &&& pem_ca_params(root.cert_pem@) == Some(certificate_params(ca.root()))
            &&& root.key_pem@ == certificate_key_pem(ca.root())
            &&& pem_key_pair_pem(root.key_pem@) == Some(root.key_pem@)
            &&& pem_key_algorithm(root.key_pem@) == Some(SignatureChoice::EcdsaP256Sha256)
        },
        Err(e) => e is Certificate,
    }
}

/// A restart keeps the root: loading the two texts that a generated
/// authority handed out succeeds, and the loaded root has the generated
/// root's key pair and the same parameters, so the same issuer name.
pub proof fn law_restart_keeps_root(
    dir: Seq<char>,
    generated: CertificateAuthority,
    root: GeneratedRoot,
    later_dir: Seq<char>,
    reloaded: Result<CertificateAuthority, CertError>,
)
    requires
        generate_outcome(dir, Ok((generated, root))),
        load_outcome(later_dir, root.cert_pem@, root.key_pem@, reloaded),
    ensures
        reloaded matches Ok(ca) && certificate_key_pem(ca.root()) == certificate_key_pem(generated.root())
            && certificate_params(ca.root()) == certificate_params(generated.root()),
{
}

/// The certificate authority: its root certificate, the directory it keeps
/// its files in, and the TLS configuration made for each domain so far,
/// with the leaf certificate each was made with.
pub struct CertificateAuthority {
    ca_cert: rcgen::Certificate,
    cert_path: String,
    leaf_cache: StringHashMap<Arc<tokio_rustls::rustls::ServerConfig>>,
    leaves: Ghost<Map<Seq<char>, rcgen::Certificate>>,
    origin: Ghost<RootOrigin>,
}

impl CertificateAuthority {
    /// The TLS configurations made so far, by domain.
    pub closed spec fn configs(&self) -> Map<Seq<char>, Arc<tokio_rustls::rustls::ServerConfig>> {
        self.leaf_cache@
    }

    /// The leaf certificate of each configuration made so far, by domain.
    pub closed spec fn leaves(&self) -> Map<Seq<char>, rcgen::Certificate> {
        self.leaves@
    }

    /// The directory of the authority's files.
    pub closed spec fn dir(&self) -> Seq<char> {
        self.cert_path@
    }

    /// The root certificate, which signs every leaf.
    pub closed spec fn root(&self) -> rcgen::Certificate {
        self.ca_cert
    }

    /// Where the root certificate came from.
    pub closed spec fn origin(&self) -> RootOrigin {
        self.origin@
    }

    /// Every configuration has a leaf, and holds what was issued for its domain.
    pub open spec fn wf(&self) -> bool {
        &&& self.leaves().dom() == self.configs().dom()
        &&& forall|d: Seq<char>| #[trigger] self.configs().contains_key(d)
            ==> issued_for(*self.configs()[d], self.leaves()[d], self.root(), d)
    }

    /// An authority from the PEM texts of a stored root certificate and key.
    /// Whether they can be read is decided by `rcgen` (key pair, then
    /// certificate); any failure is reported as its certificate error.
    pub fn load(cert_path: String, cert_pem: &str, key_pem: &str) -> (r: Result<CertificateAuthority, CertError>)
        ensures
            load_outcome(cert_path@, cert_pem@, key_pem@, r),
    {
        let key_pair = match key_pair_from_pem(key_pem) {
            Ok(k) => k,
            Err(e) => return Err(CertError::Certificate(e)),
        };
        let params = match ca_params_from_pem(cert_pem, key_pair) {
            Ok(p) => p,
            Err(e) => return Err(CertError::Certificate(e)),
        };
        match certificate_from_params(params) {
            Ok(ca_cert) => Ok(CertificateAuthority {
                ca_cert,
                cert_path,
                leaf_cache: StringHashMap::new(),
                leaves: Ghost(Map::empty()),
                origin: Ghost(RootOrigin::Loaded { cert_pem: cert_pem@, key_pem: key_pem@ }),
            }),
            Err(e) => Err(CertError::Certificate(e)),
        }
    }

    /// An authority with a newly generated root certificate made from the
    /// root request, with the PEM texts of the certificate and its key to be
    /// stored. Key generation and signing are `rcgen`'s; any failure is
    /// reported as its certificate error.
    pub fn generate(cert_path: String) -> (r: Result<(CertificateAuthority, GeneratedRoot), CertError>)
        ensures
            generate_outcome(cert_path@, r),
    {
        let request = root_request();
        let ca_cert = match certificate_from_params(params_for(&request)) {
            Ok(c) => c,
            Err(e) => return Err(CertError::Certificate(e)),
        };
        let cert_pem = match self_signed_pem(&ca_cert) {
            Ok(p) => p,
            Err(e) => return Err(CertError::Certificate(e)),
        };
        let key_pem = private_key_pem(&ca_cert);
        Ok((
            CertificateAuthority {
                ca_cert,
                cert_path,
                leaf_cache: StringHashMap::new(),
                leaves: Ghost(Map::empty()),
                origin: Ghost(RootOrigin::Generated),
            },
            GeneratedRoot { cert_pem, key_pem },
        ))
    }

    /// The directory the authority keeps its files in.
    pub fn cert_dir(&self) -> (d: String)
        ensures
            d@ == self.dir(),
    {
        self.cert_path.clone()
    }

    /// The TLS configuration for `domain`: the one made earlier if there is
    /// one, otherwise a new one with a leaf certificate for `domain` signed
    /// by the root, which is kept for later requests.
    pub fn get_server_config(&mut self, domain: &str) -> (r: Result<Arc<tokio_rustls::rustls::ServerConfig>, CertError>)
        requires
            old(self).wf(),
        ensures
            final(self).wf(),
            final(self).dir() == old(self).dir(),
            final(self).root() == old(self).root(),
            final(self).origin() == old(self).origin(),
            config_outcome(old(self).configs(), final(self).configs(), domain@, r),
            r matches Ok(c) ==> issued_for(*c, final(self).leaves()[domain@], final(self).root(), domain@),
            r matches Ok(c) ==> exists|leaf_pem: Seq<char>, root_pem: Seq<char>|
                #![trigger signed_pem(leaf_pem, final(self).leaves()[domain@], final(self).root()), signed_pem(root_pem, final(self).root(), final(self).root())]
                signed_pem(leaf_pem, final(self).leaves()[domain@], final(self).root())
                    && signed_pem(root_pem, final(self).root(), final(self).root())
                    && pem_certificate_ders(vstd::utf8::encode_utf8(leaf_pem) + seq![10u8] + vstd::utf8::encode_utf8(root_pem))
                        == Some(config_credentials(*c).0),
            forall|d: Seq<char>| #[trigger] old(self).leaves().contains_key(d)
                ==> final(self).leaves().contains_key(d) && final(self).leaves()[d] == old(self).leaves()[d],
            r matches Err(CertError::NoPrivateKey) ==> exists|leaf: rcgen::Certificate|
                certificate_params(leaf) == requested_params(leaf_request_spec(domain@))
                && pem_pkcs8_key_ders(vstd::utf8::encode_utf8(#[trigger] certificate_key_pem(leaf)))
                    == Some(Seq::<Seq<u8>>::empty()),
    {
        match self.leaf_cache.get(domain) {
            Some(config) => {
                proof {
                    law_configs_are_signed_by_root(*self, domain@);
                }
                return Ok(share(config));
            },
            None => {},
        }
        let request = leaf_request(domain);
        let leaf = match certificate_from_params(params_for(&request)) {
            Ok(c) => c,
            Err(e) => return Err(CertError::Certificate(e)),
        };
        let cert_pem = match pem_signed_by(&leaf, &self.ca_cert) {
            Ok(p) => p,
            Err(e) => return Err(CertError::Certificate(e)),
        };
        let key_pem = private_key_pem(&leaf);
        let root_pem = match self_signed_pem(&self.ca_cert) {
            Ok(p) => p,
            Err(e) => return Err(CertError::Certificate(e)),
        };
        let chain_bytes = chain_pem(cert_pem.as_str(), root_pem.as_str());
        let cert_chain = match read_pem_certificates(chain_bytes.as_slice()) {
            Ok(c) => c,
            Err(e) => return Err(CertError::Pem(e)),
        };
        let key_bytes = key_pem.as_str().as_bytes_vec();
        let keys = match read_pem_pkcs8_keys(key_bytes.as_slice()) {
            Ok(k) => k,
            Err(e) => return Err(CertError::Pem(e)),
        };
        let ghost key_ders = keys.deep_view();
        let key = match first_private_key(keys) {
            Ok(k) => k,
            Err(e) => {
                assert(key_ders =~= Seq::<Seq<u8>>::empty());
                return Err(e);
            },
        };
        let mut config = match single_cert_config(cert_chain, key) {
            Ok(c) => c,
            Err(e) => return Err(CertError::Tls(e)),
        };
        set_alpn_protocols(&mut config, alpn_protocols());
        assert(pem_certificate_ders(chain_pem_spec(cert_pem@, root_pem@)) == Some(config_credentials(config).0));
        let arc_config = Arc::new(config);
        self.leaf_cache.insert(domain.to_string(), share(&arc_config));
        self.leaves = Ghost(self.leaves@.insert(domain@, leaf));
        assert(certificate_params(leaf) == requested_params(leaf_request_spec(domain@)));
        assert(offered_protocols(*arc_config) == alpn_protocols_spec());
        assert(key_bytes@ == vstd::utf8::encode_utf8(certificate_key_pem(leaf)));
        assert(pem_pkcs8_key_ders(vstd::utf8::encode_utf8(certificate_key_pem(leaf))) == Some(key_ders));
        assert(key_ders.len() > 0 && key_ders[0] == config_credentials(*arc_config).1);
        assert(signed_pem(cert_pem@, leaf, self.ca_cert) && signed_pem(root_pem@, self.ca_cert, self.ca_cert));
        assert(issued_for(*arc_config, leaf, self.ca_cert, domain@));
        proof {
            law_configs_are_signed_by_root(*self, domain@);
        }
        Ok(arc_config)
    }
}

/// Every configuration an authority hands out for a domain serves the
/// domain's leaf certificate signed by the authority's root (not by the leaf
/// itself), followed by the root signed by itself; the leaf names the domain
/// as a DNS name and is no CA; the configuration offers `h2` then
/// `http/1.1`, asks clients for no certificate, and signs with the first
/// PKCS #8 key of the leaf's key text.
pub proof fn law_configs_are_signed_by_root(ca: CertificateAuthority, domain: Seq<char>)
    requires
        ca.wf(),
        ca.configs().contains_key(domain),
    ensures
        exists|leaf_pem: Seq<char>, root_pem: Seq<char>|
            #![trigger signed_pem(leaf_pem, ca.leaves()[domain], ca.root()), signed_pem(root_pem, ca.root(), ca.root())]
            signed_pem(leaf_pem, ca.leaves()[domain], ca.root()) && signed_pem(root_pem, ca.root(), ca.root())
                && pem_certificate_ders(vstd::utf8::encode_utf8(leaf_pem) + seq![10u8] + vstd::utf8::encode_utf8(root_pem))
                    == Some(config_credentials(*ca.configs()[domain]).0),
        certificate_params(ca.leaves()[domain]).subject_alt_names.len() == 2,
        certificate_params(ca.leaves()[domain]).subject_alt_names[1] == AltName::Dns(domain),
        certificate_params(ca.leaves()[domain]).ca == CaView::NoCa,
        offered_protocols(*ca.configs()[domain]) == seq![
            seq![104u8, 50u8],
            seq![104u8, 116u8, 116u8, 112u8, 47u8, 49u8, 46u8, 49u8],
        ],
        !offers_client_auth(*ca.configs()[domain]),
        pem_pkcs8_key_ders(vstd::utf8::encode_utf8(certificate_key_pem(ca.leaves()[domain]))) matches Some(keys)
            && keys.len() > 0 && keys[0] == config_credentials(*ca.configs()[domain]).1,
{
    let config = *ca.configs()[domain];
    let leaf = ca.leaves()[domain];
    let root = ca.root();
    assert(issued_for(config, leaf, root, domain));
    let (leaf_pem, root_pem) = choose|leaf_pem: Seq<char>, root_pem: Seq<char>|
        signed_pem(leaf_pem, leaf, root) && signed_pem(root_pem, root, root)
            && pem_certificate_ders(#[trigger] chain_pem_spec(leaf_pem, root_pem)) == Some(config_credentials(config).0);
    assert(signed_pem(leaf_pem, leaf, root) && signed_pem(root_pem, root, root));
    let names = requested_params(leaf_request_spec(domain)).subject_alt_names;
    assert(names.len() == 2);
}

} // verus!
