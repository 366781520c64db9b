use std::sync::Arc;
use velocache::certs::{
    alpn_protocols, ca_cert_file_name, ca_key_file_name, ca_source, chain_pem, first_private_key, leaf_request,
    params_for, root_request, CaKind, CaSource, CertError, CertificateAuthority, SignatureChoice,
};

#[test]
fn root_is_loaded_only_when_both_files_exist() {
    assert_eq!(ca_source(true, true), CaSource::Load);
    assert_eq!(ca_source(true, false), CaSource::Generate);
    assert_eq!(ca_source(false, true), CaSource::Generate);
    assert_eq!(ca_source(false, false), CaSource::Generate);
    assert_eq!((ca_cert_file_name(), ca_key_file_name()), ("ca.crt", "ca.key"));
}

#[test]
fn chain_is_leaf_newline_root() {
    assert_eq!(chain_pem("LEAF", "ROOT"), b"LEAF\nROOT".to_vec());
    assert_eq!(chain_pem("", ""), b"\n".to_vec());
}

#[test]
fn first_key_is_used() {
    match first_private_key(vec![vec![1, 2], vec![3]]) {
        Ok(k) => assert_eq!(k, vec![1, 2]),
        Err(_) => panic!("a key is present"),
    }
    assert!(matches!(first_private_key(vec![]), Err(CertError::NoPrivateKey)));
}

#[test]
fn alpn_offers_h2_then_http11() {
    assert_eq!(alpn_protocols(), vec![b"h2".to_vec(), b"http/1.1".to_vec()]);
}

#[test]
fn configs_are_made_once_per_domain() {
    let (mut ca, root) = match CertificateAuthority::generate("certs".to_string()) {
        Ok(x) => x,
        Err(_) => panic!("generating a root certificate works"),
    };
    assert!(root.cert_pem.contains("BEGIN CERTIFICATE"));
    assert!(root.key_pem.contains("PRIVATE KEY"));
    assert_eq!(ca.cert_dir(), "certs");
    let first = match ca.get_server_config("example.com") {
        Ok(c) => c,
        Err(_) => panic!("a leaf configuration is made"),
    };
    assert_eq!(first.alpn_protocols, vec![b"h2".to_vec(), b"http/1.1".to_vec()]);
    let again = match ca.get_server_config("example.com") {
        Ok(c) => c,
        Err(_) => panic!("the configuration is reused"),
    };
    assert!(Arc::ptr_eq(&first, &again));
    let other = match ca.get_server_config("other.example") {
        Ok(c) => c,
        Err(_) => panic!("a second domain works too"),
    };
    assert!(!Arc::ptr_eq(&first, &other));

    let loaded = CertificateAuthority::load("dir".to_string(), &root.cert_pem, &root.key_pem);
    let mut loaded = match loaded {
        Ok(ca) => ca,
        Err(_) => panic!("a stored root certificate loads"),
    };
    assert!(loaded.get_server_config("example.com").is_ok());
    assert!(matches!(CertificateAuthority::load("dir".to_string(), "not a pem", &root.key_pem), Err(CertError::Certificate(_))));
}

#[test]
fn leaf_request_names_the_domain() {
    let r = leaf_request("example.com");
    assert_eq!(r.domain_names, vec!["example.com".to_string()]);
    assert!(r.distinguished_name.is_none());
    assert_eq!(r.ca, CaKind::NotCa);
    assert_eq!(r.algorithm, SignatureChoice::EcdsaP256Sha256);
}

#[test]
fn root_request_is_an_unconstrained_velocache_ca() {
    let r = root_request();
    assert!(r.domain_names.is_empty());
    assert_eq!(
        r.distinguished_name,
        Some(("VeloCache".to_string(), "VeloCache Root CA (Development)".to_string()))
    );
    assert_eq!(r.ca, CaKind::Unconstrained);
    assert_eq!(r.algorithm, SignatureChoice::EcdsaP256Sha256);
}

#[test]
fn generated_root_carries_the_requested_name() {
    let (_ca, root) = match CertificateAuthority::generate("certs".to_string()) {
        Ok(x) => x,
        Err(_) => panic!("generating a root certificate works"),
    };
    let key = rcgen::KeyPair::from_pem(&root.key_pem).expect("the key text is a key pair");
    let params = rcgen::CertificateParams::from_ca_cert_pem(&root.cert_pem, key).expect("the certificate text parses");
    match params.distinguished_name.get(&rcgen::DnType::OrganizationName) {
        Some(rcgen::DnValue::PrintableString(s)) => assert_eq!(s, "VeloCache"),
        Some(rcgen::DnValue::Utf8String(s)) => assert_eq!(s, "VeloCache"),
        other => panic!("unexpected organization {:?}", other),
    }
    match params.distinguished_name.get(&rcgen::DnType::CommonName) {
        Some(rcgen::DnValue::PrintableString(s)) => assert_eq!(s, "VeloCache Root CA (Development)"),
        Some(rcgen::DnValue::Utf8String(s)) => assert_eq!(s, "VeloCache Root CA (Development)"),
        other => panic!("unexpected common name {:?}", other),
    }
    assert!(matches!(params.is_ca, rcgen::IsCa::Ca(rcgen::BasicConstraints::Unconstrained)));
    assert!(params.subject_alt_names.is_empty());
    assert!(std::ptr::eq(params.alg, &rcgen::PKCS_ECDSA_P256_SHA256));
    assert_eq!(params.distinguished_name.iter().count(), 2);
    assert!(params.key_usages.is_empty() && params.extended_key_usages.is_empty());
    assert!(params.name_constraints.is_none());
}

#[test]
fn leaf_params_name_the_domain_twice() {
    let p = params_for(&leaf_request("example.com"));
    assert_eq!(
        p.subject_alt_names,
        vec![rcgen::SanType::DnsName("example.com".to_string()), rcgen::SanType::DnsName("example.com".to_string())]
    );
    assert!(matches!(p.is_ca, rcgen::IsCa::NoCa));
    assert_eq!(
        p.distinguished_name.get(&rcgen::DnType::CommonName),
        Some(&rcgen::DnValue::Utf8String("rcgen self signed cert".to_string()))
    );
    let ip = params_for(&leaf_request("127.0.0.1"));
    assert_eq!(
        ip.subject_alt_names,
        vec![
            rcgen::SanType::IpAddress("127.0.0.1".parse().unwrap()),
            rcgen::SanType::DnsName("127.0.0.1".to_string())
        ]
    );
}

#[test]
fn root_params_are_an_unconstrained_velocache_ca() {
    let p = params_for(&root_request());
    assert!(p.subject_alt_names.is_empty());
    assert_eq!(
        p.distinguished_name.get(&rcgen::DnType::OrganizationName),
        Some(&rcgen::DnValue::Utf8String("VeloCache".to_string()))
    );
    assert_eq!(
        p.distinguished_name.get(&rcgen::DnType::CommonName),
        Some(&rcgen::DnValue::Utf8String("VeloCache Root CA (Development)".to_string()))
    );
    assert!(matches!(p.is_ca, rcgen::IsCa::Ca(rcgen::BasicConstraints::Unconstrained)));
    assert!(std::ptr::eq(p.alg, &rcgen::PKCS_ECDSA_P256_SHA256));
}

#[test]
fn unreadable_certificate_text_fails_to_load() {
    let (_ca, root) = match CertificateAuthority::generate("certs".to_string()) {
        Ok(x) => x,
        Err(_) => panic!("generating a root certificate works"),
    };
    assert!(matches!(
        CertificateAuthority::load("dir".to_string(), &root.key_pem, &root.key_pem),
        Err(CertError::Certificate(_))
    ));
}

#[test]
fn stored_root_reloads_with_its_key_and_name() {
    let (_ca, root) = match CertificateAuthority::generate("certs".to_string()) {
        Ok(x) => x,
        Err(_) => panic!("generating a root certificate works"),
    };
    assert!(CertificateAuthority::load("certs".to_string(), &root.cert_pem, &root.key_pem).is_ok());
    let key = rcgen::KeyPair::from_pem(&root.key_pem).expect("the key text reads back");
    assert_eq!(key.serialize_pem(), root.key_pem);
}

#[test]
fn key_of_another_algorithm_does_not_load() {
    let (_ca, root) = match CertificateAuthority::generate("certs".to_string()) {
        Ok(x) => x,
        Err(_) => panic!("generating a root certificate works"),
    };
    let other = rcgen::KeyPair::generate(&rcgen::PKCS_ECDSA_P384_SHA384).expect("a P-384 key pair");
    assert!(matches!(
        CertificateAuthority::load("certs".to_string(), &root.cert_pem, &other.serialize_pem()),
        Err(CertError::Certificate(_))
    ));
}
