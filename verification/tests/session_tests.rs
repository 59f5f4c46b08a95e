use tls_harden::cert::{Certificate, GeneralName};
use tls_harden::connector::{SslAcceptor, SslConnector};
use tls_harden::dispatch::{X509VerifyResult, verify_callback};
use tls_harden::profile::{CurveCapability, EngineCaps, SslMethod};

fn caps_callback() -> EngineCaps {
    // A deployment without a native matcher: the callback strategy applies.
    EngineCaps {
        release_buffers_safe: true,
        native_hostname_check: false,
        curve_setup: CurveCapability::SetAuto,
        newest_version_control: true,
    }
}

fn caps_native() -> EngineCaps {
    EngineCaps {
        release_buffers_safe: true,
        native_hostname_check: true,
        curve_setup: CurveCapability::EngineDefault,
        newest_version_control: true,
    }
}

fn wildcard_cert() -> Certificate {
    Certificate {
        san: Some(vec![GeneralName::Dns(b"*.example.com".to_vec())]),
        subject: vec![],
    }
}

fn run_chain(connector: &SslConnector, domain: &[u8], cert: &Certificate) -> bool {
    let ssl = connector.connect(domain).unwrap();
    let verdict = verify_callback(true, 0, Some(cert), ssl.verify_domain.as_ref());
    verdict.accept
}

#[test]
fn client_accepts_wildcard_san_for_subdomain() {
    let connector =
        SslConnector::builder(SslMethod::tls(), caps_callback()).unwrap().build();
    assert!(run_chain(&connector, b"www.example.com", &wildcard_cert()));
}

#[test]
fn client_rejects_wildcard_san_for_bare_domain() {
    let connector =
        SslConnector::builder(SslMethod::tls(), caps_callback()).unwrap().build();
    assert!(!run_chain(&connector, b"example.com", &wildcard_cert()));
}

#[test]
fn client_rejects_dns_san_for_ip_domain() {
    let connector =
        SslConnector::builder(SslMethod::tls(), caps_callback()).unwrap().build();
    assert!(!run_chain(&connector, b"10.0.0.1", &wildcard_cert()));
}

#[test]
fn rejection_sets_the_application_verification_code() {
    let connector =
        SslConnector::builder(SslMethod::tls(), caps_callback()).unwrap().build();
    let ssl = connector.connect(b"example.com").unwrap();
    let verdict = verify_callback(true, 0, Some(&wildcard_cert()), ssl.verify_domain.as_ref());
    assert!(!verdict.accept);
    assert_eq!(verdict.set_error, Some(X509VerifyResult::ApplicationVerification));
}

#[test]
fn callback_passes_non_leaf_and_failed_chains_through() {
    let cert = wildcard_cert();
    let domain = b"other.test".to_vec();
    // A non-leaf position passes through even with a mismatched domain.
    let up = verify_callback(true, 1, Some(&cert), Some(&domain));
    assert!(up.accept);
    assert_eq!(up.set_error, None);
    // A pre-existing failure is never overridden to success.
    let failed = verify_callback(false, 0, Some(&cert), Some(&domain));
    assert!(!failed.accept);
    assert_eq!(failed.set_error, None);
}

#[test]
fn callback_without_registered_domain_accepts() {
    let cert = wildcard_cert();
    let verdict = verify_callback(true, 0, Some(&cert), None);
    assert!(verdict.accept);
    assert_eq!(verdict.set_error, None);
}

#[test]
fn connect_attaches_the_name_for_indication() {
    let connector =
        SslConnector::builder(SslMethod::tls(), caps_callback()).unwrap().build();
    let ssl = connector.connect(b"www.example.com").unwrap();
    assert_eq!(ssl.hostname, Some(b"www.example.com".to_vec()));
    assert_eq!(ssl.verify_domain, Some(b"www.example.com".to_vec()));
}

#[test]
fn sni_toggle_controls_name_indication_independently() {
    let connector =
        SslConnector::builder(SslMethod::tls(), caps_callback()).unwrap().build();
    let conf = connector.configure().unwrap().use_server_name_indication(false);
    let ssl = conf.connect(b"www.example.com").unwrap();
    assert_eq!(ssl.hostname, None);
    assert_eq!(ssl.verify_domain, Some(b"www.example.com".to_vec()));
}

#[test]
fn verify_toggle_controls_registration_independently() {
    let connector =
        SslConnector::builder(SslMethod::tls(), caps_callback()).unwrap().build();
    let conf = connector.configure().unwrap().verify_hostname(false);
    let ssl = conf.connect(b"www.example.com").unwrap();
    assert_eq!(ssl.hostname, Some(b"www.example.com".to_vec()));
    assert_eq!(ssl.verify_domain, None);
    // With nothing registered, the callback lets intact chains through.
    let verdict = verify_callback(true, 0, Some(&wildcard_cert()), ssl.verify_domain.as_ref());
    assert!(verdict.accept);
}

#[test]
fn both_toggles_default_to_enabled() {
    let connector =
        SslConnector::builder(SslMethod::tls(), caps_callback()).unwrap().build();
    let conf = connector.configure().unwrap();
    assert!(conf.sni);
    assert!(conf.verify_hostname);
}

#[test]
fn native_strategy_arms_the_engine_matcher() {
    let connector = SslConnector::builder(SslMethod::tls(), caps_native()).unwrap().build();
    let ssl = connector.connect(b"www.example.com").unwrap();
    assert!(ssl.param.no_partial_wildcards);
    assert_eq!(ssl.param.host, Some(b"www.example.com".to_vec()));
    assert_eq!(ssl.param.ip, None);
    assert_eq!(ssl.verify_domain, None);
}

#[test]
fn native_strategy_sets_ip_for_address_domains() {
    let connector = SslConnector::builder(SslMethod::tls(), caps_native()).unwrap().build();
    let ssl = connector.connect(b"10.0.0.1").unwrap();
    assert_eq!(ssl.param.ip, Some(vec![10, 0, 0, 1]));
    assert_eq!(ssl.param.host, None);
}

#[test]
fn acceptance_uses_context_defaults() {
    let acceptor =
        SslAcceptor::mozilla_intermediate(SslMethod::tls(), caps_callback()).unwrap().build();
    let ssl = acceptor.accept().unwrap();
    assert_eq!(ssl.hostname, None);
    assert_eq!(ssl.verify_domain, None);
    assert!(ssl.context.options.no_compression);
}

#[test]
fn identical_sessions_decide_identically() {
    // Two contexts finalized from identical inputs accept and reject the
    // same certificates.
    let a = SslConnector::builder(SslMethod::tls(), caps_callback()).unwrap().build();
    let b = SslConnector::builder(SslMethod::tls(), caps_callback()).unwrap().build();
    let accept_cert = wildcard_cert();
    let reject_cert = Certificate {
        san: Some(vec![GeneralName::Dns(b"*.other.test".to_vec())]),
        subject: vec![],
    };
    for cert in [&accept_cert, &reject_cert] {
        assert_eq!(
            run_chain(&a, b"www.example.com", cert),
            run_chain(&b, b"www.example.com", cert)
        );
    }
}
