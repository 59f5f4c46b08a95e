use tls_harden::connector::{SslAcceptor, SslConnector};
use tls_harden::profile::{
    CurveCapability, CurveConfig, DhParams, EngineCaps, NamedCurve, SslMethod, SslVerifyMode,
    VerifyStrategy,
};

fn caps_legacy() -> EngineCaps {
    // An old engine: no native matcher, explicit curve, unsafe buffer release.
    EngineCaps {
        release_buffers_safe: false,
        native_hostname_check: false,
        curve_setup: CurveCapability::Explicit,
        newest_version_control: false,
    }
}

fn caps_current() -> EngineCaps {
    EngineCaps {
        release_buffers_safe: true,
        native_hostname_check: true,
        curve_setup: CurveCapability::EngineDefault,
        newest_version_control: true,
    }
}

#[test]
fn baseline_disables_legacy_protocols_and_compression() {
    let b = SslConnector::builder(SslMethod::tls(), caps_current()).unwrap();
    let ctx = b.build().0;
    assert!(ctx.options.no_compression);
    assert!(ctx.options.no_sslv2);
    assert!(ctx.options.no_sslv3);
    assert!(ctx.options.single_dh_use);
    assert!(ctx.options.single_ecdh_use);
    assert!(ctx.options.cipher_server_preference);
    assert!(!ctx.options.dont_insert_empty_fragments);
    assert!(ctx.mode.auto_retry);
    assert!(ctx.mode.accept_moving_write_buffer);
    assert!(ctx.mode.enable_partial_write);
}

#[test]
fn buffer_release_is_gated_on_engine_safety() {
    let safe = SslConnector::builder(SslMethod::tls(), caps_current()).unwrap().build().0;
    assert!(safe.mode.release_buffers);
    let unsafe_engine = SslConnector::builder(SslMethod::tls(), caps_legacy()).unwrap().build().0;
    assert!(!unsafe_engine.mode.release_buffers);
}

#[test]
fn client_profile_trusts_platform_store_and_verifies_peer() {
    let ctx = SslConnector::builder(SslMethod::tls(), caps_legacy()).unwrap().build().0;
    assert!(ctx.default_verify_paths);
    assert_eq!(ctx.verify_mode, SslVerifyMode::Peer);
    assert_eq!(ctx.verify_strategy, Some(VerifyStrategy::Callback));
    let native = SslConnector::builder(SslMethod::tls(), caps_current()).unwrap().build().0;
    assert_eq!(native.verify_strategy, Some(VerifyStrategy::Native));
}

#[test]
fn client_cipher_list_excludes_weak_suites() {
    let ctx = SslConnector::builder(SslMethod::tls(), caps_current()).unwrap().build().0;
    assert!(ctx.supports_cipher(b"DEFAULT"));
    // Exclusion entries are not offered suites.
    assert!(!ctx.supports_cipher(b"!MD5"));
    assert!(!ctx.supports_cipher(b"MD5"));
}

#[test]
fn intermediate_profile_installs_dh_and_broad_list() {
    let ctx = SslAcceptor::mozilla_intermediate(SslMethod::tls(), caps_current())
        .unwrap()
        .build()
        .0;
    assert_eq!(ctx.dh_params, Some(DhParams::Ffdhe2048));
    assert!(ctx.options.no_tlsv1_3);
    assert!(!ctx.options.no_tlsv1);
    assert!(ctx.supports_cipher(b"ECDHE-RSA-AES128-GCM-SHA256"));
    assert!(ctx.supports_cipher(b"AES128-SHA"));
    assert!(ctx.supports_cipher(b"DES-CBC3-SHA"));
}

#[test]
fn modern_profile_disables_old_versions_and_pre_fs_suites() {
    let ctx = SslAcceptor::mozilla_modern(SslMethod::tls(), caps_current()).unwrap().build().0;
    assert_eq!(ctx.dh_params, None);
    assert!(ctx.options.no_tlsv1);
    assert!(ctx.options.no_tlsv1_1);
    assert!(ctx.options.no_tlsv1_3);
    assert!(ctx.supports_cipher(b"ECDHE-RSA-AES128-GCM-SHA256"));
    assert!(!ctx.supports_cipher(b"AES128-SHA"));
    assert!(!ctx.supports_cipher(b"DES-CBC3-SHA"));
}

#[test]
fn newest_version_stays_enabled_without_fine_grained_control() {
    let ctx = SslAcceptor::mozilla_modern(SslMethod::tls(), caps_legacy()).unwrap().build().0;
    assert!(!ctx.options.no_tlsv1_3);
}

#[test]
fn curve_setup_follows_engine_capability() {
    let explicit = SslAcceptor::mozilla_modern(SslMethod::tls(), caps_legacy()).unwrap().build().0;
    assert_eq!(explicit.curve, Some(CurveConfig::Named(NamedCurve::Prime256V1)));
    let auto_caps = EngineCaps { curve_setup: CurveCapability::SetAuto, ..caps_legacy() };
    let auto = SslAcceptor::mozilla_modern(SslMethod::tls(), auto_caps).unwrap().build().0;
    assert_eq!(auto.curve, Some(CurveConfig::Auto));
    let default = SslAcceptor::mozilla_modern(SslMethod::tls(), caps_current()).unwrap().build().0;
    assert_eq!(default.curve, None);
}

#[test]
fn modern_server_rejects_pre_forward_secret_only_offer() {
    // A handshake offering only a pre-forward-secret suite: "modern" finds no
    // common cipher, "intermediate" accepts the same offer.
    let offer = vec![b"AES128-SHA".to_vec()];
    let modern = SslAcceptor::mozilla_modern(SslMethod::tls(), caps_current()).unwrap().build().0;
    assert_eq!(modern.negotiate_cipher(&offer), None);
    let intermediate = SslAcceptor::mozilla_intermediate(SslMethod::tls(), caps_current())
        .unwrap()
        .build()
        .0;
    assert_eq!(intermediate.negotiate_cipher(&offer), Some(b"AES128-SHA".to_vec()));
}

#[test]
fn negotiation_prefers_the_server_order() {
    let intermediate = SslAcceptor::mozilla_intermediate(SslMethod::tls(), caps_current())
        .unwrap()
        .build()
        .0;
    let offer = vec![b"AES128-SHA".to_vec(), b"ECDHE-RSA-AES128-GCM-SHA256".to_vec()];
    // The server's list ranks the forward-secret suite first.
    assert_eq!(
        intermediate.negotiate_cipher(&offer),
        Some(b"ECDHE-RSA-AES128-GCM-SHA256".to_vec())
    );
}

#[test]
fn finalizing_twice_with_identical_inputs_is_deterministic() {
    let a = SslAcceptor::mozilla_modern(SslMethod::tls(), caps_current()).unwrap().build().0;
    let b = SslAcceptor::mozilla_modern(SslMethod::tls(), caps_current()).unwrap().build().0;
    assert_eq!(a.options, b.options);
    assert_eq!(a.mode, b.mode);
    assert_eq!(a.cipher_list, b.cipher_list);
    assert_eq!(a.verify_mode, b.verify_mode);
    assert_eq!(a.verify_strategy, b.verify_strategy);
    assert_eq!(a.dh_params, b.dh_params);
    assert_eq!(a.curve, b.curve);
    let offer = vec![b"AES128-SHA".to_vec(), b"ECDHE-RSA-AES256-GCM-SHA384".to_vec()];
    assert_eq!(a.negotiate_cipher(&offer), b.negotiate_cipher(&offer));
}
