use cwl_pingora_gateway::downstream_tls::{DownstreamAlpnPolicy, DownstreamTlsConfig, DownstreamTlsConfigError};
use cwl_pingora_gateway::tls_delivery::{
    downstream_tls_material, security_profile_error, select_h2_http1, DownstreamTlsDeliveryError, H2_ALPN, HTTP1_ALPN,
};

#[test]
fn security_profile_errors_preserve_backend_diagnostics() {
    assert_eq!(
        security_profile_error("profile rejected").message(),
        "unable to apply downstream TLS security profile: profile rejected"
    );
}

#[test]
fn strict_alpn_prefers_h2_even_when_http1_is_offered_first() {
    assert_eq!(select_h2_http1(b"\x08http/1.1\x02h2").expect("h2 should be selected"), H2_ALPN);
}

#[test]
fn strict_alpn_selects_http1_when_h2_is_absent() {
    assert_eq!(select_h2_http1(b"\x08http/1.1").expect("HTTP/1.1 should be selected"), HTTP1_ALPN);
}

#[test]
fn strict_alpn_rejects_no_overlap() {
    assert!(select_h2_http1(b"\x03foo").is_err());
    assert!(select_h2_http1(&[]).is_err());
}

#[test]
fn strict_alpn_rejects_malformed_wire_lists_without_panicking() {
    assert!(select_h2_http1(b"\x00").is_err());
    assert!(select_h2_http1(b"\x08http").is_err());
    assert!(select_h2_http1(b"\x02h2\x08http").is_err());
    assert!(select_h2_http1(b"\x08http/1.1\x00").is_err());
}

fn direct_config(certificate_chain_file: &str, private_key_file: &str) -> DownstreamTlsConfig {
    DownstreamTlsConfig::new(certificate_chain_file.to_string(), private_key_file.to_string(), DownstreamAlpnPolicy::H2Http1)
}

#[test]
fn delivery_propagates_config_validation_before_materialization() {
    let config = direct_config("relative.crt", "/tmp/key.pem");
    assert!(matches!(
        downstream_tls_material(&config),
        Err(DownstreamTlsDeliveryError::InvalidConfig(DownstreamTlsConfigError::RelativeCertificateChainFile))
    ));
}

#[test]
fn material_references_are_validated_in_order_and_preserved() {
    let config = direct_config("/etc/tls/server.crt", "/etc/tls/server.key");
    assert_eq!(config.validate(), Ok(()));
    assert_eq!(config.certificate_chain_file(), "/etc/tls/server.crt");
    assert_eq!(config.private_key_file(), "/etc/tls/server.key");
    assert_eq!(config.alpn(), DownstreamAlpnPolicy::H2Http1);
    assert_eq!(
        downstream_tls_material(&config),
        Ok(("/etc/tls/server.crt".to_string(), "/etc/tls/server.key".to_string()))
    );
    assert_eq!(direct_config("  ", "/k").validate(), Err(DownstreamTlsConfigError::EmptyCertificateChainFile));
    assert_eq!(direct_config("/c", "").validate(), Err(DownstreamTlsConfigError::EmptyPrivateKeyFile));
    assert_eq!(direct_config("/c", "k.pem").validate(), Err(DownstreamTlsConfigError::RelativePrivateKeyFile));
    assert_eq!(
        DownstreamTlsConfigError::RelativePrivateKeyFile.message(),
        "downstream TLS private_key_file must be an absolute path"
    );
}
