//! Downstream TLS configuration owned by the edge ingress boundary.
//!
//! Only what the gateway needs to consume an already provisioned server certificate and
//! negotiate an admitted application protocol is described here. Certificate issuance, renewal,
//! backup, identity lifecycle and private-key custody remain outside the gateway.

use vstd::prelude::*;

use crate::edge_contract::is_absolute_path;
use crate::text::{chars_of, is_blank, is_blank_str};

verus! {

/// Downstream application-protocol policy admitted by the current TLS contract.
#[derive(Debug, Clone, Copy, PartialEq, Eq, Structural)]
pub enum DownstreamAlpnPolicy {
    /// Prefer HTTP/2 while explicitly retaining HTTP/1.1 fallback through ALPN.
    H2Http1,
}

/// References to server-side TLS material supplied by the canonical certificate owner.
#[derive(Debug, Clone, PartialEq, Eq)]
pub struct DownstreamTlsConfig {
    certificate_chain_file: String,
    private_key_file: String,
    alpn: DownstreamAlpnPolicy,
}

/// Reasons a downstream TLS declaration cannot become listener authority.
#[derive(Debug, Clone, Copy, PartialEq, Eq, Structural)]
pub enum DownstreamTlsConfigError {
    /// The certificate-chain reference is empty or whitespace-only.
    EmptyCertificateChainFile,
    /// The certificate-chain reference is relative and could change meaning with the process cwd.
    RelativeCertificateChainFile,
    /// The private-key reference is empty or whitespace-only.
    EmptyPrivateKeyFile,
    /// The private-key reference is relative and could change meaning with the process cwd.
    RelativePrivateKeyFile,
}

/// The human-readable description of a declaration failure.
pub open spec fn config_error_message(e: DownstreamTlsConfigError) -> Seq<char> {
    match e {
        DownstreamTlsConfigError::EmptyCertificateChainFile => "downstream TLS certificate_chain_file must not be empty"@,
        DownstreamTlsConfigError::RelativeCertificateChainFile => "downstream TLS certificate_chain_file must be an absolute path"@,
        DownstreamTlsConfigError::EmptyPrivateKeyFile => "downstream TLS private_key_file must not be empty"@,
        DownstreamTlsConfigError::RelativePrivateKeyFile => "downstream TLS private_key_file must be an absolute path"@,
    }
}

impl DownstreamTlsConfigError {
    /// Human-readable description of the failure.
    pub fn message(&self) -> (r: &'static str)
        ensures
            r@ == config_error_message(*self),
    {
        match self {
            DownstreamTlsConfigError::EmptyCertificateChainFile => "downstream TLS certificate_chain_file must not be empty",
            DownstreamTlsConfigError::RelativeCertificateChainFile => "downstream TLS certificate_chain_file must be an absolute path",
            DownstreamTlsConfigError::EmptyPrivateKeyFile => "downstream TLS private_key_file must not be empty",
            DownstreamTlsConfigError::RelativePrivateKeyFile => "downstream TLS private_key_file must be an absolute path",
        }
    }
}

/// The check a material reference fails, if any.
pub open spec fn path_error(p: Seq<char>, empty: DownstreamTlsConfigError, relative: DownstreamTlsConfigError) -> Option<DownstreamTlsConfigError> {
    if is_blank(p) {
        Some(empty)
    } else if !is_absolute_path(p) {
        Some(relative)
    } else {
        None
    }
}

/// Rejects an empty or whitespace-only reference, then a relative one.
pub fn validate_absolute_path(path: &str, empty_error: DownstreamTlsConfigError, relative_error: DownstreamTlsConfigError) -> (r: Result<(), DownstreamTlsConfigError>)
    ensures
        match path_error(path@, empty_error, relative_error) {
            Some(e) => r == Err::<(), DownstreamTlsConfigError>(e),
            None => r is Ok,
        },
{
    if is_blank_str(path) {
        return Err(empty_error);
    }
    let chars = chars_of(path);
    if chars.len() == 0 || chars[0] != '/' {
        return Err(relative_error);
    }
    Ok(())
}

impl DownstreamTlsConfig {
    pub closed spec fn spec_certificate_chain_file(&self) -> Seq<char> {
        self.certificate_chain_file@
    }

    pub closed spec fn spec_private_key_file(&self) -> Seq<char> {
        self.private_key_file@
    }

    pub closed spec fn spec_alpn(&self) -> DownstreamAlpnPolicy {
        self.alpn
    }

    /// A declaration of the given material references and protocol policy.
    pub fn new(certificate_chain_file: String, private_key_file: String, alpn: DownstreamAlpnPolicy) -> (r: Self)
        ensures
            r.spec_certificate_chain_file() == certificate_chain_file@,
            r.spec_private_key_file() == private_key_file@,
            r.spec_alpn() == alpn,
    {
        DownstreamTlsConfig { certificate_chain_file, private_key_file, alpn }
    }

    /// Validates the reference invariants without reading any secret material.
    pub fn validate(&self) -> (r: Result<(), DownstreamTlsConfigError>)
        ensures
            match path_error(self.spec_certificate_chain_file(), DownstreamTlsConfigError::EmptyCertificateChainFile, DownstreamTlsConfigError::RelativeCertificateChainFile) {
                Some(e) => r == Err::<(), DownstreamTlsConfigError>(e),
                None => match path_error(self.spec_private_key_file(), DownstreamTlsConfigError::EmptyPrivateKeyFile, DownstreamTlsConfigError::RelativePrivateKeyFile) {
                    Some(e) => r == Err::<(), DownstreamTlsConfigError>(e),
                    None => r is Ok,
                },
            },
    {
        validate_absolute_path(
            self.certificate_chain_file.as_str(),
            DownstreamTlsConfigError::EmptyCertificateChainFile,
            DownstreamTlsConfigError::RelativeCertificateChainFile,
        )?;
        validate_absolute_path(
            self.private_key_file.as_str(),
            DownstreamTlsConfigError::EmptyPrivateKeyFile,
            DownstreamTlsConfigError::RelativePrivateKeyFile,
        )?;
        Ok(())
    }

    /// Returns the certificate-chain reference supplied by the operator.
    pub fn certificate_chain_file(&self) -> (r: &String)
        ensures
            r@ == self.spec_certificate_chain_file(),
    {
        &self.certificate_chain_file
    }

    /// Returns the private-key reference supplied by the operator.
    pub fn private_key_file(&self) -> (r: &String)
        ensures
            r@ == self.spec_private_key_file(),
    {
        &self.private_key_file
    }

    /// Returns the explicit ALPN policy for the downstream listener.
    pub fn alpn(&self) -> (r: DownstreamAlpnPolicy)
        ensures
            r == self.spec_alpn(),
    {
        self.alpn
    }
}

} // verus!
