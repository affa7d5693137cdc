//! Downstream TLS delivery: the code-owned security profile, the strict ALPN selection and the
//! validated material references a TLS listener is built from. Certificate and key material is
//! read once by the transport immediately before the listener is built; the gateway never
//! issues, rotates or persists TLS identity material.

use vstd::prelude::*;
use vstd::string::*;

use crate::downstream_tls::{config_error_message, path_error, DownstreamTlsConfig, DownstreamTlsConfigError};

verus! {

/// ALPN identifier of HTTP/2.
pub const H2_ALPN: [u8; 2] = [104u8, 50u8];
/// ALPN identifier of HTTP/1.1.
pub const HTTP1_ALPN: [u8; 8] = [104u8, 116u8, 116u8, 112u8, 47u8, 49u8, 46u8, 49u8];

/// TLS 1.2 compatibility ciphers admitted by the downstream profile: ephemeral ECDHE key
/// exchange with AEAD only.
pub const DOWNSTREAM_TLS12_CIPHER_LIST: &'static str = "ECDHE-ECDSA-AES128-GCM-SHA256:ECDHE-RSA-AES128-GCM-SHA256:ECDHE-ECDSA-AES256-GCM-SHA384:ECDHE-RSA-AES256-GCM-SHA384:ECDHE-ECDSA-CHACHA20-POLY1305:ECDHE-RSA-CHACHA20-POLY1305";

/// TLS 1.3 AEAD suites admitted by the downstream profile.
pub const DOWNSTREAM_TLS13_CIPHERSUITES: &'static str = "TLS_AES_128_GCM_SHA256:TLS_AES_256_GCM_SHA384:TLS_CHACHA20_POLY1305_SHA256";

/// Reasons validated downstream TLS configuration cannot become a TLS listener.
#[derive(Debug, Clone, PartialEq, Eq)]
pub enum DownstreamTlsDeliveryError {
    /// The transport-neutral TLS declaration is invalid.
    InvalidConfig(DownstreamTlsConfigError),
    /// A configured filesystem reference cannot be represented as UTF-8 text.
    NonUtf8Path {
        /// Configuration field whose path cannot be represented.
        field: String,
    },
    /// The certificate or key material could not be loaded or does not match.
    Materialization(String),
    /// The TLS backend rejected the code-owned security profile.
    SecurityProfile(String),
}

/// [`DownstreamTlsDeliveryError`] with its text as character sequences.
pub enum DownstreamTlsDeliveryErrorView {
    InvalidConfig(DownstreamTlsConfigError),
    NonUtf8Path(Seq<char>),
    Materialization(Seq<char>),
    SecurityProfile(Seq<char>),
}

impl View for DownstreamTlsDeliveryError {
    type V = DownstreamTlsDeliveryErrorView;

    open spec fn view(&self) -> DownstreamTlsDeliveryErrorView {
        match self {
            DownstreamTlsDeliveryError::InvalidConfig(e) => DownstreamTlsDeliveryErrorView::InvalidConfig(*e),
            DownstreamTlsDeliveryError::NonUtf8Path { field } => DownstreamTlsDeliveryErrorView::NonUtf8Path(field@),
            DownstreamTlsDeliveryError::Materialization(m) => DownstreamTlsDeliveryErrorView::Materialization(m@),
            DownstreamTlsDeliveryError::SecurityProfile(m) => DownstreamTlsDeliveryErrorView::SecurityProfile(m@),
        }
    }
}

impl DownstreamTlsDeliveryError {
    /// Human-readable description of the failure.
    pub fn message(&self) -> (r: String)
        ensures
            match self@ {
                DownstreamTlsDeliveryErrorView::NonUtf8Path(f) => r@ == "downstream TLS "@ + f + " path is not valid UTF-8"@,
                DownstreamTlsDeliveryErrorView::Materialization(m) => r@ == "unable to materialize downstream TLS settings: "@ + m,
                DownstreamTlsDeliveryErrorView::SecurityProfile(m) => r@ == "unable to apply downstream TLS security profile: "@ + m,
                DownstreamTlsDeliveryErrorView::InvalidConfig(e) => r@ == config_error_message(e),
            },
    {
        match self {
            DownstreamTlsDeliveryError::InvalidConfig(e) => e.message().to_owned(),
            DownstreamTlsDeliveryError::NonUtf8Path { field } => {
                let mut r = String::from_str("downstream TLS ");
                r.append(field.as_str());
                r.append(" path is not valid UTF-8");
                r
            },
            DownstreamTlsDeliveryError::Materialization(m) => String::from_str("unable to materialize downstream TLS settings: ").concat(m.as_str()),
            DownstreamTlsDeliveryError::SecurityProfile(m) => String::from_str("unable to apply downstream TLS security profile: ").concat(m.as_str()),
        }
    }
}

/// Wraps a TLS backend diagnostic about the security profile.
pub fn security_profile_error(error: &str) -> (r: DownstreamTlsDeliveryError)
    ensures
        r@ == DownstreamTlsDeliveryErrorView::SecurityProfile(error@),
{
    DownstreamTlsDeliveryError::SecurityProfile(error.to_owned())
}

/// The material references a TLS listener is built from, once the declaration validates.
pub fn downstream_tls_material(config: &DownstreamTlsConfig) -> (r: Result<(String, String), DownstreamTlsDeliveryError>)
    ensures
        match path_error(config.spec_certificate_chain_file(), DownstreamTlsConfigError::EmptyCertificateChainFile, DownstreamTlsConfigError::RelativeCertificateChainFile) {
            Some(e) => r matches Err(x) && x@ == DownstreamTlsDeliveryErrorView::InvalidConfig(e),
            None => match path_error(config.spec_private_key_file(), DownstreamTlsConfigError::EmptyPrivateKeyFile, DownstreamTlsConfigError::RelativePrivateKeyFile) {
                Some(e) => r matches Err(x) && x@ == DownstreamTlsDeliveryErrorView::InvalidConfig(e),
                None => r matches Ok(m) && m.0@ == config.spec_certificate_chain_file() && m.1@ == config.spec_private_key_file(),
            },
        },
{
    match config.validate() {
        Err(e) => return Err(DownstreamTlsDeliveryError::InvalidConfig(e)),
        Ok(()) => {},
    }
    Ok((config.certificate_chain_file().clone(), config.private_key_file().clone()))
}

/// The protocols of an ALPN wire list (each a length byte and that many bytes), or `None` when
/// an entry is empty or runs past the end.
pub open spec fn alpn_protocols(s: Seq<u8>) -> Option<Seq<Seq<u8>>>
    decreases s.len(),
{
    if s.len() == 0 {
        Some(Seq::empty())
    } else {
        let n = s[0] as int;
        if n == 0 || n > s.len() - 1 {
            None
        } else {
            match alpn_protocols(s.subrange(1 + n, s.len() as int)) {
                None => None,
                Some(rest) => Some(seq![s.subrange(1, 1 + n)] + rest),
            }
        }
    }
}

pub open spec fn h2_bytes() -> Seq<u8> {
    seq![104u8, 50u8]
}

pub open spec fn http1_bytes() -> Seq<u8> {
    seq![104u8, 116u8, 116u8, 112u8, 47u8, 49u8, 46u8, 49u8]
}

/// The protocol the `h2_http1` policy selects from a client's ALPN list: HTTP/2 when offered,
/// else HTTP/1.1 when offered; `None` for a malformed list or no overlap.
pub open spec fn h2_http1_choice(s: Seq<u8>) -> Option<Seq<u8>> {
    match alpn_protocols(s) {
        None => None,
        Some(ps) => if ps.contains(h2_bytes()) {
            Some(h2_bytes())
        } else if ps.contains(http1_bytes()) {
            Some(http1_bytes())
        } else {
            None
        },
    }
}

/// The `h2_http1` choice: on a well-formed ALPN list, HTTP/2 is chosen whenever the client offers
/// it, whatever else it offers; HTTP/1.1 is chosen when offered without HTTP/2; otherwise, and
/// on a malformed list, nothing is chosen. Whatever is chosen is one of the offered protocols.
pub proof fn lemma_h2_http1_selection(s: Seq<u8>)
    ensures
        alpn_protocols(s) is None ==> h2_http1_choice(s) is None,
        alpn_protocols(s) matches Some(ps) && ps.contains(seq![104u8, 50u8]) ==> h2_http1_choice(s) == Some(seq![104u8, 50u8]),
        alpn_protocols(s) matches Some(ps) && !ps.contains(seq![104u8, 50u8])
            && ps.contains(seq![104u8, 116u8, 116u8, 112u8, 47u8, 49u8, 46u8, 49u8]) ==> h2_http1_choice(s)
            == Some(seq![104u8, 116u8, 116u8, 112u8, 47u8, 49u8, 46u8, 49u8]),
        alpn_protocols(s) matches Some(ps) && !ps.contains(seq![104u8, 50u8])
            && !ps.contains(seq![104u8, 116u8, 116u8, 112u8, 47u8, 49u8, 46u8, 49u8]) ==> h2_http1_choice(s) is None,
        h2_http1_choice(s) matches Some(p) ==> (alpn_protocols(s) matches Some(ps) && ps.contains(p)),
{
}

/// The ALPN wire form of a protocol list: each protocol preceded by its length byte.
pub open spec fn alpn_wire(ps: Seq<Seq<u8>>) -> Seq<u8>
    decreases ps.len(),
{
    if ps.len() == 0 {
        Seq::empty()
    } else {
        seq![ps[0].len() as u8] + ps[0] + alpn_wire(ps.drop_first())
    }
}

/// A list of protocols, each one to 255 bytes long, is read back from its wire form unchanged.
pub proof fn lemma_alpn_wire_round_trip(ps: Seq<Seq<u8>>)
    requires
        forall|i: int| 0 <= i < ps.len() ==> 0 < (#[trigger] ps[i]).len() <= 255,
    ensures
        alpn_protocols(alpn_wire(ps)) == Some(ps),
    decreases ps.len(),
{
    if ps.len() > 0 {
        let rest = ps.drop_first();
        assert forall|i: int| 0 <= i < rest.len() implies 0 < (#[trigger] rest[i]).len() <= 255 by {
            assert(rest[i] == ps[i + 1]);
        }
        lemma_alpn_wire_round_trip(rest);
        let w = alpn_wire(ps);
        let n = ps[0].len() as int;
        assert(w[0] as int == n);
        assert(w.subrange(1, 1 + n) =~= ps[0]);
        assert(w.subrange(1 + n, w.len() as int) =~= alpn_wire(rest));
        assert(seq![ps[0]] + rest =~= ps);
    }
}

/// A client offering HTTP/2 among any protocols (each one to 255 bytes long) gets HTTP/2.
pub proof fn lemma_h2_offered_is_selected(ps: Seq<Seq<u8>>)
    requires
        forall|i: int| 0 <= i < ps.len() ==> 0 < (#[trigger] ps[i]).len() <= 255,
        ps.contains(seq![104u8, 50u8]),
    ensures
        h2_http1_choice(alpn_wire(ps)) == Some(seq![104u8, 50u8]),
{
    lemma_alpn_wire_round_trip(ps);
    lemma_h2_http1_selection(alpn_wire(ps));
}

/// The handshake must end with the fatal `no_application_protocol` alert.
#[derive(Debug, Clone, Copy, PartialEq, Eq, Structural)]
pub struct AlpnRejected;

fn bytes_eq(a: &[u8], from: usize, to: usize, b: &[u8]) -> (r: bool)
    requires
        from <= to <= a@.len(),
    ensures
        r == (a@.subrange(from as int, to as int) == b@),
{
    if to - from != b.len() {
        return false;
    }
    let mut i: usize = 0;
    while i < b.len()
        invariant
            i <= b@.len(),
            to - from == b@.len(),
            from <= to <= a@.len(),
            forall|k: int| 0 <= k < i ==> a@[from + k] == b@[k],
        decreases b.len() - i,
    {
        if a[from + i] != b[i] {
            assert(a@.subrange(from as int, to as int)[i as int] != b@[i as int]);
            return false;
        }
        i = i + 1;
    }
    assert(a@.subrange(from as int, to as int) =~= b@);
    true
}

/// Selects the highest-preference protocol admitted by the `h2_http1` policy: HTTP/2 when
/// offered, else HTTP/1.1; a malformed list or no overlap is refused, so the handshake fails.
pub fn select_h2_http1(client_protocols: &[u8]) -> (r: Result<Vec<u8>, AlpnRejected>)
    ensures
        match h2_http1_choice(client_protocols@) {
            Some(p) => r matches Ok(v) && v@ == p,
            None => r == Err::<Vec<u8>, AlpnRejected>(AlpnRejected),
        },
{
    let ghost s = client_protocols@;
    let ghost mut seen: Seq<Seq<u8>> = Seq::empty();
    let mut pos: usize = 0;
    let mut h2 = false;
    let mut http1 = false;
    let h2_alpn: &[u8] = &H2_ALPN;
    let http1_alpn: &[u8] = &HTTP1_ALPN;
    assert(h2_alpn@ =~= h2_bytes());
    assert(http1_alpn@ =~= http1_bytes());
    assert(s.subrange(0, s.len() as int) =~= s);
    assert(Seq::<Seq<u8>>::empty() + Seq::<Seq<u8>>::empty() =~= Seq::<Seq<u8>>::empty());
    while pos < client_protocols.len()
        invariant
            s == client_protocols@,
            h2_alpn@ == h2_bytes(),
            http1_alpn@ == http1_bytes(),
            pos <= s.len(),
            match alpn_protocols(s.subrange(pos as int, s.len() as int)) {
                None => alpn_protocols(s) is None,
                Some(rest) => alpn_protocols(s) == Some(seen + rest),
            },
            h2 == seen.contains(h2_bytes()),
            http1 == seen.contains(http1_bytes()),
        decreases s.len() - pos,
    {
        let length = client_protocols[pos] as usize;
        let ghost tail = s.subrange(pos as int, s.len() as int);
        assert(tail[0] == s[pos as int]);
        if length == 0 || length > client_protocols.len() - pos - 1 {
            return Err(AlpnRejected);
        }
        let start = pos + 1;
        let end = start + length;
        let ghost entry = s.subrange(start as int, end as int);
        assert(tail.subrange(1, 1 + length) =~= entry);
        assert(tail.subrange(1 + length, tail.len() as int) =~= s.subrange(end as int, s.len() as int));
        let is_h2 = bytes_eq(client_protocols, start, end, h2_alpn);
        let is_http1 = bytes_eq(client_protocols, start, end, http1_alpn);
        if is_h2 {
            h2 = true;
        }
        if is_http1 {
            http1 = true;
        }
        proof {
            match alpn_protocols(s.subrange(end as int, s.len() as int)) {
                None => {},
                Some(rest) => {
                    assert(seen + (seq![entry] + rest) =~= seen.push(entry) + rest);
                },
            }
            assert(seen.push(entry).contains(h2_bytes()) == (seen.contains(h2_bytes()) || entry == h2_bytes())) by {
                if seen.push(entry).contains(h2_bytes()) && !(entry == h2_bytes()) {
                    let k = choose|k: int| 0 <= k < seen.push(entry).len() && seen.push(entry)[k] == h2_bytes();
                    assert(k < seen.len());
                    assert(seen[k] == h2_bytes());
                }
                if seen.contains(h2_bytes()) {
                    let k = choose|k: int| 0 <= k < seen.len() && seen[k] == h2_bytes();
                    assert(seen.push(entry)[k] == h2_bytes());
                }
                if entry == h2_bytes() {
                    assert(seen.push(entry)[seen.len() as int] == h2_bytes());
                }
            }
            assert(seen.push(entry).contains(http1_bytes()) == (seen.contains(http1_bytes()) || entry == http1_bytes())) by {
                if seen.push(entry).contains(http1_bytes()) && !(entry == http1_bytes()) {
                    let k = choose|k: int| 0 <= k < seen.push(entry).len() && seen.push(entry)[k] == http1_bytes();
                    assert(k < seen.len());
                    assert(seen[k] == http1_bytes());
                }
                if seen.contains(http1_bytes()) {
                    let k = choose|k: int| 0 <= k < seen.len() && seen[k] == http1_bytes();
                    assert(seen.push(entry)[k] == http1_bytes());
                }
                if entry == http1_bytes() {
                    assert(seen.push(entry)[seen.len() as int] == http1_bytes());
                }
            }
            seen = seen.push(entry);
        }
        pos = end;
    }
    assert(s.subrange(pos as int, s.len() as int) =~= Seq::<u8>::empty());
    assert(seen + Seq::<Seq<u8>>::empty() =~= seen);
    if h2 {
        let v = vec![104u8, 50u8];
        assert(v@ =~= h2_bytes());
        Ok(v)
    } else if http1 {
        let v = vec![104u8, 116u8, 116u8, 112u8, 47u8, 49u8, 46u8, 49u8];
        assert(v@ =~= http1_bytes());
        Ok(v)
    } else {
        Err(AlpnRejected)
    }
}

} // verus!
