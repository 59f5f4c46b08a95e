//! Verification dispatch: the chain-verification callback that the
//! callback strategy registers, and the per-connection arming of either
//! strategy with the expected domain.
//!
//! The callback is invoked by the handshake machinery once per certificate
//! in the peer's chain, with a running preverification result and the chain
//! position (0 = leaf). It acts only at the leaf and only when
//! preverification has not already failed; rejection overrides the chain
//! result with a distinguished application-verification failure. Both
//! strategies are pure decision logic; neither performs any I/O here.

use vstd::prelude::*;

use crate::cert::Certificate;
use crate::ip::{parse_ip, spec_parse_ip};
use crate::profile::ErrorStack;
use crate::ssl::{Ssl, opt_view};
use crate::verify::{spec_verify_hostname, verify_hostname};

verus! {

/// The one distinguished terminal verification-result code this crate sets.
#[derive(Clone, Copy, PartialEq, Eq, Structural, Debug)]
pub enum X509VerifyResult {
    ApplicationVerification,
}

/// What one callback invocation decides: the chain result to report, and the
/// terminal code to set, if any.
#[derive(Clone, Copy, PartialEq, Eq, Structural, Debug)]
pub struct CallbackVerdict {
    /// The verification result handed back to the chain walk.
    pub accept: bool,
    /// The terminal code written into the chain state on rejection.
    pub set_error: Option<X509VerifyResult>,
}

/// The callback's decision: pre-existing failures and non-leaf positions pass
/// through unchanged; at an intact leaf, the hostname verifier decides when
/// both a certificate and a registered domain are at hand, and a rejection
/// sets the application-verification code.
pub open spec fn spec_verify_callback(
    preverify_ok: bool,
    depth: int,
    cert: Option<Certificate>,
    domain: Option<Seq<u8>>,
) -> CallbackVerdict {
    if !preverify_ok || depth != 0 {
        CallbackVerdict { accept: preverify_ok, set_error: None }
    } else {
        let ok = match (cert, domain) {
            (Some(c), Some(d)) => spec_verify_hostname(d, c),
            _ => true,
        };
        CallbackVerdict {
            accept: ok,
            set_error: if ok {
                None
            } else {
                Some(X509VerifyResult::ApplicationVerification)
            },
        }
    }
}

/// Runs one step of the callback strategy, as `spec_verify_callback` states
/// it. The expected domain is the value the verification context slot holds
/// for the current handshake.
pub fn verify_callback(
    preverify_ok: bool,
    depth: usize,
    cert: Option<&Certificate>,
    domain: Option<&Vec<u8>>,
) -> (r: CallbackVerdict)
    ensures
        r == spec_verify_callback(
            preverify_ok,
            depth as int,
            match cert {
                Some(c) => Some(*c),
                None => None,
            },
            match domain {
                Some(d) => Some(d@),
                None => None,
            },
        ),
{
    if !preverify_ok || depth != 0 {
        return CallbackVerdict { accept: preverify_ok, set_error: None };
    }
    let ok = match (cert, domain) {
        (Some(c), Some(d)) => verify_hostname(d.as_slice(), c),
        _ => true,
    };
    CallbackVerdict {
        accept: ok,
        set_error: if ok {
            None
        } else {
            Some(X509VerifyResult::ApplicationVerification)
        },
    }
}

/// Arms the session's verification with the expected domain, before the
/// handshake starts: the native strategy fills the engine matcher's
/// parameters (partial wildcards disabled; the address octets for an IP
/// domain, the name otherwise), the callback strategy writes the
/// verification context slot.
pub fn setup_verify_hostname(ssl: &mut Ssl, domain: &[u8]) -> (r: Result<(), ErrorStack>)
    ensures
        r is Ok,
        final (ssl).context == old(ssl).context,
        final (ssl).hostname == old(ssl).hostname,
        old(ssl).context.caps.native_hostname_check ==> {
            &&& final (ssl).param.no_partial_wildcards
            &&& match spec_parse_ip(domain@) {
                Some(octets) => opt_view(final (ssl).param.ip) == Some(octets) && final (
                ssl).param.host == old(ssl).param.host,
                None => opt_view(final (ssl).param.host) == Some(domain@) && final (ssl).param.ip
                    == old(ssl).param.ip,
            }
            &&& final (ssl).verify_domain == old(ssl).verify_domain
        },
        !old(ssl).context.caps.native_hostname_check ==> {
            &&& opt_view(final (ssl).verify_domain) == Some(domain@)
            &&& final (ssl).param == old(ssl).param
        },
{
    if ssl.context.caps.native_hostname_check {
        ssl.param.no_partial_wildcards = true;
        match parse_ip(domain) {
            Some(ip) => {
                ssl.param.ip = Some(ip.to_octets());
            },
            None => {
                ssl.param.host = Some(vstd::slice::slice_to_vec(domain));
            },
        }
        Ok(())
    } else {
        ssl.verify_domain = Some(vstd::slice::slice_to_vec(domain));
        Ok(())
    }
}

/// What a finished session's callback path decides about a peer certificate
/// at an intact leaf, given the domain its context slot holds.
pub open spec fn session_decides(ssl: Ssl, cert: Certificate) -> bool {
    spec_verify_callback(true, 0, Some(cert), opt_view(ssl.verify_domain)).accept
}

/// A session whose slot holds a domain decides exactly as the hostname
/// verifier does for that domain: rejection surfaces as a handshake failure,
/// not a distinct error type.
pub proof fn lemma_registered_domain_decides(ssl: Ssl, domain: Seq<u8>, cert: Certificate)
    requires
        opt_view(ssl.verify_domain) == Some(domain),
    ensures
        session_decides(ssl, cert) == spec_verify_hostname(domain, cert),
{
}

/// A session with hostname verification switched off lets every chain the
/// engine accepted through.
pub proof fn lemma_unregistered_session_passes(ssl: Ssl, cert: Certificate)
    requires
        ssl.verify_domain is None,
    ensures
        session_decides(ssl, cert),
{
}

/// Pre-existing failures and non-leaf positions pass through unchanged, with
/// no terminal code set.
pub proof fn lemma_callback_passthrough(
    preverify_ok: bool,
    depth: int,
    cert: Option<Certificate>,
    domain: Option<Seq<u8>>,
)
    requires
        !preverify_ok || depth != 0,
    ensures
        spec_verify_callback(preverify_ok, depth, cert, domain).accept == preverify_ok,
        spec_verify_callback(preverify_ok, depth, cert, domain).set_error is None,
{
}

} // verus!
