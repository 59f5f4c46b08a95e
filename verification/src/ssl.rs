//! The per-connection handshake object model: the state this crate decides
//! about before the engine collaborator drives the handshake — the name sent
//! for protocol-level indication, the native matcher's parameters, and the
//! verification context slot the callback path reads.

use vstd::prelude::*;

use crate::profile::{ErrorStack, SslContext, ctx_eq};

verus! {

/// The view of an optional byte vector.
pub open spec fn opt_view(o: Option<Vec<u8>>) -> Option<Seq<u8>> {
    match o {
        Some(v) => Some(v@),
        None => None,
    }
}

/// The native matcher's per-connection parameters.
pub struct VerifyParam {
    /// Partial-wildcard patterns (`*.*.example.com`-style) disabled.
    pub no_partial_wildcards: bool,
    /// The expected DNS name, when the domain is one.
    pub host: Option<Vec<u8>>,
    /// The expected address octets, when the domain is an IP.
    pub ip: Option<Vec<u8>>,
}

/// One connection attempt's handshake object. It is derived from a shared
/// frozen context, used by exactly one connection attempt, and discarded when
/// the attempt ends.
pub struct Ssl {
    /// This session's copy of the shared context's settings.
    pub context: SslContext,
    /// The name attached for protocol-level name indication.
    pub hostname: Option<Vec<u8>>,
    /// The native matcher's parameters.
    pub param: VerifyParam,
    /// The verification context slot: the expected domain, written once
    /// before the handshake starts and read by the chain callback.
    pub verify_domain: Option<Vec<u8>>,
}

/// A handshake object that nothing was attached to yet.
pub open spec fn ssl_is_fresh(s: Ssl) -> bool {
    &&& s.hostname is None
    &&& !s.param.no_partial_wildcards
    &&& s.param.host is None
    &&& s.param.ip is None
    &&& s.verify_domain is None
}

impl Ssl {
    /// A fresh handshake object carrying the shared context's settings.
    pub fn new(context: &SslContext) -> (r: Result<Ssl, ErrorStack>)
        ensures
            r matches Ok(s) && ctx_eq(s.context, *context) && ssl_is_fresh(s),
    {
        Ok(
            Ssl {
                context: context.duplicate(),
                hostname: None,
                param: VerifyParam { no_partial_wildcards: false, host: None, ip: None },
                verify_domain: None,
            },
        )
    }

    /// Attaches the domain for protocol-level name indication.
    pub fn set_hostname(&mut self, domain: &[u8]) -> (r: Result<(), ErrorStack>)
        ensures
            r is Ok,
            opt_view(final (self).hostname) == Some(domain@),
            final (self).context == old(self).context,
            final (self).param == old(self).param,
            final (self).verify_domain == old(self).verify_domain,
    {
        self.hostname = Some(vstd::slice::slice_to_vec(domain));
        Ok(())
    }

}

} // verus!
