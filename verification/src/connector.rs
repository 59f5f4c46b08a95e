//! Client connectors and server acceptors: secure default profiles for both
//! roles, finalization into immutable shared contexts, and the per-connection
//! session configuration that arms name indication and hostname verification
//! before the engine collaborator drives the handshake.

use vstd::prelude::*;
use vstd::string::StringSliceAdditionalSpecFns;

use crate::dispatch::setup_verify_hostname;
use crate::ip::spec_parse_ip;
use crate::profile::{
    DhParams, EngineCaps, ErrorStack, SslContext, SslContextBuilder, SslMethod, SslOptions,
    SslVerifyMode, baseline_mode, baseline_options, ctx, ctx_eq, curve_choice, setup_curves,
    setup_verify, strategy_for,
};
use crate::ssl::{Ssl, opt_view, ssl_is_fresh};

verus! {

/// The client cipher selection: a modern, forward-secrecy-preferring set with
/// null, export and weak suites excluded.
pub open spec fn client_cipher_list() -> Seq<u8> {
    ("DEFAULT:!aNULL:!eNULL:!MD5:!3DES:!DES:!RC4:!IDEA:!SEED:!aDSS:!SRP:!PSK").spec_bytes()
}

/// The client cipher selection, as the bytes handed to a context.
pub fn client_cipher_list_bytes() -> (r: Vec<u8>)
    ensures
        r@ == client_cipher_list(),
{
    vstd::slice::slice_to_vec(
        ("DEFAULT:!aNULL:!eNULL:!MD5:!3DES:!DES:!RC4:!IDEA:!SEED:!aDSS:!SRP:!PSK").as_bytes(),
    )
}

/// The "intermediate" server selection: a broad forward-secrecy-preferring
/// list that still allows some pre-forward-secret suites for legacy clients.
pub open spec fn intermediate_cipher_list() -> Seq<u8> {
    (
    "ECDHE-ECDSA-CHACHA20-POLY1305:ECDHE-RSA-CHACHA20-POLY1305:ECDHE-ECDSA-AES128-GCM-SHA256:ECDHE-RSA-AES128-GCM-SHA256:ECDHE-ECDSA-AES256-GCM-SHA384:ECDHE-RSA-AES256-GCM-SHA384:DHE-RSA-AES128-GCM-SHA256:DHE-RSA-AES256-GCM-SHA384:ECDHE-ECDSA-AES128-SHA256:ECDHE-RSA-AES128-SHA256:ECDHE-ECDSA-AES128-SHA:ECDHE-RSA-AES256-SHA384:ECDHE-RSA-AES128-SHA:ECDHE-ECDSA-AES256-SHA384:ECDHE-ECDSA-AES256-SHA:ECDHE-RSA-AES256-SHA:DHE-RSA-AES128-SHA256:DHE-RSA-AES128-SHA:DHE-RSA-AES256-SHA256:DHE-RSA-AES256-SHA:ECDHE-ECDSA-DES-CBC3-SHA:ECDHE-RSA-DES-CBC3-SHA:EDH-RSA-DES-CBC3-SHA:AES128-GCM-SHA256:AES256-GCM-SHA384:AES128-SHA256:AES256-SHA256:AES128-SHA:AES256-SHA:DES-CBC3-SHA:!DSS").spec_bytes()
}

/// The "intermediate" server selection, as the bytes handed to a context.
pub fn intermediate_cipher_list_bytes() -> (r: Vec<u8>)
    ensures
        r@ == intermediate_cipher_list(),
{
    vstd::slice::slice_to_vec(
        (
        "ECDHE-ECDSA-CHACHA20-POLY1305:ECDHE-RSA-CHACHA20-POLY1305:ECDHE-ECDSA-AES128-GCM-SHA256:ECDHE-RSA-AES128-GCM-SHA256:ECDHE-ECDSA-AES256-GCM-SHA384:ECDHE-RSA-AES256-GCM-SHA384:DHE-RSA-AES128-GCM-SHA256:DHE-RSA-AES256-GCM-SHA384:ECDHE-ECDSA-AES128-SHA256:ECDHE-RSA-AES128-SHA256:ECDHE-ECDSA-AES128-SHA:ECDHE-RSA-AES256-SHA384:ECDHE-RSA-AES128-SHA:ECDHE-ECDSA-AES256-SHA384:ECDHE-ECDSA-AES256-SHA:ECDHE-RSA-AES256-SHA:DHE-RSA-AES128-SHA256:DHE-RSA-AES128-SHA:DHE-RSA-AES256-SHA256:DHE-RSA-AES256-SHA:ECDHE-ECDSA-DES-CBC3-SHA:ECDHE-RSA-DES-CBC3-SHA:EDH-RSA-DES-CBC3-SHA:AES128-GCM-SHA256:AES256-GCM-SHA384:AES128-SHA256:AES256-SHA256:AES128-SHA:AES256-SHA:DES-CBC3-SHA:!DSS").as_bytes(),
    )
}

/// The "modern" server selection: forward-secret, authenticated-encryption
/// suites only.
pub open spec fn modern_cipher_list() -> Seq<u8> {
    (
    "ECDHE-ECDSA-AES256-GCM-SHA384:ECDHE-RSA-AES256-GCM-SHA384:ECDHE-ECDSA-CHACHA20-POLY1305:ECDHE-RSA-CHACHA20-POLY1305:ECDHE-ECDSA-AES128-GCM-SHA256:ECDHE-RSA-AES128-GCM-SHA256:ECDHE-ECDSA-AES256-SHA384:ECDHE-RSA-AES256-SHA384:ECDHE-ECDSA-AES128-SHA256:ECDHE-RSA-AES128-SHA256").spec_bytes()
}

/// The "modern" server selection, as the bytes handed to a context.
pub fn modern_cipher_list_bytes() -> (r: Vec<u8>)
    ensures
        r@ == modern_cipher_list(),
{
    vstd::slice::slice_to_vec(
        (
        "ECDHE-ECDSA-AES256-GCM-SHA384:ECDHE-RSA-AES256-GCM-SHA384:ECDHE-ECDSA-CHACHA20-POLY1305:ECDHE-RSA-CHACHA20-POLY1305:ECDHE-ECDSA-AES128-GCM-SHA256:ECDHE-RSA-AES128-GCM-SHA256:ECDHE-ECDSA-AES256-SHA384:ECDHE-RSA-AES256-SHA384:ECDHE-ECDSA-AES128-SHA256:ECDHE-RSA-AES128-SHA256").as_bytes(),
    )
}

/// The client profile: baseline settings, the platform's default certificate
/// store trusted, the client cipher selection, peer verification demanded,
/// and the resolved hostname-verification strategy installed.
pub open spec fn is_client_profile(b: SslContextBuilder, method: SslMethod, caps: EngineCaps) -> bool {
    &&& b.method == method
    &&& b.caps == caps
    &&& b.options == baseline_options()
    &&& b.mode == baseline_mode(caps)
    &&& b.cipher_list@ == client_cipher_list()
    &&& b.default_verify_paths
    &&& b.verify_mode == SslVerifyMode::Peer
    &&& b.verify_strategy == Some(strategy_for(caps))
    &&& b.dh_params is None
    &&& b.curve is None
}

/// The "intermediate" server profile: baseline settings, the newest protocol
/// version disabled where the engine exposes that control, the fixed DH
/// parameter set, curves per the deployment's capability, and the broad
/// forward-secrecy-preferring cipher list.
pub open spec fn is_intermediate_profile(
    b: SslContextBuilder,
    method: SslMethod,
    caps: EngineCaps,
) -> bool {
    &&& b.method == method
    &&& b.caps == caps
    &&& b.options == (SslOptions { no_tlsv1_3: caps.newest_version_control, ..baseline_options() })
    &&& b.mode == baseline_mode(caps)
    &&& b.cipher_list@ == intermediate_cipher_list()
    &&& !b.default_verify_paths
    &&& b.verify_mode == SslVerifyMode::Disabled
    &&& b.verify_strategy is None
    &&& b.dh_params == Some(DhParams::Ffdhe2048)
    &&& b.curve == curve_choice(caps, None)
}

/// The "modern" server profile: baseline settings, the two older protocol
/// versions disabled outright (and the newest, under the same condition as
/// "intermediate"), curves per the deployment's capability, and the
/// forward-secret authenticated-encryption cipher list only.
pub open spec fn is_modern_profile(b: SslContextBuilder, method: SslMethod, caps: EngineCaps) -> bool {
    &&& b.method == method
    &&& b.caps == caps
    &&& b.options == (SslOptions {
        no_tlsv1: true,
        no_tlsv1_1: true,
        no_tlsv1_3: caps.newest_version_control,
        ..baseline_options()
    })
    &&& b.mode == baseline_mode(caps)
    &&& b.cipher_list@ == modern_cipher_list()
    &&& !b.default_verify_paths
    &&& b.verify_mode == SslVerifyMode::Disabled
    &&& b.verify_strategy is None
    &&& b.dh_params is None
    &&& b.curve == curve_choice(caps, None)
}

/// A type which wraps the client side of a TLS session: an immutable shared
/// context carrying secure defaults, cipher restriction and hostname
/// verification.
pub struct SslConnector(pub SslContext);

/// A builder for `SslConnector`s.
pub struct SslConnectorBuilder(pub SslContextBuilder);

/// A type which allows for configuration of one client-side session before
/// connection.
pub struct ConnectConfiguration {
    /// The handshake object this attempt owns.
    pub ssl: Ssl,
    /// Send the domain for protocol-level name indication.
    pub sni: bool,
    /// Verify the peer certificate's identity against the domain.
    pub verify_hostname: bool,
}

/// A session configuration that nothing was armed on yet, with both toggles
/// at their defaults.
pub open spec fn conf_is_fresh(c: ConnectConfiguration) -> bool {
    ssl_is_fresh(c.ssl)
}

/// The state `connect` leaves on the handshake object it returns, for a
/// session derived from `context` with the given toggles: the name attached
/// exactly when indication is on, and the expected domain armed through the
/// strategy the profile resolved — the native matcher's parameters, or the
/// verification context slot.
pub open spec fn connected_state(
    ssl: Ssl,
    context: SslContext,
    domain: Seq<u8>,
    sni: bool,
    verify: bool,
) -> bool {
    &&& ctx_eq(ssl.context, context)
    &&& opt_view(ssl.hostname) == (if sni {
        Some(domain)
    } else {
        None::<Seq<u8>>
    })
    &&& if verify {
        if context.caps.native_hostname_check {
            &&& ssl.param.no_partial_wildcards
            &&& match spec_parse_ip(domain) {
                Some(octets) => opt_view(ssl.param.ip) == Some(octets) && ssl.param.host is None,
                None => opt_view(ssl.param.host) == Some(domain) && ssl.param.ip is None,
            }
            &&& ssl.verify_domain is None
        } else {
            &&& opt_view(ssl.verify_domain) == Some(domain)
            &&& !ssl.param.no_partial_wildcards
            &&& ssl.param.host is None
            &&& ssl.param.ip is None
        }
    } else {
        &&& !ssl.param.no_partial_wildcards
        &&& ssl.param.host is None
        &&& ssl.param.ip is None
        &&& ssl.verify_domain is None
    }
}

/// End to end: a session prepared with hostname verification on, under the
/// callback strategy, is accepted by the chain walk exactly when the hostname
/// verifier accepts the peer certificate's identity for the requested domain.
pub proof fn lemma_connected_session_verifies(
    ssl: Ssl,
    context: SslContext,
    domain: Seq<u8>,
    sni: bool,
    cert: crate::cert::Certificate,
)
    requires
        connected_state(ssl, context, domain, sni, true),
        !context.caps.native_hostname_check,
    ensures
        crate::dispatch::session_decides(ssl, cert) == crate::verify::spec_verify_hostname(
            domain,
            cert,
        ),
{
    crate::dispatch::lemma_registered_domain_decides(ssl, domain, cert);
}

impl SslConnector {
    /// Creates a new builder for TLS connections, with secure defaults for
    /// the deployed engine's capabilities.
    pub fn builder(method: SslMethod, caps: EngineCaps) -> (r: Result<
        SslConnectorBuilder,
        ErrorStack,
    >)
        ensures
            r matches Ok(b) && is_client_profile(b.0, method, caps),
    {
        let mut b = match ctx(method, caps) {
            Ok(b) => b,
            Err(e) => {
                return Err(e);
            },
        };
        match b.set_default_verify_paths() {
            Ok(u) => u,
            Err(e) => {
                return Err(e);
            },
        };
        match b.set_cipher_list(client_cipher_list_bytes()) {
            Ok(u) => u,
            Err(e) => {
                return Err(e);
            },
        };
        setup_verify(&mut b);
        Ok(SslConnectorBuilder(b))
    }

    /// Returns a structure allowing for configuration of a single TLS session
    /// before connection.
    pub fn configure(&self) -> (r: Result<ConnectConfiguration, ErrorStack>)
        ensures
            r matches Ok(c) && ctx_eq(c.ssl.context, self.0) && conf_is_fresh(c) && c.sni
                && c.verify_hostname,
    {
        match Ssl::new(&self.0) {
            Ok(ssl) => Ok(ConnectConfiguration { ssl, sni: true, verify_hostname: true }),
            Err(e) => Err(e),
        }
    }

    /// Prepares a client-side session for the domain with the default
    /// toggles: the domain is used for name indication and hostname
    /// verification. The returned handshake object is ready for the engine
    /// collaborator to drive.
    pub fn connect(&self, domain: &[u8]) -> (r: Result<Ssl, ErrorStack>)
        ensures
            r matches Ok(ssl) && connected_state(ssl, self.0, domain@, true, true),
    {
        match self.configure() {
            Ok(c) => c.connect(domain),
            Err(e) => Err(e),
        }
    }
}

impl SslConnectorBuilder {
    /// Consumes the builder, returning an `SslConnector`.
    pub fn build(self) -> (r: SslConnector)
        ensures
            crate::profile::builds_to(self.0, r.0),
    {
        SslConnector(self.0.build())
    }
}

impl ConnectConfiguration {
    /// A builder-style version of `set_use_server_name_indication`.
    pub fn use_server_name_indication(self, use_sni: bool) -> (r: ConnectConfiguration)
        ensures
            r.sni == use_sni,
            r.verify_hostname == self.verify_hostname,
            r.ssl == self.ssl,
    {
        let mut c = self;
        c.set_use_server_name_indication(use_sni);
        c
    }

    /// Configures the use of server name indication when connecting.
    /// Defaults to on.
    pub fn set_use_server_name_indication(&mut self, use_sni: bool)
        ensures
            *final (self) == (ConnectConfiguration { sni: use_sni, ..*old(self) }),
    {
        self.sni = use_sni;
    }

    /// A builder-style version of `set_verify_hostname`.
    pub fn verify_hostname(self, verify_hostname: bool) -> (r: ConnectConfiguration)
        ensures
            r.verify_hostname == verify_hostname,
            r.sni == self.sni,
            r.ssl == self.ssl,
    {
        let mut c = self;
        c.set_verify_hostname(verify_hostname);
        c
    }

    /// Configures the use of hostname verification when connecting.
    /// Defaults to on.
    ///
    /// Think carefully before switching this off: without hostname
    /// verification, any valid certificate for any site is trusted for use
    /// from any other.
    pub fn set_verify_hostname(&mut self, verify_hostname: bool)
        ensures
            *final (self) == (ConnectConfiguration { verify_hostname, ..*old(self) }),
    {
        self.verify_hostname = verify_hostname;
    }

    /// Prepares this session for the domain: attaches it for name indication
    /// if that toggle is on, and arms hostname verification with it if that
    /// toggle is on. The returned handshake object is ready for the engine
    /// collaborator to drive; this configuration does not outlive the
    /// attempt.
    pub fn connect(self, domain: &[u8]) -> (r: Result<Ssl, ErrorStack>)
        requires
            conf_is_fresh(self),
        ensures
            r matches Ok(ssl) && connected_state(
                ssl,
                self.ssl.context,
                domain@,
                self.sni,
                self.verify_hostname,
            ),
    {
        let mut ssl = self.ssl;
        if self.sni {
            match ssl.set_hostname(domain) {
                Ok(u) => u,
                Err(e) => {
                    return Err(e);
                },
            };
        }
        if self.verify_hostname {
            match setup_verify_hostname(&mut ssl, domain) {
                Ok(u) => u,
                Err(e) => {
                    return Err(e);
                },
            };
        }
        Ok(ssl)
    }
}

/// A type which wraps the server side of a TLS session: an immutable shared
/// context carrying secure defaults and cipher restriction.
pub struct SslAcceptor(pub SslContext);

/// A builder for `SslAcceptor`s.
pub struct SslAcceptorBuilder(pub SslContextBuilder);

impl SslAcceptor {
    /// Creates a new builder configured for non-legacy clients: the
    /// "intermediate" server profile, a reasonable default choice.
    pub fn mozilla_intermediate(method: SslMethod, caps: EngineCaps) -> (r: Result<
        SslAcceptorBuilder,
        ErrorStack,
    >)
        ensures
            r matches Ok(b) && is_intermediate_profile(b.0, method, caps),
    {
        let mut b = match ctx(method, caps) {
            Ok(b) => b,
            Err(e) => {
                return Err(e);
            },
        };
        if caps.newest_version_control {
            let mut o = SslOptions::none();
            o.no_tlsv1_3 = true;
            b.set_options(o);
        }
        match b.set_tmp_dh(DhParams::Ffdhe2048) {
            Ok(u) => u,
            Err(e) => {
                return Err(e);
            },
        };
        match setup_curves(&mut b) {
            Ok(u) => u,
            Err(e) => {
                return Err(e);
            },
        };
        match b.set_cipher_list(intermediate_cipher_list_bytes()) {
            Ok(u) => u,
            Err(e) => {
                return Err(e);
            },
        };
        Ok(SslAcceptorBuilder(b))
    }

    /// Creates a new builder configured for modern clients: forward-secret,
    /// authenticated-encryption suites only, with the two older protocol
    /// versions disabled outright.
    pub fn mozilla_modern(method: SslMethod, caps: EngineCaps) -> (r: Result<
        SslAcceptorBuilder,
        ErrorStack,
    >)
        ensures
            r matches Ok(b) && is_modern_profile(b.0, method, caps),
    {
        let mut b = match ctx(method, caps) {
            Ok(b) => b,
            Err(e) => {
                return Err(e);
            },
        };
        let mut o = SslOptions::none();
        o.no_tlsv1 = true;
        o.no_tlsv1_1 = true;
        b.set_options(o);
        if caps.newest_version_control {
            let mut o13 = SslOptions::none();
            o13.no_tlsv1_3 = true;
            b.set_options(o13);
        }
        match setup_curves(&mut b) {
            Ok(u) => u,
            Err(e) => {
                return Err(e);
            },
        };
        match b.set_cipher_list(modern_cipher_list_bytes()) {
            Ok(u) => u,
            Err(e) => {
                return Err(e);
            },
        };
        Ok(SslAcceptorBuilder(b))
    }

    /// Prepares a server-side session: acceptance always uses the context's
    /// defaults, so the fresh handshake object is ready for the engine
    /// collaborator to drive.
    pub fn accept(&self) -> (r: Result<Ssl, ErrorStack>)
        ensures
            r matches Ok(ssl) && ctx_eq(ssl.context, self.0) && ssl_is_fresh(ssl),
    {
        Ssl::new(&self.0)
    }
}

impl SslAcceptorBuilder {
    /// Consumes the builder, returning an `SslAcceptor`.
    pub fn build(self) -> (r: SslAcceptor)
        ensures
            crate::profile::builds_to(self.0, r.0),
    {
        SslAcceptor(self.0.build())
    }
}

} // verus!
