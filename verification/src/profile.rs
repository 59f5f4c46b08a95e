//! The configuration profile model: protocol-option and mode flags, engine
//! capabilities fixed per deployment, the mutable context builder, and the
//! frozen context a builder turns into.
//!
//! The flags mirror the engine's session options one for one; the engine
//! itself (record layer, handshake, key exchange) is a collaborator outside
//! this crate and consumes a frozen context as configuration.

use vstd::prelude::*;

verus! {

/// The protocol family a context is built for.
#[derive(Clone, Copy, PartialEq, Eq, Structural, Debug)]
pub enum SslMethod {
    Tls,
    Dtls,
}

impl SslMethod {
    /// The TLS method.
    pub fn tls() -> (r: SslMethod)
        ensures
            r == SslMethod::Tls,
    {
        SslMethod::Tls
    }

    /// The DTLS method.
    pub fn dtls() -> (r: SslMethod)
        ensures
            r == SslMethod::Dtls,
    {
        SslMethod::Dtls
    }
}

/// How the deployed engine sets up curves for ephemeral EC key exchange:
/// it picks curves itself, it exposes an automatic-selection switch, or it
/// needs one explicit named curve.
#[derive(Clone, Copy, PartialEq, Eq, Structural, Debug)]
pub enum CurveCapability {
    EngineDefault,
    SetAuto,
    Explicit,
}

/// The engine capabilities that gate mutually exclusive code paths. They are
/// detected once per deployment and never re-evaluated per call.
#[derive(Clone, Copy, PartialEq, Eq, Structural, Debug)]
pub struct EngineCaps {
    /// The linked engine does not carry the buffer-release vulnerability, so
    /// releasing idle buffers is safe.
    pub release_buffers_safe: bool,
    /// The engine has a built-in hostname matcher that can be armed before
    /// the handshake.
    pub native_hostname_check: bool,
    /// How ephemeral-EC curves are set up.
    pub curve_setup: CurveCapability,
    /// The engine exposes an option to disable its newest protocol version.
    pub newest_version_control: bool,
}

/// Protocol-option flags of a context, one field per engine option.
#[derive(Clone, Copy, PartialEq, Eq, Structural, Debug)]
pub struct SslOptions {
    /// The engine's bundle of harmless bug workarounds.
    pub all_workarounds: bool,
    pub no_compression: bool,
    pub no_sslv2: bool,
    pub no_sslv3: bool,
    pub no_tlsv1: bool,
    pub no_tlsv1_1: bool,
    pub no_tlsv1_3: bool,
    /// Fresh DH key per handshake: no parameter reuse across sessions.
    pub single_dh_use: bool,
    /// Fresh ECDH key per handshake.
    pub single_ecdh_use: bool,
    /// Prefer the server's cipher ordering over the client's.
    pub cipher_server_preference: bool,
    pub dont_insert_empty_fragments: bool,
}

impl SslOptions {
    /// No option set.
    pub open spec fn spec_none() -> SslOptions {
        SslOptions {
            all_workarounds: false,
            no_compression: false,
            no_sslv2: false,
            no_sslv3: false,
            no_tlsv1: false,
            no_tlsv1_1: false,
            no_tlsv1_3: false,
            single_dh_use: false,
            single_ecdh_use: false,
            cipher_server_preference: false,
            dont_insert_empty_fragments: false,
        }
    }

    /// No option set, as a value.
    pub fn none() -> (r: SslOptions)
        ensures
            r == SslOptions::spec_none(),
    {
        SslOptions {
            all_workarounds: false,
            no_compression: false,
            no_sslv2: false,
            no_sslv3: false,
            no_tlsv1: false,
            no_tlsv1_1: false,
            no_tlsv1_3: false,
            single_dh_use: false,
            single_ecdh_use: false,
            cipher_server_preference: false,
            dont_insert_empty_fragments: false,
        }
    }

    /// The union of two option sets.
    pub open spec fn spec_or(self, o: SslOptions) -> SslOptions {
        SslOptions {
            all_workarounds: self.all_workarounds || o.all_workarounds,
            no_compression: self.no_compression || o.no_compression,
            no_sslv2: self.no_sslv2 || o.no_sslv2,
            no_sslv3: self.no_sslv3 || o.no_sslv3,
            no_tlsv1: self.no_tlsv1 || o.no_tlsv1,
            no_tlsv1_1: self.no_tlsv1_1 || o.no_tlsv1_1,
            no_tlsv1_3: self.no_tlsv1_3 || o.no_tlsv1_3,
            single_dh_use: self.single_dh_use || o.single_dh_use,
            single_ecdh_use: self.single_ecdh_use || o.single_ecdh_use,
            cipher_server_preference: self.cipher_server_preference
                || o.cipher_server_preference,
            dont_insert_empty_fragments: self.dont_insert_empty_fragments
                || o.dont_insert_empty_fragments,
        }
    }
}

/// Mode flags of a context.
#[derive(Clone, Copy, PartialEq, Eq, Structural, Debug)]
pub struct SslMode {
    /// Retry transparently after a renegotiation interrupts an operation.
    pub auto_retry: bool,
    /// Tolerate a caller that moves its write buffer between retries.
    pub accept_moving_write_buffer: bool,
    /// Report partial writes instead of blocking for the full buffer.
    pub enable_partial_write: bool,
    /// Release idle buffers after read/write to reduce memory.
    pub release_buffers: bool,
}

/// Whether peer certificates are demanded and verified.
#[derive(Clone, Copy, PartialEq, Eq, Structural, Debug)]
pub enum SslVerifyMode {
    Disabled,
    Peer,
}

/// The verification strategy resolved at configuration-build time: the
/// engine's built-in matcher, or a chain-verification callback.
#[derive(Clone, Copy, PartialEq, Eq, Structural, Debug)]
pub enum VerifyStrategy {
    Native,
    Callback,
}

/// A named curve for explicit ephemeral-EC setup.
#[derive(Clone, Copy, PartialEq, Eq, Structural, Debug)]
pub enum NamedCurve {
    Prime256V1,
}

/// The curve configuration a builder records.
#[derive(Clone, Copy, PartialEq, Eq, Structural, Debug)]
pub enum CurveConfig {
    Auto,
    Named(NamedCurve),
}

/// The fixed, well-known ephemeral DH parameter set servers install.
#[derive(Clone, Copy, PartialEq, Eq, Structural, Debug)]
pub enum DhParams {
    Ffdhe2048,
}

/// A configuration-build failure. In this model no build step can fail; the
/// type keeps the builder signatures of the surrounding system.
#[derive(Clone, Copy, PartialEq, Eq, Structural, Debug)]
pub struct ErrorStack {
    /// Marks the error as coming from context construction.
    pub build_failure: bool,
}

/// A mutable context under construction. Finalization through `build` is
/// explicit and irreversible: it consumes the builder.
pub struct SslContextBuilder {
    pub method: SslMethod,
    pub caps: EngineCaps,
    pub options: SslOptions,
    pub mode: SslMode,
    /// The cipher-suite selection string, colon-separated.
    pub cipher_list: Vec<u8>,
    /// Trust the platform's default certificate store.
    pub default_verify_paths: bool,
    pub verify_mode: SslVerifyMode,
    /// The hostname-verification strategy installed, if any.
    pub verify_strategy: Option<VerifyStrategy>,
    pub dh_params: Option<DhParams>,
    pub curve: Option<CurveConfig>,
}

/// A frozen, immutable context; many connections may share one concurrently
/// without mutation.
pub struct SslContext {
    pub method: SslMethod,
    pub caps: EngineCaps,
    pub options: SslOptions,
    pub mode: SslMode,
    pub cipher_list: Vec<u8>,
    pub default_verify_paths: bool,
    pub verify_mode: SslVerifyMode,
    pub verify_strategy: Option<VerifyStrategy>,
    pub dh_params: Option<DhParams>,
    pub curve: Option<CurveConfig>,
}

/// What freezing a builder yields: the context carrying exactly the
/// builder's settings.
pub open spec fn builds_to(b: SslContextBuilder, c: SslContext) -> bool {
    &&& c.method == b.method
    &&& c.caps == b.caps
    &&& c.options == b.options
    &&& c.mode == b.mode
    &&& c.cipher_list == b.cipher_list
    &&& c.default_verify_paths == b.default_verify_paths
    &&& c.verify_mode == b.verify_mode
    &&& c.verify_strategy == b.verify_strategy
    &&& c.dh_params == b.dh_params
    &&& c.curve == b.curve
}

/// Field-for-field agreement of two builders.
pub open spec fn builder_eq(a: SslContextBuilder, b: SslContextBuilder) -> bool {
    &&& a.method == b.method
    &&& a.caps == b.caps
    &&& a.options == b.options
    &&& a.mode == b.mode
    &&& a.cipher_list@ == b.cipher_list@
    &&& a.default_verify_paths == b.default_verify_paths
    &&& a.verify_mode == b.verify_mode
    &&& a.verify_strategy == b.verify_strategy
    &&& a.dh_params == b.dh_params
    &&& a.curve == b.curve
}

/// Finalization is deterministic: freezing two builders with identical
/// settings yields contexts that agree field for field, so the sessions they
/// configure accept and reject alike.
pub proof fn lemma_build_deterministic(
    b1: SslContextBuilder,
    b2: SslContextBuilder,
    c1: SslContext,
    c2: SslContext,
)
    requires
        builder_eq(b1, b2),
        builds_to(b1, c1),
        builds_to(b2, c2),
    ensures
        ctx_eq(c1, c2),
{
}

/// Field-for-field agreement of two frozen contexts.
pub open spec fn ctx_eq(a: SslContext, b: SslContext) -> bool {
    &&& a.method == b.method
    &&& a.caps == b.caps
    &&& a.options == b.options
    &&& a.mode == b.mode
    &&& a.cipher_list@ == b.cipher_list@
    &&& a.default_verify_paths == b.default_verify_paths
    &&& a.verify_mode == b.verify_mode
    &&& a.verify_strategy == b.verify_strategy
    &&& a.dh_params == b.dh_params
    &&& a.curve == b.curve
}

impl SslContextBuilder {
    /// A fresh builder with everything unset.
    pub fn new(method: SslMethod, caps: EngineCaps) -> (r: Result<SslContextBuilder, ErrorStack>)
        ensures
            r matches Ok(b) && b.method == method && b.caps == caps && b.options
                == SslOptions::spec_none() && b.mode == (SslMode {
                auto_retry: false,
                accept_moving_write_buffer: false,
                enable_partial_write: false,
                release_buffers: false,
            }) && b.cipher_list@ == Seq::<u8>::empty() && !b.default_verify_paths
                && b.verify_mode == SslVerifyMode::Disabled && b.verify_strategy is None
                && b.dh_params is None && b.curve is None,
    {
        Ok(
            SslContextBuilder {
                method,
                caps,
                options: SslOptions::none(),
                mode: SslMode {
                    auto_retry: false,
                    accept_moving_write_buffer: false,
                    enable_partial_write: false,
                    release_buffers: false,
                },
                cipher_list: Vec::new(),
                default_verify_paths: false,
                verify_mode: SslVerifyMode::Disabled,
                verify_strategy: None,
                dh_params: None,
                curve: None,
            },
        )
    }

    /// Adds options: the stored set becomes its union with `o`.
    pub fn set_options(&mut self, o: SslOptions)
        ensures
            *final(self) == (SslContextBuilder { options: old(self).options.spec_or(o), ..*old(self) }),
    {
        let merged = SslOptions {
            all_workarounds: self.options.all_workarounds || o.all_workarounds,
            no_compression: self.options.no_compression || o.no_compression,
            no_sslv2: self.options.no_sslv2 || o.no_sslv2,
            no_sslv3: self.options.no_sslv3 || o.no_sslv3,
            no_tlsv1: self.options.no_tlsv1 || o.no_tlsv1,
            no_tlsv1_1: self.options.no_tlsv1_1 || o.no_tlsv1_1,
            no_tlsv1_3: self.options.no_tlsv1_3 || o.no_tlsv1_3,
            single_dh_use: self.options.single_dh_use || o.single_dh_use,
            single_ecdh_use: self.options.single_ecdh_use || o.single_ecdh_use,
            cipher_server_preference: self.options.cipher_server_preference
                || o.cipher_server_preference,
            dont_insert_empty_fragments: self.options.dont_insert_empty_fragments
                || o.dont_insert_empty_fragments,
        };
        self.options = merged;
    }

    /// Replaces the mode flags.
    pub fn set_mode(&mut self, m: SslMode)
        ensures
            *final(self) == (SslContextBuilder { mode: m, ..*old(self) }),
    {
        self.mode = m;
    }

    /// Installs the cipher-suite selection string.
    pub fn set_cipher_list(&mut self, list: Vec<u8>) -> (r: Result<(), ErrorStack>)
        ensures
            r is Ok,
            *final(self) == (SslContextBuilder { cipher_list: list, ..*old(self) }),
    {
        self.cipher_list = list;
        Ok(())
    }

    /// Trusts the platform's default certificate store.
    pub fn set_default_verify_paths(&mut self) -> (r: Result<(), ErrorStack>)
        ensures
            r is Ok,
            *final(self) == (SslContextBuilder { default_verify_paths: true, ..*old(self) }),
    {
        self.default_verify_paths = true;
        Ok(())
    }

    /// Sets whether peer certificates are demanded and verified.
    pub fn set_verify(&mut self, mode: SslVerifyMode)
        ensures
            *final(self) == (SslContextBuilder { verify_mode: mode, ..*old(self) }),
    {
        self.verify_mode = mode;
    }

    /// Installs the fixed ephemeral DH parameter set.
    pub fn set_tmp_dh(&mut self, dh: DhParams) -> (r: Result<(), ErrorStack>)
        ensures
            r is Ok,
            *final(self) == (SslContextBuilder { dh_params: Some(dh), ..*old(self) }),
    {
        self.dh_params = Some(dh);
        Ok(())
    }

    /// Switches the engine's automatic curve selection on or off.
    pub fn set_ecdh_auto(&mut self, onoff: bool) -> (r: Result<(), ErrorStack>)
        ensures
            r is Ok,
            *final(self) == (SslContextBuilder {
                curve: if onoff {
                    Some(CurveConfig::Auto)
                } else {
                    old(self).curve
                },
                ..*old(self)
            }),
    {
        if onoff {
            self.curve = Some(CurveConfig::Auto);
        }
        Ok(())
    }

    /// Installs one explicit named curve for ephemeral EC key exchange.
    pub fn set_tmp_ecdh(&mut self, curve: NamedCurve) -> (r: Result<(), ErrorStack>)
        ensures
            r is Ok,
            *final(self) == (SslContextBuilder { curve: Some(CurveConfig::Named(curve)), ..*old(self) }),
    {
        self.curve = Some(CurveConfig::Named(curve));
        Ok(())
    }

    /// Freezes the builder into an immutable context; no further option
    /// changes are possible.
    pub fn build(self) -> (r: SslContext)
        ensures
            builds_to(self, r),
    {
        SslContext {
            method: self.method,
            caps: self.caps,
            options: self.options,
            mode: self.mode,
            cipher_list: self.cipher_list,
            default_verify_paths: self.default_verify_paths,
            verify_mode: self.verify_mode,
            verify_strategy: self.verify_strategy,
            dh_params: self.dh_params,
            curve: self.curve,
        }
    }
}

impl SslContext {
    /// A field-for-field copy, as sessions derive their state from a shared
    /// context.
    pub fn duplicate(&self) -> (r: SslContext)
        ensures
            ctx_eq(r, *self),
    {
        SslContext {
            method: self.method,
            caps: self.caps,
            options: self.options,
            mode: self.mode,
            cipher_list: crate::bytes::copy_bytes(&self.cipher_list),
            default_verify_paths: self.default_verify_paths,
            verify_mode: self.verify_mode,
            verify_strategy: self.verify_strategy,
            dh_params: self.dh_params,
            curve: self.curve,
        }
    }

    /// The suite this context's server picks from a client's offer,
    /// preferring its own order, as `spec_negotiate` states it.
    pub fn negotiate_cipher(&self, offered: &Vec<Vec<u8>>) -> (r: Option<Vec<u8>>)
        ensures
            ({
                let off = offered@.map_values(|v: Vec<u8>| v@);
                match r {
                    Some(c) => crate::cipher::spec_negotiate(self.cipher_list@, off) == Some(c@),
                    None => crate::cipher::spec_negotiate(self.cipher_list@, off) is None,
                }
            }),
    {
        crate::cipher::negotiate(self.cipher_list.as_slice(), offered)
    }

    /// Whether `name` stands in this context's cipher list as a plain entry.
    pub fn supports_cipher(&self, name: &[u8]) -> (r: bool)
        ensures
            r == crate::cipher::spec_cipher_listed(self.cipher_list@, name@),
    {
        crate::cipher::cipher_listed(self.cipher_list.as_slice(), name)
    }
}

/// The option set every profile starts from: compression and the legacy
/// protocol versions disabled, fresh ephemeral keys per handshake, the
/// server's cipher ordering preferred, and the engine's workaround bundle
/// minus empty-fragment insertion.
pub open spec fn baseline_options() -> SslOptions {
    SslOptions {
        all_workarounds: true,
        no_compression: true,
        no_sslv2: true,
        no_sslv3: true,
        no_tlsv1: false,
        no_tlsv1_1: false,
        no_tlsv1_3: false,
        single_dh_use: true,
        single_ecdh_use: true,
        cipher_server_preference: true,
        dont_insert_empty_fragments: false,
    }
}

/// The mode every profile starts from: automatic retry, moving-write-buffer
/// tolerance and partial writes on; buffer release only when the deployed
/// engine is known safe.
pub open spec fn baseline_mode(caps: EngineCaps) -> SslMode {
    SslMode {
        auto_retry: true,
        accept_moving_write_buffer: true,
        enable_partial_write: true,
        release_buffers: caps.release_buffers_safe,
    }
}

/// Whether a builder carries exactly the baseline of `ctx` for its method
/// and capabilities, with nothing else set.
pub open spec fn is_baseline(b: SslContextBuilder, method: SslMethod, caps: EngineCaps) -> bool {
    &&& b.method == method
    &&& b.caps == caps
    &&& b.options == baseline_options()
    &&& b.mode == baseline_mode(caps)
    &&& b.cipher_list@ == Seq::<u8>::empty()
    &&& !b.default_verify_paths
    &&& b.verify_mode == SslVerifyMode::Disabled
    &&& b.verify_strategy is None
    &&& b.dh_params is None
    &&& b.curve is None
}

/// A builder carrying the baseline secure settings every profile shares.
pub fn ctx(method: SslMethod, caps: EngineCaps) -> (r: Result<SslContextBuilder, ErrorStack>)
    ensures
        r matches Ok(b) && is_baseline(b, method, caps),
{
    let mut b = match SslContextBuilder::new(method, caps) {
        Ok(b) => b,
        Err(e) => {
            return Err(e);
        },
    };

    let mut opts = SslOptions::none();
    opts.all_workarounds = true;
    opts.no_compression = true;
    opts.no_sslv2 = true;
    opts.no_sslv3 = true;
    opts.single_dh_use = true;
    opts.single_ecdh_use = true;
    opts.cipher_server_preference = true;
    opts.dont_insert_empty_fragments = false;
    b.set_options(opts);

    let mode = SslMode {
        auto_retry: true,
        accept_moving_write_buffer: true,
        enable_partial_write: true,
        release_buffers: caps.release_buffers_safe,
    };
    b.set_mode(mode);

    Ok(b)
}

/// The strategy a deployment resolves to: the engine's built-in matcher when
/// it has one, the chain callback otherwise.
pub open spec fn strategy_for(caps: EngineCaps) -> VerifyStrategy {
    if caps.native_hostname_check {
        VerifyStrategy::Native
    } else {
        VerifyStrategy::Callback
    }
}

/// Resolves the verification strategy from the capabilities, once per
/// profile, as `strategy_for` states it.
pub fn select_verify_strategy(caps: &EngineCaps) -> (r: VerifyStrategy)
    ensures
        r == strategy_for(*caps),
{
    if caps.native_hostname_check {
        VerifyStrategy::Native
    } else {
        VerifyStrategy::Callback
    }
}

/// Demands peer certificates and installs the resolved hostname-verification
/// strategy.
pub fn setup_verify(b: &mut SslContextBuilder)
    ensures
        *final(b) == (SslContextBuilder {
            verify_mode: SslVerifyMode::Peer,
            verify_strategy: Some(strategy_for(old(b).caps)),
            ..*old(b)
        }),
{
    let strategy = select_verify_strategy(&b.caps);
    b.set_verify(SslVerifyMode::Peer);
    b.verify_strategy = Some(strategy);
}

/// What `setup_curves` leaves in the builder for the deployment's curve
/// capability: nothing (the engine picks), the automatic switch, or one
/// explicit named curve.
pub open spec fn curve_choice(caps: EngineCaps, prior: Option<CurveConfig>) -> Option<
    CurveConfig,
> {
    match caps.curve_setup {
        CurveCapability::EngineDefault => prior,
        CurveCapability::SetAuto => Some(CurveConfig::Auto),
        CurveCapability::Explicit => Some(CurveConfig::Named(NamedCurve::Prime256V1)),
    }
}

/// Sets up ephemeral-EC curves for the deployment, as `curve_choice` states
/// it.
pub fn setup_curves(b: &mut SslContextBuilder) -> (r: Result<(), ErrorStack>)
    ensures
        r is Ok,
        *final(b) == (SslContextBuilder { curve: curve_choice(old(b).caps, old(b).curve), ..*old(b) }),
{
    match b.caps.curve_setup {
        CurveCapability::EngineDefault => Ok(()),
        CurveCapability::SetAuto => b.set_ecdh_auto(true),
        CurveCapability::Explicit => b.set_tmp_ecdh(NamedCurve::Prime256V1),
    }
}

} // verus!
