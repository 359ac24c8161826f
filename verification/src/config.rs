//! Backend configuration: the values persisted in `config.yaml` and the
//! runtime values the updater tiers read.
use vstd::prelude::*;

verus! {

/// Largest fast-tier interval, in milliseconds.
pub const FAST_RATE_MAX_MS: u64 = 5000;

/// Largest slow-tier interval, in milliseconds.
pub const SLOW_RATE_MAX_MS: u64 = 10000;

/// Backend configuration persisted in `config.yaml`.
#[derive(Debug, Clone, Copy, PartialEq, Eq, Structural)]
pub struct BackendConfig {
    /// Interval (ms) for lightweight data: time, keyboard, mouse, audio, idle, power.
    pub fast_pull_rate_ms: u64,
    /// Interval (ms) for heavyweight data: cpu, gpu, ram, storage, network, processes.
    pub slow_pull_rate_ms: u64,
    /// Whether data pulling is paused.
    pub data_pull_paused: bool,
    /// Whether fast-tier data is refreshed inline on every sysdata request.
    pub refresh_on_request: bool,
    /// Whether an open UI (heartbeat) forces every section to be collected.
    pub ui_data_exception_enabled: bool,
    /// Old single-rate field: read when present, never written back.
    pub data_pull_rate_ms: Option<u64>,
}

pub open spec fn fast_default() -> u64 {
    50
}

pub open spec fn slow_default() -> u64 {
    1000
}

/// Default fast-tier interval.
pub fn default_fast_rate() -> (r: u64)
    ensures
        r == fast_default(),
{
    50
}

/// Default slow-tier interval.
pub fn default_slow_rate() -> (r: u64)
    ensures
        r == slow_default(),
{
    1000
}

/// Default for the boolean settings that are on unless configured off.
pub fn default_true() -> (r: bool)
    ensures
        r,
{
    true
}

pub open spec fn default_config() -> BackendConfig {
    BackendConfig {
        fast_pull_rate_ms: fast_default(),
        slow_pull_rate_ms: slow_default(),
        data_pull_paused: false,
        refresh_on_request: true,
        ui_data_exception_enabled: true,
        data_pull_rate_ms: None,
    }
}

impl BackendConfig {
    /// The configuration used when `config.yaml` is missing or unreadable.
    pub fn default() -> (r: BackendConfig)
        ensures
            r == default_config(),
    {
        BackendConfig {
            fast_pull_rate_ms: default_fast_rate(),
            slow_pull_rate_ms: default_slow_rate(),
            data_pull_paused: false,
            refresh_on_request: default_true(),
            ui_data_exception_enabled: default_true(),
            data_pull_rate_ms: None,
        }
    }
}

pub open spec fn min_u64(a: u64, b: u64) -> u64 {
    if a <= b {
        a
    } else {
        b
    }
}

/// The runtime values the updater tiers read, beside the persisted configuration.
pub struct ConfigStore {
    fast_rate: u64,
    slow_rate: u64,
    paused: bool,
    refresh: bool,
    ui_exception: bool,
    persisted: BackendConfig,
}

/// What a `ConfigStore` holds.
pub struct ConfigStoreView {
    pub fast_rate: u64,
    pub slow_rate: u64,
    pub paused: bool,
    pub refresh: bool,
    pub ui_exception: bool,
    pub persisted: BackendConfig,
}

impl View for ConfigStore {
    type V = ConfigStoreView;

    closed spec fn view(&self) -> ConfigStoreView {
        ConfigStoreView {
            fast_rate: self.fast_rate,
            slow_rate: self.slow_rate,
            paused: self.paused,
            refresh: self.refresh,
            ui_exception: self.ui_exception,
            persisted: self.persisted,
        }
    }
}

/// The store that installing `cfg` gives.
pub open spec fn installed(cfg: BackendConfig) -> ConfigStoreView {
    ConfigStoreView {
        fast_rate: min_u64(cfg.fast_pull_rate_ms, FAST_RATE_MAX_MS),
        slow_rate: min_u64(cfg.slow_pull_rate_ms, SLOW_RATE_MAX_MS),
        paused: cfg.data_pull_paused,
        refresh: cfg.refresh_on_request,
        ui_exception: cfg.ui_data_exception_enabled,
        persisted: cfg,
    }
}

/// The runtime values are those the persisted configuration gives.
pub open spec fn consistent(v: ConfigStoreView) -> bool {
    installed(v.persisted) == v
}

impl ConfigStore {
    /// Every store's runtime values are those its persisted configuration
    /// gives: the constructor makes it so, and every change keeps it.
    #[verifier::type_invariant]
    closed spec fn runtime_follows_persisted(self) -> bool {
        consistent(self@)
    }

    /// The state before any configuration is loaded: default runtime values
    /// and the default persisted configuration.
    pub fn new() -> (r: ConfigStore)
        ensures
            r@.fast_rate == fast_default(),
            r@.slow_rate == slow_default(),
            !r@.paused,
            r@.refresh,
            r@.ui_exception,
            r@.persisted == default_config(),
            consistent(r@),
    {
        ConfigStore {
            fast_rate: default_fast_rate(),
            slow_rate: default_slow_rate(),
            paused: false,
            refresh: true,
            ui_exception: true,
            persisted: BackendConfig::default(),
        }
    }
}

/// Takes a configuration read from disk: the runtime values follow it, with the
/// intervals clamped to their maxima; the persisted copy keeps it as it was read.
pub fn install_config(store: &mut ConfigStore, cfg: BackendConfig)
    ensures
        final(store)@.fast_rate == min_u64(cfg.fast_pull_rate_ms, FAST_RATE_MAX_MS),
        final(store)@.slow_rate == min_u64(cfg.slow_pull_rate_ms, SLOW_RATE_MAX_MS),
        final(store)@.paused == cfg.data_pull_paused,
        final(store)@.refresh == cfg.refresh_on_request,
        final(store)@.ui_exception == cfg.ui_data_exception_enabled,
        final(store)@.persisted == cfg,
        final(store)@ == installed(cfg),
{
    *store = ConfigStore {
        fast_rate: clamp_max(cfg.fast_pull_rate_ms, FAST_RATE_MAX_MS),
        slow_rate: clamp_max(cfg.slow_pull_rate_ms, SLOW_RATE_MAX_MS),
        paused: cfg.data_pull_paused,
        refresh: cfg.refresh_on_request,
        ui_exception: cfg.ui_data_exception_enabled,
        persisted: cfg,
    };
}

fn clamp_max(v: u64, max: u64) -> (r: u64)
    ensures
        r == min_u64(v, max),
{
    if v <= max {
        v
    } else {
        max
    }
}

/// Current fast-tier interval.
pub fn fast_pull_rate_ms(store: &ConfigStore) -> (r: u64)
    ensures
        r == store@.fast_rate,
        r <= FAST_RATE_MAX_MS,
        r == min_u64(store@.persisted.fast_pull_rate_ms, FAST_RATE_MAX_MS),
{
    proof { use_type_invariant(store); }
    store.fast_rate
}

/// Current slow-tier interval.
pub fn slow_pull_rate_ms(store: &ConfigStore) -> (r: u64)
    ensures
        r == store@.slow_rate,
        r <= SLOW_RATE_MAX_MS,
        r == min_u64(store@.persisted.slow_pull_rate_ms, SLOW_RATE_MAX_MS),
{
    proof { use_type_invariant(store); }
    store.slow_rate
}

/// Whether data pulling is paused.
pub fn pull_paused(store: &ConfigStore) -> (r: bool)
    ensures
        r == store@.paused,
        r == store@.persisted.data_pull_paused,
{
    proof { use_type_invariant(store); }
    store.paused
}

/// Whether fast-tier data is refreshed on every sysdata request.
pub fn refresh_on_request(store: &ConfigStore) -> (r: bool)
    ensures
        r == store@.refresh,
        r == store@.persisted.refresh_on_request,
{
    proof { use_type_invariant(store); }
    store.refresh
}

/// Whether an open UI forces every section to be collected.
pub fn ui_data_exception_enabled(store: &ConfigStore) -> (r: bool)
    ensures
        r == store@.ui_exception,
        r == store@.persisted.ui_data_exception_enabled,
{
    proof { use_type_invariant(store); }
    store.ui_exception
}

/// Sets the fast-tier interval, clamped to at most 5000 ms, at runtime and in
/// the persisted configuration; nothing else changes.
pub fn set_fast_pull_rate_ms(store: &mut ConfigStore, ms: u64) -> (r: u64)
    ensures
        r == min_u64(ms, FAST_RATE_MAX_MS),
        final(store)@.fast_rate == r,
        final(store)@.persisted == (BackendConfig { fast_pull_rate_ms: r, ..old(store)@.persisted }),
        final(store)@.slow_rate == old(store)@.slow_rate,
        final(store)@.paused == old(store)@.paused,
        final(store)@.refresh == old(store)@.refresh,
        final(store)@.ui_exception == old(store)@.ui_exception,
        consistent(old(store)@) ==> consistent(final(store)@),
{
    let clamped = clamp_max(ms, FAST_RATE_MAX_MS);
    proof { use_type_invariant(&*store); }
    let persisted = BackendConfig { fast_pull_rate_ms: clamped, ..store.persisted };
    *store = ConfigStore { fast_rate: clamped, persisted, ..*store };
    clamped
}

/// Sets the slow-tier interval, clamped to at most 10000 ms, at runtime and in
/// the persisted configuration; nothing else changes.
pub fn set_slow_pull_rate_ms(store: &mut ConfigStore, ms: u64) -> (r: u64)
    ensures
        r == min_u64(ms, SLOW_RATE_MAX_MS),
        final(store)@.slow_rate == r,
        final(store)@.persisted == (BackendConfig { slow_pull_rate_ms: r, ..old(store)@.persisted }),
        final(store)@.fast_rate == old(store)@.fast_rate,
        final(store)@.paused == old(store)@.paused,
        final(store)@.refresh == old(store)@.refresh,
        final(store)@.ui_exception == old(store)@.ui_exception,
        consistent(old(store)@) ==> consistent(final(store)@),
{
    let clamped = clamp_max(ms, SLOW_RATE_MAX_MS);
    proof { use_type_invariant(&*store); }
    let persisted = BackendConfig { slow_pull_rate_ms: clamped, ..store.persisted };
    *store = ConfigStore { slow_rate: clamped, persisted, ..*store };
    clamped
}

/// Pauses or resumes data pulling, at runtime and in the persisted configuration.
pub fn set_pull_paused(store: &mut ConfigStore, paused: bool)
    ensures
        final(store)@.paused == paused,
        final(store)@.persisted == (BackendConfig { data_pull_paused: paused, ..old(store)@.persisted }),
        final(store)@.fast_rate == old(store)@.fast_rate,
        final(store)@.slow_rate == old(store)@.slow_rate,
        final(store)@.refresh == old(store)@.refresh,
        final(store)@.ui_exception == old(store)@.ui_exception,
        consistent(old(store)@) ==> consistent(final(store)@),
{
    proof { use_type_invariant(&*store); }
    let persisted = BackendConfig { data_pull_paused: paused, ..store.persisted };
    *store = ConfigStore { paused: paused, persisted, ..*store };
}

/// Turns refresh-on-request on or off, at runtime and in the persisted configuration.
pub fn set_refresh_on_request(store: &mut ConfigStore, enabled: bool)
    ensures
        final(store)@.refresh == enabled,
        final(store)@.persisted == (BackendConfig { refresh_on_request: enabled, ..old(store)@.persisted }),
        final(store)@.fast_rate == old(store)@.fast_rate,
        final(store)@.slow_rate == old(store)@.slow_rate,
        final(store)@.paused == old(store)@.paused,
        final(store)@.ui_exception == old(store)@.ui_exception,
        consistent(old(store)@) ==> consistent(final(store)@),
{
    proof { use_type_invariant(&*store); }
    let persisted = BackendConfig { refresh_on_request: enabled, ..store.persisted };
    *store = ConfigStore { refresh: enabled, persisted, ..*store };
}

/// Turns the UI-heartbeat exception on or off, at runtime and in the persisted configuration.
pub fn set_ui_data_exception_enabled(store: &mut ConfigStore, enabled: bool)
    ensures
        final(store)@.ui_exception == enabled,
        final(store)@.persisted == (BackendConfig { ui_data_exception_enabled: enabled, ..old(store)@.persisted }),
        final(store)@.fast_rate == old(store)@.fast_rate,
        final(store)@.slow_rate == old(store)@.slow_rate,
        final(store)@.paused == old(store)@.paused,
        final(store)@.refresh == old(store)@.refresh,
        consistent(old(store)@) ==> consistent(final(store)@),
{
    proof { use_type_invariant(&*store); }
    let persisted = BackendConfig { ui_data_exception_enabled: enabled, ..store.persisted };
    *store = ConfigStore { ui_exception: enabled, persisted, ..*store };
}

/// A snapshot of the persisted configuration.
pub fn current_config(store: &ConfigStore) -> (r: BackendConfig)
    ensures
        r == store@.persisted,
{
    store.persisted
}

/// Saving and loading the configuration: installing what a consistent store
/// persists gives back the same store.
pub proof fn law_reload_restores(v: ConfigStoreView)
    requires
        consistent(v),
    ensures
        installed(v.persisted) == v,
{
}

/// Whatever configuration is installed, the store it gives is consistent.
pub proof fn law_installed_is_consistent(cfg: BackendConfig)
    ensures
        consistent(installed(cfg)),
{
}

}
