//! The collector registry: validation of fetched collector configuration and
//! the freshness-gated, atomic-swap snapshot discipline.
//!
//! Fetching the raw configuration from the external store is outside work;
//! the registry takes the fetch's outcome as a value and decides, verified,
//! whether to commit a new snapshot or keep the prior one.

use vstd::prelude::*;

use crate::codec::{clone_string, str_eq};
use crate::errors::ForwardError;
use crate::record::pairs_view;

verus! {

/// How a request to a collector is authenticated.
#[derive(Clone, Copy, Debug, PartialEq, Eq, Structural)]
pub enum AuthMode {
    /// The request is signed by the external signing primitive.
    SigV4,
    /// Precomputed authentication headers are attached as they stand.
    StaticHeader,
}

/// One validated collector: where to send, what to attach, how to
/// authenticate.
pub struct CollectorConfig {
    /// The collector's endpoint URL.
    pub endpoint: String,
    /// Collector-specific headers; they win on key collision.
    pub headers: Vec<(String, String)>,
    /// The authentication mode.
    pub auth_mode: AuthMode,
}

/// One collector entry as the external configuration store hands it out,
/// before validation.
pub struct RawCollector {
    /// The endpoint URL text; must be non-empty.
    pub endpoint: String,
    /// Collector-specific headers.
    pub headers: Vec<(String, String)>,
    /// The authentication mode name; must be recognized.
    pub auth: String,
}

/// The authentication mode a configuration name stands for, when it is
/// recognized.
pub open spec fn spec_auth_mode(s: Seq<char>) -> Option<AuthMode> {
    if s == "sigv4"@ {
        Some(AuthMode::SigV4)
    } else if s == "static"@ {
        Some(AuthMode::StaticHeader)
    } else {
        None
    }
}

/// Parses an authentication mode name: `sigv4` or `static`, nothing else.
pub fn parse_auth_mode(s: &str) -> (r: Option<AuthMode>)
    ensures
        r == spec_auth_mode(s@),
{
    if str_eq(s, "sigv4") {
        Some(AuthMode::SigV4)
    } else if str_eq(s, "static") {
        Some(AuthMode::StaticHeader)
    } else {
        None
    }
}

/// A raw entry passes validation when its endpoint is non-empty and its
/// authentication mode is recognized.
pub open spec fn raw_valid(rc: RawCollector) -> bool {
    &&& rc.endpoint@.len() > 0
    &&& spec_auth_mode(rc.auth@) is Some
}

/// The validated configuration a raw entry resolves to.
pub open spec fn config_matches(c: CollectorConfig, rc: RawCollector) -> bool {
    &&& c.endpoint@ == rc.endpoint@
    &&& pairs_view(c.headers@) == pairs_view(rc.headers@)
    &&& Some(c.auth_mode) == spec_auth_mode(rc.auth@)
}

/// An owned copy of a header list, pair for pair.
pub fn clone_headers(headers: &Vec<(String, String)>) -> (r: Vec<(String, String)>)
    ensures
        pairs_view(r@) == pairs_view(headers@),
{
    let mut out: Vec<(String, String)> = Vec::new();
    let mut i: usize = 0;
    while i < headers.len()
        invariant
            i <= headers@.len(),
            out@.len() == i,
            forall|j: int|
                0 <= j < i ==> (#[trigger] out@[j]).0@ == headers@[j].0@ && out@[j].1@
                    == headers@[j].1@,
        decreases headers@.len() - i,
    {
        let (k, v) = &headers[i];
        out.push((clone_string(k), clone_string(v)));
        i = i + 1;
    }
    proof {
        assert(pairs_view(out@) =~= pairs_view(headers@));
    }
    out
}

/// Validates every fetched entry: a non-empty endpoint and a recognized
/// authentication mode. Succeeds, entry for entry in order, exactly when all
/// entries are valid; any invalid entry fails the whole refresh with
/// [`ForwardError::RegistryRefresh`].
pub fn validate_collectors(raw: &Vec<RawCollector>) -> (r: Result<Vec<CollectorConfig>, ForwardError>)
    ensures
        r is Ok <==> (forall|i: int| 0 <= i < raw@.len() ==> raw_valid(#[trigger] raw@[i])),
        r matches Ok(v) ==> v@.len() == raw@.len() && (forall|i: int|
            0 <= i < raw@.len() ==> config_matches(#[trigger] v@[i], raw@[i])),
        r matches Err(e) ==> e == ForwardError::RegistryRefresh,
{
    let mut out: Vec<CollectorConfig> = Vec::new();
    let mut i: usize = 0;
    while i < raw.len()
        invariant
            i <= raw@.len(),
            out@.len() == i,
            forall|j: int| 0 <= j < i ==> raw_valid(#[trigger] raw@[j]),
            forall|j: int| 0 <= j < i ==> config_matches(#[trigger] out@[j], raw@[j]),
        decreases raw@.len() - i,
    {
        let entry = &raw[i];
        if entry.endpoint.as_str().is_empty() {
            return Err(ForwardError::RegistryRefresh);
        }
        let auth_mode = match parse_auth_mode(entry.auth.as_str()) {
            Some(m) => m,
            None => {
                return Err(ForwardError::RegistryRefresh);
            },
        };
        out.push(
            CollectorConfig {
                endpoint: clone_string(&entry.endpoint),
                headers: clone_headers(&entry.headers),
                auth_mode,
            },
        );
        i = i + 1;
    }
    Ok(out)
}

/// The cached collector configuration: a single-writer snapshot, swapped
/// whole on a successful refresh, kept intact on a failed one.
pub struct CollectorRegistry {
    snapshot: Vec<CollectorConfig>,
    loaded: bool,
    loaded_at_ms: u64,
    refresh_window_ms: u64,
}

impl CollectorRegistry {
    /// Whether a snapshot has ever been committed.
    pub closed spec fn is_loaded(self) -> bool {
        self.loaded
    }

    /// The committed snapshot; empty until one is committed.
    pub closed spec fn spec_snapshot(self) -> Seq<CollectorConfig> {
        self.snapshot@
    }

    /// When the committed snapshot was loaded.
    pub closed spec fn spec_loaded_at_ms(self) -> u64 {
        self.loaded_at_ms
    }

    /// The freshness window.
    pub closed spec fn spec_window_ms(self) -> u64 {
        self.refresh_window_ms
    }

    /// The snapshot is stale when none was ever loaded, when the clock has
    /// gone backwards, or when the window has elapsed.
    pub open spec fn is_stale(self, now_ms: u64) -> bool {
        ||| !self.is_loaded()
        ||| now_ms < self.spec_loaded_at_ms()
        ||| now_ms - self.spec_loaded_at_ms() >= self.spec_window_ms()
    }

    /// A registry with no snapshot yet and the given freshness window.
    pub fn new(refresh_window_ms: u64) -> (r: CollectorRegistry)
        ensures
            !r.is_loaded(),
            r.spec_window_ms() == refresh_window_ms,
            r.spec_snapshot() == Seq::<CollectorConfig>::empty(),
    {
        CollectorRegistry {
            snapshot: Vec::new(),
            loaded: false,
            loaded_at_ms: 0,
            refresh_window_ms,
        }
    }

    /// Whether a refresh is due now. Idempotent: within the freshness window
    /// nothing needs to be fetched.
    pub fn needs_refresh(&self, now_ms: u64) -> (r: bool)
        ensures
            r == self.is_stale(now_ms),
    {
        !self.loaded || now_ms < self.loaded_at_ms || now_ms - self.loaded_at_ms
            >= self.refresh_window_ms
    }

    /// The latest committed snapshot, never a half-updated one.
    pub fn current(&self) -> (r: &Vec<CollectorConfig>)
        ensures
            r@ == self.spec_snapshot(),
    {
        &self.snapshot
    }

    /// Commits the outcome of a fetch. A valid fetched configuration is
    /// validated and swapped in whole, atomically from any reader's view. A
    /// failed fetch (`None`) or an invalid one leaves the prior snapshot
    /// intact; that is an error only when no snapshot was ever loaded.
    pub fn apply_refresh(&mut self, fetched: Option<Vec<RawCollector>>, now_ms: u64) -> (r: Result<
        (),
        ForwardError,
    >)
        ensures
            (match fetched {
                Some(raw) if forall|i: int|
                    0 <= i < raw@.len() ==> raw_valid(#[trigger] raw@[i]) => {
                    &&& r is Ok
                    &&& final(self).is_loaded()
                    &&& final(self).spec_loaded_at_ms() == now_ms
                    &&& final(self).spec_snapshot().len() == raw@.len()
                    &&& forall|i: int|
                        0 <= i < raw@.len() ==> config_matches(
                            #[trigger] final(self).spec_snapshot()[i],
                            raw@[i],
                        )
                },
                _ => {
                    &&& *final(self) == *old(self)
                    &&& r is Ok <==> old(self).is_loaded()
                    &&& r matches Err(e) ==> e == ForwardError::RegistryRefresh
                },
            }),
            final(self).spec_window_ms() == old(self).spec_window_ms(),
    {
        let outcome = match fetched {
            Some(raw) => validate_collectors(&raw),
            None => Err(ForwardError::RegistryRefresh),
        };
        match outcome {
            Ok(configs) => {
                self.snapshot = configs;
                self.loaded = true;
                self.loaded_at_ms = now_ms;
                Ok(())
            },
            Err(_) => {
                if self.loaded {
                    Ok(())
                } else {
                    Err(ForwardError::RegistryRefresh)
                }
            },
        }
    }
}

} // verus!
