//! Command descriptions for the two lifecycle operations the client issues:
//! starting a provider on a host and scaling an actor, together with the
//! timeout defaults that govern how long the client waits for each.

use vstd::prelude::*;

verus! {

/// Default timeout for a plain control-plane request, in milliseconds.
pub const DEFAULT_NATS_TIMEOUT_MS: u64 = 2000;

/// Longer default used when starting a provider, to allow for artifact
/// download time, in milliseconds.
pub const DEFAULT_START_PROVIDER_TIMEOUT_MS: u64 = 30000;

/// Longer default used when scaling an actor, in milliseconds.
pub const DEFAULT_SCALE_ACTOR_TIMEOUT_MS: u64 = 5000;

/// A request to start a provider somewhere in the lattice.
pub struct StartProviderCommand {
    /// Request timeout in milliseconds, as supplied by the caller.
    pub timeout_ms: u64,
    /// Host to start on; when absent the host is chosen by auction.
    pub host_id: Option<String>,
    /// Artifact reference for the provider, e.g. a registry URL or a local path.
    pub provider_ref: String,
    /// Link name the provider is started under.
    pub link_name: String,
    /// Auction constraints as label/value pairs; ignored when a host is given.
    pub constraints: Vec<(String, String)>,
    /// How long to collect auction bids, in milliseconds.
    pub auction_timeout_ms: u64,
    /// Raw provider configuration text, if the caller supplied any;
    /// it must be a well-formed JSON document to be dispatched.
    pub config_json: Option<String>,
    /// When set, return right after the host acknowledges the request
    /// instead of waiting for the confirmation event.
    pub skip_wait: bool,
}

/// The start operations the client offers.
pub enum StartCommand {
    /// Launch a provider in a host.
    Provider(StartProviderCommand),
}

/// A request to scale an actor on a host to a concurrency bound.
pub struct ScaleActorCommand {
    /// Request timeout in milliseconds, as supplied by the caller.
    pub timeout_ms: u64,
    /// Host to scale on; an identifier or a friendly-name hint.
    pub host_id: String,
    /// Artifact reference for the actor.
    pub actor_ref: String,
    /// Maximum number of concurrent instances the actor may run.
    pub max_instances: u32,
    /// Auction constraints as label/value pairs; ignored since a host is given.
    pub constraints: Vec<(String, String)>,
    /// Annotations describing this scale request, if any.
    pub annotations: Option<Vec<(String, String)>>,
    /// How long to collect auction bids, in milliseconds.
    pub auction_timeout_ms: u64,
    /// When set, return right after the host acknowledges the request.
    pub skip_wait: bool,
}

/// The scale operations the client offers.
pub enum ScaleCommand {
    /// Scale an actor running in a host to a certain level of concurrency.
    Actor(ScaleActorCommand),
}

/// The two command families the placement protocol serves.
pub enum CommandKind {
    StartProvider,
    ScaleActor,
}

/// The default confirmation timeout for a command kind: providers get the
/// longer bound to cover artifact download, actors a shorter one.
pub open spec fn default_timeout_for(kind: CommandKind) -> u64 {
    match kind {
        CommandKind::StartProvider => DEFAULT_START_PROVIDER_TIMEOUT_MS,
        CommandKind::ScaleActor => DEFAULT_SCALE_ACTOR_TIMEOUT_MS,
    }
}

/// The confirmation timeout actually used: a caller that left the timeout at
/// the plain-request default gets the longer per-kind default instead; any
/// other value is taken as deliberate and kept.
pub fn effective_timeout_ms(kind: CommandKind, timeout_ms: u64) -> (r: u64)
    ensures
        timeout_ms == DEFAULT_NATS_TIMEOUT_MS ==> r == default_timeout_for(kind),
        timeout_ms != DEFAULT_NATS_TIMEOUT_MS ==> r == timeout_ms,
{
    if timeout_ms == DEFAULT_NATS_TIMEOUT_MS {
        match kind {
            CommandKind::StartProvider => DEFAULT_START_PROVIDER_TIMEOUT_MS,
            CommandKind::ScaleActor => DEFAULT_SCALE_ACTOR_TIMEOUT_MS,
        }
    } else {
        timeout_ms
    }
}

} // verus!
