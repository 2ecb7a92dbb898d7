//! The placement and confirmation protocol, as an explicit state machine.
//!
//! One run serves one command: resolve a target host (directly, or by taking
//! the first bid of an auction), subscribe to the event stream when a
//! confirmation is wanted, dispatch the command, read the synchronous
//! acknowledgment, and wait for a correlated confirmation or failure event
//! within a bounded timeout. The machine only decides; the caller performs
//! each directive (resolve, auction, subscribe, dispatch, await) and feeds
//! the outcome back in.

use vstd::prelude::*;
use vstd::string::StrSliceExecFns;
use vstd::string::StringExecFns;

use crate::commands::{
    CommandKind, ScaleActorCommand, StartProviderCommand, DEFAULT_NATS_TIMEOUT_MS,
    DEFAULT_SCALE_ACTOR_TIMEOUT_MS, DEFAULT_START_PROVIDER_TIMEOUT_MS,
};
use crate::config::{validate_config, well_formed_json, ConfigError};

verus! {

/// A synchronous acknowledgment from the target host.
pub struct Ack {
    /// Whether the host accepted the command.
    pub accepted: bool,
    /// The host's stated reason when it did not.
    pub error: String,
}

/// One auction response: a candidate host.
pub struct Bid {
    /// The candidate host's identifier.
    pub host_id: String,
}

/// The kind tag of an event read off the stream.
#[derive(PartialEq, Eq, Structural)]
pub enum EventKind {
    ProviderStarted,
    ProviderStartFailed,
    ActorScaled,
    ActorScaleFailed,
}

/// An event read off the stream, carrying the fields used for correlation
/// and, on success, the started entity's identity.
pub struct LatticeEvent {
    pub kind: EventKind,
    /// The host the event speaks of.
    pub host_id: String,
    /// The artifact reference the event speaks of.
    pub artifact_ref: String,
    /// Identity of the started provider or scaled actor.
    pub subject_id: String,
    /// Contract identity reported on success.
    pub contract_id: String,
    /// Link name reported on success.
    pub link_name: String,
    /// The host's reported cause on failure.
    pub error: String,
}

/// Why a run failed.
pub enum FailureKind {
    /// The host hint named no host, or more than one.
    HostResolution,
    /// The auction returned no bids.
    NoSuitableHosts,
    /// The host rejected the command; the detail is its stated reason.
    AckRejected,
    /// A correlated failure event arrived; the detail is the host's cause.
    ConfirmationFailed,
    /// No correlated event arrived before the deadline.
    ConfirmationTimeout,
}

/// A failed run: what went wrong and the collaborator's stated detail.
pub struct Failure {
    pub kind: FailureKind,
    pub detail: String,
}

/// How a run ended.
pub enum Outcome {
    /// A correlated success event arrived: the command took effect, with the
    /// identity fields the event reported.
    Confirmed {
        host_id: String,
        artifact_ref: String,
        subject_id: String,
        contract_id: String,
        link_name: String,
    },
    /// The host acknowledged the command and no confirmation was asked for;
    /// the entity's identity is not yet known.
    Accepted { host_id: String, artifact_ref: String },
    /// The run failed.
    Failed(Failure),
}

/// The data one run of the protocol is about.
pub struct CommandContext {
    /// Which command family this run serves.
    pub kind: CommandKind,
    /// The host hint, if the caller supplied one; otherwise an auction picks.
    pub host_hint: Option<String>,
    /// The normalized artifact reference, used for the auction, the dispatch
    /// and the event correlation alike.
    pub artifact_ref: String,
    /// Whether to return right after the acknowledgment.
    pub skip_wait: bool,
}

/// Where a run stands.
pub enum Phase {
    /// Waiting for the host hint to resolve, or for the auction's bids.
    ResolvingHost,
    /// Waiting for the event subscription to be in place; it must be opened
    /// before the command is sent, so no early confirmation is missed.
    Subscribing { host_id: String },
    /// Command sent; waiting for the synchronous acknowledgment.
    AwaitingAck { host_id: String },
    /// Acknowledged; waiting for a correlated event or the deadline.
    AwaitingConfirmation { host_id: String },
    /// The run is over.
    Done { outcome: Outcome },
}

/// What the caller reports back into the machine.
pub enum Signal {
    /// The host hint resolved to this canonical identifier.
    HostResolved { host_id: String },
    /// The host hint named no host, or more than one.
    HostResolutionFailed { detail: String },
    /// The auction closed with these bids.
    AuctionBids { bids: Vec<Bid> },
    /// The event subscription is in place.
    Subscribed,
    /// The synchronous acknowledgment arrived.
    AckReceived { ack: Ack },
    /// An event arrived on the subscription.
    EventArrived { event: LatticeEvent },
    /// The confirmation deadline passed with no correlated event.
    TimedOut,
}

/// What the caller must do next.
pub enum Directive {
    /// Resolve the host hint to a canonical identifier.
    ResolveHost,
    /// Run the auction for the artifact reference and constraints.
    RunAuction,
    /// Open the event subscription, before anything is sent.
    Subscribe,
    /// Send the command to this host and report the acknowledgment.
    Dispatch { host_id: String },
    /// Read the next event, or report that the deadline passed.
    AwaitEvent,
    /// The run is over; stop.
    Stop,
}

/// The event kind that confirms success for a command family.
pub open spec fn success_kind(k: CommandKind) -> EventKind {
    match k {
        CommandKind::StartProvider => EventKind::ProviderStarted,
        CommandKind::ScaleActor => EventKind::ActorScaled,
    }
}

/// The event kind that reports failure for a command family.
pub open spec fn failure_kind(k: CommandKind) -> EventKind {
    match k {
        CommandKind::StartProvider => EventKind::ProviderStartFailed,
        CommandKind::ScaleActor => EventKind::ActorScaleFailed,
    }
}

/// Whether an event speaks of this run's command: same host identifier and
/// same artifact reference.
pub open spec fn event_matches(ctx: CommandContext, host_id: String, e: LatticeEvent) -> bool {
    e.host_id@ == host_id@ && e.artifact_ref@ == ctx.artifact_ref@
}

/// What a run does once a host is known: with a confirmation wanted, the
/// subscription comes first; without one, dispatch directly.
pub open spec fn after_host_spec(ctx: CommandContext, host_id: String) -> (Phase, Directive) {
    if ctx.skip_wait {
        (Phase::AwaitingAck { host_id: host_id }, Directive::Dispatch { host_id: host_id })
    } else {
        (Phase::Subscribing { host_id: host_id }, Directive::Subscribe)
    }
}

/// The machine's first move: resolve the hint when one was given, else run
/// the auction.
pub open spec fn begin_spec(ctx: CommandContext) -> (Phase, Directive) {
    if ctx.host_hint is Some {
        (Phase::ResolvingHost, Directive::ResolveHost)
    } else {
        (Phase::ResolvingHost, Directive::RunAuction)
    }
}

/// Which signals a phase consumes.
pub open spec fn accepts(phase: Phase, signal: Signal) -> bool {
    match (phase, signal) {
        (Phase::ResolvingHost, Signal::HostResolved { .. }) => true,
        (Phase::ResolvingHost, Signal::HostResolutionFailed { .. }) => true,
        (Phase::ResolvingHost, Signal::AuctionBids { .. }) => true,
        (Phase::Subscribing { .. }, Signal::Subscribed) => true,
        (Phase::AwaitingAck { .. }, Signal::AckReceived { .. }) => true,
        (Phase::AwaitingConfirmation { .. }, Signal::EventArrived { .. }) => true,
        (Phase::AwaitingConfirmation { .. }, Signal::TimedOut) => true,
        _ => false,
    }
}

/// The whole transition relation of the protocol.
pub open spec fn step_spec(ctx: CommandContext, phase: Phase, signal: Signal) -> (
    Phase,
    Directive,
) {
    match (phase, signal) {
        (Phase::ResolvingHost, Signal::HostResolved { host_id }) => after_host_spec(ctx, host_id),
        (Phase::ResolvingHost, Signal::HostResolutionFailed { detail }) => (
            Phase::Done {
                outcome: Outcome::Failed(
                    Failure { kind: FailureKind::HostResolution, detail: detail },
                ),
            },
            Directive::Stop,
        ),
        (Phase::ResolvingHost, Signal::AuctionBids { bids }) => {
            if bids@.len() == 0 {
                (
                    Phase::Done {
                        outcome: Outcome::Failed(
                            Failure {
                                kind: FailureKind::NoSuitableHosts,
                                detail: ctx.artifact_ref,
                            },
                        ),
                    },
                    Directive::Stop,
                )
            } else {
                after_host_spec(ctx, bids@[0].host_id)
            }
        },
        (Phase::Subscribing { host_id }, Signal::Subscribed) => (
            Phase::AwaitingAck { host_id: host_id },
            Directive::Dispatch { host_id: host_id },
        ),
        (Phase::AwaitingAck { host_id }, Signal::AckReceived { ack }) => {
            if !ack.accepted {
                (
                    Phase::Done {
                        outcome: Outcome::Failed(
                            Failure { kind: FailureKind::AckRejected, detail: ack.error },
                        ),
                    },
                    Directive::Stop,
                )
            } else if ctx.skip_wait {
                (
                    Phase::Done {
                        outcome: Outcome::Accepted {
                            host_id: host_id,
                            artifact_ref: ctx.artifact_ref,
                        },
                    },
                    Directive::Stop,
                )
            } else {
                (Phase::AwaitingConfirmation { host_id: host_id }, Directive::AwaitEvent)
            }
        },
        (Phase::AwaitingConfirmation { host_id }, Signal::EventArrived { event }) => {
            if event_matches(ctx, host_id, event) && event.kind == success_kind(ctx.kind) {
                (
                    Phase::Done {
                        outcome: Outcome::Confirmed {
                            host_id: host_id,
                            artifact_ref: ctx.artifact_ref,
                            subject_id: event.subject_id,
                            contract_id: event.contract_id,
                            link_name: event.link_name,
                        },
                    },
                    Directive::Stop,
                )
            } else if event_matches(ctx, host_id, event) && event.kind == failure_kind(ctx.kind) {
                (
                    Phase::Done {
                        outcome: Outcome::Failed(
                            Failure { kind: FailureKind::ConfirmationFailed, detail: event.error },
                        ),
                    },
                    Directive::Stop,
                )
            } else {
                (Phase::AwaitingConfirmation { host_id: host_id }, Directive::AwaitEvent)
            }
        },
        (Phase::AwaitingConfirmation { host_id }, Signal::TimedOut) => (
            Phase::Done {
                outcome: Outcome::Failed(
                    Failure { kind: FailureKind::ConfirmationTimeout, detail: ctx.artifact_ref },
                ),
            },
            Directive::Stop,
        ),
        _ => (phase, Directive::Stop),
    }
}

/// A caller-supplied reference that begins with a path separator names a
/// local file: it is rewritten under the local-file scheme; any other
/// reference is kept as it is.
pub open spec fn normalized_ref(s: Seq<char>) -> Seq<char> {
    if s.len() > 0 && s[0] == '/' {
        "file://"@ + s
    } else {
        s
    }
}

/// Rewrites a path-like artifact reference under the local-file scheme.
/// This happens once, before host resolution, so the auction, the dispatch
/// and the event correlation all see the same normalized reference.
pub fn normalize_artifact_ref(r: &str) -> (out: String)
    ensures
        out@ == normalized_ref(r@),
{
    if r.unicode_len() > 0 && r.get_char(0) == '/' {
        String::from_str("file://").concat(r)
    } else {
        r.to_owned()
    }
}

/// Starts a run: what to do first.
pub fn begin(ctx: &CommandContext) -> (r: (Phase, Directive))
    ensures
        r == begin_spec(*ctx),
{
    match &ctx.host_hint {
        Option::Some(_) => (Phase::ResolvingHost, Directive::ResolveHost),
        Option::None => (Phase::ResolvingHost, Directive::RunAuction),
    }
}

/// One transition of the protocol: consumes a signal in a phase and says
/// where the run now stands and what the caller must do next.
pub fn step(ctx: &CommandContext, phase: Phase, signal: Signal) -> (r: (Phase, Directive))
    requires
        accepts(phase, signal),
    ensures
        r == step_spec(*ctx, phase, signal),
{
    match (phase, signal) {
        (Phase::ResolvingHost, Signal::HostResolved { host_id }) => after_host(ctx, host_id),
        (Phase::ResolvingHost, Signal::HostResolutionFailed { detail }) => (
            Phase::Done {
                outcome: Outcome::Failed(
                    Failure { kind: FailureKind::HostResolution, detail: detail },
                ),
            },
            Directive::Stop,
        ),
        (Phase::ResolvingHost, Signal::AuctionBids { bids }) => {
            if bids.len() == 0 {
                (
                    Phase::Done {
                        outcome: Outcome::Failed(
                            Failure {
                                kind: FailureKind::NoSuitableHosts,
                                detail: ctx.artifact_ref.clone(),
                            },
                        ),
                    },
                    Directive::Stop,
                )
            } else {
                after_host(ctx, bids[0].host_id.clone())
            }
        },
        (Phase::Subscribing { host_id }, Signal::Subscribed) => {
            let h2 = host_id.clone();
            (Phase::AwaitingAck { host_id }, Directive::Dispatch { host_id: h2 })
        },
        (Phase::AwaitingAck { host_id }, Signal::AckReceived { ack }) => {
            if !ack.accepted {
                (
                    Phase::Done {
                        outcome: Outcome::Failed(
                            Failure { kind: FailureKind::AckRejected, detail: ack.error },
                        ),
                    },
                    Directive::Stop,
                )
            } else if ctx.skip_wait {
                (
                    Phase::Done {
                        outcome: Outcome::Accepted {
                            host_id: host_id,
                            artifact_ref: ctx.artifact_ref.clone(),
                        },
                    },
                    Directive::Stop,
                )
            } else {
                (Phase::AwaitingConfirmation { host_id }, Directive::AwaitEvent)
            }
        },
        (Phase::AwaitingConfirmation { host_id }, Signal::EventArrived { event }) => {
            let matches_run = event.host_id == host_id
                && event.artifact_ref == ctx.artifact_ref;
            let is_success = event.kind == success_kind_exec(&ctx.kind);
            let is_failure = event.kind == failure_kind_exec(&ctx.kind);
            if matches_run && is_success {
                (
                    Phase::Done {
                        outcome: Outcome::Confirmed {
                            host_id: host_id,
                            artifact_ref: ctx.artifact_ref.clone(),
                            subject_id: event.subject_id,
                            contract_id: event.contract_id,
                            link_name: event.link_name,
                        },
                    },
                    Directive::Stop,
                )
            } else if matches_run && is_failure {
                (
                    Phase::Done {
                        outcome: Outcome::Failed(
                            Failure { kind: FailureKind::ConfirmationFailed, detail: event.error },
                        ),
                    },
                    Directive::Stop,
                )
            } else {
                (Phase::AwaitingConfirmation { host_id }, Directive::AwaitEvent)
            }
        },
        (Phase::AwaitingConfirmation { host_id: _ }, Signal::TimedOut) => (
            Phase::Done {
                outcome: Outcome::Failed(
                    Failure {
                        kind: FailureKind::ConfirmationTimeout,
                        detail: ctx.artifact_ref.clone(),
                    },
                ),
            },
            Directive::Stop,
        ),
        _ => {
            proof {
                assert(false);
            }
            (Phase::ResolvingHost, Directive::Stop)
        },
    }
}

/// The first step once a host is known.
fn after_host(ctx: &CommandContext, host_id: String) -> (r: (Phase, Directive))
    ensures
        r == after_host_spec(*ctx, host_id),
{
    if ctx.skip_wait {
        let h2 = host_id.clone();
        (Phase::AwaitingAck { host_id }, Directive::Dispatch { host_id: h2 })
    } else {
        (Phase::Subscribing { host_id }, Directive::Subscribe)
    }
}

/// Everything a start-provider run needs, decided up front: the run's
/// context with the normalized reference, the confirmation timeout, and the
/// validated configuration text.
pub struct StartPlan {
    pub ctx: CommandContext,
    pub confirmation_timeout_ms: u64,
    pub config_json: Option<String>,
}

/// Decides a start-provider run from the command alone: the reference is
/// normalized once, the timeout left at the plain-request default is raised
/// to the provider default, and the configuration must be well-formed JSON
/// or the run is refused before anything is sent.
pub fn plan_start_provider(cmd: StartProviderCommand) -> (r: Result<StartPlan, ConfigError>)
    ensures
        (r matches Ok(p) && {
            &&& p.ctx.kind is StartProvider
            &&& p.ctx.host_hint == cmd.host_id
            &&& p.ctx.artifact_ref@ == normalized_ref(cmd.provider_ref@)
            &&& p.ctx.skip_wait == cmd.skip_wait
            &&& p.confirmation_timeout_ms == (if cmd.timeout_ms == DEFAULT_NATS_TIMEOUT_MS {
                DEFAULT_START_PROVIDER_TIMEOUT_MS
            } else {
                cmd.timeout_ms
            })
            &&& p.config_json == cmd.config_json
        }) <==> (cmd.config_json is None || well_formed_json(cmd.config_json->0@)),
        (r matches Err(e) && e is InvalidJson) <==> (cmd.config_json is Some
            && !well_formed_json(cmd.config_json->0@)),
{
    let config_json = validate_config(cmd.config_json)?;
    let timeout = if cmd.timeout_ms == DEFAULT_NATS_TIMEOUT_MS {
        DEFAULT_START_PROVIDER_TIMEOUT_MS
    } else {
        cmd.timeout_ms
    };
    Ok(
        StartPlan {
            ctx: CommandContext {
                kind: CommandKind::StartProvider,
                host_hint: cmd.host_id,
                artifact_ref: normalize_artifact_ref(cmd.provider_ref.as_str()),
                skip_wait: cmd.skip_wait,
            },
            confirmation_timeout_ms: timeout,
            config_json,
        },
    )
}

/// Decides a scale-actor run from the command alone: the host hint is the
/// required host argument, the reference is normalized once, and the timeout
/// left at the plain-request default is raised to the actor default.
pub fn plan_scale_actor(cmd: ScaleActorCommand) -> (r: (CommandContext, u64))
    ensures
        r.0.kind is ScaleActor,
        r.0.host_hint == Some(cmd.host_id),
        r.0.artifact_ref@ == normalized_ref(cmd.actor_ref@),
        r.0.skip_wait == cmd.skip_wait,
        r.1 == (if cmd.timeout_ms == DEFAULT_NATS_TIMEOUT_MS {
            DEFAULT_SCALE_ACTOR_TIMEOUT_MS
        } else {
            cmd.timeout_ms
        }),
{
    let timeout = if cmd.timeout_ms == DEFAULT_NATS_TIMEOUT_MS {
        DEFAULT_SCALE_ACTOR_TIMEOUT_MS
    } else {
        cmd.timeout_ms
    };
    (
        CommandContext {
            kind: CommandKind::ScaleActor,
            host_hint: Some(cmd.host_id),
            artifact_ref: normalize_artifact_ref(cmd.actor_ref.as_str()),
            skip_wait: cmd.skip_wait,
        },
        timeout,
    )
}

/// The event kind that confirms success, as a value.
fn success_kind_exec(k: &CommandKind) -> (r: EventKind)
    ensures
        r == success_kind(*k),
{
    match k {
        CommandKind::StartProvider => EventKind::ProviderStarted,
        CommandKind::ScaleActor => EventKind::ActorScaled,
    }
}

/// The event kind that reports failure, as a value.
fn failure_kind_exec(k: &CommandKind) -> (r: EventKind)
    ensures
        r == failure_kind(*k),
{
    match k {
        CommandKind::StartProvider => EventKind::ProviderStartFailed,
        CommandKind::ScaleActor => EventKind::ActorScaleFailed,
    }
}

} // verus!
