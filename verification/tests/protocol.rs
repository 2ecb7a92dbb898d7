use wash_lib::commands::{
    effective_timeout_ms, CommandKind, DEFAULT_NATS_TIMEOUT_MS, DEFAULT_SCALE_ACTOR_TIMEOUT_MS,
    DEFAULT_START_PROVIDER_TIMEOUT_MS,
};
use wash_lib::config::validate_config;
use wash_lib::placement::{
    begin, normalize_artifact_ref, step, Ack, Bid, CommandContext, Directive, EventKind, Failure,
    FailureKind, LatticeEvent, Outcome, Phase, Signal,
};

fn ctx(host_hint: Option<&str>, skip_wait: bool) -> CommandContext {
    CommandContext {
        kind: CommandKind::StartProvider,
        host_hint: host_hint.map(|s| s.to_string()),
        artifact_ref: "wasmcloud.azurecr.io/httpserver:0.17.0".to_string(),
        skip_wait,
    }
}

fn event(kind: EventKind, host: &str, artifact: &str) -> LatticeEvent {
    LatticeEvent {
        kind,
        host_id: host.to_string(),
        artifact_ref: artifact.to_string(),
        subject_id: "VPROVIDER".to_string(),
        contract_id: "wasmcloud:httpserver".to_string(),
        link_name: "default".to_string(),
        error: String::new(),
    }
}

#[test]
fn empty_auction_fails_before_any_dispatch() {
    let c = ctx(None, false);
    let (phase, d0) = begin(&c);
    assert!(matches!(d0, Directive::RunAuction));
    let (phase, d1) = step(&c, phase, Signal::AuctionBids { bids: vec![] });
    assert!(matches!(d1, Directive::Stop));
    match phase {
        Phase::Done { outcome: Outcome::Failed(Failure { kind, .. }) } => {
            assert!(matches!(kind, FailureKind::NoSuitableHosts));
        }
        _ => panic!("expected a failed run"),
    }
    // Neither emitted directive was a dispatch.
    assert!(!matches!(d0, Directive::Dispatch { .. }));
    assert!(!matches!(d1, Directive::Dispatch { .. }));
}

#[test]
fn auction_picks_first_bid_and_subscribes_before_dispatch() {
    let c = ctx(None, false);
    let (phase, _) = begin(&c);
    let bids = vec![
        Bid { host_id: "NHOSTONE".to_string() },
        Bid { host_id: "NHOSTTWO".to_string() },
    ];
    let (phase, d) = step(&c, phase, Signal::AuctionBids { bids });
    assert!(matches!(d, Directive::Subscribe));
    let (_, d) = step(&c, phase, Signal::Subscribed);
    match d {
        Directive::Dispatch { host_id } => assert_eq!(host_id, "NHOSTONE"),
        _ => panic!("expected a dispatch after the subscription"),
    }
}

#[test]
fn matching_success_event_confirms_and_unrelated_events_are_discarded() {
    let c = ctx(Some("NHOST"), false);
    let (phase, d) = begin(&c);
    assert!(matches!(d, Directive::ResolveHost));
    let (phase, _) = step(&c, phase, Signal::HostResolved { host_id: "NHOST".to_string() });
    let (phase, _) = step(&c, phase, Signal::Subscribed);
    let (phase, _) = step(
        &c,
        phase,
        Signal::AckReceived { ack: Ack { accepted: true, error: String::new() } },
    );
    // An event for a different artifact reference does not end the wait.
    let unrelated = event(EventKind::ProviderStarted, "NHOST", "some/other:ref");
    let (phase, d) = step(&c, phase, Signal::EventArrived { event: unrelated });
    assert!(matches!(d, Directive::AwaitEvent));
    let matching = event(EventKind::ProviderStarted, "NHOST", &c.artifact_ref);
    let (phase, d) = step(&c, phase, Signal::EventArrived { event: matching });
    assert!(matches!(d, Directive::Stop));
    match phase {
        Phase::Done { outcome: Outcome::Confirmed { host_id, subject_id, contract_id, link_name, .. } } => {
            assert_eq!(host_id, "NHOST");
            assert_eq!(subject_id, "VPROVIDER");
            assert_eq!(contract_id, "wasmcloud:httpserver");
            assert_eq!(link_name, "default");
        }
        _ => panic!("expected a confirmed run"),
    }
}

#[test]
fn timeout_without_matching_event_fails_the_run() {
    let c = ctx(Some("NHOST"), false);
    let (phase, _) = begin(&c);
    let (phase, _) = step(&c, phase, Signal::HostResolved { host_id: "NHOST".to_string() });
    let (phase, _) = step(&c, phase, Signal::Subscribed);
    let (phase, _) = step(
        &c,
        phase,
        Signal::AckReceived { ack: Ack { accepted: true, error: String::new() } },
    );
    let (phase, d) = step(&c, phase, Signal::TimedOut);
    assert!(matches!(d, Directive::Stop));
    match phase {
        Phase::Done { outcome: Outcome::Failed(Failure { kind, .. }) } => {
            assert!(matches!(kind, FailureKind::ConfirmationTimeout));
        }
        _ => panic!("expected a timeout failure"),
    }
}

#[test]
fn rejected_ack_fails_without_event_wait() {
    let c = ctx(Some("NHOST"), false);
    let (phase, _) = begin(&c);
    let (phase, _) = step(&c, phase, Signal::HostResolved { host_id: "NHOST".to_string() });
    let (phase, _) = step(&c, phase, Signal::Subscribed);
    let (phase, d) = step(
        &c,
        phase,
        Signal::AckReceived { ack: Ack { accepted: false, error: "out of capacity".to_string() } },
    );
    assert!(matches!(d, Directive::Stop));
    match phase {
        Phase::Done { outcome: Outcome::Failed(Failure { kind, detail }) } => {
            assert!(matches!(kind, FailureKind::AckRejected));
            assert_eq!(detail, "out of capacity");
        }
        _ => panic!("expected an ack rejection"),
    }
}

#[test]
fn skip_wait_short_circuits_after_ack() {
    let c = ctx(Some("NHOST"), true);
    let (phase, _) = begin(&c);
    let (phase, d) = step(&c, phase, Signal::HostResolved { host_id: "NHOST".to_string() });
    // With no confirmation wanted, there is no subscription step.
    assert!(matches!(d, Directive::Dispatch { .. }));
    let (phase, d) = step(
        &c,
        phase,
        Signal::AckReceived { ack: Ack { accepted: true, error: String::new() } },
    );
    assert!(matches!(d, Directive::Stop));
    match phase {
        Phase::Done { outcome: Outcome::Accepted { host_id, artifact_ref } } => {
            assert_eq!(host_id, "NHOST");
            assert_eq!(artifact_ref, c.artifact_ref);
        }
        _ => panic!("expected an accepted-but-unconfirmed run"),
    }
}

#[test]
fn path_like_reference_gets_local_file_scheme() {
    assert_eq!(normalize_artifact_ref("/opt/providers/foo"), "file:///opt/providers/foo");
    assert_eq!(
        normalize_artifact_ref("wasmcloud.azurecr.io/httpserver:0.17.0"),
        "wasmcloud.azurecr.io/httpserver:0.17.0"
    );
    assert_eq!(normalize_artifact_ref(""), "");
    // The normalized value is the one the run carries for correlation.
    let mut c = ctx(Some("NHOST"), false);
    c.artifact_ref = normalize_artifact_ref("/opt/providers/foo");
    let (phase, _) = begin(&c);
    let (phase, _) = step(&c, phase, Signal::HostResolved { host_id: "NHOST".to_string() });
    let (phase, _) = step(&c, phase, Signal::Subscribed);
    let (phase, _) = step(
        &c,
        phase,
        Signal::AckReceived { ack: Ack { accepted: true, error: String::new() } },
    );
    let matching = event(EventKind::ProviderStarted, "NHOST", "file:///opt/providers/foo");
    let (phase, _) = step(&c, phase, Signal::EventArrived { event: matching });
    assert!(matches!(phase, Phase::Done { outcome: Outcome::Confirmed { .. } }));
}

#[test]
fn default_timeouts_per_command_kind() {
    assert_eq!(
        effective_timeout_ms(CommandKind::StartProvider, DEFAULT_NATS_TIMEOUT_MS),
        DEFAULT_START_PROVIDER_TIMEOUT_MS
    );
    assert_eq!(
        effective_timeout_ms(CommandKind::ScaleActor, DEFAULT_NATS_TIMEOUT_MS),
        DEFAULT_SCALE_ACTOR_TIMEOUT_MS
    );
    assert_eq!(effective_timeout_ms(CommandKind::StartProvider, 9000), 9000);
}

#[test]
fn config_must_be_well_formed_json() {
    assert_eq!(validate_config(None).unwrap(), None);
    let good = "{\"address\": \"0.0.0.0:8080\"}".to_string();
    assert_eq!(validate_config(Some(good.clone())).unwrap(), Some(good));
    let bad = "{address:".to_string();
    let err = validate_config(Some(bad));
    assert!(err.is_err());
    assert_eq!(err.unwrap_err().message(), "Configuration provided but was invalid JSON");
}

#[test]
fn start_plan_normalizes_and_validates() {
    let cmd = wash_lib::commands::StartProviderCommand {
        timeout_ms: DEFAULT_NATS_TIMEOUT_MS,
        host_id: None,
        provider_ref: "/opt/providers/foo".to_string(),
        link_name: "default".to_string(),
        constraints: vec![],
        auction_timeout_ms: 2000,
        config_json: Some("{\"a\": 1}".to_string()),
        skip_wait: false,
    };
    let plan = wash_lib::placement::plan_start_provider(cmd).unwrap();
    assert_eq!(plan.ctx.artifact_ref, "file:///opt/providers/foo");
    assert_eq!(plan.confirmation_timeout_ms, DEFAULT_START_PROVIDER_TIMEOUT_MS);
    assert_eq!(plan.config_json, Some("{\"a\": 1}".to_string()));

    let bad = wash_lib::commands::StartProviderCommand {
        timeout_ms: 7000,
        host_id: Some("NHOST".to_string()),
        provider_ref: "registry/foo:1".to_string(),
        link_name: "default".to_string(),
        constraints: vec![],
        auction_timeout_ms: 2000,
        config_json: Some("not json".to_string()),
        skip_wait: true,
    };
    assert!(wash_lib::placement::plan_start_provider(bad).is_err());
}

#[test]
fn scale_plan_uses_actor_default_timeout() {
    let cmd = wash_lib::commands::ScaleActorCommand {
        timeout_ms: DEFAULT_NATS_TIMEOUT_MS,
        host_id: "NHOST".to_string(),
        actor_ref: "registry/echo:1".to_string(),
        max_instances: 5,
        constraints: vec![],
        annotations: None,
        auction_timeout_ms: 2000,
        skip_wait: false,
    };
    let (ctx, timeout) = wash_lib::placement::plan_scale_actor(cmd);
    assert_eq!(ctx.host_hint, Some("NHOST".to_string()));
    assert_eq!(ctx.artifact_ref, "registry/echo:1");
    assert_eq!(timeout, DEFAULT_SCALE_ACTOR_TIMEOUT_MS);
}
