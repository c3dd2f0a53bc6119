use xmpp_proxy::bridge::WsRead;
use xmpp_proxy::connection::{
    connect_address, connect_failure_message, connect_timeout_message, first_candidate,
    plan_upstream, resolve_failure_message, secure_by, ActiveConnections, ConnectionHandler,
    ConnectionIds, HandlerAction, HandlerEvent, HandlerPhase, SecureBy, UpstreamAction,
    UpstreamEvent, UpstreamPhase, UpstreamPlan, UpstreamSetup, INITIAL_CLIENT_STANZA_TIMEOUT_SECS,
    STARTTLS_READ_TIMEOUT_SECS, TCP_CONNECT_TIMEOUT_SECS,
};
use xmpp_proxy::dns::{ConnectionMode, XmppEndpoint};
use xmpp_proxy::srv::SrvRecord;

fn text(t: &str) -> HandlerEvent {
    HandlerEvent::Ws(WsRead::Text(t.to_string()))
}

fn endpoint(host: &str, port: u16, mode: ConnectionMode, domain: Option<&str>) -> XmppEndpoint {
    XmppEndpoint { host: host.to_string(), port, mode, domain: domain.map(|d| d.to_string()) }
}

fn awaiting() -> ConnectionHandler {
    let mut h = ConnectionHandler::new(1);
    assert_eq!(h.step(HandlerEvent::HandshakeDone), HandlerAction::Wait);
    h
}

fn connecting() -> ConnectionHandler {
    let mut h = awaiting();
    assert_eq!(h.step(text("<open/>")), HandlerAction::ConnectUpstream);
    h
}

#[test]
fn timeouts() {
    assert_eq!(TCP_CONNECT_TIMEOUT_SECS, 15);
    assert_eq!(INITIAL_CLIENT_STANZA_TIMEOUT_SECS, 10);
    assert_eq!(STARTTLS_READ_TIMEOUT_SECS, 10);
}

#[test]
fn happy_path_goes_from_handshake_to_bridge() {
    let mut h = ConnectionHandler::new(9);
    assert_eq!(h.phase, HandlerPhase::WsHandshake);
    assert_eq!(h.step(HandlerEvent::HandshakeDone), HandlerAction::Wait);
    assert_eq!(h.phase, HandlerPhase::AwaitInitialStanza);
    assert_eq!(h.step(text("<open to='fake'/>")), HandlerAction::ConnectUpstream);
    assert_eq!(h.phase, HandlerPhase::Connecting);
    assert_eq!(
        h.step(HandlerEvent::UpstreamReady),
        HandlerAction::StartBridge(vec!["<open to='fake'/>".to_string()])
    );
    assert_eq!(h.phase, HandlerPhase::Bridging);
    assert!(h.pending_ws_texts.is_empty());
    assert_eq!(h.step(HandlerEvent::BridgeEnded), HandlerAction::Finish(Ok(())));
    assert_eq!(h.phase, HandlerPhase::Terminated);
    assert_eq!(h.conn_id, 9);
}

#[test]
fn frames_during_setup_are_buffered_in_order() {
    let mut h = connecting();
    assert_eq!(h.step(text("<auth/>")), HandlerAction::Wait);
    assert_eq!(h.step(HandlerEvent::Ws(WsRead::Other)), HandlerAction::Wait);
    assert_eq!(h.step(text("<bind/>")), HandlerAction::Wait);
    assert_eq!(
        h.step(HandlerEvent::UpstreamReady),
        HandlerAction::StartBridge(vec![
            "<open/>".to_string(),
            "<auth/>".to_string(),
            "<bind/>".to_string()
        ])
    );
}

#[test]
fn early_disconnect_ends_cleanly_without_upstream_work() {
    for read in [WsRead::Close, WsRead::Error, WsRead::End] {
        let mut h = awaiting();
        assert_eq!(h.step(HandlerEvent::Ws(read)), HandlerAction::Finish(Ok(())));
        assert_eq!(h.phase, HandlerPhase::Terminated);
        assert!(h.pending_ws_texts.is_empty());
    }
}

#[test]
fn frames_other_than_text_do_not_start_upstream_work() {
    let mut h = awaiting();
    assert_eq!(h.step(HandlerEvent::Ws(WsRead::Other)), HandlerAction::Wait);
    assert_eq!(h.phase, HandlerPhase::AwaitInitialStanza);
}

#[test]
fn missing_first_stanza_times_out() {
    let mut h = awaiting();
    assert_eq!(
        h.step(HandlerEvent::InitialTimeout),
        HandlerAction::Finish(Err("Timed out after 10s waiting for initial client stanza".to_string()))
    );
    assert_eq!(h.phase, HandlerPhase::Terminated);
}

#[test]
fn failed_upgrade_is_an_error() {
    let mut h = ConnectionHandler::new(1);
    assert_eq!(
        h.step(HandlerEvent::HandshakeFailed("bad request".into())),
        HandlerAction::Finish(Err("WebSocket handshake failed: bad request".to_string()))
    );
}

#[test]
fn client_loss_during_setup_ends_cleanly() {
    for read in [WsRead::Close, WsRead::Error, WsRead::End] {
        let mut h = connecting();
        assert_eq!(h.step(HandlerEvent::Ws(read)), HandlerAction::Finish(Ok(())));
        assert_eq!(h.phase, HandlerPhase::Terminated);
    }
}

#[test]
fn failed_upstream_is_an_error() {
    let mut h = connecting();
    assert_eq!(
        h.step(HandlerEvent::UpstreamFailed("TCP connect timed out after 15s to h:1".into())),
        HandlerAction::Finish(Err("TCP connect timed out after 15s to h:1".to_string()))
    );
}

#[test]
fn shutdown_ends_every_live_phase_cleanly() {
    let mut bridging = connecting();
    bridging.step(HandlerEvent::UpstreamReady);
    for mut h in [ConnectionHandler::new(1), awaiting(), connecting(), bridging] {
        assert_eq!(h.step(HandlerEvent::Shutdown), HandlerAction::Finish(Ok(())));
        assert_eq!(h.phase, HandlerPhase::Terminated);
    }
}

#[test]
fn a_finished_handler_stays_finished() {
    let mut h = awaiting();
    h.step(HandlerEvent::Shutdown);
    for event in [
        HandlerEvent::Shutdown,
        HandlerEvent::HandshakeDone,
        text("<open/>"),
        HandlerEvent::UpstreamReady,
        HandlerEvent::BridgeEnded,
        HandlerEvent::InitialTimeout,
    ] {
        assert_eq!(h.step(event), HandlerAction::Wait);
        assert_eq!(h.phase, HandlerPhase::Terminated);
    }
}

#[test]
fn events_out_of_phase_change_nothing() {
    let mut h = awaiting();
    assert_eq!(h.step(HandlerEvent::UpstreamReady), HandlerAction::Wait);
    assert_eq!(h.step(HandlerEvent::BridgeEnded), HandlerAction::Wait);
    assert_eq!(h.step(HandlerEvent::HandshakeDone), HandlerAction::Wait);
    assert_eq!(h.phase, HandlerPhase::AwaitInitialStanza);
    let mut c = connecting();
    assert_eq!(c.step(HandlerEvent::InitialTimeout), HandlerAction::Wait);
    assert_eq!(c.phase, HandlerPhase::Connecting);
}

#[test]
fn counter_returns_to_zero_after_every_exit() {
    let mut active = ActiveConnections::new();
    active.opened();
    active.opened();
    assert_eq!(active.count, 2);
    assert_eq!(active.closed(), 1);
    active.opened();
    assert_eq!(active.closed(), 1);
    assert_eq!(active.closed(), 0);
    assert_eq!(active.count, 0);
}

#[test]
fn counter_wraps_like_a_machine_word() {
    let mut active = ActiveConnections { count: usize::MAX };
    active.opened();
    assert_eq!(active.count, 0);
    assert_eq!(active.closed(), usize::MAX);
}

#[test]
fn ids_count_up_from_one() {
    let mut ids = ConnectionIds::new();
    assert_eq!(ids.assign(), 1);
    assert_eq!(ids.assign(), 2);
    assert_eq!(ids.assign(), 3);
    let mut last = ConnectionIds { next: u64::MAX };
    assert_eq!(last.assign(), u64::MAX);
    assert_eq!(last.assign(), 0);
}

#[test]
fn explicit_input_is_connected_to_and_domains_are_resolved() {
    assert_eq!(
        plan_upstream("tls://v6.mdosch.de:5223?domain=diebesban.de"),
        UpstreamPlan::Connect(endpoint("v6.mdosch.de", 5223, ConnectionMode::DirectTls, Some("diebesban.de")))
    );
    assert_eq!(
        plan_upstream("chat.example.com:5222"),
        UpstreamPlan::Connect(endpoint("chat.example.com", 5222, ConnectionMode::Tcp, None))
    );
    assert_eq!(plan_upstream(" process-one.net "), UpstreamPlan::Resolve("process-one.net".to_string()));
}

#[test]
fn the_first_candidate_is_taken() {
    let a = endpoint("a", 1, ConnectionMode::Tcp, None);
    let b = endpoint("b", 2, ConnectionMode::Tcp, None);
    assert_eq!(first_candidate(vec![a.clone(), b]), Some(a));
    assert_eq!(first_candidate(Vec::new()), None);
}

#[test]
fn addresses_and_messages() {
    let tcp = endpoint("h.example", 5222, ConnectionMode::Tcp, None);
    let tls = endpoint("[::1]", 443, ConnectionMode::DirectTls, None);
    assert_eq!(connect_address(&tcp), "h.example:5222");
    assert_eq!(connect_address(&tls), "[::1]:443");
    assert_eq!(connect_address(&endpoint("h", 0, ConnectionMode::Tcp, None)), "h:0");
    assert_eq!(connect_address(&endpoint("h", 65535, ConnectionMode::Tcp, None)), "h:65535");
    assert_eq!(connect_timeout_message(&tcp), "TCP connect timed out after 15s to h.example:5222");
    assert_eq!(
        connect_failure_message(&tcp, "refused"),
        "Failed to connect to XMPP server h.example:5222 (STARTTLS): refused"
    );
    assert_eq!(
        connect_failure_message(&tls, "refused"),
        "Failed to connect to XMPP server [::1]:443 (direct TLS): refused"
    );
    assert_eq!(resolve_failure_message("no dns"), "Failed to resolve XMPP server: no dns");
}

#[test]
fn tls_is_named_after_the_xmpp_domain_not_the_srv_target() {
    assert_eq!(
        secure_by(&endpoint("v4.mdosch.de", 5222, ConnectionMode::Tcp, Some("diebesban.de"))),
        SecureBy::Starttls { domain: "diebesban.de".into(), host: "v4.mdosch.de".into() }
    );
    assert_eq!(
        secure_by(&endpoint("v6.mdosch.de", 5223, ConnectionMode::DirectTls, Some("diebesban.de"))),
        SecureBy::DirectTls { server_name: "diebesban.de".into() }
    );
    assert_eq!(
        secure_by(&endpoint("chat.example.com", 5223, ConnectionMode::DirectTls, None)),
        SecureBy::DirectTls { server_name: "chat.example.com".into() }
    );
    assert_eq!(
        secure_by(&endpoint("chat.example.com", 5222, ConnectionMode::Tcp, None)),
        SecureBy::Starttls { domain: "chat.example.com".into(), host: "chat.example.com".into() }
    );
}

fn record(priority: u16, weight: u16, port: u16, target: &str) -> SrvRecord {
    SrvRecord { priority, weight, port, target: target.to_string() }
}

fn unexpected() -> UpstreamAction {
    UpstreamAction::Fail("Unexpected event during upstream setup".to_string())
}

#[test]
fn explicit_direct_tls_goes_connect_handshake_done() {
    let (mut setup, action) = UpstreamSetup::begin("tls://fake:5223");
    assert_eq!(action, UpstreamAction::Connect { address: "fake:5223".into(), timeout_secs: 15 });
    assert_eq!(setup.phase, UpstreamPhase::Connecting);
    assert_eq!(
        setup.step(UpstreamEvent::Connected),
        UpstreamAction::Secure(SecureBy::DirectTls { server_name: "fake".into() })
    );
    assert_eq!(setup.phase, UpstreamPhase::TlsHandshake);
    assert_eq!(setup.step(UpstreamEvent::Secured), UpstreamAction::Done);
    assert_eq!(setup.phase, UpstreamPhase::Established);
}

#[test]
fn explicit_tcp_goes_through_starttls() {
    let (mut setup, action) = UpstreamSetup::begin("tcp://v4.mdosch.de:5222?domain=diebesban.de");
    assert_eq!(action, UpstreamAction::Connect { address: "v4.mdosch.de:5222".into(), timeout_secs: 15 });
    assert_eq!(
        setup.step(UpstreamEvent::Connected),
        UpstreamAction::Secure(SecureBy::Starttls {
            domain: "diebesban.de".into(),
            host: "v4.mdosch.de".into()
        })
    );
    assert_eq!(setup.phase, UpstreamPhase::Starttls);
    assert_eq!(setup.step(UpstreamEvent::Secured), UpstreamAction::Done);
}

#[test]
fn a_domain_is_resolved_and_the_first_candidate_connected_to() {
    let (mut setup, action) = UpstreamSetup::begin("example.com");
    assert_eq!(
        action,
        UpstreamAction::Resolve {
            direct_tls: "_xmpps-client._tcp.example.com".into(),
            starttls: "_xmpp-client._tcp.example.com".into(),
        }
    );
    assert_eq!(setup.phase, UpstreamPhase::Resolving);
    let action = setup.step(UpstreamEvent::Resolved {
        direct_tls: vec![record(10, 0, 5223, "b.example."), record(5, 0, 443, "a.example.")],
        starttls: vec![record(0, 0, 5222, "c.example.")],
    });
    assert_eq!(action, UpstreamAction::Connect { address: "a.example:443".into(), timeout_secs: 15 });
    assert_eq!(
        setup.endpoint,
        Some(endpoint("a.example", 443, ConnectionMode::DirectTls, Some("example.com")))
    );
    assert_eq!(
        setup.step(UpstreamEvent::Connected),
        UpstreamAction::Secure(SecureBy::DirectTls { server_name: "example.com".into() })
    );
}

#[test]
fn a_domain_without_records_falls_back_to_starttls_on_5222() {
    let (mut setup, _) = UpstreamSetup::begin("example.com");
    let action = setup.step(UpstreamEvent::Resolved { direct_tls: Vec::new(), starttls: Vec::new() });
    assert_eq!(action, UpstreamAction::Connect { address: "example.com:5222".into(), timeout_secs: 15 });
    assert_eq!(
        setup.step(UpstreamEvent::Connected),
        UpstreamAction::Secure(SecureBy::Starttls { domain: "example.com".into(), host: "example.com".into() })
    );
}

#[test]
fn upstream_failures_carry_their_messages() {
    let begin = || UpstreamSetup::begin("tcp://h.example:5222").0;
    let mut timed_out = begin();
    assert_eq!(
        timed_out.step(UpstreamEvent::ConnectTimedOut),
        UpstreamAction::Fail("TCP connect timed out after 15s to h.example:5222".into())
    );
    assert_eq!(timed_out.phase, UpstreamPhase::Failed);
    assert_eq!(
        begin().step(UpstreamEvent::ConnectFailed("refused".into())),
        UpstreamAction::Fail("Failed to connect to XMPP server h.example:5222 (STARTTLS): refused".into())
    );
    assert_eq!(
        UpstreamSetup::begin("tls://h.example").0.step(UpstreamEvent::ConnectFailed("refused".into())),
        UpstreamAction::Fail("Failed to connect to XMPP server h.example:5223 (direct TLS): refused".into())
    );
    let mut negotiating = begin();
    negotiating.step(UpstreamEvent::Connected);
    assert_eq!(
        negotiating.step(UpstreamEvent::SecureFailed("STARTTLS: Server closed connection before features".into())),
        UpstreamAction::Fail("STARTTLS: Server closed connection before features".into())
    );
    assert_eq!(
        UpstreamSetup::begin("example.com").0.step(UpstreamEvent::ResolveFailed("no resolver".into())),
        UpstreamAction::Fail("Failed to resolve XMPP server: no resolver".into())
    );
}

#[test]
fn upstream_events_out_of_phase_fail_the_setup() {
    let mut setup = UpstreamSetup::begin("tcp://h.example:5222").0;
    assert_eq!(setup.step(UpstreamEvent::Secured), unexpected());
    assert_eq!(setup.phase, UpstreamPhase::Failed);
    assert_eq!(setup.step(UpstreamEvent::Connected), unexpected());
    let mut resolving = UpstreamSetup::begin("example.com").0;
    assert_eq!(resolving.step(UpstreamEvent::Connected), unexpected());
    let mut done = UpstreamSetup::begin("tls://h.example").0;
    done.step(UpstreamEvent::Connected);
    done.step(UpstreamEvent::Secured);
    assert_eq!(done.step(UpstreamEvent::Secured), unexpected());
}

#[test]
fn xmpp_proxy_test_connection_guard_decrements_on_drop() {
    let mut counter = ActiveConnections { count: 1 };
    assert_eq!(counter.count, 1);
    counter.closed();
    // After the connection has ended, counter should be 0
    assert_eq!(counter.count, 0);
}

#[test]
fn mod_test_connection_guard_decrements_on_drop() {
    let mut counter = ActiveConnections { count: 1 };
    {
        assert_eq!(counter.count, 1);
    }
    assert_eq!(counter.closed(), 0);
    assert_eq!(counter.count, 0);
}

#[test]
fn test_connection_guard_tracks_multiple_connections() {
    let mut counter = ActiveConnections::new();

    // Simulate two concurrent connections
    counter.opened();
    counter.opened();
    assert_eq!(counter.count, 2);

    // First connection ends
    counter.closed();
    assert_eq!(counter.count, 1);

    // Second connection ends
    counter.closed();
    assert_eq!(counter.count, 0);
}

#[test]
fn test_handle_connection_exits_when_websocket_closes_during_upstream_setup() {
    let mut active_connections = ActiveConnections::new();
    active_connections.opened();
    let mut handler = ConnectionHandler::new(1);
    assert_eq!(handler.step(HandlerEvent::HandshakeDone), HandlerAction::Wait);
    assert_eq!(
        handler.step(text(
            "<open xmlns='urn:ietf:params:xml:ns:xmpp-framing' to='example.org' version='1.0'/>"
        )),
        HandlerAction::ConnectUpstream
    );
    let (mut setup, _) = UpstreamSetup::begin("tcp://127.0.0.1:5222");
    assert_eq!(
        setup.step(UpstreamEvent::Connected),
        UpstreamAction::Secure(SecureBy::Starttls {
            domain: "127.0.0.1".into(),
            host: "127.0.0.1".into()
        })
    );

    // The client goes away without a close handshake while STARTTLS is in flight.
    let handler_result = handler.step(HandlerEvent::Ws(WsRead::End));
    active_connections.closed();

    assert_eq!(
        handler_result,
        HandlerAction::Finish(Ok(())),
        "a lost client during setup is a clean early exit"
    );
    assert_eq!(active_connections.count, 0, "the count of live connections is back at zero");
}
