//! One client connection, from the accepted socket to the running
//! bridge: the handler's state machine and the plan for the upstream
//! connection.

use crate::bridge::{WsRead, WsReadView};
use crate::dns::{
    host_port_text, parse_server, parse_server_input, ConnectionMode, EndpointView, ParsedServer,
    ParsedServerView, XmppEndpoint,
};
use crate::framing::texts_view;
use crate::srv::{
    candidates, records_view, resolve_xmpp_server, srv_name, srv_query_name, SrvRecord,
    SrvRecordView,
};
use crate::starttls::joined;
use crate::text::{chars_of, push_decimal, string_of};
use vstd::prelude::*;
use vstd::string::StringExecFns;

verus! {

/// The upstream TCP connect is given this long, in seconds.
pub const TCP_CONNECT_TIMEOUT_SECS: u64 = 15;

/// The client's first stanza is waited for this long, in seconds.
pub const INITIAL_CLIENT_STANZA_TIMEOUT_SECS: u64 = 10;

/// Each read phase of STARTTLS is given this long, in seconds.
pub const STARTTLS_READ_TIMEOUT_SECS: u64 = 10;

/// Where the handling of one connection stands.
#[derive(Debug, Clone, Copy, PartialEq, Eq, Structural)]
pub enum HandlerPhase {
    /// The WebSocket upgrade is under way.
    WsHandshake,
    /// The WebSocket is up; the client's first stanza is awaited. No
    /// upstream work has begun.
    AwaitInitialStanza,
    /// The upstream connection is being set up; client frames are
    /// buffered.
    Connecting,
    /// The bridge runs.
    Bridging,
    /// The connection is done.
    Terminated,
}

/// What happened on a connection.
#[derive(Debug, Clone, PartialEq, Eq)]
pub enum HandlerEvent {
    /// The WebSocket upgrade succeeded.
    HandshakeDone,
    /// The WebSocket upgrade failed, with the error's text.
    HandshakeFailed(String),
    /// A read from the WebSocket returned.
    Ws(WsRead),
    /// The wait for the first stanza ran out.
    InitialTimeout,
    /// The upstream TLS stream is ready.
    UpstreamReady,
    /// The upstream connection failed, with the error's text.
    UpstreamFailed(String),
    /// The proxy shuts down.
    Shutdown,
    /// The bridge ended.
    BridgeEnded,
}

/// What the handler is to do next.
#[derive(Debug, PartialEq, Eq)]
pub enum HandlerAction {
    /// Go on waiting for events.
    Wait,
    /// Begin resolving and connecting upstream, and go on reading the
    /// WebSocket meanwhile.
    ConnectUpstream,
    /// Run the bridge; these client frames are written upstream first, in
    /// this order.
    StartBridge(Vec<String>),
    /// Return from the handler with this result.
    Finish(Result<(), String>),
}

/// The mathematical content of a [`HandlerEvent`].
pub enum HandlerEventView {
    HandshakeDone,
    HandshakeFailed(Seq<char>),
    Ws(WsReadView),
    InitialTimeout,
    UpstreamReady,
    UpstreamFailed(Seq<char>),
    Shutdown,
    BridgeEnded,
}

/// The mathematical content of a [`HandlerAction`].
pub enum HandlerActionView {
    Wait,
    ConnectUpstream,
    StartBridge(Seq<Seq<char>>),
    Finish(Result<(), Seq<char>>),
}

impl View for HandlerEvent {
    type V = HandlerEventView;

    open spec fn view(&self) -> HandlerEventView {
        match self {
            HandlerEvent::HandshakeDone => HandlerEventView::HandshakeDone,
            HandlerEvent::HandshakeFailed(e) => HandlerEventView::HandshakeFailed(e@),
            HandlerEvent::Ws(read) => HandlerEventView::Ws(read@),
            HandlerEvent::InitialTimeout => HandlerEventView::InitialTimeout,
            HandlerEvent::UpstreamReady => HandlerEventView::UpstreamReady,
            HandlerEvent::UpstreamFailed(e) => HandlerEventView::UpstreamFailed(e@),
            HandlerEvent::Shutdown => HandlerEventView::Shutdown,
            HandlerEvent::BridgeEnded => HandlerEventView::BridgeEnded,
        }
    }
}

impl View for HandlerAction {
    type V = HandlerActionView;

    open spec fn view(&self) -> HandlerActionView {
        match self {
            HandlerAction::Wait => HandlerActionView::Wait,
            HandlerAction::ConnectUpstream => HandlerActionView::ConnectUpstream,
            HandlerAction::StartBridge(pending) => HandlerActionView::StartBridge(
                texts_view(pending@),
            ),
            HandlerAction::Finish(result) => HandlerActionView::Finish(
                match result {
                    Ok(_) => Ok(()),
                    Err(e) => Err(e@),
                },
            ),
        }
    }
}

/// The handler of one connection: its phase and the client frames that
/// wait for the upstream connection.
#[derive(Debug, Clone, PartialEq, Eq)]
pub struct ConnectionHandler {
    pub conn_id: u64,
    pub phase: HandlerPhase,
    pub pending_ws_texts: Vec<String>,
}

/// The mathematical content of a [`ConnectionHandler`].
pub struct HandlerView {
    pub conn_id: u64,
    pub phase: HandlerPhase,
    pub pending: Seq<Seq<char>>,
}

impl View for ConnectionHandler {
    type V = HandlerView;

    open spec fn view(&self) -> HandlerView {
        HandlerView {
            conn_id: self.conn_id,
            phase: self.phase,
            pending: texts_view(self.pending_ws_texts@),
        }
    }
}

/// The state of a handler that is done.
pub open spec fn terminated(state: HandlerView) -> HandlerView {
    HandlerView { phase: HandlerPhase::Terminated, ..state }
}

/// The message of a handler that waited in vain for the first stanza.
pub open spec fn initial_timeout_message() -> Seq<char> {
    "Timed out after 10s waiting for initial client stanza"@
}

/// One step of a connection's handler: the state after `event` and what
/// to do next.
///
/// Upstream work begins only with the client's first text frame. Frames
/// that come during setup are buffered in order and handed to the bridge.
/// A client that closes or fails before the bridge runs ends the handler
/// cleanly, and so does a shutdown; a failed upgrade, the timeout of the
/// first stanza and a failed upstream connection end it with an error. In
/// a handler that is done, and on an event that a phase does not expect,
/// nothing changes.
pub open spec fn handler_step(state: HandlerView, event: HandlerEventView) -> (
    HandlerView,
    HandlerActionView,
) {
    match (state.phase, event) {
        (HandlerPhase::Terminated, _) => (state, HandlerActionView::Wait),
        (_, HandlerEventView::Shutdown) => (terminated(state), HandlerActionView::Finish(Ok(()))),
        (HandlerPhase::WsHandshake, HandlerEventView::HandshakeDone) => (
            HandlerView { phase: HandlerPhase::AwaitInitialStanza, ..state },
            HandlerActionView::Wait,
        ),
        (HandlerPhase::WsHandshake, HandlerEventView::HandshakeFailed(e)) => (
            terminated(state),
            HandlerActionView::Finish(Err("WebSocket handshake failed: "@ + e)),
        ),
        (HandlerPhase::AwaitInitialStanza, HandlerEventView::Ws(read)) => match read {
            WsReadView::Text(text) => (
                HandlerView { phase: HandlerPhase::Connecting, pending: seq![text], ..state },
                HandlerActionView::ConnectUpstream,
            ),
            WsReadView::Other => (state, HandlerActionView::Wait),
            _ => (terminated(state), HandlerActionView::Finish(Ok(()))),
        },
        (HandlerPhase::AwaitInitialStanza, HandlerEventView::InitialTimeout) => (
            terminated(state),
            HandlerActionView::Finish(Err(initial_timeout_message())),
        ),
        (HandlerPhase::Connecting, HandlerEventView::Ws(read)) => match read {
            WsReadView::Text(text) => (
                HandlerView { pending: state.pending.push(text), ..state },
                HandlerActionView::Wait,
            ),
            WsReadView::Other => (state, HandlerActionView::Wait),
            _ => (terminated(state), HandlerActionView::Finish(Ok(()))),
        },
        (HandlerPhase::Connecting, HandlerEventView::UpstreamReady) => (
            HandlerView { phase: HandlerPhase::Bridging, pending: Seq::empty(), ..state },
            HandlerActionView::StartBridge(state.pending),
        ),
        (HandlerPhase::Connecting, HandlerEventView::UpstreamFailed(e)) => (
            terminated(state),
            HandlerActionView::Finish(Err(e)),
        ),
        (HandlerPhase::Bridging, HandlerEventView::BridgeEnded) => (
            terminated(state),
            HandlerActionView::Finish(Ok(())),
        ),
        _ => (state, HandlerActionView::Wait),
    }
}

impl ConnectionHandler {
    /// The handler of a connection that was just accepted.
    pub fn new(conn_id: u64) -> (handler: ConnectionHandler)
        ensures
            handler@ == (HandlerView {
                conn_id,
                phase: HandlerPhase::WsHandshake,
                pending: Seq::empty(),
            }),
    {
        let handler = ConnectionHandler {
            conn_id,
            phase: HandlerPhase::WsHandshake,
            pending_ws_texts: Vec::new(),
        };
        assert(texts_view(handler.pending_ws_texts@) == Seq::<Seq<char>>::empty());
        handler
    }

    /// Takes the handler one step on.
    ///
    /// The handler returns exactly when it ends.
    pub fn step(&mut self, event: HandlerEvent) -> (action: HandlerAction)
        ensures
            (final(self)@, action@) == handler_step(old(self)@, event@),
            old(self).phase != HandlerPhase::Terminated ==> (action is Finish <==> final(self).phase
                == HandlerPhase::Terminated),
    {
        let phase = self.phase;
        match phase {
            HandlerPhase::Terminated => {
                return HandlerAction::Wait;
            },
            _ => {},
        }
        match event {
            HandlerEvent::Shutdown => self.finish(Ok(())),
            HandlerEvent::HandshakeDone => match phase {
                HandlerPhase::WsHandshake => {
                    self.phase = HandlerPhase::AwaitInitialStanza;
                    HandlerAction::Wait
                },
                _ => HandlerAction::Wait,
            },
            HandlerEvent::HandshakeFailed(e) => match phase {
                HandlerPhase::WsHandshake => self.finish(
                    Err(joined("WebSocket handshake failed: ", e.as_str())),
                ),
                _ => HandlerAction::Wait,
            },
            HandlerEvent::Ws(read) => match phase {
                HandlerPhase::AwaitInitialStanza => match read {
                    WsRead::Text(text) => {
                        let mut pending: Vec<String> = Vec::new();
                        pending.push(text);
                        assert(texts_view(pending@) == seq![text@]);
                        self.pending_ws_texts = pending;
                        self.phase = HandlerPhase::Connecting;
                        HandlerAction::ConnectUpstream
                    },
                    WsRead::Other => HandlerAction::Wait,
                    _ => self.finish(Ok(())),
                },
                HandlerPhase::Connecting => match read {
                    WsRead::Text(text) => {
                        let ghost before = texts_view(self.pending_ws_texts@);
                        self.pending_ws_texts.push(text);
                        assert(texts_view(self.pending_ws_texts@) == before.push(text@));
                        HandlerAction::Wait
                    },
                    WsRead::Other => HandlerAction::Wait,
                    _ => self.finish(Ok(())),
                },
                _ => HandlerAction::Wait,
            },
            HandlerEvent::InitialTimeout => match phase {
                HandlerPhase::AwaitInitialStanza => self.finish(
                    Err(String::from_str("Timed out after 10s waiting for initial client stanza")),
                ),
                _ => HandlerAction::Wait,
            },
            HandlerEvent::UpstreamReady => match phase {
                HandlerPhase::Connecting => {
                    let mut pending: Vec<String> = Vec::new();
                    assert(texts_view(pending@) == Seq::<Seq<char>>::empty());
                    std::mem::swap(&mut pending, &mut self.pending_ws_texts);
                    self.phase = HandlerPhase::Bridging;
                    HandlerAction::StartBridge(pending)
                },
                _ => HandlerAction::Wait,
            },
            HandlerEvent::UpstreamFailed(e) => match phase {
                HandlerPhase::Connecting => self.finish(Err(e)),
                _ => HandlerAction::Wait,
            },
            HandlerEvent::BridgeEnded => match phase {
                HandlerPhase::Bridging => self.finish(Ok(())),
                _ => HandlerAction::Wait,
            },
        }
    }

    fn finish(&mut self, result: Result<(), String>) -> (action: HandlerAction)
        ensures
            final(self)@ == terminated(old(self)@),
            action == HandlerAction::Finish(result),
    {
        self.phase = HandlerPhase::Terminated;
        HandlerAction::Finish(result)
    }
}

/// The count of live connections after one more opened. It wraps at the
/// machine's limit.
pub open spec fn count_opened(count: usize) -> usize {
    if count == usize::MAX {
        0
    } else {
        (count + 1) as usize
    }
}

/// The count of live connections after one closed. It wraps at zero.
pub open spec fn count_closed(count: usize) -> usize {
    if count == 0 {
        usize::MAX
    } else {
        (count - 1) as usize
    }
}

/// The number of live connections.
#[derive(Debug, Clone, Copy, PartialEq, Eq, Structural)]
pub struct ActiveConnections {
    pub count: usize,
}

impl ActiveConnections {
    /// No connection is live.
    pub fn new() -> (active: ActiveConnections)
        ensures
            active.count == 0,
    {
        ActiveConnections { count: 0 }
    }

    /// A connection was accepted.
    pub fn opened(&mut self)
        ensures
            final(self).count == count_opened(old(self).count),
    {
        self.count = if self.count == usize::MAX {
            0
        } else {
            self.count + 1
        };
    }

    /// A connection's handler returned. Returns the count that is left.
    pub fn closed(&mut self) -> (left: usize)
        ensures
            left == final(self).count,
            final(self).count == count_closed(old(self).count),
    {
        self.count = if self.count == 0 {
            usize::MAX
        } else {
            self.count - 1
        };
        self.count
    }
}

/// The source of connection ids: each id is one more than the one before,
/// beginning with 1.
#[derive(Debug, Clone, Copy, PartialEq, Eq, Structural)]
pub struct ConnectionIds {
    pub next: u64,
}

impl ConnectionIds {
    /// A source whose first id is 1.
    pub fn new() -> (ids: ConnectionIds)
        ensures
            ids.next == 1,
    {
        ConnectionIds { next: 1 }
    }

    /// Hands out the next id. The ids wrap at the limit of 64 bits.
    pub fn assign(&mut self) -> (id: u64)
        ensures
            id == old(self).next,
            final(self).next == if old(self).next == u64::MAX {
                0
            } else {
                old(self).next + 1
            },
    {
        let id = self.next;
        self.next = if id == u64::MAX {
            0
        } else {
            id + 1
        };
        id
    }
}

/// How the upstream endpoint is found.
#[derive(Debug, Clone, PartialEq, Eq)]
pub enum UpstreamPlan {
    /// Connect to this endpoint.
    Connect(XmppEndpoint),
    /// Resolve this domain through SRV records first.
    Resolve(String),
}

/// The mathematical content of an [`UpstreamPlan`].
pub enum UpstreamPlanView {
    Connect(EndpointView),
    Resolve(Seq<char>),
}

impl View for UpstreamPlan {
    type V = UpstreamPlanView;

    open spec fn view(&self) -> UpstreamPlanView {
        match self {
            UpstreamPlan::Connect(endpoint) => UpstreamPlanView::Connect(endpoint@),
            UpstreamPlan::Resolve(domain) => UpstreamPlanView::Resolve(domain@),
        }
    }
}

/// The plan for a server input: an explicit endpoint is connected to as
/// it is, a domain is resolved.
pub open spec fn upstream_plan(server_input: Seq<char>) -> UpstreamPlanView {
    match parse_server(server_input) {
        ParsedServerView::Direct(host, port, mode, domain) => UpstreamPlanView::Connect(
            EndpointView { host, port, mode, domain },
        ),
        ParsedServerView::Domain(domain) => UpstreamPlanView::Resolve(domain),
    }
}

/// Decides how the upstream endpoint of a server input is found.
pub fn plan_upstream(server_input: &str) -> (plan: UpstreamPlan)
    ensures
        plan@ == upstream_plan(server_input@),
{
    match parse_server_input(server_input) {
        ParsedServer::Direct(host, port, mode, domain) => UpstreamPlan::Connect(
            XmppEndpoint { host, port, mode, domain },
        ),
        ParsedServer::Domain(domain) => UpstreamPlan::Resolve(domain),
    }
}

/// The endpoint to connect to among the candidates: the first.
pub fn first_candidate(candidates: Vec<XmppEndpoint>) -> (endpoint: Option<XmppEndpoint>)
    ensures
        match endpoint {
            Some(e) => candidates@.len() > 0 && e == candidates@[0],
            None => candidates@.len() == 0,
        },
{
    let mut candidates = candidates;
    if candidates.len() > 0 {
        Some(candidates.remove(0))
    } else {
        None
    }
}

/// The address that the socket connects to: `host:port`.
pub fn connect_address(endpoint: &XmppEndpoint) -> (address: String)
    ensures
        address@ == host_port_text(endpoint.host@, endpoint.port),
{
    let mut chars = chars_of(endpoint.host.as_str());
    chars.push(':');
    push_decimal(&mut chars, endpoint.port as u64);
    string_of(chars.as_slice())
}

/// The message for a failed resolution.
pub fn resolve_failure_message(error: &str) -> (message: String)
    ensures
        message@ == "Failed to resolve XMPP server: "@ + error@,
{
    joined("Failed to resolve XMPP server: ", error)
}

/// The message for a TCP connect that ran out of time.
pub fn connect_timeout_message(endpoint: &XmppEndpoint) -> (message: String)
    ensures
        message@ == connect_timeout_text(endpoint@),
{
    let address = connect_address(endpoint);
    joined("TCP connect timed out after 15s to ", address.as_str())
}

/// The name of a mode in messages.
pub open spec fn mode_label(mode: ConnectionMode) -> Seq<char> {
    match mode {
        ConnectionMode::Tcp => "STARTTLS"@,
        ConnectionMode::DirectTls => "direct TLS"@,
    }
}

/// The message for a TCP connect that failed with `error`.
pub fn connect_failure_message(endpoint: &XmppEndpoint, error: &str) -> (message: String)
    ensures
        message@ == connect_failure_text(endpoint@, error@),
{
    let address = connect_address(endpoint);
    let mut message = joined("Failed to connect to XMPP server ", address.as_str());
    message.append(" (");
    match endpoint.mode {
        ConnectionMode::Tcp => message.append("STARTTLS"),
        ConnectionMode::DirectTls => message.append("direct TLS"),
    }
    message.append("): ");
    message.append(error);
    message
}

/// How a connected socket is secured.
#[derive(Debug, Clone, PartialEq, Eq)]
pub enum SecureBy {
    /// Negotiate STARTTLS: the stream is addressed to `domain`, which is
    /// also the name for TLS; `host` is where the socket is connected.
    Starttls { domain: String, host: String },
    /// Start TLS at once, with this server name.
    DirectTls { server_name: String },
}

/// The mathematical content of a [`SecureBy`].
pub enum SecureByView {
    Starttls { domain: Seq<char>, host: Seq<char> },
    DirectTls { server_name: Seq<char> },
}

impl View for SecureBy {
    type V = SecureByView;

    open spec fn view(&self) -> SecureByView {
        match self {
            SecureBy::Starttls { domain, host } => SecureByView::Starttls {
                domain: domain@,
                host: host@,
            },
            SecureBy::DirectTls { server_name } => SecureByView::DirectTls {
                server_name: server_name@,
            },
        }
    }
}

/// How the socket to an endpoint is secured. The name given to TLS, and
/// to the stream in STARTTLS, is the XMPP domain where the endpoint has
/// one, never the SRV target beside it.
pub open spec fn secured_by(endpoint: EndpointView) -> SecureByView {
    match endpoint.mode {
        ConnectionMode::Tcp => SecureByView::Starttls {
            domain: endpoint.tls_name(),
            host: endpoint.host,
        },
        ConnectionMode::DirectTls => SecureByView::DirectTls { server_name: endpoint.tls_name() },
    }
}

/// Decides how the socket to `endpoint` is secured.
pub fn secure_by(endpoint: &XmppEndpoint) -> (how: SecureBy)
    ensures
        how@ == secured_by(endpoint@),
{
    match endpoint.mode {
        ConnectionMode::Tcp => SecureBy::Starttls {
            domain: endpoint.tls_name().to_owned(),
            host: endpoint.host.clone(),
        },
        ConnectionMode::DirectTls => SecureBy::DirectTls {
            server_name: endpoint.tls_name().to_owned(),
        },
    }
}

/// Where the setup of the upstream connection stands.
#[derive(Debug, Clone, Copy, PartialEq, Eq, Structural)]
pub enum UpstreamPhase {
    /// The SRV records of the domain are being looked up.
    Resolving,
    /// The TCP connect is under way.
    Connecting,
    /// STARTTLS is being negotiated.
    Starttls,
    /// The direct TLS handshake is under way.
    TlsHandshake,
    /// The TLS stream is ready.
    Established,
    /// The setup failed.
    Failed,
}

/// What happened during the setup.
#[derive(Debug, Clone, PartialEq, Eq)]
pub enum UpstreamEvent {
    /// The two SRV queries returned these records; a query that failed
    /// counts as one that returned none.
    Resolved { direct_tls: Vec<SrvRecord>, starttls: Vec<SrvRecord> },
    /// No query could be made at all, with the error's text.
    ResolveFailed(String),
    /// The socket is connected.
    Connected,
    /// The connect ran out of time.
    ConnectTimedOut,
    /// The connect failed, with the error's text.
    ConnectFailed(String),
    /// TLS is established, by STARTTLS or directly.
    Secured,
    /// STARTTLS or the TLS handshake failed, with the error's message.
    SecureFailed(String),
}

/// What the setup asks for next.
#[derive(Debug, Clone, PartialEq, Eq)]
pub enum UpstreamAction {
    /// Query the SRV records under these two names.
    Resolve { direct_tls: String, starttls: String },
    /// Connect to this address within this many seconds.
    Connect { address: String, timeout_secs: u64 },
    /// Secure the connected socket in this way.
    Secure(SecureBy),
    /// The TLS stream is ready for the bridge.
    Done,
    /// Give up, with this message.
    Fail(String),
}

/// The setup of the upstream connection: its phase, the domain that is
/// being resolved, and the endpoint that was chosen.
#[derive(Debug, Clone, PartialEq, Eq)]
pub struct UpstreamSetup {
    pub phase: UpstreamPhase,
    pub domain: Option<String>,
    pub endpoint: Option<XmppEndpoint>,
}

/// The mathematical content of an [`UpstreamEvent`].
pub enum UpstreamEventView {
    Resolved { direct_tls: Seq<SrvRecordView>, starttls: Seq<SrvRecordView> },
    ResolveFailed(Seq<char>),
    Connected,
    ConnectTimedOut,
    ConnectFailed(Seq<char>),
    Secured,
    SecureFailed(Seq<char>),
}

/// The mathematical content of an [`UpstreamAction`].
pub enum UpstreamActionView {
    Resolve { direct_tls: Seq<char>, starttls: Seq<char> },
    Connect { address: Seq<char>, timeout_secs: u64 },
    Secure(SecureByView),
    Done,
    Fail(Seq<char>),
}

/// The mathematical content of an [`UpstreamSetup`].
pub struct UpstreamView {
    pub phase: UpstreamPhase,
    pub domain: Option<Seq<char>>,
    pub endpoint: Option<EndpointView>,
}

impl View for UpstreamEvent {
    type V = UpstreamEventView;

    open spec fn view(&self) -> UpstreamEventView {
        match self {
            UpstreamEvent::Resolved { direct_tls, starttls } => UpstreamEventView::Resolved {
                direct_tls: records_view(direct_tls@),
                starttls: records_view(starttls@),
            },
            UpstreamEvent::ResolveFailed(e) => UpstreamEventView::ResolveFailed(e@),
            UpstreamEvent::Connected => UpstreamEventView::Connected,
            UpstreamEvent::ConnectTimedOut => UpstreamEventView::ConnectTimedOut,
            UpstreamEvent::ConnectFailed(e) => UpstreamEventView::ConnectFailed(e@),
            UpstreamEvent::Secured => UpstreamEventView::Secured,
            UpstreamEvent::SecureFailed(e) => UpstreamEventView::SecureFailed(e@),
        }
    }
}

impl View for UpstreamAction {
    type V = UpstreamActionView;

    open spec fn view(&self) -> UpstreamActionView {
        match self {
            UpstreamAction::Resolve { direct_tls, starttls } => UpstreamActionView::Resolve {
                direct_tls: direct_tls@,
                starttls: starttls@,
            },
            UpstreamAction::Connect { address, timeout_secs } => UpstreamActionView::Connect {
                address: address@,
                timeout_secs: *timeout_secs,
            },
            UpstreamAction::Secure(how) => UpstreamActionView::Secure(how@),
            UpstreamAction::Done => UpstreamActionView::Done,
            UpstreamAction::Fail(message) => UpstreamActionView::Fail(message@),
        }
    }
}

impl View for UpstreamSetup {
    type V = UpstreamView;

    open spec fn view(&self) -> UpstreamView {
        UpstreamView {
            phase: self.phase,
            domain: crate::dns::option_view(self.domain),
            endpoint: match self.endpoint {
                Some(e) => Some(e@),
                None => None,
            },
        }
    }
}

/// The request to connect to `endpoint`.
pub open spec fn connect_to(endpoint: EndpointView) -> UpstreamActionView {
    UpstreamActionView::Connect {
        address: host_port_text(endpoint.host, endpoint.port),
        timeout_secs: TCP_CONNECT_TIMEOUT_SECS,
    }
}

/// The state of a setup that connects to `endpoint`.
pub open spec fn connecting_to(domain: Option<Seq<char>>, endpoint: EndpointView) -> UpstreamView {
    UpstreamView { phase: UpstreamPhase::Connecting, domain, endpoint: Some(endpoint) }
}

/// How the setup for a server input begins: an explicit endpoint is
/// connected to at once, a domain is resolved first.
pub open spec fn upstream_begin(server_input: Seq<char>) -> (UpstreamView, UpstreamActionView) {
    match upstream_plan(server_input) {
        UpstreamPlanView::Connect(endpoint) => (connecting_to(None, endpoint), connect_to(endpoint)),
        UpstreamPlanView::Resolve(domain) => (
            UpstreamView { phase: UpstreamPhase::Resolving, domain: Some(domain), endpoint: None },
            UpstreamActionView::Resolve {
                direct_tls: srv_name(ConnectionMode::DirectTls, domain),
                starttls: srv_name(ConnectionMode::Tcp, domain),
            },
        ),
    }
}

/// The message for a TCP connect that ran out of time.
pub open spec fn connect_timeout_text(endpoint: EndpointView) -> Seq<char> {
    "TCP connect timed out after 15s to "@ + host_port_text(endpoint.host, endpoint.port)
}

/// The message for a TCP connect that failed with `error`.
pub open spec fn connect_failure_text(endpoint: EndpointView, error: Seq<char>) -> Seq<char> {
    "Failed to connect to XMPP server "@ + host_port_text(endpoint.host, endpoint.port) + " ("@
        + mode_label(endpoint.mode) + "): "@ + error
}

/// The message for an event that a phase of the setup does not expect.
pub open spec fn unexpected_upstream_event() -> Seq<char> {
    "Unexpected event during upstream setup"@
}

/// One step of the setup: the state after `event` and what to do next.
///
/// Resolved records give the candidates, of which the first is connected
/// to. A connected socket is secured by STARTTLS or by a direct
/// handshake, in both cases under the XMPP domain's name. Failures end
/// the setup with their message; so does an event out of its phase.
pub open spec fn upstream_step(state: UpstreamView, event: UpstreamEventView) -> (
    UpstreamView,
    UpstreamActionView,
) {
    let failed = UpstreamView { phase: UpstreamPhase::Failed, ..state };
    match (state.phase, event, state.domain, state.endpoint) {
        (
            UpstreamPhase::Resolving,
            UpstreamEventView::Resolved { direct_tls, starttls },
            Some(domain),
            _,
        ) => {
            let first = candidates(domain, direct_tls, starttls)[0];
            (connecting_to(Some(domain), first), connect_to(first))
        },
        (UpstreamPhase::Resolving, UpstreamEventView::ResolveFailed(e), _, _) => (
            failed,
            UpstreamActionView::Fail("Failed to resolve XMPP server: "@ + e),
        ),
        (UpstreamPhase::Connecting, UpstreamEventView::Connected, _, Some(endpoint)) => (
            UpstreamView {
                phase: match endpoint.mode {
                    ConnectionMode::Tcp => UpstreamPhase::Starttls,
                    ConnectionMode::DirectTls => UpstreamPhase::TlsHandshake,
                },
                ..state
            },
            UpstreamActionView::Secure(secured_by(endpoint)),
        ),
        (UpstreamPhase::Connecting, UpstreamEventView::ConnectTimedOut, _, Some(endpoint)) => (
            failed,
            UpstreamActionView::Fail(connect_timeout_text(endpoint)),
        ),
        (UpstreamPhase::Connecting, UpstreamEventView::ConnectFailed(e), _, Some(endpoint)) => (
            failed,
            UpstreamActionView::Fail(connect_failure_text(endpoint, e)),
        ),
        (UpstreamPhase::Starttls, UpstreamEventView::Secured, _, _) => (
            UpstreamView { phase: UpstreamPhase::Established, ..state },
            UpstreamActionView::Done,
        ),
        (UpstreamPhase::TlsHandshake, UpstreamEventView::Secured, _, _) => (
            UpstreamView { phase: UpstreamPhase::Established, ..state },
            UpstreamActionView::Done,
        ),
        (UpstreamPhase::Starttls, UpstreamEventView::SecureFailed(e), _, _) => (
            failed,
            UpstreamActionView::Fail(e),
        ),
        (UpstreamPhase::TlsHandshake, UpstreamEventView::SecureFailed(e), _, _) => (
            failed,
            UpstreamActionView::Fail(e),
        ),
        _ => (failed, UpstreamActionView::Fail(unexpected_upstream_event())),
    }
}

impl UpstreamSetup {
    /// Begins the setup for a server input.
    pub fn begin(server_input: &str) -> (begun: (UpstreamSetup, UpstreamAction))
        ensures
            (begun.0@, begun.1@) == upstream_begin(server_input@),
    {
        match plan_upstream(server_input) {
            UpstreamPlan::Connect(endpoint) => {
                let action = UpstreamAction::Connect {
                    address: connect_address(&endpoint),
                    timeout_secs: TCP_CONNECT_TIMEOUT_SECS,
                };
                (
                    UpstreamSetup {
                        phase: UpstreamPhase::Connecting,
                        domain: None,
                        endpoint: Some(endpoint),
                    },
                    action,
                )
            },
            UpstreamPlan::Resolve(domain) => {
                let action = UpstreamAction::Resolve {
                    direct_tls: srv_query_name(ConnectionMode::DirectTls, domain.as_str()),
                    starttls: srv_query_name(ConnectionMode::Tcp, domain.as_str()),
                };
                (
                    UpstreamSetup {
                        phase: UpstreamPhase::Resolving,
                        domain: Some(domain),
                        endpoint: None,
                    },
                    action,
                )
            },
        }
    }

    /// Takes the setup one step on.
    pub fn step(&mut self, event: UpstreamEvent) -> (action: UpstreamAction)
        ensures
            (final(self)@, action@) == upstream_step(old(self)@, event@),
    {
        let phase = self.phase;
        match (phase, event) {
            (UpstreamPhase::Resolving, UpstreamEvent::Resolved { direct_tls, starttls }) => {
                let first = match &self.domain {
                    Some(domain) => match resolve_xmpp_server(domain.as_str(), direct_tls, starttls) {
                        Ok(endpoints) => first_candidate(endpoints),
                        Err(_) => None,
                    },
                    None => None,
                };
                match first {
                    Some(endpoint) => {
                        let action = UpstreamAction::Connect {
                            address: connect_address(&endpoint),
                            timeout_secs: TCP_CONNECT_TIMEOUT_SECS,
                        };
                        self.phase = UpstreamPhase::Connecting;
                        self.endpoint = Some(endpoint);
                        action
                    },
                    None => self.fail(String::from_str("Unexpected event during upstream setup")),
                }
            },
            (UpstreamPhase::Resolving, UpstreamEvent::ResolveFailed(e)) => {
                let message = resolve_failure_message(e.as_str());
                self.fail(message)
            },
            (UpstreamPhase::Connecting, UpstreamEvent::Connected) => {
                let how = match &self.endpoint {
                    Some(endpoint) => Some((secure_by(endpoint), endpoint.mode)),
                    None => None,
                };
                match how {
                    Some((how, mode)) => {
                        self.phase = match mode {
                            ConnectionMode::Tcp => UpstreamPhase::Starttls,
                            ConnectionMode::DirectTls => UpstreamPhase::TlsHandshake,
                        };
                        UpstreamAction::Secure(how)
                    },
                    None => self.fail(String::from_str("Unexpected event during upstream setup")),
                }
            },
            (UpstreamPhase::Connecting, UpstreamEvent::ConnectTimedOut) => {
                let message = match &self.endpoint {
                    Some(endpoint) => connect_timeout_message(endpoint),
                    None => String::from_str("Unexpected event during upstream setup"),
                };
                self.fail(message)
            },
            (UpstreamPhase::Connecting, UpstreamEvent::ConnectFailed(e)) => {
                let message = match &self.endpoint {
                    Some(endpoint) => connect_failure_message(endpoint, e.as_str()),
                    None => String::from_str("Unexpected event during upstream setup"),
                };
                self.fail(message)
            },
            (UpstreamPhase::Starttls, UpstreamEvent::Secured) => {
                self.phase = UpstreamPhase::Established;
                UpstreamAction::Done
            },
            (UpstreamPhase::TlsHandshake, UpstreamEvent::Secured) => {
                self.phase = UpstreamPhase::Established;
                UpstreamAction::Done
            },
            (UpstreamPhase::Starttls, UpstreamEvent::SecureFailed(e)) => self.fail(e),
            (UpstreamPhase::TlsHandshake, UpstreamEvent::SecureFailed(e)) => self.fail(e),
            _ => self.fail(String::from_str("Unexpected event during upstream setup")),
        }
    }

    fn fail(&mut self, message: String) -> (action: UpstreamAction)
        ensures
            final(self)@ == (UpstreamView { phase: UpstreamPhase::Failed, ..old(self)@ }),
            action == UpstreamAction::Fail(message),
    {
        self.phase = UpstreamPhase::Failed;
        UpstreamAction::Fail(message)
    }
}

/// No upstream work begins before the client has sent its first text
/// frame: the handler asks for the upstream connection only on a text
/// frame that comes while the first stanza is awaited.
pub proof fn law_upstream_waits_for_first_stanza(state: HandlerView, event: HandlerEventView)
    requires
        handler_step(state, event).1 is ConnectUpstream,
    ensures
        state.phase == HandlerPhase::AwaitInitialStanza,
        event matches HandlerEventView::Ws(WsReadView::Text(_)),
{
}

/// The bridge starts with what the client sent, in order: the frames
/// handed to the bridge are the frames buffered since the first one.
pub proof fn law_bridge_gets_the_buffered_frames(state: HandlerView, event: HandlerEventView)
    requires
        handler_step(state, event).1 is StartBridge,
    ensures
        state.phase == HandlerPhase::Connecting,
        event is UpstreamReady,
        handler_step(state, event).1 == HandlerActionView::StartBridge(state.pending),
{
}

/// After a connection that opened has closed, the count of live
/// connections is what it was before, whatever the reason of the end.
pub proof fn law_closed_undoes_opened(count: usize)
    ensures
        count_closed(count_opened(count)) == count,
{
}

/// The count of live connections after a run of openings (`true`) and
/// closings (`false`).
pub open spec fn count_after(count: usize, run: Seq<bool>) -> usize
    decreases run.len(),
{
    if run.len() == 0 {
        count
    } else if run.last() {
        count_opened(count_after(count, run.drop_last()))
    } else {
        count_closed(count_after(count, run.drop_last()))
    }
}

/// The number of openings in a run less the number of closings.
pub open spec fn still_open(run: Seq<bool>) -> int
    decreases run.len(),
{
    if run.len() == 0 {
        0
    } else if run.last() {
        still_open(run.drop_last()) + 1
    } else {
        still_open(run.drop_last()) - 1
    }
}

/// The count follows the openings and closings, modulo the machine's
/// word.
proof fn lemma_count_after(count: usize, run: Seq<bool>)
    ensures
        count_after(count, run) as int == (count + still_open(run)) % (usize::MAX + 1),
    decreases run.len(),
{
    let m = usize::MAX + 1;
    if run.len() == 0 {
        assert(count as int % m == count) by (nonlinear_arith)
            requires
                0 <= count < m,
        ;
    } else {
        lemma_count_after(count, run.drop_last());
        let before = count_after(count, run.drop_last()) as int;
        let open = still_open(run.drop_last());
        assert(before == (count + open) % m);
        if run.last() {
            assert(count_opened(before as usize) as int == (count + open + 1) % m)
                by (nonlinear_arith)
                requires
                    before == (count + open) % m,
                    0 <= before < m,
                    m > 0,
                    count_opened(before as usize) as int == if before == m - 1 {
                        0
                    } else {
                        before + 1
                    },
            ;
        } else {
            assert(count_closed(before as usize) as int == (count + open - 1) % m)
                by (nonlinear_arith)
                requires
                    before == (count + open) % m,
                    0 <= before < m,
                    m > 0,
                    count_closed(before as usize) as int == if before == 0 {
                        m - 1
                    } else {
                        before - 1
                    },
            ;
        }
    }
}

/// When every connection that opened has closed, in whatever order and
/// for whatever reason, the count of live connections is back where it
/// began: from zero it returns to zero.
pub proof fn law_count_returns(count: usize, run: Seq<bool>)
    requires
        still_open(run) == 0,
    ensures
        count_after(count, run) == count,
{
    lemma_count_after(count, run);
    let m = usize::MAX + 1;
    assert(count as int % m == count) by (nonlinear_arith)
        requires
            0 <= count < m,
    ;
}

} // verus!
