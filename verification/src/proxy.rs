//! The proxy controller: one local listener, started and stopped
//! idempotently.
//!
//! The listener, its task and its shutdown channel live with the caller;
//! this module keeps the record of them and takes the decisions.

use crate::text::{chars_of, decimal_digits, push_decimal, string_of};
use vstd::prelude::*;
use vstd::string::StringExecFns;

verus! {

/// What starting the proxy hands back: the local WebSocket URL.
#[derive(Debug, Clone, PartialEq, Eq)]
pub struct ProxyStartResult {
    pub url: String,
}

/// A loopback address family.
#[derive(Debug, Clone, Copy, PartialEq, Eq, Structural)]
pub enum LoopbackHost {
    /// `[::1]`
    V6,
    /// `127.0.0.1`
    V4,
}

/// The address that the listener is bound to.
#[derive(Debug, Clone, Copy, PartialEq, Eq, Structural)]
pub struct LocalAddr {
    pub host: LoopbackHost,
    pub port: u16,
}

/// The record of the proxy: what it was started for, the URL it handed
/// out, what belongs to a running listener, and whether the shell gave a
/// handle to emit events through.
#[derive(Debug, Clone, PartialEq, Eq)]
pub struct XmppProxy {
    pub server_input: String,
    pub ws_url: String,
    pub local_addr: Option<LocalAddr>,
    pub listener_task: bool,
    pub shutdown: bool,
    pub app_emitter: bool,
}

/// The mathematical content of an [`XmppProxy`].
pub struct ProxyView {
    pub server_input: Seq<char>,
    pub ws_url: Seq<char>,
    pub local_addr: Option<LocalAddr>,
    pub listener_task: bool,
    pub shutdown: bool,
    pub app_emitter: bool,
}

impl View for XmppProxy {
    type V = ProxyView;

    open spec fn view(&self) -> ProxyView {
        ProxyView {
            server_input: self.server_input@,
            ws_url: self.ws_url@,
            local_addr: self.local_addr,
            listener_task: self.listener_task,
            shutdown: self.shutdown,
            app_emitter: self.app_emitter,
        }
    }
}

impl ProxyView {
    /// A bound address, a listener task and a shutdown channel exist
    /// together or not at all.
    pub open spec fn well_formed(self) -> bool {
        &&& self.local_addr is Some <==> self.listener_task
        &&& self.listener_task <==> self.shutdown
    }

    /// The listener is bound.
    pub open spec fn running(self) -> bool {
        self.local_addr is Some
    }
}

/// The text of a loopback host in URLs and bind addresses.
pub open spec fn loopback_text(host: LoopbackHost) -> Seq<char> {
    match host {
        LoopbackHost::V6 => "[::1]"@,
        LoopbackHost::V4 => "127.0.0.1"@,
    }
}

/// The URL of a listener: `ws://HOST:PORT`.
pub open spec fn ws_url_text(addr: LocalAddr) -> Seq<char> {
    "ws://"@ + loopback_text(addr.host) + ":"@ + decimal_digits(addr.port as nat)
}

/// The address to bind a listener of this family to, on a port that the
/// system picks.
pub open spec fn bind_text(host: LoopbackHost) -> Seq<char> {
    loopback_text(host) + ":0"@
}

/// The record of a proxy that was never started.
pub open spec fn idle_proxy() -> ProxyView {
    ProxyView {
        server_input: Seq::empty(),
        ws_url: Seq::empty(),
        local_addr: None,
        listener_task: false,
        shutdown: false,
        app_emitter: false,
    }
}

/// The record of the proxy `proxy` after it was started for `server` on
/// `addr`.
pub open spec fn started_proxy(proxy: ProxyView, server: Seq<char>, addr: LocalAddr) -> ProxyView {
    ProxyView {
        server_input: server,
        ws_url: ws_url_text(addr),
        local_addr: Some(addr),
        listener_task: true,
        shutdown: true,
        ..proxy
    }
}

/// The record of a proxy after it was stopped.
pub open spec fn stopped_proxy(proxy: ProxyView) -> ProxyView {
    ProxyView { local_addr: None, listener_task: false, shutdown: false, ..proxy }
}

/// The loopback families in the order in which binding is tried: IPv6
/// first, then IPv4.
pub fn bind_order() -> (order: [LoopbackHost; 2])
    ensures
        order@ == seq![LoopbackHost::V6, LoopbackHost::V4],
{
    let order = [LoopbackHost::V6, LoopbackHost::V4];
    assert(order@ =~= seq![LoopbackHost::V6, LoopbackHost::V4]);
    order
}

/// The address to bind a listener of this family to.
pub fn bind_address(host: LoopbackHost) -> (address: String)
    ensures
        address@ == bind_text(host),
{
    let mut address = match host {
        LoopbackHost::V6 => String::from_str("[::1]"),
        LoopbackHost::V4 => String::from_str("127.0.0.1"),
    };
    address.append(":0");
    address
}

/// The URL of a listener that is bound to `addr`.
pub fn ws_url(addr: LocalAddr) -> (url: String)
    ensures
        url@ == ws_url_text(addr),
{
    let mut chars = chars_of("ws://");
    let mut host = match addr.host {
        LoopbackHost::V6 => chars_of("[::1]"),
        LoopbackHost::V4 => chars_of("127.0.0.1"),
    };
    chars.append(&mut host);
    chars.push(':');
    proof {
        reveal_strlit(":");
        assert(":"@ == seq![':']);
    }
    push_decimal(&mut chars, addr.port as u64);
    string_of(chars.as_slice())
}

/// The message for a listener that could be bound to neither family.
pub fn bind_failure_message(ipv6_error: &str, ipv4_error: &str) -> (message: String)
    ensures
        message@ == "Failed to bind WebSocket server (IPv6: "@ + ipv6_error@ + ", IPv4: "@
            + ipv4_error@ + ")"@,
{
    let mut message = String::from_str("Failed to bind WebSocket server (IPv6: ");
    message.append(ipv6_error);
    message.append(", IPv4: ");
    message.append(ipv4_error);
    message.append(")");
    message
}

/// The message for a listener whose local address cannot be read.
pub fn local_addr_failure_message(error: &str) -> (message: String)
    ensures
        message@ == "Failed to get local address: "@ + error@,
{
    let mut message = String::from_str("Failed to get local address: ");
    message.append(error);
    message
}

impl XmppProxy {
    /// The record of a proxy that was never started.
    pub fn new() -> (proxy: XmppProxy)
        ensures
            proxy@ == idle_proxy(),
            proxy@.well_formed(),
    {
        XmppProxy {
            server_input: String::new(),
            ws_url: String::new(),
            local_addr: None,
            listener_task: false,
            shutdown: false,
            app_emitter: false,
        }
    }

    /// Records that the shell gave a handle to emit events through.
    pub fn set_app_handle(&mut self)
        ensures
            final(self)@ == (ProxyView { app_emitter: true, ..old(self)@ }),
    {
        self.app_emitter = true;
    }

    /// Whether the listener is bound.
    pub fn is_running(&self) -> (running: bool)
        ensures
            running == self@.running(),
    {
        self.local_addr.is_some()
    }

    /// Records that the proxy was started for `server` with a listener
    /// bound to `local_addr`.
    ///
    /// A proxy that runs already is not started again: the call fails and
    /// changes nothing.
    pub fn start(&mut self, server: String, local_addr: LocalAddr) -> (result: Result<
        ProxyStartResult,
        String,
    >)
        ensures
            old(self)@.well_formed() || !old(self)@.running() ==> final(self)@.well_formed(),
            old(self)@.running() ==> *final(self) == *old(self) && (result matches Err(message)
                && message@ == "Proxy already running"@),
            !old(self)@.running() ==> final(self)@ == started_proxy(
                old(self)@,
                server@,
                local_addr,
            ) && (
            result matches Ok(started) && started.url@ == ws_url_text(local_addr)),
    {
        if self.local_addr.is_some() {
            return Err(String::from_str("Proxy already running"));
        }
        let url = ws_url(local_addr);
        self.local_addr = Some(local_addr);
        self.ws_url = url.clone();
        self.server_input = server;
        self.shutdown = true;
        self.listener_task = true;
        Ok(ProxyStartResult { url })
    }

    /// Records that the proxy was stopped: the shutdown was sent, the
    /// listener task aborted, the address given up. Stopping a proxy that
    /// does not run changes nothing.
    pub fn stop(&mut self) -> (result: Result<(), String>)
        ensures
            result is Ok,
            final(self)@ == stopped_proxy(old(self)@),
            final(self)@.well_formed(),
            !final(self)@.running(),
    {
        self.shutdown = false;
        self.listener_task = false;
        self.local_addr = None;
        Ok(())
    }
}

/// What the accept loop sees.
#[derive(Debug, Clone, Copy, PartialEq, Eq, Structural)]
pub enum ListenerEvent {
    /// A connection was accepted.
    Accepted,
    /// The shutdown was signalled.
    Shutdown,
}

/// What the accept loop does.
#[derive(Debug, Clone, Copy, PartialEq, Eq, Structural)]
pub enum ListenerAction {
    /// Hand the connection to a handler of its own and go on accepting.
    SpawnHandler,
    /// Take no connection; leave the loop.
    Stop,
}

/// The accept loop of a listener.
#[derive(Debug, Clone, Copy, PartialEq, Eq, Structural)]
pub struct AcceptLoop {
    /// Whether the shutdown was seen.
    pub stopped: bool,
}

/// What the accept loop does on `event`: a connection is handed to a
/// handler unless the shutdown was seen, now or before.
pub open spec fn accept_step(stopped: bool, event: ListenerEvent) -> (bool, ListenerAction) {
    if stopped || event == ListenerEvent::Shutdown {
        (true, ListenerAction::Stop)
    } else {
        (false, ListenerAction::SpawnHandler)
    }
}

/// Whether the loop has stopped after the events of `run`.
pub open spec fn stopped_after(stopped: bool, run: Seq<ListenerEvent>) -> bool
    decreases run.len(),
{
    if run.len() == 0 {
        stopped
    } else {
        accept_step(stopped_after(stopped, run.drop_last()), run.last()).0
    }
}

impl AcceptLoop {
    /// The loop of a listener that was just bound.
    pub fn new() -> (accepting: AcceptLoop)
        ensures
            !accepting.stopped,
    {
        AcceptLoop { stopped: false }
    }

    /// Decides what the loop does on `event`.
    pub fn step(&mut self, event: ListenerEvent) -> (action: ListenerAction)
        ensures
            (final(self).stopped, action) == accept_step(old(self).stopped, event),
    {
        let shutdown = match event {
            ListenerEvent::Shutdown => true,
            ListenerEvent::Accepted => false,
        };
        if self.stopped || shutdown {
            self.stopped = true;
            ListenerAction::Stop
        } else {
            ListenerAction::SpawnHandler
        }
    }
}

/// After the shutdown no connection is accepted: once a run of events
/// holds a shutdown, every later event is answered by leaving the loop.
pub proof fn law_no_accept_after_shutdown(run: Seq<ListenerEvent>, at: int, later: ListenerEvent)
    requires
        0 <= at < run.len(),
        run[at] == ListenerEvent::Shutdown,
    ensures
        stopped_after(false, run),
        accept_step(stopped_after(false, run), later).1 == ListenerAction::Stop,
    decreases run.len(),
{
    if at < run.len() - 1 {
        law_no_accept_after_shutdown(run.drop_last(), at, later);
    }
}

/// What a request to start the proxy leads to.
#[derive(Debug, Clone, PartialEq, Eq)]
pub enum StartDecision {
    /// The proxy runs for this server already: hand out its URL again.
    Reuse(ProxyStartResult),
    /// Start a new proxy. `stop_old` says that an old one was taken down
    /// and that its listener is to be shut down first.
    Restart { stop_old: bool },
}

/// The content of an optional proxy record.
pub open spec fn slot_view(slot: Option<XmppProxy>) -> Option<ProxyView> {
    match slot {
        Some(proxy) => Some(proxy@),
        None => None,
    }
}

/// The proxy in `slot` runs for `server`.
pub open spec fn serves(slot: Option<ProxyView>, server: Seq<char>) -> bool {
    slot matches Some(proxy) && proxy.server_input == server && proxy.running()
}

/// Decides what a request to start the proxy for `server` leads to.
///
/// A proxy that runs for the same server is reused: its URL is returned
/// and nothing is torn down. Every other proxy is taken down first, and
/// the slot is left empty for the new one.
pub fn start_proxy(slot: &mut Option<XmppProxy>, server: &str) -> (decision: StartDecision)
    ensures
        serves(slot_view(*old(slot)), server@) ==> *final(slot) == *old(slot) && (
        decision matches StartDecision::Reuse(started) && started.url@ == old(slot)->0.ws_url@),
        !serves(slot_view(*old(slot)), server@) ==> *final(slot) is None
            && decision == (StartDecision::Restart { stop_old: *old(slot) is Some }),
{
    let reuse = match slot {
        Some(existing) => {
            let same = existing.server_input.as_str().to_owned() == server.to_owned();
            if same && existing.local_addr.is_some() {
                Some(ProxyStartResult { url: existing.ws_url.clone() })
            } else {
                None
            }
        },
        None => None,
    };
    match reuse {
        Some(started) => StartDecision::Reuse(started),
        None => {
            let stop_old = slot.is_some();
            *slot = None;
            StartDecision::Restart { stop_old }
        },
    }
}

/// The record of a new proxy, with the shell's handle if there is one.
pub open spec fn new_proxy(app_emitter: bool) -> ProxyView {
    ProxyView { app_emitter, ..idle_proxy() }
}

/// Puts a new proxy, started for `server` on `local_addr`, into the
/// slot. `app_emitter` says whether the shell gave a handle for events.
/// A slot that holds a proxy is left as it is, and the call fails.
pub fn install_proxy(
    slot: &mut Option<XmppProxy>,
    server: String,
    local_addr: LocalAddr,
    app_emitter: bool,
) -> (result: Result<ProxyStartResult, String>)
    ensures
        *old(slot) is None ==> (result matches Ok(started) && started.url@ == ws_url_text(
            local_addr,
        )) && slot_view(*final(slot)) == Some(
            started_proxy(new_proxy(app_emitter), server@, local_addr),
        ),
        *old(slot) is Some ==> (result matches Err(message) && message@
            == "Proxy already running"@) && *final(slot) == *old(slot),
{
    if slot.is_some() {
        return Err(String::from_str("Proxy already running"));
    }
    let mut proxy = XmppProxy::new();
    if app_emitter {
        proxy.set_app_handle();
    }
    let result = proxy.start(server, local_addr);
    *slot = Some(proxy);
    result
}

/// Stops the proxy in the slot, if there is one, and empties the slot.
pub fn stop_proxy(slot: &mut Option<XmppProxy>) -> (result: Result<(), String>)
    ensures
        result is Ok,
        *final(slot) is None,
{
    let result = match slot {
        Some(proxy) => proxy.stop(),
        None => Ok(()),
    };
    *slot = None;
    result
}

} // verus!
