//! The decisions of the bridge between a WebSocket and a TLS stream.
//!
//! Reading and writing are the caller's. Each function here takes what a
//! read returned and says what is to be written, or why the bridge ends.

use crate::framing::{
    owned_text, split_stanzas, stanzas_in, tcp_to_ws, texts_view, translate_tcp_to_ws,
    translate_ws_to_tcp, ws_to_tcp,
};
use vstd::prelude::*;
use vstd::string::StringExecFns;

verus! {

/// The stanza buffer may hold this many bytes that yield no stanza.
pub const MAX_STANZA_BUFFER_SIZE: usize = 1048576;

/// A bridge without traffic for longer than this is closed, in milliseconds.
pub const BRIDGE_INACTIVITY_TIMEOUT_MILLIS: u64 = 300000;

/// The watchdog looks at the bridge this often, in seconds.
pub const WATCHDOG_CHECK_INTERVAL_SECS: u64 = 30;

/// The final close frame is given this long to be sent, in seconds.
pub const CLOSE_FRAME_TIMEOUT_SECS: u64 = 2;

/// The WebSocket close code for a normal closure.
pub const CLOSE_CODE_NORMAL: u16 = 1000;

/// The name of the event that tells the shell of an abnormal end.
pub const CLOSED_EVENT: &'static str = "proxy-connection-closed";

/// Why a bridge ended.
#[derive(Debug, Clone, Copy, PartialEq, Eq, Structural)]
pub enum BridgeEndReason {
    WebSocketClosedByClient,
    WebSocketReadError,
    TlsClosed,
    TlsReadError,
    WatchdogTimeout,
    Shutdown,
}

/// What a read from the WebSocket returned.
#[derive(Debug, Clone, PartialEq, Eq)]
pub enum WsRead {
    /// A text frame.
    Text(String),
    /// A close frame.
    Close,
    /// A binary, ping or pong frame.
    Other,
    /// The read failed.
    Error,
    /// The stream of frames ended.
    End,
}

/// What a read from the TLS stream returned.
#[derive(Debug, Clone, PartialEq, Eq)]
pub enum TlsRead {
    /// These bytes; none at all means that the peer closed.
    Data(Vec<u8>),
    /// The read failed.
    Error,
}

/// What the WebSocket-to-TLS pump does with a read.
#[derive(Debug, Clone, PartialEq, Eq)]
pub enum OutboundStep {
    /// Write this text to the TLS stream, then note the activity.
    Write(String),
    /// Nothing; read on.
    Ignore,
    /// End the bridge.
    Exit(BridgeEndReason),
}

/// What the TLS-to-WebSocket pump does with a read: these frames are
/// sent as text frames, in order, and then the bridge goes on or ends.
#[derive(Debug, Clone, PartialEq, Eq)]
pub struct InboundStep {
    pub frames: Vec<String>,
    pub exit: Option<BridgeEndReason>,
}

/// What ends a bridge, as its supervisor sees it.
#[derive(Debug, Clone, Copy, PartialEq, Eq, Structural)]
pub enum SupervisorEvent {
    /// The WebSocket-to-TLS pump returned this reason; `None` where the
    /// pump's task could not be joined.
    WsPumpDone(Option<BridgeEndReason>),
    /// The TLS-to-WebSocket pump returned this reason; `None` where the
    /// pump's task could not be joined.
    TlsPumpDone(Option<BridgeEndReason>),
    /// The watchdog fired.
    WatchdogFired,
    /// The shutdown was signalled.
    Shutdown,
}

/// One thing to do when a bridge has ended.
#[derive(Debug, Clone, PartialEq, Eq)]
pub enum CleanupAction {
    /// Abort both pumps.
    AbortPumps,
    /// Send a close frame with this code and reason, within this many
    /// seconds.
    SendClose { code: u16, reason: String, timeout_secs: u64 },
    /// Emit the event [`CLOSED_EVENT`] with this payload.
    EmitClosed { conn_id: u64, reason: String },
}

/// The mathematical content of a [`WsRead`].
pub enum WsReadView {
    Text(Seq<char>),
    Close,
    Other,
    Error,
    End,
}

/// The mathematical content of an [`OutboundStep`].
pub enum OutboundStepView {
    Write(Seq<char>),
    Ignore,
    Exit(BridgeEndReason),
}

/// The mathematical content of a [`CleanupAction`].
pub enum CleanupActionView {
    AbortPumps,
    SendClose { code: u16, reason: Seq<char>, timeout_secs: u64 },
    EmitClosed { conn_id: u64, reason: Seq<char> },
}

impl View for WsRead {
    type V = WsReadView;

    open spec fn view(&self) -> WsReadView {
        match self {
            WsRead::Text(text) => WsReadView::Text(text@),
            WsRead::Close => WsReadView::Close,
            WsRead::Other => WsReadView::Other,
            WsRead::Error => WsReadView::Error,
            WsRead::End => WsReadView::End,
        }
    }
}

impl View for OutboundStep {
    type V = OutboundStepView;

    open spec fn view(&self) -> OutboundStepView {
        match self {
            OutboundStep::Write(text) => OutboundStepView::Write(text@),
            OutboundStep::Ignore => OutboundStepView::Ignore,
            OutboundStep::Exit(reason) => OutboundStepView::Exit(*reason),
        }
    }
}

impl View for CleanupAction {
    type V = CleanupActionView;

    open spec fn view(&self) -> CleanupActionView {
        match self {
            CleanupAction::AbortPumps => CleanupActionView::AbortPumps,
            CleanupAction::SendClose { code, reason, timeout_secs } => CleanupActionView::SendClose {
                code: *code,
                reason: reason@,
                timeout_secs: *timeout_secs,
            },
            CleanupAction::EmitClosed { conn_id, reason } => CleanupActionView::EmitClosed {
                conn_id: *conn_id,
                reason: reason@,
            },
        }
    }
}

/// The actions of a list, each by its content.
pub open spec fn actions_view(actions: Seq<CleanupAction>) -> Seq<CleanupActionView> {
    actions.map_values(|a: CleanupAction| a@)
}

/// The name of an end reason, as it is logged and sent in the event.
pub open spec fn reason_label(reason: BridgeEndReason) -> Seq<char> {
    match reason {
        BridgeEndReason::WebSocketClosedByClient => "WebSocketClosedByClient"@,
        BridgeEndReason::WebSocketReadError => "WebSocketReadError"@,
        BridgeEndReason::TlsClosed => "TlsClosed"@,
        BridgeEndReason::TlsReadError => "TlsReadError"@,
        BridgeEndReason::WatchdogTimeout => "WatchdogTimeout"@,
        BridgeEndReason::Shutdown => "Shutdown"@,
    }
}

/// An end that the shell is told about: every one but a shutdown and a
/// close by the client.
pub open spec fn is_abnormal(reason: BridgeEndReason) -> bool {
    reason != BridgeEndReason::Shutdown && reason != BridgeEndReason::WebSocketClosedByClient
}

/// What the WebSocket-to-TLS pump does with a read: a text frame is
/// translated and written, a close frame or the end of the stream ends
/// the bridge as closed by the client, an error ends it as a read error,
/// every other frame is ignored.
pub open spec fn outbound_step(read: WsReadView) -> OutboundStepView {
    match read {
        WsReadView::Text(text) => OutboundStepView::Write(ws_to_tcp(text)),
        WsReadView::Close => OutboundStepView::Exit(BridgeEndReason::WebSocketClosedByClient),
        WsReadView::End => OutboundStepView::Exit(BridgeEndReason::WebSocketClosedByClient),
        WsReadView::Error => OutboundStepView::Exit(BridgeEndReason::WebSocketReadError),
        WsReadView::Other => OutboundStepView::Ignore,
    }
}

/// The frames that the complete elements at the start of `input` become.
pub open spec fn inbound_frames(input: Seq<u8>) -> Seq<Seq<char>> {
    stanzas_in(input).0.map_values(|stanza: Seq<char>| tcp_to_ws(stanza))
}

/// The texts that the frames buffered during setup are written as, in
/// their order.
pub open spec fn flushed_texts(pending: Seq<Seq<char>>) -> Seq<Seq<char>> {
    pending.map_values(|text: Seq<char>| ws_to_tcp(text))
}

/// Whether the watchdog ends the bridge: more than the inactivity timeout
/// has passed since the last activity. A clock that went backwards counts
/// as no time passed.
pub open spec fn watchdog_fires(now_millis: u64, last_activity_millis: u64) -> bool {
    now_millis > last_activity_millis && now_millis - last_activity_millis
        > BRIDGE_INACTIVITY_TIMEOUT_MILLIS
}

/// Why the bridge ends on what its supervisor saw first: a pump's own
/// reason, a read error on the pump's side where its task was lost, the
/// watchdog's timeout, or the shutdown.
pub open spec fn end_reason(event: SupervisorEvent) -> BridgeEndReason {
    match event {
        SupervisorEvent::WsPumpDone(Some(reason)) => reason,
        SupervisorEvent::WsPumpDone(None) => BridgeEndReason::WebSocketReadError,
        SupervisorEvent::TlsPumpDone(Some(reason)) => reason,
        SupervisorEvent::TlsPumpDone(None) => BridgeEndReason::TlsReadError,
        SupervisorEvent::WatchdogFired => BridgeEndReason::WatchdogTimeout,
        SupervisorEvent::Shutdown => BridgeEndReason::Shutdown,
    }
}

/// What is done when a bridge has ended: the pumps are aborted, then one
/// close frame is sent, then the shell is told if the end was abnormal.
pub open spec fn cleanup(reason: BridgeEndReason, conn_id: u64) -> Seq<CleanupActionView> {
    let always = seq![
        CleanupActionView::AbortPumps,
        CleanupActionView::SendClose {
            code: CLOSE_CODE_NORMAL,
            reason: "Bridge closed"@,
            timeout_secs: CLOSE_FRAME_TIMEOUT_SECS,
        },
    ];
    if is_abnormal(reason) {
        always.push(CleanupActionView::EmitClosed { conn_id, reason: reason_label(reason) })
    } else {
        always
    }
}

impl BridgeEndReason {
    /// The reason's name.
    pub fn label(&self) -> (name: String)
        ensures
            name@ == reason_label(*self),
    {
        match self {
            BridgeEndReason::WebSocketClosedByClient => String::from_str("WebSocketClosedByClient"),
            BridgeEndReason::WebSocketReadError => String::from_str("WebSocketReadError"),
            BridgeEndReason::TlsClosed => String::from_str("TlsClosed"),
            BridgeEndReason::TlsReadError => String::from_str("TlsReadError"),
            BridgeEndReason::WatchdogTimeout => String::from_str("WatchdogTimeout"),
            BridgeEndReason::Shutdown => String::from_str("Shutdown"),
        }
    }

    /// Whether the shell is told about an end for this reason.
    pub fn is_abnormal(&self) -> (abnormal: bool)
        ensures
            abnormal == is_abnormal(*self),
    {
        match self {
            BridgeEndReason::Shutdown => false,
            BridgeEndReason::WebSocketClosedByClient => false,
            _ => true,
        }
    }
}

/// Decides what the WebSocket-to-TLS pump does with a read.
pub fn on_ws_read(read: &WsRead) -> (step: OutboundStep)
    ensures
        step@ == outbound_step(read@),
{
    match read {
        WsRead::Text(text) => OutboundStep::Write(owned_text(translate_ws_to_tcp(text.as_str()))),
        WsRead::Close => OutboundStep::Exit(BridgeEndReason::WebSocketClosedByClient),
        WsRead::End => OutboundStep::Exit(BridgeEndReason::WebSocketClosedByClient),
        WsRead::Error => OutboundStep::Exit(BridgeEndReason::WebSocketReadError),
        WsRead::Other => OutboundStep::Ignore,
    }
}

/// Why the bridge ends when a write to the TLS stream fails.
pub fn on_tls_write_failed() -> (reason: BridgeEndReason)
    ensures
        reason == BridgeEndReason::TlsReadError,
{
    BridgeEndReason::TlsReadError
}

/// Why the bridge ends when a frame cannot be sent to the WebSocket: the
/// client is gone.
pub fn on_ws_write_failed() -> (reason: BridgeEndReason)
    ensures
        reason == BridgeEndReason::WebSocketReadError,
{
    BridgeEndReason::WebSocketReadError
}

/// Translates the frames that were buffered during setup, in their order.
pub fn flush_pending(pending: &[String]) -> (texts: Vec<String>)
    ensures
        texts_view(texts@) == flushed_texts(texts_view(pending@)),
{
    let mut texts: Vec<String> = Vec::new();
    let mut i: usize = 0;
    while i < pending.len()
        invariant
            i <= pending.len(),
            texts@.len() == i,
            forall|k: int| 0 <= k < i ==> (#[trigger] texts@[k])@ == ws_to_tcp(pending@[k]@),
        decreases pending.len() - i,
    {
        texts.push(owned_text(translate_ws_to_tcp(pending[i].as_str())));
        i += 1;
    }
    assert(texts_view(texts@) =~= flushed_texts(texts_view(pending@)));
    texts
}

/// Whether the watchdog ends the bridge.
pub fn watchdog_expired(now_millis: u64, last_activity_millis: u64) -> (expired: bool)
    ensures
        expired == watchdog_fires(now_millis, last_activity_millis),
{
    now_millis.saturating_sub(last_activity_millis) > BRIDGE_INACTIVITY_TIMEOUT_MILLIS
}

/// The bytes from the TLS stream that have not made up a stanza yet.
#[derive(Debug, Clone, PartialEq, Eq)]
pub struct Inbound {
    pub buffer: Vec<u8>,
}

/// What a read from the TLS stream leads to, for a buffer that holds
/// `buffer`: the frames to send, the reason to end if there is one, and
/// the buffer afterwards.
///
/// No bytes mean that the peer closed, an error ends the bridge, and so
/// does a rest of more than the limit; otherwise every complete element
/// becomes a frame and the incomplete rest is kept.
pub open spec fn inbound_step(buffer: Seq<u8>, read: TlsRead) -> (
    Seq<Seq<char>>,
    Option<BridgeEndReason>,
    Seq<u8>,
) {
    match read {
        TlsRead::Error => (Seq::empty(), Some(BridgeEndReason::TlsReadError), buffer),
        TlsRead::Data(chunk) => if chunk@.len() == 0 {
            (Seq::empty(), Some(BridgeEndReason::TlsClosed), buffer)
        } else {
            let input = buffer + chunk@;
            let rest = input.skip(stanzas_in(input).1 as int);
            (
                inbound_frames(input),
                if rest.len() > MAX_STANZA_BUFFER_SIZE {
                    Some(BridgeEndReason::TlsReadError)
                } else {
                    None
                },
                rest,
            )
        },
    }
}

impl Inbound {
    /// An empty buffer.
    pub fn new() -> (inbound: Inbound)
        ensures
            inbound.buffer@ == Seq::<u8>::empty(),
    {
        Inbound { buffer: Vec::new() }
    }

    /// Takes in what a read from the TLS stream returned.
    pub fn on_tls_read(&mut self, read: TlsRead) -> (step: InboundStep)
        ensures
            (texts_view(step.frames@), step.exit, final(self).buffer@) == inbound_step(
                old(self).buffer@,
                read,
            ),
    {
        match read {
            TlsRead::Error => {
                let none: Vec<String> = Vec::new();
                assert(texts_view(none@) == Seq::<Seq<char>>::empty());
                InboundStep { frames: none, exit: Some(BridgeEndReason::TlsReadError) }
            },
            TlsRead::Data(chunk) => {
                if chunk.len() == 0 {
                    let none: Vec<String> = Vec::new();
                    assert(texts_view(none@) == Seq::<Seq<char>>::empty());
                    return InboundStep { frames: none, exit: Some(BridgeEndReason::TlsClosed) };
                }
                let mut chunk = chunk;
                self.buffer.append(&mut chunk);
                let (stanzas, consumed) = split_stanzas(self.buffer.as_slice());
                let rest = self.buffer.split_off(consumed);
                self.buffer = rest;
                let mut frames: Vec<String> = Vec::new();
                let mut i: usize = 0;
                while i < stanzas.len()
                    invariant
                        i <= stanzas.len(),
                        frames@.len() == i,
                        forall|k: int|
                            0 <= k < i ==> (#[trigger] frames@[k])@ == tcp_to_ws(stanzas@[k]@),
                    decreases stanzas.len() - i,
                {
                    frames.push(owned_text(translate_tcp_to_ws(stanzas[i].as_str())));
                    i += 1;
                }
                assert(texts_view(frames@) =~= texts_view(stanzas@).map_values(
                    |stanza: Seq<char>| tcp_to_ws(stanza),
                ));
                let exit = if self.buffer.len() > MAX_STANZA_BUFFER_SIZE {
                    Some(BridgeEndReason::TlsReadError)
                } else {
                    None
                };
                InboundStep { frames, exit }
            },
        }
    }
}

/// Decides why the bridge ends.
pub fn on_supervisor_event(event: SupervisorEvent) -> (reason: BridgeEndReason)
    ensures
        reason == end_reason(event),
{
    match event {
        SupervisorEvent::WsPumpDone(Some(reason)) => reason,
        SupervisorEvent::WsPumpDone(None) => BridgeEndReason::WebSocketReadError,
        SupervisorEvent::TlsPumpDone(Some(reason)) => reason,
        SupervisorEvent::TlsPumpDone(None) => BridgeEndReason::TlsReadError,
        SupervisorEvent::WatchdogFired => BridgeEndReason::WatchdogTimeout,
        SupervisorEvent::Shutdown => BridgeEndReason::Shutdown,
    }
}

/// Lists what is done when a bridge has ended for `reason`.
pub fn cleanup_plan(reason: BridgeEndReason, conn_id: u64) -> (plan: Vec<CleanupAction>)
    ensures
        actions_view(plan@) == cleanup(reason, conn_id),
{
    let mut plan: Vec<CleanupAction> = Vec::new();
    plan.push(CleanupAction::AbortPumps);
    plan.push(
        CleanupAction::SendClose {
            code: CLOSE_CODE_NORMAL,
            reason: String::from_str("Bridge closed"),
            timeout_secs: CLOSE_FRAME_TIMEOUT_SECS,
        },
    );
    if reason.is_abnormal() {
        plan.push(CleanupAction::EmitClosed { conn_id, reason: reason.label() });
    }
    assert(actions_view(plan@) =~= cleanup(reason, conn_id));
    plan
}

/// The number of actions of `plan` that send a close frame.
pub open spec fn close_frames(plan: Seq<CleanupActionView>) -> nat
    decreases plan.len(),
{
    if plan.len() == 0 {
        0
    } else {
        close_frames(plan.drop_last()) + if plan.last() is SendClose {
            1nat
        } else {
            0nat
        }
    }
}

/// The number of actions of `plan` that emit the closed event.
pub open spec fn closed_events(plan: Seq<CleanupActionView>) -> nat
    decreases plan.len(),
{
    if plan.len() == 0 {
        0
    } else {
        closed_events(plan.drop_last()) + if plan.last() is EmitClosed {
            1nat
        } else {
            0nat
        }
    }
}

/// An abnormal end emits exactly one closed event, a clean end none.
pub proof fn law_one_event_per_abnormal_end(reason: BridgeEndReason, conn_id: u64)
    ensures
        closed_events(cleanup(reason, conn_id)) == if is_abnormal(reason) {
            1nat
        } else {
            0nat
        },
{
    let plan = cleanup(reason, conn_id);
    let two = seq![
        CleanupActionView::AbortPumps,
        CleanupActionView::SendClose {
            code: CLOSE_CODE_NORMAL,
            reason: "Bridge closed"@,
            timeout_secs: CLOSE_FRAME_TIMEOUT_SECS,
        },
    ];
    reveal_with_fuel(closed_events, 3);
    assert(two.drop_last() == seq![CleanupActionView::AbortPumps]);
    assert(two.drop_last().drop_last() == Seq::<CleanupActionView>::empty());
    assert(closed_events(two.drop_last()) == 0);
    assert(closed_events(two) == 0);
    if is_abnormal(reason) {
        assert(plan.drop_last() == two);
    }
}

/// Every end sends exactly one close frame, with the normal code and two
/// seconds to be sent in.
pub proof fn law_one_close_frame(reason: BridgeEndReason, conn_id: u64)
    ensures
        close_frames(cleanup(reason, conn_id)) == 1,
        cleanup(reason, conn_id)[1] == (CleanupActionView::SendClose {
            code: 1000,
            reason: "Bridge closed"@,
            timeout_secs: 2,
        }),
{
    let plan = cleanup(reason, conn_id);
    let two = seq![
        CleanupActionView::AbortPumps,
        CleanupActionView::SendClose {
            code: CLOSE_CODE_NORMAL,
            reason: "Bridge closed"@,
            timeout_secs: CLOSE_FRAME_TIMEOUT_SECS,
        },
    ];
    reveal_with_fuel(close_frames, 3);
    assert(two.drop_last() == seq![CleanupActionView::AbortPumps]);
    assert(two.drop_last().drop_last() == Seq::<CleanupActionView>::empty());
    assert(close_frames(two.drop_last()) == 0);
    assert(close_frames(two) == 1);
    if is_abnormal(reason) {
        assert(plan.drop_last() == two);
    }
}

} // verus!
