//! The STARTTLS negotiation, as a state machine.
//!
//! The machine decides; the caller performs what it asks for (write, read,
//! upgrade) and reports what happened as the next event.

use crate::framing::{extract_stanza, first_stanza};
use crate::text::{chars_of, contains, has};
use vstd::prelude::*;
use vstd::string::StringExecFns;

verus! {

/// Where the negotiation stands.
#[derive(Debug, Clone, Copy, PartialEq, Eq, Structural)]
pub enum StarttlsPhase {
    /// Nothing was sent yet.
    SendStreamOpen,
    /// The stream was opened; the server's header and features are awaited.
    AwaitFeatures,
    /// `<starttls/>` was sent; the server's answer is awaited.
    AwaitProceed,
    /// The server said proceed; the TLS handshake is the caller's.
    UpgradeTls,
    /// The negotiation failed.
    Failed,
}

/// What the caller reports to the machine.
#[derive(Debug, Clone, PartialEq, Eq)]
pub enum StarttlsEvent {
    /// A read returned these bytes; none at all means that the server
    /// closed the connection.
    Received(Vec<u8>),
    /// The server closed the connection.
    Closed,
    /// The read deadline had passed before the read began.
    DeadlinePassed,
    /// The read ran into the deadline.
    TimedOut,
    /// The read failed, with the error's text.
    ReadFailed(String),
    /// The last write failed, with the error's text.
    WriteFailed(String),
    /// The flush after the last write failed, with the error's text.
    FlushFailed(String),
    /// The TLS handshake failed, with the error's text.
    UpgradeFailed(String),
}

/// What the machine asks the caller to do next.
#[derive(Debug, Clone, PartialEq, Eq)]
pub enum StarttlsAction {
    /// Write this text to the server, flush, then read.
    Write(String),
    /// Read more bytes from the server.
    Read,
    /// Start the TLS handshake on the connection.
    Upgrade,
    /// Give up, with this message.
    Fail(String),
}

/// The mathematical content of a [`StarttlsEvent`].
pub enum StarttlsEventView {
    Received(Seq<u8>),
    Closed,
    DeadlinePassed,
    TimedOut,
    ReadFailed(Seq<char>),
    WriteFailed(Seq<char>),
    FlushFailed(Seq<char>),
    UpgradeFailed(Seq<char>),
}

/// The mathematical content of a [`StarttlsAction`].
pub enum StarttlsActionView {
    Write(Seq<char>),
    Read,
    Upgrade,
    Fail(Seq<char>),
}

impl View for StarttlsEvent {
    type V = StarttlsEventView;

    open spec fn view(&self) -> StarttlsEventView {
        match self {
            StarttlsEvent::Received(bytes) => StarttlsEventView::Received(bytes@),
            StarttlsEvent::Closed => StarttlsEventView::Closed,
            StarttlsEvent::DeadlinePassed => StarttlsEventView::DeadlinePassed,
            StarttlsEvent::TimedOut => StarttlsEventView::TimedOut,
            StarttlsEvent::ReadFailed(e) => StarttlsEventView::ReadFailed(e@),
            StarttlsEvent::WriteFailed(e) => StarttlsEventView::WriteFailed(e@),
            StarttlsEvent::FlushFailed(e) => StarttlsEventView::FlushFailed(e@),
            StarttlsEvent::UpgradeFailed(e) => StarttlsEventView::UpgradeFailed(e@),
        }
    }
}

impl View for StarttlsAction {
    type V = StarttlsActionView;

    open spec fn view(&self) -> StarttlsActionView {
        match self {
            StarttlsAction::Write(text) => StarttlsActionView::Write(text@),
            StarttlsAction::Read => StarttlsActionView::Read,
            StarttlsAction::Upgrade => StarttlsActionView::Upgrade,
            StarttlsAction::Fail(message) => StarttlsActionView::Fail(message@),
        }
    }
}

/// The negotiation: its phase, the bytes received and not yet consumed,
/// and whether the server's stream header was seen.
#[derive(Debug, Clone, PartialEq, Eq)]
pub struct Starttls {
    pub phase: StarttlsPhase,
    pub buffer: Vec<u8>,
    pub got_stream_header: bool,
}

/// The mathematical content of a [`Starttls`].
pub struct StarttlsView {
    pub phase: StarttlsPhase,
    pub buffer: Seq<u8>,
    pub got_stream_header: bool,
}

impl View for Starttls {
    type V = StarttlsView;

    open spec fn view(&self) -> StarttlsView {
        StarttlsView {
            phase: self.phase,
            buffer: self.buffer@,
            got_stream_header: self.got_stream_header,
        }
    }
}

/// The stream opening that the negotiation begins with, addressed to the
/// XMPP domain.
pub open spec fn stream_open(domain: Seq<char>) -> Seq<char> {
    "<?xml version='1.0'?><stream:stream to='"@ + domain
        + "' version='1.0' xmlns='jabber:client' xmlns:stream='http://etherx.jabber.org/streams'>"@
}

/// The request to start TLS.
pub open spec fn starttls_request() -> Seq<char> {
    "<starttls xmlns='urn:ietf:params:xml:ns:xmpp-tls'/>"@
}

/// What reading the buffer for the server's features finds.
pub struct FeaturesScan {
    /// How many bytes were consumed.
    pub consumed: nat,
    /// Whether a stream header was seen, now or before.
    pub got_stream_header: bool,
    /// The features element, if it was reached.
    pub features: Option<Seq<char>>,
}

/// The stanza is the server's stream header.
pub open spec fn is_header_stanza(stanza: Seq<char>) -> bool {
    contains(stanza, "<stream:stream"@)
}

/// The stanza is the server's features element.
pub open spec fn is_features_stanza(stanza: Seq<char>) -> bool {
    contains(stanza, "<stream:features"@) || contains(stanza, "<features"@)
}

/// Reads stanzas from `input` until the features element: stream headers
/// are noted, the features element ends the scan, anything else is
/// skipped.
pub open spec fn scan_features(input: Seq<u8>, got_stream_header: bool) -> FeaturesScan
    decreases input.len(),
{
    match first_stanza(input) {
        Some((stanza, used)) => if 0 < used <= input.len() {
            if is_header_stanza(stanza) {
                let rest = scan_features(input.skip(used as int), true);
                FeaturesScan { consumed: used + rest.consumed, ..rest }
            } else if is_features_stanza(stanza) {
                FeaturesScan { consumed: used, got_stream_header, features: Some(stanza) }
            } else {
                let rest = scan_features(input.skip(used as int), got_stream_header);
                FeaturesScan { consumed: used + rest.consumed, ..rest }
            }
        } else {
            FeaturesScan { consumed: 0, got_stream_header, features: None }
        },
        None => FeaturesScan { consumed: 0, got_stream_header, features: None },
    }
}

/// The state in which a negotiation ends when it fails.
pub open spec fn failed(state: StarttlsView) -> StarttlsView {
    StarttlsView { phase: StarttlsPhase::Failed, ..state }
}

/// What the negotiation does on bytes from the server while it waits for
/// the features.
pub open spec fn on_features_bytes(state: StarttlsView, chunk: Seq<u8>) -> (
    StarttlsView,
    StarttlsActionView,
) {
    let input = state.buffer + chunk;
    let scan = scan_features(input, state.got_stream_header);
    let kept = StarttlsView {
        phase: state.phase,
        buffer: input.skip(scan.consumed as int),
        got_stream_header: scan.got_stream_header,
    };
    match scan.features {
        None => (kept, StarttlsActionView::Read),
        Some(features) => if !scan.got_stream_header {
            (
                failed(kept),
                StarttlsActionView::Fail("STARTTLS: Did not receive server stream header"@),
            )
        } else if !contains(features, "<starttls"@) {
            (
                failed(kept),
                StarttlsActionView::Fail(
                    "STARTTLS: Server does not offer STARTTLS. Features: "@ + features,
                ),
            )
        } else {
            (
                StarttlsView {
                    phase: StarttlsPhase::AwaitProceed,
                    buffer: Seq::empty(),
                    got_stream_header: true,
                },
                StarttlsActionView::Write(starttls_request()),
            )
        },
    }
}

/// What the negotiation does on bytes from the server while it waits for
/// the answer to `<starttls/>`.
pub open spec fn on_proceed_bytes(state: StarttlsView, chunk: Seq<u8>) -> (
    StarttlsView,
    StarttlsActionView,
) {
    let input = state.buffer + chunk;
    let kept = StarttlsView { buffer: input, ..state };
    match first_stanza(input) {
        None => (kept, StarttlsActionView::Read),
        Some((answer, _)) => if contains(answer, "<failure"@) {
            (
                failed(kept),
                StarttlsActionView::Fail("STARTTLS: Server rejected STARTTLS: "@ + answer),
            )
        } else if !contains(answer, "<proceed"@) {
            (
                failed(kept),
                StarttlsActionView::Fail(
                    "STARTTLS: Unexpected response (expected <proceed/>): "@ + answer,
                ),
            )
        } else {
            (StarttlsView { phase: StarttlsPhase::UpgradeTls, ..kept }, StarttlsActionView::Upgrade)
        },
    }
}

/// The message for an event that ends the negotiation, by the phase it
/// comes in; `None` for an event that the phase does not expect.
pub open spec fn failure_message(phase: StarttlsPhase, event: StarttlsEventView) -> Option<
    Seq<char>,
> {
    match (phase, event) {
        (StarttlsPhase::AwaitFeatures, StarttlsEventView::Closed) => Some(
            "STARTTLS: Server closed connection before features"@,
        ),
        (StarttlsPhase::AwaitFeatures, StarttlsEventView::DeadlinePassed) => Some(
            "STARTTLS: Timeout waiting for server stream features"@,
        ),
        (StarttlsPhase::AwaitFeatures, StarttlsEventView::TimedOut) => Some(
            "STARTTLS: Timeout waiting for server response"@,
        ),
        (StarttlsPhase::AwaitFeatures, StarttlsEventView::ReadFailed(e)) => Some(
            "STARTTLS: Failed to read server response: "@ + e,
        ),
        (StarttlsPhase::AwaitFeatures, StarttlsEventView::WriteFailed(e)) => Some(
            "STARTTLS: Failed to send stream open: "@ + e,
        ),
        (StarttlsPhase::AwaitFeatures, StarttlsEventView::FlushFailed(e)) => Some(
            "STARTTLS: Failed to flush stream open: "@ + e,
        ),
        (StarttlsPhase::AwaitProceed, StarttlsEventView::Closed) => Some(
            "STARTTLS: Server closed connection before proceed"@,
        ),
        (StarttlsPhase::AwaitProceed, StarttlsEventView::DeadlinePassed) => Some(
            "STARTTLS: Timeout waiting for proceed response"@,
        ),
        (StarttlsPhase::AwaitProceed, StarttlsEventView::TimedOut) => Some(
            "STARTTLS: Timeout waiting for proceed response"@,
        ),
        (StarttlsPhase::AwaitProceed, StarttlsEventView::ReadFailed(e)) => Some(
            "STARTTLS: Failed to read proceed response: "@ + e,
        ),
        (StarttlsPhase::AwaitProceed, StarttlsEventView::WriteFailed(e)) => Some(
            "STARTTLS: Failed to send starttls request: "@ + e,
        ),
        (StarttlsPhase::AwaitProceed, StarttlsEventView::FlushFailed(e)) => Some(
            "STARTTLS: Failed to flush starttls request: "@ + e,
        ),
        (StarttlsPhase::UpgradeTls, StarttlsEventView::UpgradeFailed(e)) => Some(
            "STARTTLS: "@ + e,
        ),
        _ => None,
    }
}

/// The message for an event that comes in a phase that does not expect
/// it.
pub open spec fn unexpected_event() -> Seq<char> {
    "STARTTLS: Unexpected event"@
}

/// One step of the negotiation: the state after `event`, and what the
/// caller is to do next.
///
/// Bytes are read for the features, then for the answer to
/// `<starttls/>`. Every other event ends the negotiation with a message
/// that names what failed.
pub open spec fn starttls_step(state: StarttlsView, event: StarttlsEventView) -> (
    StarttlsView,
    StarttlsActionView,
) {
    let event = if event matches StarttlsEventView::Received(chunk) && chunk.len() == 0 {
        StarttlsEventView::Closed
    } else {
        event
    };
    match (state.phase, event) {
        (StarttlsPhase::AwaitFeatures, StarttlsEventView::Received(chunk)) => on_features_bytes(
            state,
            chunk,
        ),
        (StarttlsPhase::AwaitProceed, StarttlsEventView::Received(chunk)) => on_proceed_bytes(
            state,
            chunk,
        ),
        _ => match failure_message(state.phase, event) {
            Some(message) => (failed(state), StarttlsActionView::Fail(message)),
            None => (failed(state), StarttlsActionView::Fail(unexpected_event())),
        },
    }
}

/// `a` followed by `b`.
pub fn joined(a: &str, b: &str) -> (text: String)
    ensures
        text@ == a@ + b@,
{
    let mut text = String::from_str(a);
    text.append(b);
    text
}

/// Whether `text` holds `pattern`.
pub fn text_contains(text: &str, pattern: &str) -> (found: bool)
    ensures
        found == contains(text@, pattern@),
{
    let t = chars_of(text);
    let p = chars_of(pattern);
    has(t.as_slice(), p.as_slice())
}

/// Reads stanzas from `input` until the features element.
///
/// Returns how many bytes were consumed, whether a stream header was
/// seen, and the features element if it was reached.
pub fn read_features(input: &[u8], got_stream_header: bool) -> (found: (usize, bool, Option<String>))
    ensures
        found.0 <= input.len(),
        ({
            let scan = scan_features(input@, got_stream_header);
            &&& found.0 == scan.consumed
            &&& found.1 == scan.got_stream_header
            &&& crate::dns::option_view(found.2) == scan.features
        }),
{
    let len = input.len();
    let mut consumed: usize = 0;
    let mut got = got_stream_header;
    assert(input@.skip(0) == input@);
    loop
        invariant
            consumed <= len,
            len == input.len(),
            ({
                let all = scan_features(input@, got_stream_header);
                let rest = scan_features(input@.skip(consumed as int), got);
                &&& all.consumed == consumed + rest.consumed
                &&& all.got_stream_header == rest.got_stream_header
                &&& all.features == rest.features
            }),
        decreases len - consumed,
    {
        let rest = &input[consumed..len];
        assert(rest@ == input@.skip(consumed as int));
        match extract_stanza(rest) {
            Some((stanza, used)) => {
                assert(rest@.skip(used as int) == input@.skip(consumed + used));
                if text_contains(stanza.as_str(), "<stream:stream") {
                    got = true;
                    consumed += used;
                } else if text_contains(stanza.as_str(), "<stream:features") || text_contains(
                    stanza.as_str(),
                    "<features",
                ) {
                    consumed += used;
                    return (consumed, got, Some(stanza));
                } else {
                    consumed += used;
                }
            },
            None => {
                return (consumed, got, None);
            },
        }
    }
}

impl Starttls {
    /// A negotiation that has not begun.
    pub fn new() -> (negotiation: Starttls)
        ensures
            negotiation@ == (StarttlsView {
                phase: StarttlsPhase::SendStreamOpen,
                buffer: Seq::empty(),
                got_stream_header: false,
            }),
    {
        Starttls {
            phase: StarttlsPhase::SendStreamOpen,
            buffer: Vec::new(),
            got_stream_header: false,
        }
    }

    /// Begins the negotiation: asks for the stream opening to be written,
    /// addressed to the XMPP domain, and waits for the features.
    pub fn begin(&mut self, domain: &str) -> (action: StarttlsAction)
        ensures
            action@ == StarttlsActionView::Write(stream_open(domain@)),
            final(self)@ == (StarttlsView { phase: StarttlsPhase::AwaitFeatures, ..old(self)@ }),
    {
        self.phase = StarttlsPhase::AwaitFeatures;
        let mut text = joined("<?xml version='1.0'?><stream:stream to='", domain);
        text.append(
            "' version='1.0' xmlns='jabber:client' xmlns:stream='http://etherx.jabber.org/streams'>",
        );
        StarttlsAction::Write(text)
    }

    /// Takes the negotiation one step on: applies `event` and says what to
    /// do next.
    pub fn step(&mut self, event: StarttlsEvent) -> (action: StarttlsAction)
        ensures
            (final(self)@, action@) == starttls_step(old(self)@, event@),
    {
        let features_phase = match self.phase {
            StarttlsPhase::AwaitFeatures => true,
            _ => false,
        };
        let proceed_phase = match self.phase {
            StarttlsPhase::AwaitProceed => true,
            _ => false,
        };
        let upgrade_phase = match self.phase {
            StarttlsPhase::UpgradeTls => true,
            _ => false,
        };
        let event = match event {
            StarttlsEvent::Received(chunk) => {
                if chunk.len() == 0 {
                    StarttlsEvent::Closed
                } else {
                    StarttlsEvent::Received(chunk)
                }
            },
            other => other,
        };
        let message = match event {
            StarttlsEvent::Received(chunk) => {
                if features_phase {
                    return self.features_bytes(chunk);
                } else if proceed_phase {
                    return self.proceed_bytes(chunk);
                } else {
                    String::from_str("STARTTLS: Unexpected event")
                }
            },
            StarttlsEvent::Closed => {
                if features_phase {
                    String::from_str("STARTTLS: Server closed connection before features")
                } else if proceed_phase {
                    String::from_str("STARTTLS: Server closed connection before proceed")
                } else {
                    String::from_str("STARTTLS: Unexpected event")
                }
            },
            StarttlsEvent::DeadlinePassed => {
                if features_phase {
                    String::from_str("STARTTLS: Timeout waiting for server stream features")
                } else if proceed_phase {
                    String::from_str("STARTTLS: Timeout waiting for proceed response")
                } else {
                    String::from_str("STARTTLS: Unexpected event")
                }
            },
            StarttlsEvent::TimedOut => {
                if features_phase {
                    String::from_str("STARTTLS: Timeout waiting for server response")
                } else if proceed_phase {
                    String::from_str("STARTTLS: Timeout waiting for proceed response")
                } else {
                    String::from_str("STARTTLS: Unexpected event")
                }
            },
            StarttlsEvent::ReadFailed(e) => {
                if features_phase {
                    joined("STARTTLS: Failed to read server response: ", e.as_str())
                } else if proceed_phase {
                    joined("STARTTLS: Failed to read proceed response: ", e.as_str())
                } else {
                    String::from_str("STARTTLS: Unexpected event")
                }
            },
            StarttlsEvent::WriteFailed(e) => {
                if features_phase {
                    joined("STARTTLS: Failed to send stream open: ", e.as_str())
                } else if proceed_phase {
                    joined("STARTTLS: Failed to send starttls request: ", e.as_str())
                } else {
                    String::from_str("STARTTLS: Unexpected event")
                }
            },
            StarttlsEvent::FlushFailed(e) => {
                if features_phase {
                    joined("STARTTLS: Failed to flush stream open: ", e.as_str())
                } else if proceed_phase {
                    joined("STARTTLS: Failed to flush starttls request: ", e.as_str())
                } else {
                    String::from_str("STARTTLS: Unexpected event")
                }
            },
            StarttlsEvent::UpgradeFailed(e) => {
                if upgrade_phase {
                    joined("STARTTLS: ", e.as_str())
                } else {
                    String::from_str("STARTTLS: Unexpected event")
                }
            },
        };
        self.phase = StarttlsPhase::Failed;
        StarttlsAction::Fail(message)
    }

    fn features_bytes(&mut self, chunk: Vec<u8>) -> (action: StarttlsAction)
        requires
            old(self).phase == StarttlsPhase::AwaitFeatures,
        ensures
            (final(self)@, action@) == on_features_bytes(old(self)@, chunk@),
    {
        let mut chunk = chunk;
        self.buffer.append(&mut chunk);
        let (consumed, got, features) = read_features(
            self.buffer.as_slice(),
            self.got_stream_header,
        );
        let kept = self.buffer.split_off(consumed);
        self.buffer = kept;
        self.got_stream_header = got;
        match features {
            None => StarttlsAction::Read,
            Some(features) => {
                if !got {
                    self.phase = StarttlsPhase::Failed;
                    StarttlsAction::Fail(
                        String::from_str("STARTTLS: Did not receive server stream header"),
                    )
                } else if !text_contains(features.as_str(), "<starttls") {
                    self.phase = StarttlsPhase::Failed;
                    StarttlsAction::Fail(
                        joined(
                            "STARTTLS: Server does not offer STARTTLS. Features: ",
                            features.as_str(),
                        ),
                    )
                } else {
                    self.phase = StarttlsPhase::AwaitProceed;
                    self.buffer = Vec::new();
                    StarttlsAction::Write(
                        String::from_str("<starttls xmlns='urn:ietf:params:xml:ns:xmpp-tls'/>"),
                    )
                }
            },
        }
    }

    fn proceed_bytes(&mut self, chunk: Vec<u8>) -> (action: StarttlsAction)
        requires
            old(self).phase == StarttlsPhase::AwaitProceed,
        ensures
            (final(self)@, action@) == on_proceed_bytes(old(self)@, chunk@),
    {
        let mut chunk = chunk;
        self.buffer.append(&mut chunk);
        match extract_stanza(self.buffer.as_slice()) {
            None => StarttlsAction::Read,
            Some((answer, _)) => {
                if text_contains(answer.as_str(), "<failure") {
                    self.phase = StarttlsPhase::Failed;
                    StarttlsAction::Fail(
                        joined("STARTTLS: Server rejected STARTTLS: ", answer.as_str()),
                    )
                } else if !text_contains(answer.as_str(), "<proceed") {
                    self.phase = StarttlsPhase::Failed;
                    StarttlsAction::Fail(
                        joined(
                            "STARTTLS: Unexpected response (expected <proceed/>): ",
                            answer.as_str(),
                        ),
                    )
                } else {
                    self.phase = StarttlsPhase::UpgradeTls;
                    StarttlsAction::Upgrade
                }
            },
        }
    }
}

/// TLS is started only on the server's word: the handshake is asked for
/// only when the answer to `<starttls/>` arrived, holds `<proceed` and
/// holds no `<failure`.
pub proof fn law_upgrade_only_on_proceed(state: StarttlsView, event: StarttlsEventView)
    requires
        starttls_step(state, event).1 is Upgrade,
    ensures
        state.phase == StarttlsPhase::AwaitProceed,
        event matches StarttlsEventView::Received(chunk) && (first_stanza(
            state.buffer + chunk,
        ) matches Some((answer, _)) && contains(answer, "<proceed"@) && !contains(
            answer,
            "<failure"@,
        )),
{
}

/// `<starttls/>` is requested only from a server that offers it: the
/// request is written only when the server's stream header was seen and
/// its features hold `<starttls`.
pub proof fn law_request_needs_offer(state: StarttlsView, event: StarttlsEventView)
    requires
        starttls_step(state, event).1 is Write,
    ensures
        state.phase == StarttlsPhase::AwaitFeatures,
        starttls_step(state, event).1 == StarttlsActionView::Write(starttls_request()),
        event matches StarttlsEventView::Received(chunk) && ({
            let scan = scan_features(state.buffer + chunk, state.got_stream_header);
            scan.got_stream_header && (scan.features matches Some(features) && contains(
                features,
                "<starttls"@,
            ))
        }),
{
}

} // verus!
