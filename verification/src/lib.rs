//! A local WebSocket-to-XMPP gateway, as a verified core.
//!
//! The gateway lets a WebSocket client that speaks XMPP in WebSocket
//! framing talk to servers that speak XMPP over TCP. This crate holds its
//! logic: every function states what it computes, and the statements are
//! proved. Sockets, timers and tasks are the caller's; the state machines
//! here take what happened as an event and answer with what to do next.
//!
//! - [`text`]: character-level text utilities.
//! - [`dns`]: the server input string and the endpoints it names.
//! - [`srv`]: from SRV records to an ordered list of candidates.
//! - [`xml`]: the boundary to the XML scanner.
//! - [`framing`]: stanza boundaries and the translation of framing.
//! - [`starttls`]: the STARTTLS negotiation.
//! - [`bridge`]: the pumps, the watchdog and the end of a bridge.
//! - [`connection`]: one client connection from accept to bridge.
//! - [`proxy`]: the listener, started and stopped idempotently.
//! - [`tls`]: trust, the insecure switch and handshake errors.
//! - [`shell`]: plain records exchanged with the application shell.

pub mod bridge;
pub mod connection;
pub mod dns;
pub mod framing;
pub mod proxy;
pub mod shell;
pub mod srv;
pub mod starttls;
pub mod text;
pub mod tls;
pub mod xml;
