//! Server input parsing: from the text that names a server to an
//! explicit endpoint or a domain.

use crate::text::{
    chars_of, decimal_digits, find_char, first_position, is_white_space, last_position,
    lemma_decimal_digits, lemma_first_position, lemma_last_position, lemma_no_position,
    lemma_parse_decimal_digits, lemma_trimmed_identity, lemma_trimmed_is_part, occurs_at,
    parse_port, parse_u16, rfind_char, starts_with, string_of, trim_range, trimmed,
};
use vstd::prelude::*;
use vstd::string::StrSliceExecFns;

verus! {

/// How the upstream connection is secured.
#[derive(Debug, Clone, Copy, PartialEq, Eq, Structural)]
pub enum ConnectionMode {
    /// Plain TCP, upgraded in-band with STARTTLS.
    Tcp,
    /// TLS from the first byte.
    DirectTls,
}

/// An upstream endpoint to connect to.
///
/// `host` is where the socket connects; `domain`, when present, is the XMPP
/// domain that names the service and that TLS must be verified against.
#[derive(Debug, Clone, PartialEq, Eq)]
pub struct XmppEndpoint {
    pub host: String,
    pub port: u16,
    pub mode: ConnectionMode,
    pub domain: Option<String>,
}

/// The mathematical content of an [`XmppEndpoint`].
pub struct EndpointView {
    pub host: Seq<char>,
    pub port: u16,
    pub mode: ConnectionMode,
    pub domain: Option<Seq<char>>,
}

/// The characters of an optional string.
pub open spec fn option_view(s: Option<String>) -> Option<Seq<char>> {
    match s {
        Some(s) => Some(s@),
        None => None,
    }
}

impl View for XmppEndpoint {
    type V = EndpointView;

    open spec fn view(&self) -> EndpointView {
        EndpointView {
            host: self.host@,
            port: self.port,
            mode: self.mode,
            domain: option_view(self.domain),
        }
    }
}

impl EndpointView {
    /// The name that TLS is verified against and that the stream is
    /// addressed to: the XMPP domain if there is one, else the host.
    pub open spec fn tls_name(self) -> Seq<char> {
        match self.domain {
            Some(d) => d,
            None => self.host,
        }
    }
}

impl XmppEndpoint {
    /// The name to use for TLS SNI and certificate verification.
    pub fn tls_name(&self) -> (name: &str)
        ensures
            name@ == self@.tls_name(),
    {
        match &self.domain {
            Some(d) => d.as_str(),
            None => self.host.as_str(),
        }
    }
}

/// What a server input string asks for.
#[derive(Debug, Clone, PartialEq)]
pub enum ParsedServer {
    /// An explicit endpoint: host, port, mode, optional XMPP domain.
    Direct(String, u16, ConnectionMode, Option<String>),
    /// A bare domain, to be resolved through SRV records.
    Domain(String),
}

/// The mathematical content of a [`ParsedServer`].
pub enum ParsedServerView {
    Direct(Seq<char>, u16, ConnectionMode, Option<Seq<char>>),
    Domain(Seq<char>),
}

impl View for ParsedServer {
    type V = ParsedServerView;

    open spec fn view(&self) -> ParsedServerView {
        match self {
            ParsedServer::Direct(host, port, mode, domain) => ParsedServerView::Direct(
                host@,
                *port,
                *mode,
                option_view(*domain),
            ),
            ParsedServer::Domain(name) => ParsedServerView::Domain(name@),
        }
    }
}

/// The mode that a bare `host:port` input implies.
pub open spec fn mode_for_port(port: u16) -> ConnectionMode {
    if port == 5223 {
        ConnectionMode::DirectTls
    } else {
        ConnectionMode::Tcp
    }
}

/// `s` split at its first `?`: what stands before it, and the value of a
/// `domain=` query if the query begins with that key.
pub open spec fn split_domain(s: Seq<char>) -> (Seq<char>, Option<Seq<char>>) {
    match first_position(s, '?') {
        Some(q) => {
            let query = s.subrange(q + 1, s.len() as int);
            let key = "domain="@;
            (
                s.subrange(0, q),
                if occurs_at(query, key, 0) {
                    Some(query.subrange(key.len() as int, query.len() as int))
                } else {
                    None
                },
            )
        },
        None => (s, None),
    }
}

/// `s` split at its last `:` into a non-empty host and a non-zero port.
/// `None` where there is no `:`, the host is empty, or what follows the `:`
/// is not a port number from 1 to 65535.
pub open spec fn split_port(s: Seq<char>) -> Option<(Seq<char>, u16)> {
    match last_position(s, ':') {
        Some(c) => match parse_u16(s.subrange(c + 1, s.len() as int)) {
            Some(port) => if port != 0 && c > 0 {
                Some((s.subrange(0, c), port))
            } else {
                None
            },
            None => None,
        },
        None => None,
    }
}

/// What stands behind a `tls://` or `tcp://` scheme: host and port if the
/// text splits into them, else the whole text as host with the scheme's
/// default port.
pub open spec fn parse_after_scheme(
    rest: Seq<char>,
    default_port: u16,
    mode: ConnectionMode,
) -> ParsedServerView {
    let (host_port, domain) = split_domain(rest);
    match split_port(host_port) {
        Some((host, port)) => ParsedServerView::Direct(host, port, mode, domain),
        None => ParsedServerView::Direct(host_port, default_port, mode, domain),
    }
}

/// The meaning of a server input string.
///
/// After trimming white space: `tls://…` and `tcp://…` give an explicit
/// endpoint with default ports 5223 and 5222; `host:port` gives an explicit
/// endpoint whose mode follows from the port; anything else is a domain.
pub open spec fn parse_server(input: Seq<char>) -> ParsedServerView {
    let t = trimmed(input);
    let tls = "tls://"@;
    let tcp = "tcp://"@;
    if occurs_at(t, tls, 0) {
        parse_after_scheme(
            t.subrange(tls.len() as int, t.len() as int),
            5223,
            ConnectionMode::DirectTls,
        )
    } else if occurs_at(t, tcp, 0) {
        parse_after_scheme(t.subrange(tcp.len() as int, t.len() as int), 5222, ConnectionMode::Tcp)
    } else {
        match split_port(t) {
            Some((host, port)) => ParsedServerView::Direct(host, port, mode_for_port(port), None),
            None => ParsedServerView::Domain(t),
        }
    }
}

/// Splits off an optional `?domain=` parameter.
///
/// Returns what stands before the first `?`, and the domain if the query
/// begins with `domain=`. Other queries are dropped.
pub fn split_domain_param(input: &str) -> (parts: (&str, Option<String>))
    ensures
        (parts.0@, option_view(parts.1)) == split_domain(input@),
{
    let chars = chars_of(input);
    let (end, domain) = split_domain_chars(chars.as_slice());
    (input.substring_char(0, end), domain)
}

/// Where `s` is split at its first `?`, and the domain that the query
/// behind it gives.
fn split_domain_chars(s: &[char]) -> (parts: (usize, Option<String>))
    ensures
        parts.0 <= s.len(),
        (s@.subrange(0, parts.0 as int), option_view(parts.1)) == split_domain(s@),
{
    let n = s.len();
    match find_char(s, '?') {
        Some(q) => {
            let query = &s[q + 1..n];
            let key = chars_of("domain=");
            let domain = if starts_with(query, key.as_slice()) {
                Some(string_of(&query[key.len()..query.len()]))
            } else {
                None
            };
            (q, domain)
        },
        None => {
            assert(s@.subrange(0, n as int) == s@);
            (n, None)
        },
    }
}

fn split_port_chars(s: &[char]) -> (parts: Option<(usize, u16)>)
    ensures
        match parts {
            Some((c, port)) => c <= s.len() && split_port(s@) == Some(
                (s@.subrange(0, c as int), port),
            ),
            None => split_port(s@) is None,
        },
{
    let n = s.len();
    match rfind_char(s, ':') {
        Some(c) => match parse_port(&s[c + 1..n]) {
            Some(port) => if port != 0 && c > 0 {
                Some((c, port))
            } else {
                None
            },
            None => None,
        },
        None => None,
    }
}

fn parse_after_scheme_chars(rest: &[char], default_port: u16, mode: ConnectionMode) -> (parsed:
    ParsedServer)
    ensures
        parsed@ == parse_after_scheme(rest@, default_port, mode),
{
    let (end, domain) = split_domain_chars(rest);
    let host_port = &rest[0..end];
    match split_port_chars(host_port) {
        Some((c, port)) => ParsedServer::Direct(string_of(&host_port[0..c]), port, mode, domain),
        None => ParsedServer::Direct(string_of(host_port), default_port, mode, domain),
    }
}

/// Parses a server input string into an explicit endpoint or a domain.
///
/// Accepted forms: `tls://host[:port][?domain=d]`,
/// `tcp://host[:port][?domain=d]`, `host:port`, and a bare domain. A split
/// into host and port needs a non-empty host and a port from 1 to 65535;
/// where it fails the scheme forms keep the whole text as host with the
/// default port, and the bare form is a domain.
pub fn parse_server_input(server: &str) -> (parsed: ParsedServer)
    ensures
        parsed@ == parse_server(server@),
{
    let chars = chars_of(server);
    let (lo, hi) = trim_range(chars.as_slice());
    let t = &chars[lo..hi];
    let tls = chars_of("tls://");
    let tcp = chars_of("tcp://");
    if starts_with(t, tls.as_slice()) {
        parse_after_scheme_chars(&t[tls.len()..t.len()], 5223, ConnectionMode::DirectTls)
    } else if starts_with(t, tcp.as_slice()) {
        parse_after_scheme_chars(&t[tcp.len()..t.len()], 5222, ConnectionMode::Tcp)
    } else {
        match split_port_chars(t) {
            Some((c, port)) => {
                let mode = if port == 5223 {
                    ConnectionMode::DirectTls
                } else {
                    ConnectionMode::Tcp
                };
                ParsedServer::Direct(string_of(&t[0..c]), port, mode, None)
            },
            None => ParsedServer::Domain(string_of(t)),
        }
    }
}

/// The text `host:port`, the port in decimal.
pub open spec fn host_port_text(host: Seq<char>, port: u16) -> Seq<char> {
    host + seq![':'] + decimal_digits(port as nat)
}

/// `host:port` splits into a non-empty host and a non-zero port.
pub proof fn lemma_split_host_port(host: Seq<char>, port: u16)
    requires
        host.len() > 0,
        port != 0,
    ensures
        split_port(host_port_text(host, port)) == Some((host, port)),
        !host.contains('?') ==> !host_port_text(host, port).contains('?'),
{
    let digits = decimal_digits(port as nat);
    let text = host_port_text(host, port);
    let c = host.len() as int;
    lemma_decimal_digits(port as nat);
    lemma_parse_decimal_digits(port);
    assert(text[c] == ':');
    assert forall|j: int| c < j < text.len() implies text[j] != ':' by {
        assert(text[j] == digits[j - c - 1]);
    }
    lemma_last_position(text, ':', c);
    assert(text.subrange(c + 1, text.len() as int) == digits);
    assert(text.subrange(0, c) == host);
    if !host.contains('?') {
        assert forall|j: int| 0 <= j < text.len() implies text[j] != '?' by {
            if j < c {
                assert(host.contains(host[j]));
                assert(text[j] == host[j]);
            } else if j > c {
                assert(text[j] == digits[j - c - 1]);
            }
        }
    }
}

/// Every bare domain is taken as a domain: input without a `:` parses to
/// the domain that is the trimmed input.
pub proof fn law_bare_domain(input: Seq<char>)
    requires
        !input.contains(':'),
    ensures
        parse_server(input) == ParsedServerView::Domain(trimmed(input)),
{
    let t = trimmed(input);
    lemma_trimmed_is_part(input);
    reveal_strlit("tls://");
    reveal_strlit("tcp://");
    assert(!t.contains(':')) by {
        if t.contains(':') {
            let i = choose|i: int| 0 <= i < t.len() && t[i] == ':';
            assert(input.contains(t[i]));
        }
    }
    if occurs_at(t, "tls://"@, 0) {
        assert(t.subrange(0, 6)[3] == ':');
        assert(t[3] == ':');
    }
    if occurs_at(t, "tcp://"@, 0) {
        assert(t.subrange(0, 6)[3] == ':');
        assert(t[3] == ':');
    }
    lemma_no_position(t, ':');
}

/// `tls://host:port` is the explicit endpoint `host`, `port` over direct
/// TLS with no XMPP domain, for every non-empty host without `?` and every
/// port but 0.
pub proof fn law_tls_uri_with_port(host: Seq<char>, port: u16)
    requires
        host.len() > 0,
        !host.contains('?'),
        port != 0,
    ensures
        parse_server("tls://"@ + host_port_text(host, port)) == ParsedServerView::Direct(
            host,
            port,
            ConnectionMode::DirectTls,
            None,
        ),
{
    let rest = host_port_text(host, port);
    let text = "tls://"@ + rest;
    reveal_strlit("tls://");
    lemma_decimal_digits(port as nat);
    lemma_split_host_port(host, port);
    let digits = decimal_digits(port as nat);
    assert(text.last() == digits.last());
    assert('0' <= digits[digits.len() - 1] <= '9');
    assert(text[0] == 't');
    lemma_trimmed_identity(text);
    assert(text.subrange(0, 6) == "tls://"@);
    assert(text.subrange(6, text.len() as int) == rest);
    lemma_no_position(rest, '?');
}

/// `tls://host` without a port is `host` on port 5223 over direct TLS,
/// for every host without `:` and `?` that does not end in white space.
pub proof fn law_tls_uri_default_port(host: Seq<char>)
    requires
        !host.contains(':'),
        !host.contains('?'),
        host.len() > 0 ==> !is_white_space(host.last()),
    ensures
        parse_server("tls://"@ + host) == ParsedServerView::Direct(
            host,
            5223,
            ConnectionMode::DirectTls,
            None,
        ),
{
    let text = "tls://"@ + host;
    reveal_strlit("tls://");
    assert(text[0] == 't');
    assert(text.last() == if host.len() > 0 {
        host.last()
    } else {
        '/'
    });
    lemma_trimmed_identity(text);
    assert(text.subrange(0, 6) == "tls://"@);
    assert(text.subrange(6, text.len() as int) == host);
    lemma_no_position(host, '?');
    lemma_no_position(host, ':');
}

/// `host:port` without a scheme is the explicit endpoint `host`, `port`
/// with no XMPP domain: direct TLS on port 5223, STARTTLS on every other
/// port. It holds for every host that is not empty, does not begin with
/// white space or a scheme, and every port but 0.
pub proof fn law_host_port(host: Seq<char>, port: u16)
    requires
        host.len() > 0,
        !is_white_space(host[0]),
        !occurs_at(host, "tls://"@, 0),
        !occurs_at(host, "tcp://"@, 0),
        port != 0,
    ensures
        parse_server(host_port_text(host, port)) == ParsedServerView::Direct(
            host,
            port,
            if port == 5223 {
                ConnectionMode::DirectTls
            } else {
                ConnectionMode::Tcp
            },
            None,
        ),
{
    let text = host_port_text(host, port);
    let digits = decimal_digits(port as nat);
    reveal_strlit("tls://");
    reveal_strlit("tcp://");
    lemma_decimal_digits(port as nat);
    lemma_split_host_port(host, port);
    assert(text.last() == digits.last());
    assert('0' <= digits[digits.len() - 1] <= '9');
    assert('0' <= digits[0] <= '9');
    assert(text[0] == host[0]);
    lemma_trimmed_identity(text);
    let n = host.len() as int;
    assert(text[n] == ':');
    assert(text[n + 1] == digits[0]);
    assert forall|scheme: Seq<char>|
        (scheme == "tls://"@ || scheme == "tcp://"@) && occurs_at(
            text,
            scheme,
            0,
        ) implies occurs_at(host, scheme, 0) by {
        let head = text.subrange(0, 6);
        assert(head == scheme);
        if n >= 6 {
            assert(host.subrange(0, 6) == head);
        } else {
            assert(head[n] == text[n]);
            assert(n == 3);
            assert(head[4] == text[4]);
        }
    }
}

/// A `?domain=d` parameter is preserved: behind a scheme, the parsed
/// endpoint carries `d` as its XMPP domain, and host and port are what the
/// text before the `?` gives. It holds for every `d` that does not end in
/// white space and every text before the `?` that holds no `?` itself.
pub proof fn law_domain_parameter_kept(tls: bool, host_port: Seq<char>, domain: Seq<char>)
    requires
        !host_port.contains('?'),
        domain.len() > 0 ==> !is_white_space(domain.last()),
    ensures
        ({
            let scheme = if tls {
                "tls://"@
            } else {
                "tcp://"@
            };
            let mode = if tls {
                ConnectionMode::DirectTls
            } else {
                ConnectionMode::Tcp
            };
            let default_port: u16 = if tls {
                5223
            } else {
                5222
            };
            parse_server(scheme + host_port + "?domain="@ + domain) == match split_port(
                host_port,
            ) {
                Some((host, port)) => ParsedServerView::Direct(host, port, mode, Some(domain)),
                None => ParsedServerView::Direct(host_port, default_port, mode, Some(domain)),
            }
        }),
{
    reveal_strlit("tls://");
    reveal_strlit("tcp://");
    reveal_strlit("?domain=");
    reveal_strlit("domain=");
    let scheme = if tls {
        "tls://"@
    } else {
        "tcp://"@
    };
    let rest = host_port + "?domain="@ + domain;
    let text = scheme + rest;
    assert(scheme + host_port + "?domain="@ + domain == text);
    assert(text[0] == 't');
    assert(text.last() == if domain.len() > 0 {
        domain.last()
    } else {
        '='
    });
    lemma_trimmed_identity(text);
    assert(text.subrange(0, 6) == scheme);
    assert(text.subrange(6, text.len() as int) == rest);
    if tls {
        assert(occurs_at(text, "tls://"@, 0));
    } else {
        assert(text.subrange(0, 6)[1] == 'c');
        assert(!occurs_at(text, "tls://"@, 0));
        assert(occurs_at(text, "tcp://"@, 0));
    }
    let q = host_port.len() as int;
    assert(rest[q] == '?');
    assert forall|j: int| 0 <= j < q implies rest[j] != '?' by {
        assert(host_port.contains(host_port[j]));
        assert(rest[j] == host_port[j]);
    }
    lemma_first_position(rest, '?', q);
    let query = rest.subrange(q + 1, rest.len() as int);
    assert(query == "domain="@ + domain);
    assert(query.subrange(0, 7) == "domain="@);
    assert(query.subrange(7, query.len() as int) == domain);
    assert(rest.subrange(0, q) == host_port);
}

} // verus!
