//! XMPP framing: stanza boundaries in a byte stream, and the translation
//! between stream framing and WebSocket framing.

pub mod laws;

use crate::framing::laws::{lemma_plain_start, law_plain_stanza_passes_through};
use crate::text::{
    chars_of, contains, find, find_char, find_position, first_position, has, leading_chars,
    matches_at, occurs_at, skip_leading_space, starts_with, string_of, trim_range, trimmed,
};
use crate::xml::{
    attributes_view, reader_events, reader_input, reader_next, reader_open, reader_position,
    tag_attributes, xml_attributes, xml_event, xml_position, XmlAttribute, XmlEvent, XmlEventView,
    XmlTag, XmlTagView,
};
use std::borrow::Cow;
use vstd::prelude::*;
use vstd::string::{StrSliceExecFns, StringExecFns, StringSliceAdditionalSpecFns};
use vstd::utf8::{decode_utf8, encode_utf8, is_ascii_chars, is_ascii_chars_encode_utf8, valid_utf8};

verus! {

/// What `String::from_utf8_lossy` makes of bytes.
pub uninterp spec fn utf8_lossy(bytes: Seq<u8>) -> Seq<char>;

/// The text that bytes stand for: their UTF-8 decoding where they are
/// valid UTF-8, a lossy decoding otherwise.
pub open spec fn text_of_bytes(bytes: Seq<u8>) -> Seq<char> {
    if valid_utf8(bytes) {
        decode_utf8(bytes)
    } else {
        utf8_lossy(bytes)
    }
}

/// `std::str::from_utf8`: succeeds exactly on valid UTF-8, with the text
/// that the bytes encode.
#[verifier::external_body]
fn str_from_utf8(bytes: &[u8]) -> (text: Option<&str>)
    ensures
        text is Some <==> valid_utf8(bytes@),
        text matches Some(t) ==> t@ == decode_utf8(bytes@),
{
    std::str::from_utf8(bytes).ok()
}

/// `String::from_utf8_lossy`, as an owned string.
#[verifier::external_body]
fn string_from_utf8_lossy(bytes: &[u8]) -> (text: String)
    ensures
        text@ == utf8_lossy(bytes@),
{
    String::from_utf8_lossy(bytes).into_owned()
}

/// Converts bytes to a string: exactly where they are valid UTF-8, lossily
/// otherwise.
pub fn bytes_to_string(bytes: &[u8]) -> (text: String)
    ensures
        text@ == text_of_bytes(bytes@),
{
    match str_from_utf8(bytes) {
        Some(s) => s.to_owned(),
        None => string_from_utf8_lossy(bytes),
    }
}

/// Space, tab, line feed or carriage return.
pub open spec fn is_blank(b: u8) -> bool {
    b == 0x20 || b == 0x09 || b == 0x0A || b == 0x0D
}

/// The number of blank bytes at the start of `input`.
pub open spec fn leading_blanks(input: Seq<u8>) -> nat
    decreases input.len(),
{
    if input.len() > 0 && is_blank(input[0]) {
        1 + leading_blanks(input.drop_first())
    } else {
        0
    }
}

/// `pattern` stands in `input` at position `at`.
pub open spec fn bytes_at(input: Seq<u8>, pattern: Seq<u8>, at: int) -> bool {
    &&& 0 <= at
    &&& at + pattern.len() <= input.len()
    &&& input.subrange(at, at + pattern.len()) == pattern
}

/// The stream's closing tag.
pub open spec fn stream_close() -> Seq<char> {
    "</stream:stream>"@
}

/// The position of the first `:` in `name` at or after `from`, or the
/// length of `name` if there is none.
pub open spec fn colon_index(name: Seq<u8>, from: int) -> int
    decreases name.len() - from,
{
    if from < 0 || from >= name.len() {
        name.len() as int
    } else if name[from] == 0x3A {
        from
    } else {
        colon_index(name, from + 1)
    }
}

/// The local part of a qualified name: what follows the first `:`, or the
/// whole name if it has none.
pub open spec fn local_name(name: Seq<u8>) -> Seq<u8> {
    let c = colon_index(name, 0);
    if c < name.len() {
        name.subrange(c + 1, name.len() as int)
    } else {
        name
    }
}

/// The name of the stream element: local part `stream`.
pub open spec fn is_stream_name(name: Seq<u8>) -> bool {
    local_name(name) == encode_utf8("stream"@) || name == encode_utf8("stream:stream"@)
}

/// Where the scan for a stanza stands.
#[derive(Debug, Clone, Copy, PartialEq, Eq, Structural)]
pub enum ParserState {
    /// Between stanzas.
    Idle,
    /// Inside a top-level element.
    InStanza,
}

/// The state of the stanza scan: how many elements are open, whether a
/// top-level element has begun, and where it began.
#[derive(Debug, Clone, Copy, PartialEq, Eq, Structural)]
pub struct StanzaScan {
    pub depth: usize,
    pub state: ParserState,
    pub stanza_start: usize,
}

/// What one event means for the scan.
#[derive(Debug, Clone, Copy, PartialEq, Eq, Structural)]
pub enum ScanOutcome {
    /// Nothing is complete yet; the scan goes on in the given state.
    Continue(StanzaScan),
    /// The bytes from `start` to `end` are one stanza or a stream opening.
    Stanza { start: usize, end: usize },
    /// The stream's closing tag ends at `end`.
    StreamClose { end: usize },
    /// The input ends, or is broken, before anything is complete.
    NeedMore,
}

/// The scan state before the first event.
pub open spec fn initial_scan() -> StanzaScan {
    StanzaScan { depth: 0, state: ParserState::Idle, stanza_start: 0 }
}

/// One level deeper than `depth`. The count stops at the machine's limit.
pub open spec fn one_deeper(depth: usize) -> usize {
    if depth < usize::MAX {
        (depth + 1) as usize
    } else {
        depth
    }
}

/// The effect of one event on the scan. `before` and `after` are the
/// scanner's positions before and after the event.
///
/// A stream element that starts between stanzas is complete at once, from
/// the start of the input. An empty element between stanzas is a stanza of
/// its own. A start tag opens one level, an end tag closes one, and the
/// stanza is complete when the level returns to zero. Everything else
/// leaves the state as it is; the end of input and errors ask for more.
pub open spec fn scan_step(
    scan: StanzaScan,
    event: XmlEventView,
    before: usize,
    after: usize,
) -> ScanOutcome {
    match event {
        XmlEventView::Start(tag) => {
            if scan.state == ParserState::Idle && is_stream_name(tag.name()) {
                ScanOutcome::Stanza { start: 0, end: after }
            } else if scan.state == ParserState::Idle && scan.depth == 0 {
                ScanOutcome::Continue(
                    StanzaScan { depth: 1, state: ParserState::InStanza, stanza_start: before },
                )
            } else {
                ScanOutcome::Continue(StanzaScan { depth: one_deeper(scan.depth), ..scan })
            }
        },
        XmlEventView::Empty(tag) => {
            if scan.state == ParserState::Idle && is_stream_name(tag.name()) {
                ScanOutcome::Stanza { start: 0, end: after }
            } else if scan.state == ParserState::Idle && scan.depth == 0 {
                ScanOutcome::Stanza { start: before, end: after }
            } else {
                ScanOutcome::Continue(scan)
            }
        },
        XmlEventView::End(name) => {
            if is_stream_name(name) && scan.depth == 0 {
                ScanOutcome::StreamClose { end: after }
            } else if scan.state == ParserState::InStanza && scan.depth <= 1 {
                ScanOutcome::Stanza { start: scan.stanza_start, end: after }
            } else if scan.depth == 0 {
                ScanOutcome::Continue(scan)
            } else {
                ScanOutcome::Continue(StanzaScan { depth: (scan.depth - 1) as usize, ..scan })
            }
        },
        XmlEventView::Other => ScanOutcome::Continue(scan),
        XmlEventView::Eof => ScanOutcome::NeedMore,
        XmlEventView::Failed => ScanOutcome::NeedMore,
    }
}

/// What the scan of `input` yields from the event `index` on, in state
/// `scan`: the text of the first complete element and the position behind
/// it, or `None` where the input holds none yet.
///
/// A scanner that stands at the end of the input, does not advance, or
/// reports a position outside the input counts as one that asks for more.
pub open spec fn scan_from(input: Seq<u8>, index: nat, scan: StanzaScan) -> Option<
    (Seq<char>, nat),
>
    decreases input.len() - xml_position(input, index),
{
    let before = xml_position(input, index);
    let after = xml_position(input, index + 1);
    if before >= input.len() || after > usize::MAX {
        None
    } else {
        match scan_step(scan, xml_event(input, index), before as usize, after as usize) {
            ScanOutcome::NeedMore => None,
            ScanOutcome::Stanza { start, end } => if start < end <= input.len() {
                Some((text_of_bytes(input.subrange(start as int, end as int)), end as nat))
            } else {
                None
            },
            ScanOutcome::StreamClose { end } => if 0 < end <= input.len() {
                Some((stream_close(), end as nat))
            } else {
                None
            },
            ScanOutcome::Continue(next) => if before < after <= input.len() {
                scan_from(input, index + 1, next)
            } else {
                None
            },
        }
    }
}

/// The first complete element of `input` and the number of bytes up to its
/// end, or `None` where `input` holds no complete element yet.
///
/// A closing stream tag behind leading blanks is recognised on its own;
/// everything else goes by the scan.
pub open spec fn first_stanza(input: Seq<u8>) -> Option<(Seq<char>, nat)> {
    let lead = leading_blanks(input);
    let close = encode_utf8(stream_close());
    if bytes_at(input, close, lead as int) {
        Some((stream_close(), lead + close.len()))
    } else {
        scan_from(input, 0, initial_scan())
    }
}

/// The content of an extraction result.
pub open spec fn stanza_view(result: Option<(String, usize)>) -> Option<(Seq<char>, nat)> {
    match result {
        Some((text, consumed)) => Some((text@, consumed as nat)),
        None => None,
    }
}

/// The closing tag is sixteen bytes long.
pub proof fn lemma_stream_close_len()
    ensures
        encode_utf8(stream_close()).len() == 16,
{
    reveal_strlit("</stream:stream>");
    assert(is_ascii_chars(stream_close()));
    is_ascii_chars_encode_utf8(stream_close());
}

/// Whether `pattern` stands in `input` at position `at`.
pub fn bytes_match_at(input: &[u8], at: usize, pattern: &[u8]) -> (found: bool)
    ensures
        found == bytes_at(input@, pattern@, at as int),
{
    if pattern.len() > input.len() || at > input.len() - pattern.len() {
        return false;
    }
    let mut i: usize = 0;
    while i < pattern.len()
        invariant
            i <= pattern.len(),
            at + pattern.len() <= input.len(),
            forall|j: int| 0 <= j < i ==> input@[at + j] == pattern@[j],
        decreases pattern.len() - i,
    {
        if input[at + i] != pattern[i] {
            proof {
                let sub = input@.subrange(at as int, at + pattern.len());
                assert(sub[i as int] == input@[at + i]);
            }
            return false;
        }
        i += 1;
    }
    assert(input@.subrange(at as int, at + pattern.len()) =~= pattern@);
    true
}

/// Whether `name` is the name of the stream element.
pub fn name_is_stream(name: &[u8]) -> (stream: bool)
    ensures
        stream == is_stream_name(name@),
{
    let n = name.len();
    let mut c: usize = 0;
    while c < n && name[c] != 0x3A
        invariant
            c <= n,
            n == name.len(),
            colon_index(name@, 0) == colon_index(name@, c as int),
        decreases n - c,
    {
        c += 1;
    }
    let local = if c < n {
        &name[c + 1..n]
    } else {
        assert(name@.subrange(0, n as int) == name@);
        &name[0..n]
    };
    let local_is = bytes_match_at(local, 0, "stream".as_bytes()) && local.len() == "stream".len();
    let whole_is = bytes_match_at(name, 0, "stream:stream".as_bytes()) && n
        == "stream:stream".len();
    proof {
        let s = encode_utf8("stream"@);
        let w = encode_utf8("stream:stream"@);
        assert(local_is == (local@ == s)) by {
            if local@.len() == s.len() {
                assert(local@.subrange(0, s.len() as int) == local@);
            }
        }
        assert(whole_is == (name@ == w)) by {
            if name@.len() == w.len() {
                assert(name@.subrange(0, w.len() as int) == name@);
            }
        }
    }
    local_is || whole_is
}

/// Applies one scanner event to the scan state.
pub fn stanza_step(scan: StanzaScan, event: &XmlEvent, before: usize, after: usize) -> (outcome:
    ScanOutcome)
    ensures
        outcome == scan_step(scan, event@, before, after),
{
    let idle = match scan.state {
        ParserState::Idle => true,
        ParserState::InStanza => false,
    };
    match event {
        XmlEvent::Start(tag) => {
            if idle && name_is_stream(tag.name()) {
                ScanOutcome::Stanza { start: 0, end: after }
            } else if idle && scan.depth == 0 {
                ScanOutcome::Continue(
                    StanzaScan { depth: 1, state: ParserState::InStanza, stanza_start: before },
                )
            } else {
                ScanOutcome::Continue(
                    StanzaScan {
                        depth: scan.depth.saturating_add(1),
                        state: scan.state,
                        stanza_start: scan.stanza_start,
                    },
                )
            }
        },
        XmlEvent::Empty(tag) => {
            if idle && name_is_stream(tag.name()) {
                ScanOutcome::Stanza { start: 0, end: after }
            } else if idle && scan.depth == 0 {
                ScanOutcome::Stanza { start: before, end: after }
            } else {
                ScanOutcome::Continue(scan)
            }
        },
        XmlEvent::End(name) => {
            if scan.depth == 0 && name_is_stream(name.as_slice()) {
                ScanOutcome::StreamClose { end: after }
            } else if !idle && scan.depth <= 1 {
                ScanOutcome::Stanza { start: scan.stanza_start, end: after }
            } else if scan.depth == 0 {
                ScanOutcome::Continue(scan)
            } else {
                ScanOutcome::Continue(
                    StanzaScan {
                        depth: scan.depth - 1,
                        state: scan.state,
                        stanza_start: scan.stanza_start,
                    },
                )
            }
        },
        XmlEvent::Other => ScanOutcome::Continue(scan),
        XmlEvent::Eof => ScanOutcome::NeedMore,
        XmlEvent::Failed => ScanOutcome::NeedMore,
    }
}

/// Extracts one complete stanza, or stream opening or closing tag, from
/// the start of `buffer`.
///
/// Returns its text and the number of bytes up to its end, or `None` when
/// the buffer holds no complete element yet. Nothing is consumed: the
/// caller advances by the count returned.
pub fn extract_stanza(buffer: &[u8]) -> (result: Option<(String, usize)>)
    ensures
        stanza_view(result) == first_stanza(buffer@),
        result matches Some((_, consumed)) ==> 0 < consumed <= buffer.len(),
{
    let len = buffer.len();
    let mut lead: usize = 0;
    assert(buffer@.subrange(0, len as int) == buffer@);
    while lead < len && (buffer[lead] == 0x20 || buffer[lead] == 0x09 || buffer[lead] == 0x0A
        || buffer[lead] == 0x0D)
        invariant
            lead <= len,
            len == buffer.len(),
            leading_blanks(buffer@) == lead + leading_blanks(
                buffer@.subrange(lead as int, len as int),
            ),
        decreases len - lead,
    {
        proof {
            let cur = buffer@.subrange(lead as int, len as int);
            assert(cur.drop_first() == buffer@.subrange(lead + 1, len as int));
        }
        lead += 1;
    }
    let close = "</stream:stream>";
    proof {
        lemma_stream_close_len();
    }
    if bytes_match_at(buffer, lead, close.as_bytes()) {
        return Some((close.to_owned(), lead + close.len()));
    }
    let mut reader = reader_open(buffer);
    let mut scan = StanzaScan { depth: 0, state: ParserState::Idle, stanza_start: 0 };
    let mut before = reader_position(&reader);
    loop
        invariant
            len == buffer.len(),
            close@ == stream_close(),
            reader_input(reader) == buffer@,
            before == xml_position(buffer@, reader_events(reader)),
            first_stanza(buffer@) == scan_from(buffer@, reader_events(reader), scan),
        decreases len - before,
    {
        if before >= len {
            return None;
        }
        let event = reader_next(&mut reader);
        let after = reader_position(&reader);
        match stanza_step(scan, &event, before, after) {
            ScanOutcome::NeedMore => {
                return None;
            },
            ScanOutcome::Stanza { start, end } => {
                if start < end && end <= len {
                    return Some((bytes_to_string(&buffer[start..end]), end));
                }
                return None;
            },
            ScanOutcome::StreamClose { end } => {
                if 0 < end && end <= len {
                    return Some((close.to_owned(), end));
                }
                return None;
            },
            ScanOutcome::Continue(next) => {
                if !(before < after && after <= len) {
                    return None;
                }
                scan = next;
                before = after;
            },
        }
    }
}

/// The attributes of a tag, as the scanner reads them from its content.
/// A tag whose name length lies beyond its content has none.
pub open spec fn tag_attribute_list(tag: XmlTagView) -> Seq<Option<(Seq<u8>, Seq<u8>)>> {
    let content = text_of_bytes(tag.content);
    if tag.name_len <= encode_utf8(content).len() {
        xml_attributes(content, tag.name_len)
    } else {
        Seq::empty()
    }
}

/// The value of the attribute `key`, as text: that of the last readable
/// attribute with this key, or `default` if there is none.
pub open spec fn attribute_text(
    attributes: Seq<Option<(Seq<u8>, Seq<u8>)>>,
    key: Seq<char>,
    default: Seq<char>,
) -> Seq<char>
    decreases attributes.len(),
{
    if attributes.len() == 0 {
        default
    } else {
        match attributes.last() {
            Some((k, v)) => if text_of_bytes(k) == key {
                text_of_bytes(v)
            } else {
                attribute_text(attributes.drop_last(), key, default)
            },
            None => attribute_text(attributes.drop_last(), key, default),
        }
    }
}

/// ` name=<quote>value<quote>` for a value that is not empty, nothing for
/// an empty one. `lead` is the text up to and including the opening quote.
pub open spec fn optional_attribute(lead: Seq<char>, value: Seq<char>, quote: Seq<char>) -> Seq<
    char,
> {
    if value.len() > 0 {
        lead + value + quote
    } else {
        Seq::empty()
    }
}

/// The stream header that an `<open/>` frame with these attributes turns
/// into: `to`, `version` (1.0 where absent) and `xml:lang` are carried
/// over, everything else is dropped.
pub open spec fn stream_header(attributes: Seq<Option<(Seq<u8>, Seq<u8>)>>) -> Seq<char> {
    let to = attribute_text(attributes, "to"@, Seq::empty());
    let version = attribute_text(attributes, "version"@, "1.0"@);
    let lang = attribute_text(attributes, "xml:lang"@, Seq::empty());
    "<?xml version='1.0'?><stream:stream"@ + optional_attribute(" to='"@, to, "'"@)
        + " version='"@ + version + "'"@ + optional_attribute(" xml:lang='"@, lang, "'"@)
        + " xmlns='jabber:client' xmlns:stream='http://etherx.jabber.org/streams'>"@
}

/// The `<open/>` frame that a stream header with these attributes turns
/// into: `to`, `from`, `id`, `version` and `xml:lang` are carried over
/// where they are not empty, everything else is dropped.
pub open spec fn open_frame(attributes: Seq<Option<(Seq<u8>, Seq<u8>)>>) -> Seq<char> {
    let none = Seq::<char>::empty();
    "<open xmlns=\"urn:ietf:params:xml:ns:xmpp-framing\""@ + optional_attribute(
        " to=\""@,
        attribute_text(attributes, "to"@, none),
        "\""@,
    ) + optional_attribute(" from=\""@, attribute_text(attributes, "from"@, none), "\""@)
        + optional_attribute(" id=\""@, attribute_text(attributes, "id"@, none), "\""@)
        + optional_attribute(" version=\""@, attribute_text(attributes, "version"@, none), "\""@)
        + optional_attribute(" xml:lang=\""@, attribute_text(attributes, "xml:lang"@, none), "\""@)
        + "/>"@
}

/// The `<close/>` frame.
pub open spec fn close_frame() -> Seq<char> {
    "<close xmlns=\"urn:ietf:params:xml:ns:xmpp-framing\"/>"@
}

/// The trimmed text is an `<open>` frame.
pub open spec fn is_open_frame(t: Seq<char>) -> bool {
    occurs_at(t, "<open "@, 0) || occurs_at(t, "<open>"@, 0)
}

/// The attributes of the first tag of `t`, or none where `t` does not
/// begin with a start or empty-element tag.
pub open spec fn first_tag_attributes(t: Seq<char>) -> Seq<Option<(Seq<u8>, Seq<u8>)>> {
    match xml_event(encode_utf8(t), 0) {
        XmlEventView::Start(tag) => tag_attribute_list(tag),
        XmlEventView::Empty(tag) => tag_attribute_list(tag),
        _ => Seq::empty(),
    }
}

/// The text begins like no framing: with none of `<open`, `<close`,
/// `<stream:`, `</stream:` and `<?xml`.
pub open spec fn plain_start(t: Seq<char>) -> bool {
    &&& !occurs_at(t, "<open"@, 0)
    &&& !occurs_at(t, "<close"@, 0)
    &&& !occurs_at(t, "<stream:"@, 0)
    &&& !occurs_at(t, "</stream:"@, 0)
    &&& !occurs_at(t, "<?xml"@, 0)
}

/// The text is no framing: trimmed, it begins like none.
pub open spec fn is_plain_stanza(text: Seq<char>) -> bool {
    plain_start(trimmed(text))
}

/// What a WebSocket frame becomes on the TCP side: an `<open>` frame the
/// stream header, a `<close` frame the closing tag, everything else
/// itself.
pub open spec fn ws_to_tcp(text: Seq<char>) -> Seq<char> {
    let t = trimmed(text);
    if is_open_frame(t) {
        stream_header(first_tag_attributes(t))
    } else if occurs_at(t, "<close"@, 0) {
        stream_close()
    } else {
        text
    }
}

/// `t` without a leading XML declaration: what follows the first `?>`,
/// trimmed.
pub open spec fn after_declaration(t: Seq<char>) -> Seq<char> {
    if occurs_at(t, "<?xml"@, 0) {
        match find_position(t, "?>"@) {
            Some(p) => trimmed(t.subrange(p + 2, t.len() as int)),
            None => t,
        }
    } else {
        t
    }
}

/// `s` with every `<stream:` replaced by `<` and every `</stream:` by
/// `</`, in one pass from the left.
pub open spec fn strip_stream_prefix(s: Seq<char>) -> Seq<char>
    decreases s.len(),
{
    if s.len() == 0 {
        s
    } else if s.len() >= 9 && occurs_at(s, "</stream:"@, 0) {
        "</"@ + strip_stream_prefix(s.subrange(9, s.len() as int))
    } else if s.len() >= 8 && occurs_at(s, "<stream:"@, 0) {
        "<"@ + strip_stream_prefix(s.subrange(8, s.len() as int))
    } else {
        seq![s[0]] + strip_stream_prefix(s.drop_first())
    }
}

/// A character that ends a tag's name: a space, `>` or `/`.
pub open spec fn ends_name(c: char) -> bool {
    c == ' ' || c == '>' || c == '/'
}

/// `at` is the first position in `s` of a character that ends a name.
pub open spec fn first_name_end(s: Seq<char>, at: int) -> bool {
    &&& 0 <= at < s.len()
    &&& ends_name(s[at])
    &&& forall|j: int| 0 <= j < at ==> !ends_name(s[j])
}

/// The root tag of `s`: what stands before the first `>`, or all of `s`
/// if there is none.
pub open spec fn root_tag(s: Seq<char>) -> Seq<char> {
    match first_position(s, '>') {
        Some(e) => s.subrange(0, e),
        None => s,
    }
}

/// The namespace attribute that a stream-level element gets.
pub open spec fn streams_namespace() -> Seq<char> {
    " xmlns=\"http://etherx.jabber.org/streams\""@
}

/// `s` with the streams namespace declared on its root tag: where the
/// root tag's name ends somewhere and the tag holds no `xmlns=` yet, the
/// attribute is put in behind the name.
pub open spec fn with_streams_namespace(s: Seq<char>) -> Seq<char> {
    if (exists|at: int| first_name_end(s, at)) && !contains(root_tag(s), "xmlns="@) {
        let at = choose|at: int| first_name_end(s, at);
        s.subrange(0, at) + streams_namespace() + s.subrange(at, s.len() as int)
    } else {
        s
    }
}

/// The trimmed text is a stream-level element other than the stream
/// itself, such as `<stream:features>` or `<stream:error>`.
pub open spec fn is_stream_element(t: Seq<char>) -> bool {
    occurs_at(t, "<stream:"@, 0) && !occurs_at(t, "<stream:stream"@, 0)
}

/// The trimmed text is a stream header that the scanner reads as a start
/// tag.
pub open spec fn is_stream_header(t: Seq<char>) -> bool {
    let s = after_declaration(t);
    occurs_at(s, "<stream:stream "@, 0) && xml_event(encode_utf8(s), 0) is Start
}

/// What an element from the TCP side becomes as a WebSocket frame: the
/// closing tag the `<close/>` frame, a stream header the `<open/>` frame,
/// a stream-level element the same without its `stream:` prefixes and
/// with its namespace declared, everything else itself.
pub open spec fn tcp_to_ws(text: Seq<char>) -> Seq<char> {
    let t = trimmed(text);
    if t == stream_close() {
        close_frame()
    } else if is_stream_header(t) {
        open_frame(first_tag_attributes(after_declaration(t)))
    } else if is_stream_element(t) {
        with_streams_namespace(strip_stream_prefix(t))
    } else {
        text
    }
}

/// Appends `lead`, `value` and `quote` to `out` if `value` is not empty.
fn push_optional_attribute(out: &mut String, lead: &str, value: &str, quote: &str)
    ensures
        final(out)@ == old(out)@ + optional_attribute(lead@, value@, quote@),
{
    if !value.is_empty() {
        out.append(lead);
        out.append(value);
        out.append(quote);
        assert(final(out)@ == old(out)@ + (lead@ + value@ + quote@));
    } else {
        assert(final(out)@ == old(out)@ + Seq::<char>::empty());
    }
}

/// The value of the attribute `key` among `attributes`, as text.
pub fn attribute_value(attributes: &[Option<XmlAttribute>], key: &str, default: &str) -> (value:
    String)
    ensures
        value@ == attribute_text(attributes_view(attributes@), key@, default@),
{
    let ghost all = attributes_view(attributes@);
    let mut value = default.to_owned();
    let wanted = key.to_owned();
    let mut i: usize = 0;
    assert(all.take(0) == Seq::<Option<(Seq<u8>, Seq<u8>)>>::empty());
    while i < attributes.len()
        invariant
            i <= attributes.len(),
            all == attributes_view(attributes@),
            wanted@ == key@,
            value@ == attribute_text(all.take(i as int), key@, default@),
        decreases attributes.len() - i,
    {
        proof {
            let next = all.take(i + 1);
            assert(next.drop_last() == all.take(i as int));
            assert(next.last() == all[i as int]);
        }
        match &attributes[i] {
            Some(a) => {
                let k = bytes_to_string(a.key.as_slice());
                if k == wanted {
                    value = bytes_to_string(a.value.as_slice());
                }
            },
            None => {},
        }
        i += 1;
    }
    assert(all.take(i as int) == all);
    value
}

/// The attributes of a tag.
pub fn attributes_of(tag: &XmlTag) -> (attributes: Vec<Option<XmlAttribute>>)
    ensures
        attributes_view(attributes@) == tag_attribute_list(tag@),
{
    let content = bytes_to_string(tag.content.as_slice());
    if tag.name_len <= content.as_str().as_bytes().len() {
        tag_attributes(content.as_str(), tag.name_len)
    } else {
        let none: Vec<Option<XmlAttribute>> = Vec::new();
        assert(attributes_view(none@) == Seq::<Option<(Seq<u8>, Seq<u8>)>>::empty());
        none
    }
}

/// Builds the stream header for an `<open/>` frame with these attributes.
pub fn stream_header_for(attributes: &[Option<XmlAttribute>]) -> (header: String)
    ensures
        header@ == stream_header(attributes_view(attributes@)),
{
    let to = attribute_value(attributes, "to", "");
    let version = attribute_value(attributes, "version", "1.0");
    let lang = attribute_value(attributes, "xml:lang", "");
    proof {
        reveal_strlit("");
        assert(""@ == Seq::<char>::empty());
    }
    let mut header = String::from_str("<?xml version='1.0'?><stream:stream");
    push_optional_attribute(&mut header, " to='", to.as_str(), "'");
    header.append(" version='");
    header.append(version.as_str());
    header.append("'");
    push_optional_attribute(&mut header, " xml:lang='", lang.as_str(), "'");
    header.append(" xmlns='jabber:client' xmlns:stream='http://etherx.jabber.org/streams'>");
    header
}

/// Builds the `<open/>` frame for a stream header with these attributes.
pub fn open_frame_for(attributes: &[Option<XmlAttribute>]) -> (frame: String)
    ensures
        frame@ == open_frame(attributes_view(attributes@)),
{
    let to = attribute_value(attributes, "to", "");
    let from = attribute_value(attributes, "from", "");
    let id = attribute_value(attributes, "id", "");
    let version = attribute_value(attributes, "version", "");
    let lang = attribute_value(attributes, "xml:lang", "");
    proof {
        reveal_strlit("");
        assert(""@ == Seq::<char>::empty());
    }
    let mut frame = String::from_str("<open xmlns=\"urn:ietf:params:xml:ns:xmpp-framing\"");
    push_optional_attribute(&mut frame, " to=\"", to.as_str(), "\"");
    push_optional_attribute(&mut frame, " from=\"", from.as_str(), "\"");
    push_optional_attribute(&mut frame, " id=\"", id.as_str(), "\"");
    push_optional_attribute(&mut frame, " version=\"", version.as_str(), "\"");
    push_optional_attribute(&mut frame, " xml:lang=\"", lang.as_str(), "\"");
    frame.append("/>");
    frame
}

/// Whether `head`, the first characters of `whole`, begins with
/// `pattern`, a pattern of no more than nine characters.
fn head_starts_with(head: &[char], pattern: &str, Ghost(whole): Ghost<Seq<char>>) -> (found: bool)
    requires
        pattern@.len() <= 9,
        occurs_at(whole, head@, 0),
        head@.len() == 9 || head@ == whole,
    ensures
        found == occurs_at(whole, pattern@, 0),
{
    let p = chars_of(pattern);
    let found = starts_with(head, p.as_slice());
    proof {
        let n = p@.len() as int;
        assert(whole.subrange(0, head@.len() as int) == head@);
        if n <= head@.len() {
            assert(head@.subrange(0, n) == whole.subrange(0, n)) by {
                assert forall|j: int| 0 <= j < n implies head@.subrange(0, n)[j] == whole.subrange(
                    0,
                    n,
                )[j] by {
                    assert(whole.subrange(0, head@.len() as int)[j] == whole[j]);
                }
            }
        }
    }
    found
}

/// Whether `text` begins like no framing behind its leading white space.
/// Only the first characters of the text are looked at.
pub fn begins_plain(text: &str) -> (plain: bool)
    ensures
        plain == plain_start(skip_leading_space(text@)),
{
    let head = leading_chars(text, 9);
    let ghost whole = skip_leading_space(text@);
    proof {
        reveal_strlit("<open");
        reveal_strlit("<close");
        reveal_strlit("<stream:");
        reveal_strlit("</stream:");
        reveal_strlit("<?xml");
    }
    !head_starts_with(head.as_slice(), "<open", Ghost(whole)) && !head_starts_with(
        head.as_slice(),
        "<close",
        Ghost(whole),
    ) && !head_starts_with(head.as_slice(), "<stream:", Ghost(whole)) && !head_starts_with(
        head.as_slice(),
        "</stream:",
        Ghost(whole),
    ) && !head_starts_with(head.as_slice(), "<?xml", Ghost(whole))
}

/// The first event that the scanner yields on `text`.
fn first_event(text: &str) -> (event: XmlEvent)
    ensures
        event@ == xml_event(encode_utf8(text@), 0),
{
    let mut reader = reader_open(text.as_bytes());
    reader_next(&mut reader)
}

/// Translates a WebSocket frame to stream framing.
///
/// `<open …/>` becomes the stream header, `<close …/>` the closing stream
/// tag; every other frame passes through as it is, borrowed.
pub fn translate_ws_to_tcp<'a>(text: &'a str) -> (translated: Cow<'a, str>)
    ensures
        translated@ == ws_to_tcp(text@),
        translated matches Cow::Owned(_) <==> is_open_frame(trimmed(text@)),
{
    if begins_plain(text) {
        proof {
            lemma_plain_start(text@);
            law_plain_stanza_passes_through(text@);
        }
        return Cow::Borrowed(text);
    }
    let chars = chars_of(text);
    let (lo, hi) = trim_range(chars.as_slice());
    let t = &chars[lo..hi];
    let open_spaced = chars_of("<open ");
    let open_bare = chars_of("<open>");
    let close = chars_of("<close");
    if starts_with(t, open_spaced.as_slice()) || starts_with(t, open_bare.as_slice()) {
        let attributes = match first_event(text.substring_char(lo, hi)) {
            XmlEvent::Start(tag) => attributes_of(&tag),
            XmlEvent::Empty(tag) => attributes_of(&tag),
            _ => {
                let none: Vec<Option<XmlAttribute>> = Vec::new();
                assert(attributes_view(none@) == Seq::<Option<(Seq<u8>, Seq<u8>)>>::empty());
                none
            },
        };
        Cow::Owned(stream_header_for(attributes.as_slice()))
    } else if starts_with(t, close.as_slice()) {
        Cow::Borrowed("</stream:stream>")
    } else {
        Cow::Borrowed(text)
    }
}

/// Removes the `stream:` prefix from every tag of `t`.
pub fn strip_prefixes(t: &[char]) -> (stripped: Vec<char>)
    ensures
        stripped@ == strip_stream_prefix(t@),
{
    let closing = chars_of("</stream:");
    let opening = chars_of("<stream:");
    proof {
        reveal_strlit("</stream:");
        reveal_strlit("<stream:");
        reveal_strlit("</");
        reveal_strlit("<");
    }
    let n = t.len();
    let mut out: Vec<char> = Vec::new();
    let mut i: usize = 0;
    assert(t@.subrange(0, n as int) == t@);
    while i < n
        invariant
            i <= n,
            n == t.len(),
            closing@ == "</stream:"@,
            opening@ == "<stream:"@,
            closing@.len() == 9,
            opening@.len() == 8,
            "</"@ == seq!['<', '/'],
            "<"@ == seq!['<'],
            out@ + strip_stream_prefix(t@.subrange(i as int, n as int)) == strip_stream_prefix(t@),
        decreases n - i,
    {
        let ghost rest = t@.subrange(i as int, n as int);
        let ghost before = out@;
        proof {
            assert forall|p: Seq<char>| occurs_at(rest, p, 0) == occurs_at(t@, p, i as int) by {
                if i + p.len() <= n {
                    assert(rest.subrange(0, p.len() as int) == t@.subrange(
                        i as int,
                        i + p.len(),
                    ));
                }
            }
        }
        if matches_at(t, i, closing.as_slice()) {
            out.push('<');
            out.push('/');
            proof {
                assert(rest.subrange(9, rest.len() as int) == t@.subrange(i + 9, n as int));
                assert(out@ == before + "</"@);
            }
            i += 9;
        } else if matches_at(t, i, opening.as_slice()) {
            out.push('<');
            proof {
                assert(rest.subrange(8, rest.len() as int) == t@.subrange(i + 8, n as int));
                assert(out@ == before + "<"@);
            }
            i += 8;
        } else {
            out.push(t[i]);
            proof {
                assert(rest.drop_first() == t@.subrange(i + 1, n as int));
                assert(out@ == before + seq![rest[0]]);
            }
            i += 1;
        }
    }
    assert(out@ + Seq::<char>::empty() == out@);
    out
}

/// A first position of a name's end is the first one.
proof fn lemma_first_name_end(s: Seq<char>, at: int)
    requires
        first_name_end(s, at),
    ensures
        (choose|k: int| first_name_end(s, k)) == at,
{
    let k = choose|k: int| first_name_end(s, k);
    assert(first_name_end(s, k));
    if k < at {
        assert(ends_name(s[k]));
    } else if at < k {
        assert(ends_name(s[at]));
    }
}

/// Declares the streams namespace on the root tag of `s` unless the tag
/// declares a namespace already.
pub fn declare_namespace(s: Vec<char>) -> (declared: Vec<char>)
    ensures
        declared@ == with_streams_namespace(s@),
{
    let n = s.len();
    let mut at: usize = 0;
    while at < n && !(s[at] == ' ' || s[at] == '>' || s[at] == '/')
        invariant
            at <= n,
            n == s.len(),
            forall|j: int| 0 <= j < at ==> !ends_name(s@[j]),
        decreases n - at,
    {
        at += 1;
    }
    if at == n {
        assert(!exists|k: int| first_name_end(s@, k));
        return s;
    }
    proof {
        assert(first_name_end(s@, at as int));
        lemma_first_name_end(s@, at as int);
    }
    let end = match find_char(s.as_slice(), '>') {
        Some(e) => e,
        None => {
            assert(s@.subrange(0, n as int) == s@);
            n
        },
    };
    assert(root_tag(s@) == s@.subrange(0, end as int));
    let key = chars_of("xmlns=");
    if has(&s[0..end], key.as_slice()) {
        return s;
    }
    let attribute = chars_of(" xmlns=\"http://etherx.jabber.org/streams\"");
    let mut declared: Vec<char> = Vec::new();
    declared.extend_from_slice(&s[0..at]);
    declared.extend_from_slice(attribute.as_slice());
    declared.extend_from_slice(&s[at..n]);
    assert(declared@ == s@.subrange(0, at as int) + streams_namespace() + s@.subrange(
        at as int,
        n as int,
    ));
    declared
}

/// Translates an element from the TCP side to WebSocket framing.
///
/// The closing stream tag becomes `<close/>`, a stream header `<open/>`;
/// a stream-level element such as `<stream:features>` loses its `stream:`
/// prefixes and gets its namespace declared; every other stanza passes
/// through as it is, borrowed.
pub fn translate_tcp_to_ws<'a>(text: &'a str) -> (translated: Cow<'a, str>)
    ensures
        translated@ == tcp_to_ws(text@),
        translated matches Cow::Owned(_) <==> trimmed(text@) != stream_close() && (
        is_stream_header(trimmed(text@)) || is_stream_element(trimmed(text@))),
{
    if begins_plain(text) {
        proof {
            lemma_plain_start(text@);
            law_plain_stanza_passes_through(text@);
        }
        return Cow::Borrowed(text);
    }
    let chars = chars_of(text);
    let (lo, hi) = trim_range(chars.as_slice());
    let t = &chars[lo..hi];
    let close = chars_of("</stream:stream>");
    if starts_with(t, close.as_slice()) && t.len() == close.len() {
        assert(t@.subrange(0, t@.len() as int) == t@);
        return Cow::Borrowed("<close xmlns=\"urn:ietf:params:xml:ns:xmpp-framing\"/>");
    }
    assert(t@ != stream_close()) by {
        if t@ == stream_close() {
            assert(t@.subrange(0, t@.len() as int) == t@);
        }
    }
    let declaration = chars_of("<?xml");
    let declaration_end = chars_of("?>");
    proof {
        reveal_strlit("?>");
    }
    let mut from: usize = lo;
    let mut to: usize = hi;
    if starts_with(t, declaration.as_slice()) {
        match find(t, declaration_end.as_slice()) {
            Some(p) => {
                let rest = &t[p + 2..t.len()];
                let (a, b) = trim_range(rest);
                from = lo + p + 2 + a;
                to = lo + p + 2 + b;
                assert(chars@.subrange(from as int, to as int) == rest@.subrange(
                    a as int,
                    b as int,
                ));
            },
            None => {},
        }
    }
    let s = &chars[from..to];
    assert(s@ == after_declaration(t@));
    let header = chars_of("<stream:stream ");
    if starts_with(s, header.as_slice()) {
        match first_event(text.substring_char(from, to)) {
            XmlEvent::Start(tag) => {
                let attributes = attributes_of(&tag);
                return Cow::Owned(open_frame_for(attributes.as_slice()));
            },
            _ => {},
        }
    }
    let prefix = chars_of("<stream:");
    let stream = chars_of("<stream:stream");
    if starts_with(t, prefix.as_slice()) && !starts_with(t, stream.as_slice()) {
        let rewritten = declare_namespace(strip_prefixes(t));
        return Cow::Owned(string_of(rewritten.as_slice()));
    }
    Cow::Borrowed(text)
}

/// The text of a translated frame, owned.
pub fn owned_text(text: Cow<'_, str>) -> (owned: String)
    ensures
        owned@ == text@,
{
    match text {
        Cow::Borrowed(s) => s.to_owned(),
        Cow::Owned(s) => s,
    }
}

/// All complete elements at the start of `input`, in order, and the
/// number of bytes that they take up together.
pub open spec fn stanzas_in(input: Seq<u8>) -> (Seq<Seq<char>>, nat)
    decreases input.len(),
{
    match first_stanza(input) {
        Some((stanza, used)) => if 0 < used <= input.len() {
            let rest = stanzas_in(input.skip(used as int));
            (seq![stanza] + rest.0, used + rest.1)
        } else {
            (Seq::empty(), 0)
        },
        None => (Seq::empty(), 0),
    }
}

/// The texts of a list of strings.
pub open spec fn texts_view(texts: Seq<String>) -> Seq<Seq<char>> {
    texts.map_values(|t: String| t@)
}

/// Extracts every complete element from the start of `input`, keeping one
/// running offset.
///
/// Returns the elements in order and the number of bytes consumed; what
/// lies behind that offset is an incomplete rest.
pub fn split_stanzas(input: &[u8]) -> (found: (Vec<String>, usize))
    ensures
        found.1 <= input.len(),
        (texts_view(found.0@), found.1 as nat) == stanzas_in(input@),
        first_stanza(input@.skip(found.1 as int)) is None,
{
    let len = input.len();
    let mut stanzas: Vec<String> = Vec::new();
    let mut consumed: usize = 0;
    assert(input@.skip(0) == input@);
    assert(texts_view(stanzas@) == Seq::<Seq<char>>::empty());
    loop
        invariant
            consumed <= len,
            len == input.len(),
            stanzas_in(input@).0 == texts_view(stanzas@) + stanzas_in(
                input@.skip(consumed as int),
            ).0,
            stanzas_in(input@).1 == consumed + stanzas_in(input@.skip(consumed as int)).1,
        decreases len - consumed,
    {
        let rest = &input[consumed..len];
        assert(rest@ == input@.skip(consumed as int));
        match extract_stanza(rest) {
            Some((stanza, used)) => {
                let ghost before = texts_view(stanzas@);
                assert(rest@.skip(used as int) == input@.skip(consumed + used));
                stanzas.push(stanza);
                assert(texts_view(stanzas@) == before.push(stanza@));
                assert(before.push(stanza@) + stanzas_in(input@.skip(consumed + used)).0 == before
                    + (seq![stanza@] + stanzas_in(input@.skip(consumed + used)).0));
                consumed += used;
            },
            None => {
                assert(texts_view(stanzas@) + Seq::<Seq<char>>::empty() == texts_view(stanzas@));
                return (stanzas, consumed);
            },
        }
    }
}

} // verus!
