use std::borrow::Cow;
use xmpp_proxy::framing::{
    attribute_value, attributes_of, begins_plain, bytes_match_at, bytes_to_string,
    declare_namespace,
    extract_stanza, name_is_stream, open_frame_for, split_stanzas, stanza_step, stream_header_for,
    strip_prefixes, translate_tcp_to_ws, translate_ws_to_tcp, ParserState, ScanOutcome, StanzaScan,
};
use xmpp_proxy::xml::{XmlAttribute, XmlEvent, XmlTag};

fn chars(s: &str) -> Vec<char> {
    s.chars().collect()
}

fn text(c: Vec<char>) -> String {
    c.into_iter().collect()
}

fn attr(key: &str, value: &str) -> Option<XmlAttribute> {
    Some(XmlAttribute { key: key.as_bytes().to_vec(), value: value.as_bytes().to_vec() })
}

fn tag(content: &str, name_len: usize) -> XmlTag {
    XmlTag { content: content.as_bytes().to_vec(), name_len }
}

const IDLE: StanzaScan = StanzaScan { depth: 0, state: ParserState::Idle, stanza_start: 0 };

#[test]
fn bytes_to_string_is_exact_on_utf8_and_lossy_otherwise() {
    assert_eq!(bytes_to_string(b"<presence/>"), "<presence/>");
    assert_eq!(bytes_to_string("é✓".as_bytes()), "é✓");
    assert_eq!(bytes_to_string(b""), "");
    assert_eq!(bytes_to_string(&[b'a', 0xFF, b'b']), "a\u{FFFD}b");
}

#[test]
fn open_frame_becomes_exactly_the_stream_header() {
    let frame = r#"<open xmlns="urn:ietf:params:xml:ns:xmpp-framing" to="fake" version="1.0"/>"#;
    assert_eq!(
        &*translate_ws_to_tcp(frame),
        "<?xml version='1.0'?><stream:stream to='fake' version='1.0' xmlns='jabber:client' xmlns:stream='http://etherx.jabber.org/streams'>"
    );
}

#[test]
fn stream_header_becomes_exactly_the_open_frame() {
    let header = "<?xml version='1.0'?><stream:stream from='fake' id='X' version='1.0' xmlns='jabber:client' xmlns:stream='http://etherx.jabber.org/streams'>";
    assert_eq!(
        &*translate_tcp_to_ws(header),
        r#"<open xmlns="urn:ietf:params:xml:ns:xmpp-framing" from="fake" id="X" version="1.0"/>"#
    );
}

#[test]
fn open_round_trip_keeps_to_and_version() {
    let tcp = translate_ws_to_tcp("<open xmlns='urn:ietf:params:xml:ns:xmpp-framing' to='X' version='1.0'/>");
    let ws = translate_tcp_to_ws(&tcp);
    assert_eq!(
        &*ws,
        r#"<open xmlns="urn:ietf:params:xml:ns:xmpp-framing" to="X" version="1.0"/>"#
    );
}

#[test]
fn open_without_version_defaults_to_one_point_zero() {
    assert_eq!(
        &*translate_ws_to_tcp("<open to='a.example'/>"),
        "<?xml version='1.0'?><stream:stream to='a.example' version='1.0' xmlns='jabber:client' xmlns:stream='http://etherx.jabber.org/streams'>"
    );
    assert_eq!(
        &*translate_ws_to_tcp("  <open>  "),
        "<?xml version='1.0'?><stream:stream version='1.0' xmlns='jabber:client' xmlns:stream='http://etherx.jabber.org/streams'>"
    );
}

#[test]
fn open_keeps_language_and_drops_the_rest() {
    assert_eq!(
        &*translate_ws_to_tcp(r#"<open xmlns="x" id="7" xml:lang="de" to="a" version="1.1" from="c"/>"#),
        "<?xml version='1.0'?><stream:stream to='a' version='1.1' xml:lang='de' xmlns='jabber:client' xmlns:stream='http://etherx.jabber.org/streams'>"
    );
}

#[test]
fn names_that_only_begin_like_open_pass_through() {
    for frame in ["<opening/>", "<open/>", "<op", "open", "< open >"] {
        let out = translate_ws_to_tcp(frame);
        assert!(matches!(out, Cow::Borrowed(_)));
        assert_eq!(&*out, frame);
    }
}

#[test]
fn anything_that_begins_with_close_closes_the_stream() {
    for frame in ["<close/>", "<close>", " <close xmlns='x'/>\n", "<closed/>"] {
        assert_eq!(&*translate_ws_to_tcp(frame), "</stream:stream>");
    }
}

#[test]
fn close_tag_with_surrounding_space_becomes_close_frame() {
    assert_eq!(
        &*translate_tcp_to_ws(" \n</stream:stream>\t"),
        r#"<close xmlns="urn:ietf:params:xml:ns:xmpp-framing"/>"#
    );
}

#[test]
fn passthrough_keeps_the_untrimmed_text() {
    let stanza = "  <message>é ✓</message>\n";
    assert_eq!(&*translate_ws_to_tcp(stanza), stanza);
    assert_eq!(&*translate_tcp_to_ws(stanza), stanza);
    assert!(matches!(translate_tcp_to_ws(stanza), Cow::Borrowed(_)));
}

#[test]
fn plain_beginnings() {
    for text in ["<message/>", "  <iq>", "", "   ", "<ope", "text", "\u{a0}<presence/>", "< open", "<streamx"] {
        assert!(begins_plain(text), "{:?}", text);
    }
    for text in ["<open/>", " <opening>", "<close", "\n<stream:features>", "</stream:stream>", "<?xml?>", "<stream:"] {
        assert!(!begins_plain(text), "{:?}", text);
    }
}

#[test]
fn features_rewrite_is_exact() {
    assert_eq!(
        &*translate_tcp_to_ws("<stream:features><mechanisms xmlns='urn:ietf:params:xml:ns:xmpp-sasl'><mechanism>PLAIN</mechanism></mechanisms></stream:features>"),
        "<features xmlns=\"http://etherx.jabber.org/streams\"><mechanisms xmlns='urn:ietf:params:xml:ns:xmpp-sasl'><mechanism>PLAIN</mechanism></mechanisms></features>"
    );
}

#[test]
fn nested_stream_prefixes_are_stripped_too() {
    assert_eq!(
        &*translate_tcp_to_ws("<stream:error><stream:text>gone</stream:text></stream:error>"),
        "<error xmlns=\"http://etherx.jabber.org/streams\"><text>gone</text></error>"
    );
}

#[test]
fn rewrite_keeps_non_ascii_text() {
    assert_eq!(
        &*translate_tcp_to_ws("<stream:error><text>café ✓</text></stream:error>"),
        "<error xmlns=\"http://etherx.jabber.org/streams\"><text>café ✓</text></error>"
    );
}

#[test]
fn rewrite_leaves_a_declared_namespace_alone() {
    assert_eq!(
        &*translate_tcp_to_ws("<stream:features xmlns='http://etherx.jabber.org/streams'/>"),
        "<features xmlns='http://etherx.jabber.org/streams'/>"
    );
    assert_eq!(&*translate_tcp_to_ws("<stream:features/>"), "<features xmlns=\"http://etherx.jabber.org/streams\"/>");
    assert_eq!(
        &*translate_tcp_to_ws("<stream:features a='1'>"),
        "<features xmlns=\"http://etherx.jabber.org/streams\" a='1'>"
    );
}

#[test]
fn strip_prefixes_is_one_pass_from_the_left() {
    assert_eq!(text(strip_prefixes(&chars("<stream:a></stream:a>"))), "<a></a>");
    assert_eq!(text(strip_prefixes(&chars("<stream:stream:x>"))), "<stream:x>");
    assert_eq!(text(strip_prefixes(&chars("stream:<a>"))), "stream:<a>");
    assert_eq!(text(strip_prefixes(&chars(""))), "");
    assert_eq!(text(strip_prefixes(&chars("<stream"))), "<stream");
}

#[test]
fn declare_namespace_goes_behind_the_root_name() {
    assert_eq!(
        text(declare_namespace(chars("<a b='1'><c/></a>"))),
        "<a xmlns=\"http://etherx.jabber.org/streams\" b='1'><c/></a>"
    );
    assert_eq!(text(declare_namespace(chars("<a>"))), "<a xmlns=\"http://etherx.jabber.org/streams\">");
    assert_eq!(text(declare_namespace(chars("<a"))), "<a");
    assert_eq!(text(declare_namespace(chars("<a xmlns='x'><b/>"))), "<a xmlns='x'><b/>");
    assert_eq!(
        text(declare_namespace(chars("<a><b xmlns='x'/>"))),
        "<a xmlns=\"http://etherx.jabber.org/streams\"><b xmlns='x'/>"
    );
}

#[test]
fn stream_header_without_start_tag_passes_through() {
    let broken = "<stream:stream to='a'";
    assert_eq!(&*translate_tcp_to_ws(broken), broken);
    let empty = "<?xml version='1.0'?><stream:stream to='a'/>";
    assert_eq!(&*translate_tcp_to_ws(empty), empty);
}

#[test]
fn attribute_value_takes_the_last_readable_match() {
    let attrs = vec![attr("to", "first"), None, attr("id", "7"), attr("to", "second")];
    assert_eq!(attribute_value(&attrs, "to", ""), "second");
    assert_eq!(attribute_value(&attrs, "id", ""), "7");
    assert_eq!(attribute_value(&attrs, "version", "1.0"), "1.0");
    assert_eq!(attribute_value(&[], "to", "none"), "none");
}

#[test]
fn attributes_of_reads_both_quote_styles() {
    let attrs = attributes_of(&tag("open to='a' version=\"1.0\"", 4));
    assert_eq!(attrs, vec![attr("to", "a"), attr("version", "1.0")]);
    assert_eq!(attributes_of(&tag("open", 4)), Vec::new());
    assert_eq!(attributes_of(&tag("open", 9)), Vec::new());
}

#[test]
fn duplicated_attribute_comes_as_unreadable() {
    let attrs = attributes_of(&tag("open to='a' to='b'", 4));
    assert_eq!(attrs, vec![attr("to", "a"), None]);
    assert_eq!(
        &*translate_ws_to_tcp("<open to='a' to='b'/>"),
        "<?xml version='1.0'?><stream:stream to='a' version='1.0' xmlns='jabber:client' xmlns:stream='http://etherx.jabber.org/streams'>"
    );
}

#[test]
fn header_and_frame_builders() {
    let attrs = vec![attr("to", "t"), attr("from", "f"), attr("id", "i"), attr("xml:lang", "en")];
    assert_eq!(
        stream_header_for(&attrs),
        "<?xml version='1.0'?><stream:stream to='t' version='1.0' xml:lang='en' xmlns='jabber:client' xmlns:stream='http://etherx.jabber.org/streams'>"
    );
    assert_eq!(
        open_frame_for(&attrs),
        r#"<open xmlns="urn:ietf:params:xml:ns:xmpp-framing" to="t" from="f" id="i" xml:lang="en"/>"#
    );
    assert_eq!(open_frame_for(&[]), r#"<open xmlns="urn:ietf:params:xml:ns:xmpp-framing"/>"#);
}

#[test]
fn stream_names() {
    assert!(name_is_stream(b"stream:stream"));
    assert!(name_is_stream(b"stream"));
    assert!(name_is_stream(b"x:stream"));
    assert!(!name_is_stream(b"stream:features"));
    assert!(!name_is_stream(b"streams"));
    assert!(!name_is_stream(b""));
    assert!(!name_is_stream(b"a:b:stream"));
}

#[test]
fn bytes_match_at_checks_bounds() {
    assert!(bytes_match_at(b"abcdef", 2, b"cd"));
    assert!(!bytes_match_at(b"abcdef", 5, b"fg"));
    assert!(!bytes_match_at(b"ab", 3, b""));
    assert!(bytes_match_at(b"ab", 2, b""));
}

#[test]
fn step_opens_and_closes_levels() {
    let start = XmlEvent::Start(tag("iq type='get'", 2));
    let end = XmlEvent::End(b"iq".to_vec());
    let in_one = StanzaScan { depth: 1, state: ParserState::InStanza, stanza_start: 4 };
    let in_two = StanzaScan { depth: 2, state: ParserState::InStanza, stanza_start: 4 };
    assert_eq!(stanza_step(IDLE, &start, 4, 19), ScanOutcome::Continue(in_one));
    assert_eq!(stanza_step(in_one, &start, 19, 30), ScanOutcome::Continue(in_two));
    assert_eq!(stanza_step(in_two, &end, 30, 35), ScanOutcome::Continue(in_one));
    assert_eq!(stanza_step(in_one, &end, 35, 40), ScanOutcome::Stanza { start: 4, end: 40 });
    assert_eq!(stanza_step(in_one, &XmlEvent::Other, 35, 40), ScanOutcome::Continue(in_one));
    assert_eq!(stanza_step(in_one, &XmlEvent::Eof, 35, 35), ScanOutcome::NeedMore);
    assert_eq!(stanza_step(in_one, &XmlEvent::Failed, 35, 35), ScanOutcome::NeedMore);
}

#[test]
fn step_emits_top_level_elements() {
    let empty = XmlEvent::Empty(tag("r xmlns='urn:xmpp:sm:3'", 1));
    assert_eq!(stanza_step(IDLE, &empty, 3, 29), ScanOutcome::Stanza { start: 3, end: 29 });
    let in_one = StanzaScan { depth: 1, state: ParserState::InStanza, stanza_start: 0 };
    assert_eq!(stanza_step(in_one, &empty, 3, 29), ScanOutcome::Continue(in_one));
    let open = XmlEvent::Start(tag("stream:stream to='a'", 13));
    assert_eq!(stanza_step(IDLE, &open, 21, 50), ScanOutcome::Stanza { start: 0, end: 50 });
    assert_eq!(
        stanza_step(in_one, &open, 21, 50),
        ScanOutcome::Continue(StanzaScan { depth: 2, state: ParserState::InStanza, stanza_start: 0 })
    );
    let close = XmlEvent::End(b"stream:stream".to_vec());
    assert_eq!(stanza_step(IDLE, &close, 0, 16), ScanOutcome::StreamClose { end: 16 });
    assert_eq!(stanza_step(IDLE, &XmlEvent::End(b"iq".to_vec()), 0, 5), ScanOutcome::Continue(IDLE));
}

#[test]
fn step_stops_counting_at_the_limit() {
    let deepest = StanzaScan { depth: usize::MAX, state: ParserState::InStanza, stanza_start: 0 };
    let start = XmlEvent::Start(tag("a", 1));
    assert_eq!(stanza_step(deepest, &start, 0, 3), ScanOutcome::Continue(deepest));
}

#[test]
fn every_strict_prefix_of_a_stanza_needs_more() {
    let stanza = b"<iq type='result' id='1'><query xmlns='jabber:iq:roster'><item jid='a@b'/></query></iq>";
    for cut in 0..stanza.len() {
        assert_eq!(extract_stanza(&stanza[..cut]), None, "prefix of {} bytes", cut);
    }
    assert_eq!(
        extract_stanza(stanza),
        Some((String::from_utf8(stanza.to_vec()).unwrap(), stanza.len()))
    );
}

#[test]
fn a_stanza_is_extracted_whatever_follows() {
    let stanza = "<message to='a@b'><body>hi &amp; bye</body></message>";
    for suffix in ["", " ", "<iq", "<presence/>", "</stream:stream>", "text"] {
        let buffer = format!("{}{}", stanza, suffix);
        assert_eq!(
            extract_stanza(buffer.as_bytes()),
            Some((stanza.to_string(), stanza.len())),
            "suffix {:?}",
            suffix
        );
    }
}

#[test]
fn concatenated_stanzas_come_out_one_by_one() {
    let stanzas = [
        "<presence/>",
        "<iq id='1'><q/></iq>",
        "<r xmlns='urn:xmpp:sm:3'/>",
        "<message><body>a</body></message>",
        "<a xmlns='urn:xmpp:sm:3' h='5'/>",
    ];
    for k in 0..=stanzas.len() {
        let buffer: String = stanzas[..k].concat();
        let mut offset = 0;
        for expected in &stanzas[..k] {
            let (stanza, used) = extract_stanza(&buffer.as_bytes()[offset..]).unwrap();
            assert_eq!(&stanza, expected);
            offset += used;
        }
        assert_eq!(offset, buffer.len());
        assert_eq!(extract_stanza(&buffer.as_bytes()[offset..]), None);
        let (all, consumed) = split_stanzas(buffer.as_bytes());
        assert_eq!(all, stanzas[..k].to_vec());
        assert_eq!(consumed, buffer.len());
    }
}

#[test]
fn split_stanzas_leaves_the_incomplete_rest() {
    let (all, consumed) = split_stanzas(b"<presence/><iq id='1'><q");
    assert_eq!(all, vec!["<presence/>".to_string()]);
    assert_eq!(consumed, 11);
    assert_eq!(split_stanzas(b""), (Vec::new(), 0));
}

#[test]
fn stream_opening_is_recognised_with_content_right_behind() {
    let header = "<?xml version='1.0'?><stream:stream from='a' version='1.0'>";
    let buffer = format!("{}<stream:features><starttls/></stream:features>", header);
    assert_eq!(extract_stanza(buffer.as_bytes()), Some((header.to_string(), header.len())));
}

#[test]
fn whitespace_between_stanzas_is_consumed_with_the_next() {
    assert_eq!(extract_stanza(b" \n<presence/>"), Some(("<presence/>".to_string(), 13)));
}

#[test]
fn comments_and_instructions_between_stanzas_are_skipped() {
    assert_eq!(
        extract_stanza(b"<!-- note --><?pi data?><presence/>"),
        Some(("<presence/>".to_string(), 35))
    );
}

#[test]
fn unmatched_end_tag_gives_nothing() {
    assert_eq!(extract_stanza(b"</iq>"), None);
}

#[test]
fn invalid_utf8_in_a_stanza_is_replaced() {
    let (stanza, used) = extract_stanza(b"<a>\xFF</a>").unwrap();
    assert_eq!(stanza, "<a>\u{FFFD}</a>");
    assert_eq!(used, 8);
}
