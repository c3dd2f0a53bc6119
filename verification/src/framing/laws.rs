//! What holds of the framing functions: the laws of extraction and of
//! translation, with the lemmas that prove them.

use crate::framing::{
    attribute_text, is_plain_stanza, plain_start, bytes_at, close_frame, ends_name, first_name_end,
    first_stanza, initial_scan, is_open_frame, is_stream_element, is_stream_header,
    is_stream_name, leading_blanks, open_frame, optional_attribute, root_tag, scan_from,
    scan_step, stream_close, stream_header, streams_namespace, strip_stream_prefix, tcp_to_ws,
    text_of_bytes, with_streams_namespace, ws_to_tcp, ParserState, ScanOutcome, StanzaScan,
};
use crate::text::{
    contains, first_char, lemma_first_position, lemma_skip_trailing_is_prefix,
    lemma_trimmed_identity, occurs_at, skip_leading_space, trimmed,
};
use crate::xml::{xml_event, xml_position, XmlEventView};
use vstd::prelude::*;
use vstd::utf8::encode_utf8;

verus! {

/// A prefix of a prefix is a prefix.
proof fn lemma_prefix_of_prefix(t: Seq<char>, long: Seq<char>, short: Seq<char>)
    requires
        occurs_at(t, long, 0),
        occurs_at(long, short, 0),
    ensures
        occurs_at(t, short, 0),
{
    assert(t.subrange(0, short.len() as int) == t.subrange(0, long.len() as int).subrange(
        0,
        short.len() as int,
    ));
}

/// Text that begins like no framing behind its leading white space is
/// no framing.
pub proof fn lemma_plain_start(text: Seq<char>)
    requires
        plain_start(skip_leading_space(text)),
    ensures
        is_plain_stanza(text),
{
    let u = skip_leading_space(text);
    let t = trimmed(text);
    lemma_skip_trailing_is_prefix(u);
    assert forall|p: Seq<char>| occurs_at(t, p, 0) implies occurs_at(u, p, 0) by {
        lemma_prefix_of_prefix(u, t, p);
    }
}

/// A stanza that is no framing passes through both translations as it
/// is.
pub proof fn law_plain_stanza_passes_through(text: Seq<char>)
    requires
        is_plain_stanza(text),
    ensures
        ws_to_tcp(text) == text,
        tcp_to_ws(text) == text,
        !is_open_frame(trimmed(text)),
        !is_stream_header(trimmed(text)),
        !is_stream_element(trimmed(text)),
{
    let t = trimmed(text);
    reveal_strlit("<open");
    reveal_strlit("<open ");
    reveal_strlit("<open>");
    reveal_strlit("<close");
    reveal_strlit("<stream:");
    reveal_strlit("</stream:");
    reveal_strlit("<stream:stream ");
    reveal_strlit("</stream:stream>");
    reveal_strlit("<?xml");
    if occurs_at(t, "<open "@, 0) {
        assert("<open "@.subrange(0, 5) == "<open"@);
        lemma_prefix_of_prefix(t, "<open "@, "<open"@);
    }
    if occurs_at(t, "<open>"@, 0) {
        assert("<open>"@.subrange(0, 5) == "<open"@);
        lemma_prefix_of_prefix(t, "<open>"@, "<open"@);
    }
    if t == stream_close() {
        assert(t.subrange(0, 9) == "</stream:"@);
    }
    if occurs_at(t, "<stream:stream "@, 0) {
        assert("<stream:stream "@.subrange(0, 8) == "<stream:"@);
        lemma_prefix_of_prefix(t, "<stream:stream "@, "<stream:"@);
    }
}

/// The close round trip is exact: a `<close` frame becomes the closing
/// stream tag, and the closing stream tag becomes the `<close/>` frame,
/// which becomes the closing stream tag again.
pub proof fn law_close_round_trip(text: Seq<char>)
    requires
        occurs_at(trimmed(text), "<close"@, 0),
    ensures
        ws_to_tcp(text) == stream_close(),
        tcp_to_ws(ws_to_tcp(text)) == close_frame(),
        ws_to_tcp(close_frame()) == stream_close(),
{
    let t = trimmed(text);
    reveal_strlit("<open ");
    reveal_strlit("<open>");
    reveal_strlit("<close");
    reveal_strlit("</stream:stream>");
    reveal_strlit("<close xmlns=\"urn:ietf:params:xml:ns:xmpp-framing\"/>");
    assert(!is_open_frame(t)) by {
        if occurs_at(t, "<open "@, 0) {
            assert(t.subrange(0, 6)[1] == 'o');
            assert(t.subrange(0, 6)[1] == t[1]);
            assert(t.subrange(0, 6)[1] == 'c');
        }
        if occurs_at(t, "<open>"@, 0) {
            assert(t.subrange(0, 6)[1] == 'o');
            assert(t.subrange(0, 6)[1] == t[1]);
            assert(t.subrange(0, 6)[1] == 'c');
        }
    }
    lemma_trimmed_identity(stream_close());
    lemma_trimmed_identity(close_frame());
    let c = close_frame();
    assert(c.subrange(0, 6) == "<close"@);
    assert(!is_open_frame(c)) by {
        if occurs_at(c, "<open "@, 0) {
            assert(c.subrange(0, 6)[1] == 'o');
        }
        if occurs_at(c, "<open>"@, 0) {
            assert(c.subrange(0, 6)[1] == 'o');
        }
    }
}

/// Stripping the prefixes of a stream-level element leaves a root tag
/// that begins with `<` and no longer with `<stream:`.
pub proof fn law_root_prefix_stripped(t: Seq<char>)
    requires
        is_stream_element(t),
    ensures
        strip_stream_prefix(t).len() > 0,
        strip_stream_prefix(t)[0] == '<',
        !occurs_at(strip_stream_prefix(t), "<stream:"@, 0),
{
    reveal_strlit("<stream:");
    reveal_strlit("</stream:");
    reveal_strlit("<stream:stream");
    reveal_strlit("<");
    let rest = t.subrange(8, t.len() as int);
    assert(t.subrange(0, 8) == "<stream:"@);
    assert(!occurs_at(t, "</stream:"@, 0)) by {
        if occurs_at(t, "</stream:"@, 0) {
            assert(t.subrange(0, 9)[1] == '/');
            assert(t.subrange(0, 8)[1] == 's');
        }
    }
    let out = strip_stream_prefix(t);
    assert(out == "<"@ + strip_stream_prefix(rest));
    if occurs_at(out, "<stream:"@, 0) {
        let tail = strip_stream_prefix(rest);
        assert(out.subrange(0, 8) == "<stream:"@);
        assert forall|j: int| 0 <= j < 6 implies #[trigger] tail[j] == "stream"@[j] by {
            assert(out.subrange(0, 8)[j + 1] == out[j + 1]);
            assert(out[j + 1] == tail[j]);
            reveal_strlit("stream");
        }
        reveal_strlit("stream");
        lemma_strip_keeps_plain_prefix(rest, "stream"@);
        assert(t.subrange(0, 14) == "<stream:stream"@) by {
            assert forall|j: int| 0 <= j < 14 implies t.subrange(0, 14)[j] == "<stream:stream"@[j] by {
                if j < 8 {
                    assert(t.subrange(0, 8)[j] == t[j]);
                } else {
                    assert(rest.subrange(0, 6)[j - 8] == rest[j - 8]);
                    assert(rest[j - 8] == t[j]);
                }
            }
        }
    }
}

/// Where the stripped text begins with characters none of which is `<`,
/// the text itself begins with them.
proof fn lemma_strip_keeps_plain_prefix(u: Seq<char>, w: Seq<char>)
    requires
        w.len() <= strip_stream_prefix(u).len(),
        forall|j: int| 0 <= j < w.len() ==> strip_stream_prefix(u)[j] == w[j],
        forall|j: int| 0 <= j < w.len() ==> w[j] != '<',
    ensures
        occurs_at(u, w, 0),
    decreases w.len(),
{
    reveal_strlit("<stream:");
    reveal_strlit("</stream:");
    reveal_strlit("</");
    reveal_strlit("<");
    if w.len() == 0 {
        assert(u.subrange(0, 0) == w);
    } else {
        let out = strip_stream_prefix(u);
        assert(out[0] == w[0]);
        if u.len() >= 9 && occurs_at(u, "</stream:"@, 0) {
            assert(out[0] == '<');
        } else if u.len() >= 8 && occurs_at(u, "<stream:"@, 0) {
            assert(out[0] == '<');
        } else {
            let tail = strip_stream_prefix(u.drop_first());
            assert(out == seq![u[0]] + tail);
            let w1 = w.drop_first();
            assert forall|j: int| 0 <= j < w1.len() implies tail[j] == w1[j] by {
                assert(out[j + 1] == tail[j]);
                assert(w[j + 1] == w1[j]);
            }
            lemma_strip_keeps_plain_prefix(u.drop_first(), w1);
            assert(u.subrange(0, w.len() as int) == w) by {
                assert forall|j: int| 0 <= j < w.len() implies u.subrange(0, w.len() as int)[j]
                    == w[j] by {
                    if j > 0 {
                        assert(u.drop_first().subrange(0, w1.len() as int)[j - 1] == w1[j - 1]);
                    }
                }
            }
        }
    }
}

/// A character that ends a name occurs before position `bound`, so a
/// first one exists, at or before it.
proof fn lemma_name_end_exists(s: Seq<char>, bound: int) -> (at: int)
    requires
        0 <= bound < s.len(),
        ends_name(s[bound]),
    ensures
        first_name_end(s, at),
        at <= bound,
    decreases bound,
{
    if exists|j: int| 0 <= j < bound && ends_name(s[j]) {
        let j = choose|j: int| 0 <= j < bound && ends_name(s[j]);
        lemma_name_end_exists(s, j)
    } else {
        bound
    }
}

/// A rewritten stream-level element declares its namespace on the root
/// tag: where the element has a `>` at all, what stands before the first
/// `>` of the result holds an `xmlns=`.
pub proof fn law_root_declares_namespace(s: Seq<char>)
    requires
        s.contains('>'),
    ensures
        contains(root_tag(with_streams_namespace(s)), "xmlns="@),
{
    reveal_strlit(" xmlns=\"http://etherx.jabber.org/streams\"");
    reveal_strlit("xmlns=");
    let e = choose|e: int| 0 <= e < s.len() && s[e] == '>';
    let first = lemma_first_gt(s, e);
    lemma_first_position(s, '>', first);
    let at = lemma_name_end_exists(s, first);
    let ns = streams_namespace();
    if !contains(root_tag(s), "xmlns="@) {
        let k = choose|k: int| first_name_end(s, k);
        assert(first_name_end(s, k));
        assert(k == at) by {
            if k < at {
                assert(ends_name(s[k]));
            } else if at < k {
                assert(ends_name(s[at]));
            }
        }
        let r = s.subrange(0, at) + ns + s.subrange(at, s.len() as int);
        assert(with_streams_namespace(s) == r);
        let end = first + ns.len();
        assert(first_char(r, '>', end)) by {
            assert(r[end] == s[first]);
            assert forall|j: int| 0 <= j < end implies r[j] != '>' by {
                if j < at {
                    assert(r[j] == s[j]);
                } else if j < at + ns.len() {
                    assert(r[j] == ns[j - at]);
                } else {
                    assert(r[j] == s[j - ns.len()]);
                }
            }
        }
        lemma_first_position(r, '>', end);
        let root = r.subrange(0, end);
        assert(root.subrange(at + 1, at + 1 + 6) == "xmlns="@) by {
            assert forall|j: int| 0 <= j < 6 implies root.subrange(at + 1, at + 7)[j]
                == "xmlns="@[j] by {
                assert(root[at + 1 + j] == r[at + 1 + j]);
                assert(r[at + 1 + j] == ns[1 + j]);
            }
        }
        assert(occurs_at(root, "xmlns="@, at + 1));
    }
}

/// A `>` occurs at `bound`, so a first one exists.
proof fn lemma_first_gt(s: Seq<char>, bound: int) -> (at: int)
    requires
        0 <= bound < s.len(),
        s[bound] == '>',
    ensures
        first_char(s, '>', at),
        at <= bound,
    decreases bound,
{
    if exists|j: int| 0 <= j < bound && s[j] == '>' {
        let j = choose|j: int| 0 <= j < bound && s[j] == '>';
        lemma_first_gt(s, j)
    } else {
        bound
    }
}

/// An occurrence in a part of a text is an occurrence in the text.
proof fn lemma_occurs_in_part(t: Seq<char>, from: int, pattern: Seq<char>)
    requires
        0 <= from <= t.len(),
        contains(t.subrange(from, t.len() as int), pattern),
    ensures
        contains(t, pattern),
{
    let part = t.subrange(from, t.len() as int);
    let at = choose|at: int| occurs_at(part, pattern, at);
    assert(t.subrange(from + at, from + at + pattern.len()) == part.subrange(
        at,
        at + pattern.len(),
    ));
    assert(occurs_at(t, pattern, from + at));
}

/// An occurrence behind a head is an occurrence in what follows the head.
proof fn lemma_occurs_behind_head(head: Seq<char>, tail: Seq<char>, pattern: Seq<char>, at: int)
    requires
        occurs_at(head + tail, pattern, at),
        at >= head.len(),
    ensures
        occurs_at(tail, pattern, at - head.len()),
{
    let whole = head + tail;
    assert(tail.subrange(at - head.len(), at - head.len() + pattern.len()) == whole.subrange(
        at,
        at + pattern.len(),
    ));
}

/// Where the stripped text begins with `<stream:`, the text holds
/// `<stream:stream:`.
proof fn lemma_stripped_open_prefix(t: Seq<char>, at: int)
    requires
        occurs_at(strip_stream_prefix(t), "<stream:"@, at),
    ensures
        contains(t, "<stream:stream:"@),
    decreases t.len(),
{
    reveal_strlit("<stream:");
    reveal_strlit("</stream:");
    reveal_strlit("<stream:stream:");
    reveal_strlit("stream:");
    reveal_strlit("</");
    reveal_strlit("<");
    let p = "<stream:"@;
    let out = strip_stream_prefix(t);
    let hit = out.subrange(at, at + 8);
    assert(hit == p);
    assert forall|j: int| 0 <= j < 8 implies out[at + j] == p[j] by {
        assert(hit[j] == out[at + j]);
    }
    if t.len() == 0 {
    } else if t.len() >= 9 && occurs_at(t, "</stream:"@, 0) {
        let rest = t.subrange(9, t.len() as int);
        let tail = strip_stream_prefix(rest);
        assert(out == "</"@ + tail);
        if at == 0 {
            assert(out[1] == '/');
            assert(out[at + 1] == p[1]);
        } else if at == 1 {
            assert(out[1] == '/');
            assert(out[at + 0] == p[0]);
        } else {
            lemma_occurs_behind_head("</"@, tail, p, at);
            lemma_stripped_open_prefix(rest, at - 2);
            lemma_occurs_in_part(t, 9, "<stream:stream:"@);
        }
    } else if t.len() >= 8 && occurs_at(t, "<stream:"@, 0) {
        let rest = t.subrange(8, t.len() as int);
        let tail = strip_stream_prefix(rest);
        assert(out == "<"@ + tail);
        if at == 0 {
            assert forall|j: int| 0 <= j < 7 implies tail[j] == "stream:"@[j] by {
                assert(out[at + (j + 1)] == p[j + 1]);
                assert(out[j + 1] == tail[j]);
            }
            lemma_strip_keeps_plain_prefix(rest, "stream:"@);
            assert(t.subrange(0, 15) == "<stream:stream:"@) by {
                assert forall|j: int| 0 <= j < 15 implies t.subrange(0, 15)[j]
                    == "<stream:stream:"@[j] by {
                    if j < 8 {
                        assert(t.subrange(0, 8)[j] == t[j]);
                    } else {
                        assert(rest.subrange(0, 7)[j - 8] == rest[j - 8]);
                        assert(rest[j - 8] == t[j]);
                    }
                }
            }
            assert(occurs_at(t, "<stream:stream:"@, 0));
        } else {
            lemma_occurs_behind_head("<"@, tail, p, at);
            lemma_stripped_open_prefix(rest, at - 1);
            lemma_occurs_in_part(t, 8, "<stream:stream:"@);
        }
    } else {
        let rest = t.drop_first();
        let tail = strip_stream_prefix(rest);
        assert(out == seq![t[0]] + tail);
        if at == 0 {
            assert(out[at + 0] == p[0]);
            assert forall|j: int| 0 <= j < 7 implies tail[j] == "stream:"@[j] by {
                assert(out[at + (j + 1)] == p[j + 1]);
                assert(out[j + 1] == tail[j]);
            }
            lemma_strip_keeps_plain_prefix(rest, "stream:"@);
            assert(t.subrange(0, 8) == p) by {
                assert forall|j: int| 0 <= j < 8 implies t.subrange(0, 8)[j] == p[j] by {
                    if j > 0 {
                        assert(rest.subrange(0, 7)[j - 1] == rest[j - 1]);
                        assert(rest[j - 1] == t[j]);
                    }
                }
            }
            assert(occurs_at(t, p, 0));
        } else {
            lemma_occurs_behind_head(seq![t[0]], tail, p, at);
            lemma_stripped_open_prefix(rest, at - 1);
            assert(rest == t.subrange(1, t.len() as int));
            lemma_occurs_in_part(t, 1, "<stream:stream:"@);
        }
    }
}

/// Where the stripped text holds `</stream:`, the text holds
/// `</stream:stream:` or `<stream:/stream:`.
proof fn lemma_stripped_close_prefix(t: Seq<char>, at: int)
    requires
        occurs_at(strip_stream_prefix(t), "</stream:"@, at),
    ensures
        contains(t, "</stream:stream:"@) || contains(t, "<stream:/stream:"@),
    decreases t.len(),
{
    reveal_strlit("<stream:");
    reveal_strlit("</stream:");
    reveal_strlit("</stream:stream:");
    reveal_strlit("<stream:/stream:");
    reveal_strlit("stream:");
    reveal_strlit("/stream:");
    reveal_strlit("</");
    reveal_strlit("<");
    let p = "</stream:"@;
    let out = strip_stream_prefix(t);
    let hit = out.subrange(at, at + 9);
    assert(hit == p);
    assert forall|j: int| 0 <= j < 9 implies out[at + j] == p[j] by {
        assert(hit[j] == out[at + j]);
    }
    if t.len() == 0 {
    } else if t.len() >= 9 && occurs_at(t, "</stream:"@, 0) {
        let rest = t.subrange(9, t.len() as int);
        let tail = strip_stream_prefix(rest);
        assert(out == "</"@ + tail);
        if at == 0 {
            assert forall|j: int| 0 <= j < 7 implies tail[j] == "stream:"@[j] by {
                assert(out[at + (j + 2)] == p[j + 2]);
                assert(out[j + 2] == tail[j]);
            }
            lemma_strip_keeps_plain_prefix(rest, "stream:"@);
            assert(t.subrange(0, 16) == "</stream:stream:"@) by {
                assert forall|j: int| 0 <= j < 16 implies t.subrange(0, 16)[j]
                    == "</stream:stream:"@[j] by {
                    if j < 9 {
                        assert(t.subrange(0, 9)[j] == t[j]);
                    } else {
                        assert(rest.subrange(0, 7)[j - 9] == rest[j - 9]);
                        assert(rest[j - 9] == t[j]);
                    }
                }
            }
            assert(occurs_at(t, "</stream:stream:"@, 0));
        } else if at == 1 {
            assert(out[1] == '/');
            assert(out[at + 0] == p[0]);
        } else {
            lemma_occurs_behind_head("</"@, tail, p, at);
            lemma_stripped_close_prefix(rest, at - 2);
            if contains(rest, "</stream:stream:"@) {
                lemma_occurs_in_part(t, 9, "</stream:stream:"@);
            } else {
                lemma_occurs_in_part(t, 9, "<stream:/stream:"@);
            }
        }
    } else if t.len() >= 8 && occurs_at(t, "<stream:"@, 0) {
        let rest = t.subrange(8, t.len() as int);
        let tail = strip_stream_prefix(rest);
        assert(out == "<"@ + tail);
        if at == 0 {
            assert forall|j: int| 0 <= j < 8 implies tail[j] == "/stream:"@[j] by {
                assert(out[at + (j + 1)] == p[j + 1]);
                assert(out[j + 1] == tail[j]);
            }
            lemma_strip_keeps_plain_prefix(rest, "/stream:"@);
            assert(t.subrange(0, 16) == "<stream:/stream:"@) by {
                assert forall|j: int| 0 <= j < 16 implies t.subrange(0, 16)[j]
                    == "<stream:/stream:"@[j] by {
                    if j < 8 {
                        assert(t.subrange(0, 8)[j] == t[j]);
                    } else {
                        assert(rest.subrange(0, 8)[j - 8] == rest[j - 8]);
                        assert(rest[j - 8] == t[j]);
                    }
                }
            }
            assert(occurs_at(t, "<stream:/stream:"@, 0));
        } else {
            lemma_occurs_behind_head("<"@, tail, p, at);
            lemma_stripped_close_prefix(rest, at - 1);
            if contains(rest, "</stream:stream:"@) {
                lemma_occurs_in_part(t, 8, "</stream:stream:"@);
            } else {
                lemma_occurs_in_part(t, 8, "<stream:/stream:"@);
            }
        }
    } else {
        let rest = t.drop_first();
        let tail = strip_stream_prefix(rest);
        assert(out == seq![t[0]] + tail);
        if at == 0 {
            assert(out[at + 0] == p[0]);
            assert forall|j: int| 0 <= j < 8 implies tail[j] == "/stream:"@[j] by {
                assert(out[at + (j + 1)] == p[j + 1]);
                assert(out[j + 1] == tail[j]);
            }
            lemma_strip_keeps_plain_prefix(rest, "/stream:"@);
            assert(t.subrange(0, 9) == p) by {
                assert forall|j: int| 0 <= j < 9 implies t.subrange(0, 9)[j] == p[j] by {
                    if j > 0 {
                        assert(rest.subrange(0, 8)[j - 1] == rest[j - 1]);
                        assert(rest[j - 1] == t[j]);
                    }
                }
            }
            assert(occurs_at(t, p, 0));
        } else {
            lemma_occurs_behind_head(seq![t[0]], tail, p, at);
            lemma_stripped_close_prefix(rest, at - 1);
            assert(rest == t.subrange(1, t.len() as int));
            if contains(rest, "</stream:stream:"@) {
                lemma_occurs_in_part(t, 1, "</stream:stream:"@);
            } else {
                lemma_occurs_in_part(t, 1, "<stream:/stream:"@);
            }
        }
    }
}

/// Declaring the namespace brings in no tag: a pattern that begins with
/// `<` and holds no space occurs in the result only where it occurred
/// before.
proof fn lemma_namespace_adds_no_tag(s: Seq<char>, pattern: Seq<char>)
    requires
        pattern.len() > 0,
        pattern[0] == '<',
        forall|j: int| 0 <= j < pattern.len() ==> pattern[j] != ' ',
        contains(with_streams_namespace(s), pattern),
    ensures
        contains(s, pattern),
{
    reveal_strlit(" xmlns=\"http://etherx.jabber.org/streams\"");
    let r = with_streams_namespace(s);
    if r != s {
        let at = choose|at: int| first_name_end(s, at);
        let ns = streams_namespace();
        let n = pattern.len() as int;
        assert(r == s.subrange(0, at) + ns + s.subrange(at, s.len() as int));
        let k = choose|k: int| occurs_at(r, pattern, k);
        let hit = r.subrange(k, k + n);
        assert(hit == pattern);
        assert forall|j: int| 0 <= j < n implies r[k + j] == pattern[j] by {
            assert(hit[j] == r[k + j]);
        }
        assert(r[k + 0int] == '<');
        if k < at {
            if k + n > at {
                assert(r[k + (at - k)] == pattern[at - k]);
                assert(r[at] == ns[0]);
            } else {
                assert(s.subrange(k, k + n) == hit);
                assert(occurs_at(s, pattern, k));
            }
        } else if k < at + ns.len() {
            assert(r[k] == ns[k - at]);
        } else {
            assert(s.subrange(k - ns.len(), k - ns.len() + n) == hit);
            assert(occurs_at(s, pattern, k - ns.len()));
        }
    }
}

/// A rewritten stream-level element has no `stream:` prefix left, on any
/// of its tags. It holds for every text in which no tag name goes on with
/// a second `stream:` behind the prefix.
pub proof fn law_no_prefix_remains(t: Seq<char>)
    requires
        !contains(t, "<stream:stream:"@),
        !contains(t, "</stream:stream:"@),
        !contains(t, "<stream:/stream:"@),
    ensures
        !contains(with_streams_namespace(strip_stream_prefix(t)), "<stream:"@),
        !contains(with_streams_namespace(strip_stream_prefix(t)), "</stream:"@),
{
    reveal_strlit("<stream:");
    reveal_strlit("</stream:");
    let s = strip_stream_prefix(t);
    if contains(with_streams_namespace(s), "<stream:"@) {
        lemma_namespace_adds_no_tag(s, "<stream:"@);
        let at = choose|at: int| occurs_at(s, "<stream:"@, at);
        lemma_stripped_open_prefix(t, at);
    }
    if contains(with_streams_namespace(s), "</stream:"@) {
        lemma_namespace_adds_no_tag(s, "</stream:"@);
        let at = choose|at: int| occurs_at(s, "</stream:"@, at);
        lemma_stripped_close_prefix(t, at);
    }
}

/// How many elements are open after the first `count` events of `input`:
/// the start tags among them less the end tags.
pub open spec fn level_after(input: Seq<u8>, count: nat) -> int
    decreases count,
{
    if count == 0 {
        0
    } else {
        level_after(input, (count - 1) as nat) + match xml_event(input, (count - 1) as nat) {
            XmlEventView::Start(_) => 1int,
            XmlEventView::End(_) => -1int,
            _ => 0int,
        }
    }
}

/// The scanner advances with each of the events up to `last`, within the
/// input, and none of them is the end of input or an error.
pub open spec fn scanner_advances(input: Seq<u8>, last: nat) -> bool {
    forall|k: nat|
        k <= last ==> {
            &&& #[trigger] xml_position(input, k) < xml_position(input, k + 1) <= input.len()
            &&& !(xml_event(input, k) is Eof)
            &&& !(xml_event(input, k) is Failed)
        }
}

/// The events `first..=last` of `input` are one top-level element, with
/// nothing but text and the like before it: event `first` opens it, and
/// either it is an empty element (`first == last`), or event `last` is
/// the end tag at which the level returns to zero for the first time.
pub open spec fn is_top_level_element(input: Seq<u8>, first: nat, last: nat) -> bool {
    &&& first <= last
    &&& forall|k: nat| k < first ==> #[trigger] xml_event(input, k) is Other
    &&& match xml_event(input, first) {
        XmlEventView::Start(tag) => {
            &&& !is_stream_name(tag.name())
            &&& first < last
            &&& xml_event(input, last) is End
            &&& level_after(input, last + 1) == 0
            &&& forall|k: nat| first < k <= last ==> #[trigger] level_after(input, k) >= 1
        },
        XmlEventView::Empty(tag) => !is_stream_name(tag.name()) && first == last,
        _ => false,
    }
}

/// Before the element, nothing is open.
proof fn lemma_level_before_element(input: Seq<u8>, count: nat)
    requires
        forall|k: nat| k < count ==> #[trigger] xml_event(input, k) is Other,
    ensures
        level_after(input, count) == 0,
    decreases count,
{
    if count > 0 {
        lemma_level_before_element(input, (count - 1) as nat);
        assert(xml_event(input, (count - 1) as nat) is Other);
    }
}

/// A scanner that advances has passed at least as many bytes as events,
/// and no more elements are open than events were read.
proof fn lemma_position_bounds(input: Seq<u8>, last: nat, k: nat)
    requires
        scanner_advances(input, last),
        k <= last + 1,
    ensures
        k <= xml_position(input, k),
        -k <= level_after(input, k) <= k,
    decreases k,
{
    if k > 0 {
        lemma_position_bounds(input, last, (k - 1) as nat);
        assert(xml_position(input, (k - 1) as nat) < xml_position(input, (k - 1) as nat + 1));
    }
}

/// Inside the element, the scan goes on to its end tag.
proof fn lemma_scan_inside_element(input: Seq<u8>, first: nat, last: nat, k: nat)
    requires
        input.len() <= usize::MAX,
        scanner_advances(input, last),
        is_top_level_element(input, first, last),
        first < k <= last,
    ensures
        scan_from(
            input,
            k,
            StanzaScan {
                depth: level_after(input, k) as usize,
                state: ParserState::InStanza,
                stanza_start: xml_position(input, first) as usize,
            },
        ) == Some(
            (
                text_of_bytes(
                    input.subrange(
                        xml_position(input, first) as int,
                        xml_position(input, last + 1) as int,
                    ),
                ),
                xml_position(input, last + 1),
            ),
        ),
    decreases last - k,
{
    let before = xml_position(input, k);
    let after = xml_position(input, k + 1);
    assert(before < after <= input.len());
    assert(xml_position(input, first) < xml_position(input, first + 1));
    lemma_position_bounds(input, last, k);
    lemma_position_bounds(input, last, k + 1);
    lemma_position_bounds(input, last, first);
    lemma_positions_grow(input, last, first, last + 1);
    assert(level_after(input, k) >= 1);
    assert(level_after(input, k + 1) == level_after(input, k) + match xml_event(input, k) {
        XmlEventView::Start(_) => 1int,
        XmlEventView::End(_) => -1int,
        _ => 0int,
    });
    if k < last {
        assert(level_after(input, k + 1) >= 1);
        lemma_scan_inside_element(input, first, last, k + 1);
    }
}

/// Positions grow with the number of events.
proof fn lemma_positions_grow(input: Seq<u8>, last: nat, i: nat, j: nat)
    requires
        scanner_advances(input, last),
        i <= j <= last + 1,
    ensures
        xml_position(input, i) <= xml_position(input, j),
        i < j ==> xml_position(input, i) < xml_position(input, j),
    decreases j - i,
{
    if i < j {
        lemma_positions_grow(input, last, i, (j - 1) as nat);
        assert(xml_position(input, (j - 1) as nat) < xml_position(input, (j - 1) as nat + 1));
    }
}

/// Before the element, the scan skips to it.
proof fn lemma_scan_to_element(input: Seq<u8>, first: nat, last: nat, k: nat)
    requires
        input.len() <= usize::MAX,
        scanner_advances(input, last),
        is_top_level_element(input, first, last),
        k <= first,
    ensures
        scan_from(input, k, initial_scan()) == Some(
            (
                text_of_bytes(
                    input.subrange(
                        xml_position(input, first) as int,
                        xml_position(input, last + 1) as int,
                    ),
                ),
                xml_position(input, last + 1),
            ),
        ),
    decreases first - k,
{
    let before = xml_position(input, k);
    let after = xml_position(input, k + 1);
    assert(before < after <= input.len());
    if k < first {
        assert(xml_event(input, k) is Other);
        lemma_scan_to_element(input, first, last, k + 1);
    } else {
        lemma_level_before_element(input, first);
        assert(level_after(input, first + 1) == level_after(input, first) + match xml_event(
            input,
            first,
        ) {
            XmlEventView::Start(_) => 1int,
            XmlEventView::End(_) => -1int,
            _ => 0int,
        });
        if first < last {
            lemma_scan_inside_element(input, first, last, first + 1);
        }
    }
}

/// A complete top-level element is extracted whole: where the events of
/// the input make up one element with nothing but text before it, the
/// result is the text from the start of its first tag to the end of its
/// last, and the count of bytes up to there. What follows the element in
/// the input has no part in it.
pub proof fn law_element_is_extracted(input: Seq<u8>, first: nat, last: nat)
    requires
        input.len() <= usize::MAX,
        !bytes_at(input, encode_utf8(stream_close()), leading_blanks(input) as int),
        scanner_advances(input, last),
        is_top_level_element(input, first, last),
    ensures
        first_stanza(input) == Some(
            (
                text_of_bytes(
                    input.subrange(
                        xml_position(input, first) as int,
                        xml_position(input, last + 1) as int,
                    ),
                ),
                xml_position(input, last + 1),
            ),
        ),
{
    lemma_scan_to_element(input, first, last, 0);
}

/// The events before `end` leave an element open or none begun: event
/// `end` is the end of input or an error, and before it the scanner
/// advances through text and the like and then, if at all, through an
/// element that is never closed.
pub open spec fn is_unfinished(input: Seq<u8>, first: nat, end: nat) -> bool {
    &&& first <= end
    &&& xml_event(input, end) is Eof || xml_event(input, end) is Failed
    &&& end > 0 ==> scanner_advances(input, (end - 1) as nat)
    &&& forall|k: nat| k < first ==> #[trigger] xml_event(input, k) is Other
    &&& first < end ==> (xml_event(input, first) matches XmlEventView::Start(tag)
        && !is_stream_name(tag.name()))
    &&& forall|k: nat| first < k <= end ==> #[trigger] level_after(input, k) >= 1
}

/// Inside an element that is not closed, the scan runs into the end.
proof fn lemma_scan_unfinished(
    input: Seq<u8>,
    first: nat,
    end: nat,
    k: nat,
    scan: StanzaScan,
)
    requires
        input.len() <= usize::MAX,
        is_unfinished(input, first, end),
        k <= end,
        k <= first ==> scan == initial_scan(),
        k > first ==> scan.state == ParserState::InStanza && scan.depth == level_after(input, k),
    ensures
        scan_from(input, k, scan) is None,
    decreases end - k,
{
    if k < end {
        let last = (end - 1) as nat;
        let before = xml_position(input, k);
        let after = xml_position(input, k + 1);
        assert(before < after <= input.len());
        lemma_position_bounds(input, last, k);
        lemma_position_bounds(input, last, k + 1);
        assert(level_after(input, k + 1) == level_after(input, k) + match xml_event(input, k) {
            XmlEventView::Start(_) => 1int,
            XmlEventView::End(_) => -1int,
            _ => 0int,
        });
        assert(level_after(input, k + 1) >= 1 || k + 1 <= first);
        if k < first {
            assert(xml_event(input, k) is Other);
            lemma_scan_unfinished(input, first, end, k + 1, scan);
        } else if k == first {
            lemma_level_before_element(input, first);
            lemma_scan_unfinished(
                input,
                first,
                end,
                k + 1,
                StanzaScan { depth: 1, state: ParserState::InStanza, stanza_start: before as usize },
            );
        } else {
            assert(level_after(input, k) >= 1);
            match scan_step(scan, xml_event(input, k), before as usize, after as usize) {
                ScanOutcome::Continue(next) => {
                    lemma_scan_unfinished(input, first, end, k + 1, next);
                },
                _ => {},
            }
        }
    }
}

/// An incomplete element asks for more: where the input ends, or breaks,
/// while an element is open or before one has begun, nothing is
/// extracted.
pub proof fn law_unfinished_needs_more(input: Seq<u8>, first: nat, end: nat)
    requires
        input.len() <= usize::MAX,
        !bytes_at(input, encode_utf8(stream_close()), leading_blanks(input) as int),
        is_unfinished(input, first, end),
    ensures
        first_stanza(input) is None,
{
    lemma_scan_unfinished(input, first, end, 0, initial_scan());
}

/// What stands in the middle of a text occurs in it.
proof fn lemma_middle_occurs(before: Seq<char>, middle: Seq<char>, after: Seq<char>)
    ensures
        contains(before + middle + after, middle),
{
    let whole = before + middle + after;
    assert(whole.subrange(before.len() as int, (before.len() + middle.len()) as int) == middle);
    assert(occurs_at(whole, middle, before.len() as int));
}

/// The stream header carries the address and the version of the `<open>`
/// frame it is made from: `to='…'` where the frame has an address, and
/// `version='…'` always.
pub proof fn law_stream_header_carries_address(attributes: Seq<Option<(Seq<u8>, Seq<u8>)>>)
    ensures
        ({
            let to = attribute_text(attributes, "to"@, Seq::empty());
            let version = attribute_text(attributes, "version"@, "1.0"@);
            &&& to.len() > 0 ==> contains(stream_header(attributes), " to='"@ + to + "'"@)
            &&& contains(stream_header(attributes), " version='"@ + version + "'"@)
        }),
{
    let to = attribute_text(attributes, "to"@, Seq::empty());
    let version = attribute_text(attributes, "version"@, "1.0"@);
    let lang = attribute_text(attributes, "xml:lang"@, Seq::empty());
    let head = "<?xml version='1.0'?><stream:stream"@;
    let address = optional_attribute(" to='"@, to, "'"@);
    let language = optional_attribute(" xml:lang='"@, lang, "'"@);
    let tail = " xmlns='jabber:client' xmlns:stream='http://etherx.jabber.org/streams'>"@;
    let stated = " version='"@ + version + "'"@;
    let header = stream_header(attributes);
    assert(header == (head + address) + stated + (language + tail));
    lemma_middle_occurs(head + address, stated, language + tail);
    if to.len() > 0 {
        assert(header == head + address + (stated + language + tail));
        lemma_middle_occurs(head, address, stated + language + tail);
    }
}

/// The `<open/>` frame carries the address and the version of the stream
/// header it is made from, where the header has them.
pub proof fn law_open_frame_carries_address(attributes: Seq<Option<(Seq<u8>, Seq<u8>)>>)
    ensures
        ({
            let to = attribute_text(attributes, "to"@, Seq::empty());
            let version = attribute_text(attributes, "version"@, Seq::empty());
            &&& to.len() > 0 ==> contains(open_frame(attributes), " to=\""@ + to + "\""@)
            &&& version.len() > 0 ==> contains(
                open_frame(attributes),
                " version=\""@ + version + "\""@,
            )
        }),
{
    let none = Seq::<char>::empty();
    let head = "<open xmlns=\"urn:ietf:params:xml:ns:xmpp-framing\""@;
    let to = optional_attribute(" to=\""@, attribute_text(attributes, "to"@, none), "\""@);
    let from = optional_attribute(" from=\""@, attribute_text(attributes, "from"@, none), "\""@);
    let id = optional_attribute(" id=\""@, attribute_text(attributes, "id"@, none), "\""@);
    let version = optional_attribute(
        " version=\""@,
        attribute_text(attributes, "version"@, none),
        "\""@,
    );
    let lang = optional_attribute(
        " xml:lang=\""@,
        attribute_text(attributes, "xml:lang"@, none),
        "\""@,
    );
    let frame = open_frame(attributes);
    assert(frame == head + to + (from + id + version + lang + "/>"@));
    lemma_middle_occurs(head, to, from + id + version + lang + "/>"@);
    assert(frame == (head + to + from + id) + version + (lang + "/>"@));
    lemma_middle_occurs(head + to + from + id, version, lang + "/>"@);
}

} // verus!
