//! Laws on the text of issues and pages.
use crate::chunking;
use crate::chunking::adf;
use crate::chunking::storage;
use crate::chunking::storage::StorageView;
use crate::codec;
use crate::json;
use crate::json::Json;
use crate::text;
use crate::text_laws;
use crate::xml;
use crate::xml::{TagToken, XmlToken};
use vstd::prelude::*;

verus! {

// ---------------------------------------------------------------------------
// Chunks and times

/// All chunks that text-splitter makes of a text are taken, with 1200 characters
/// at most in each and 150 shared.
pub proof fn law_all_chunks_are_taken(s: Seq<char>)
    ensures
        chunking::split_text(s) == chunking::text_chunks(s, 1200, 150),
{
}

/// A time is the one that is read, and zero where none is given or it cannot be
/// read.
pub proof fn law_times_are_read(s: Seq<char>, t: i64)
    ensures
        chunking::rfc3339_seconds(s) == Some(t) ==> chunking::iso_seconds(Some(s)) == t,
        chunking::rfc3339_seconds(s) is None ==> chunking::iso_seconds(Some(s)) == 0,
        chunking::iso_seconds(None) == 0,
        chunking::time_or_zero(Some(t)) == t,
        chunking::time_or_zero(None) == 0,
{
}

// ---------------------------------------------------------------------------
// XML

/// A tag has a name if and only if its bytes are those of the name.
pub proof fn law_names(a: Seq<char>, b: Seq<char>)
    ensures
        xml::is_name(vstd::utf8::encode_utf8(a), b) <==> a == b,
{
    vstd::utf8::encode_utf8_decode_utf8(a);
    vstd::utf8::encode_utf8_decode_utf8(b);
}

/// Reading ends with the first event that ends the document, and nothing before
/// it is left out.
pub proof fn law_events_up_to_the_end(events: Seq<XmlToken>, n: int)
    requires
        0 <= n < events.len(),
        events[n] is Eof || events[n] is Malformed,
        forall|i: int|
            0 <= i < n ==> !((#[trigger] events[i]) is Eof) && !(events[i] is Malformed),
    ensures
        xml::until_last(events) == events.take(n + 1),
    decreases n,
{
    if n == 0 {
        assert(events.take(1) =~= seq![events[0]]);
    } else {
        let rest = events.drop_first();
        assert(!(events[0] is Eof) && !(events[0] is Malformed));
        assert forall|i: int| 0 <= i < n - 1 implies !((#[trigger] rest[i]) is Eof) && !(rest[i]
            is Malformed) by {
            assert(rest[i] == events[i + 1]);
        }
        law_events_up_to_the_end(rest, n - 1);
        assert(seq![events[0]] + rest.take(n) =~= events.take(n + 1));
    }
}

/// The value of an attribute is that of the first with its key that could be
/// read; those before it do not matter, nor those behind it.
pub proof fn law_first_attribute_counts(
    before: Seq<Option<xml::AttrToken>>,
    key: Seq<char>,
    value: Seq<char>,
    behind: Seq<Option<xml::AttrToken>>,
)
    requires
        forall|i: int|
            0 <= i < before.len() ==> match #[trigger] before[i] {
                Some(a) => a.key != vstd::utf8::encode_utf8(key) || a.value is None,
                None => true,
            },
    ensures
        xml::attribute(before, key) is None,
        xml::attribute(
            before + seq![
                Some(xml::AttrToken { key: vstd::utf8::encode_utf8(key), value: Some(value) }),
            ] + behind,
            key,
        ) == Some(value),
    decreases before.len(),
{
    let a = Some(xml::AttrToken { key: vstd::utf8::encode_utf8(key), value: Some(value) });
    let all = before + seq![a] + behind;
    if before.len() > 0 {
        let rest = before.drop_first();
        assert(all.drop_first() =~= rest + seq![a] + behind);
        assert(all[0] == before[0]);
        assert forall|i: int| 0 <= i < rest.len() implies match #[trigger] rest[i] {
            Some(a) => a.key != vstd::utf8::encode_utf8(key) || a.value is None,
            None => true,
        } by {
            assert(rest[i] == before[i + 1]);
        }
        law_first_attribute_counts(rest, key, value, behind);
    } else {
        assert(all[0] == a);
    }
}

// ---------------------------------------------------------------------------
// Pages

/// The whole body of a page is read, as one element.
pub proof fn law_page_is_read_whole(html: Seq<char>)
    ensures
        storage::page_content(html) == storage::storage_content(
            xml::until_last(
                xml::xml_events(
                    vstd::utf8::encode_utf8("<root>"@ + html + "</root>"@),
                    false,
                    false,
                    true,
                ),
            ),
        ),
{
}

/// Whether an event opens a draw.io or Mermaid macro.
pub open spec fn opens_diagram(e: XmlToken) -> bool {
    e matches XmlToken::Start(tag) && tag.name == vstd::utf8::encode_utf8("ac:structured-macro"@) && (
    xml::attribute(tag.attrs, "ac:name"@) == Some("drawio"@) || xml::attribute(
        tag.attrs,
        "ac:name"@,
    ) == Some("mermaid"@) || xml::attribute(tag.attrs, "ac:name"@) == Some("mermaid-cloud"@))
}

/// Whether a tag begins a line.
pub open spec fn begins_line(tag: TagToken) -> bool {
    exists|name: Seq<char>| #[trigger]
        xml::is_name(tag.name, name) && (name == "br"@ || name == "p"@ || name == "div"@ || name
            == "li"@ || name == "tr"@ || name == "h1"@ || name == "h2"@ || name == "h3"@ || name
            == "h4"@)
}

proof fn lemma_begins_line(tag: TagToken)
    ensures
        begins_line(tag) == storage::breaks_line(tag.name),
{
    if storage::breaks_line(tag.name) {
        assert(xml::is_name(tag.name, "br"@) || xml::is_name(tag.name, "p"@) || xml::is_name(
            tag.name,
            "div"@,
        ) || xml::is_name(tag.name, "li"@) || xml::is_name(tag.name, "tr"@) || xml::is_name(
            tag.name,
            "h1"@,
        ) || xml::is_name(tag.name, "h2"@) || xml::is_name(tag.name, "h3"@) || xml::is_name(
            tag.name,
            "h4"@,
        ));
    }
}

/// A tag that begins a line is none of those that are read otherwise.
proof fn lemma_line_names(name: Seq<u8>)
    requires
        storage::breaks_line(name),
    ensures
        !xml::is_name(name, "ac:structured-macro"@),
        !xml::is_name(name, "ac:parameter"@),
        !xml::is_name(name, "ac:plain-text-body"@),
        !xml::is_name(name, "ri:attachment"@),
{
    storage::lemma_names_differ();
    reveal_strlit("ac:structured-macro");
    reveal_strlit("ac:parameter");
    reveal_strlit("ac:plain-text-body");
    reveal_strlit("ri:attachment");
    reveal_strlit("br");
    reveal_strlit("p");
    reveal_strlit("div");
    reveal_strlit("li");
    reveal_strlit("tr");
    reveal_strlit("h1");
    reveal_strlit("h2");
    reveal_strlit("h3");
    reveal_strlit("h4");
    assert("ac:structured-macro"@.len() == 19 && "ac:parameter"@.len() == 12);
    assert("ac:plain-text-body"@.len() == 18 && "ri:attachment"@.len() == 13);
    assert("br"@.len() == 2 && "p"@.len() == 1 && "div"@.len() == 3 && "li"@.len() == 2
        && "tr"@.len() == 2);
    assert("h1"@.len() == 2 && "h2"@.len() == 2 && "h3"@.len() == 2 && "h4"@.len() == 2);
}

proof fn lemma_attachment_name(name: Seq<u8>)
    requires
        xml::is_name(name, "ri:attachment"@),
    ensures
        !xml::is_name(name, "ac:structured-macro"@),
        !xml::is_name(name, "ac:parameter"@),
        !xml::is_name(name, "ac:plain-text-body"@),
        !storage::breaks_line(name),
{
    if storage::breaks_line(name) {
        lemma_line_names(name);
    }
    storage::lemma_names_differ();
    reveal_strlit("ac:structured-macro");
    reveal_strlit("ac:parameter");
    reveal_strlit("ac:plain-text-body");
    reveal_strlit("ri:attachment");
    assert("ac:structured-macro"@.len() == 19 && "ac:parameter"@.len() == 12);
    assert("ac:plain-text-body"@.len() == 18 && "ri:attachment"@.len() == 13);
}

/// Outside of draw.io and Mermaid macros a text that is not blank is added
/// whole, of whatever length, trimmed and with a space behind it; a tag that
/// begins a line adds a line feed; nothing else adds text. The file name of an
/// attachment is added to the images, and nothing else is.
pub proof fn law_body_event(st: StorageView, e: XmlToken)
    requires
        storage::at_rest(st),
        !opens_diagram(e),
    ensures
        ({
            let r = storage::storage_step(st, e);
            &&& storage::at_rest(r)
            &&& r.out.drawio_refs == st.out.drawio_refs
            &&& r.out.mermaid_blocks == st.out.mermaid_blocks
            &&& match e {
                XmlToken::Text(Some(s)) => {
                    &&& (exists|k: int| 0 <= k < s.len() && !text::is_white(#[trigger] s[k]))
                        ==> r.out.text == st.out.text + text::trim(s) + " "@
                    &&& (forall|k: int| 0 <= k < s.len() ==> text::is_white(#[trigger] s[k]))
                        ==> r.out.text == st.out.text
                    &&& r.out.image_refs == st.out.image_refs
                },
                XmlToken::Start(tag) | XmlToken::Empty(tag) => {
                    &&& r.out.text == (if begins_line(tag) {
                        st.out.text + "\n"@
                    } else {
                        st.out.text
                    })
                    &&& r.out.image_refs == (match xml::attribute(tag.attrs, "ri:filename"@) {
                        Some(name) => if xml::is_name(tag.name, "ri:attachment"@) {
                            st.out.image_refs + seq![name]
                        } else {
                            st.out.image_refs
                        },
                        None => st.out.image_refs,
                    })
                },
                _ => r.out.text == st.out.text && r.out.image_refs == st.out.image_refs,
            }
        }),
{
    reveal_strlit(" ");
    reveal_strlit("\n");
    reveal_strlit("drawio");
    reveal_strlit("mermaid");
    reveal_strlit("mermaid-cloud");
    assert("drawio"@.len() == 6 && "mermaid"@.len() == 7 && "mermaid-cloud"@.len() == 13);
    if let XmlToken::Start(tag) = e {
        assert(!storage::is_diagram_tag(tag));
    }
    match e {
        XmlToken::Text(Some(s)) => {
            text::law_blank_is_white(s);
            assert((st.out.text + text::trim(s)).push(' ') =~= st.out.text + text::trim(s) + " "@);
        },
        XmlToken::Start(tag) => {
            lemma_body_tag(st, tag);
        },
        XmlToken::Empty(tag) => {
            lemma_body_tag(st, tag);
        },
        _ => {},
    }
}

proof fn lemma_body_tag(st: StorageView, tag: TagToken)
    requires
        storage::at_rest(st),
    ensures
        st.out.text.push('\n') == st.out.text + "\n"@,
        begins_line(tag) == storage::breaks_line(tag.name),
        storage::breaks_line(tag.name) ==> !xml::is_name(tag.name, "ri:attachment"@)
            && !xml::is_name(tag.name, "ac:structured-macro"@) && !xml::is_name(
            tag.name,
            "ac:parameter"@,
        ) && !xml::is_name(tag.name, "ac:plain-text-body"@),
        xml::is_name(tag.name, "ri:attachment"@) ==> !xml::is_name(
            tag.name,
            "ac:structured-macro"@,
        ) && !xml::is_name(tag.name, "ac:parameter"@) && !xml::is_name(
            tag.name,
            "ac:plain-text-body"@,
        ) && !storage::breaks_line(tag.name),
        xml::attribute(tag.attrs, "ri:filename"@) matches Some(name) ==> st.out.image_refs.push(name)
            == st.out.image_refs + seq![name],
{
    reveal_strlit("\n");
    assert(st.out.text.push('\n') =~= st.out.text + "\n"@);
    lemma_begins_line(tag);
    storage::lemma_names_differ();
    if storage::breaks_line(tag.name) {
        lemma_line_names(tag.name);
    }
    if xml::is_name(tag.name, "ri:attachment"@) {
        lemma_attachment_name(tag.name);
    }
    if let Some(name) = xml::attribute(tag.attrs, "ri:filename"@) {
        assert(st.out.image_refs.push(name) =~= st.out.image_refs + seq![name]);
    }
}

/// The texts of all text events, one after another.
pub open spec fn event_texts(events: Seq<XmlToken>) -> Seq<char>
    decreases events.len(),
{
    if events.len() == 0 {
        Seq::empty()
    } else {
        event_texts(events.drop_last()) + (match events.last() {
            XmlToken::Text(Some(s)) => s,
            _ => Seq::empty(),
        })
    }
}

/// The text of a body before its white space is compressed: a line feed for each
/// tag that begins a line, and each text that is not blank, trimmed, with a space
/// behind it.
pub open spec fn body_text(events: Seq<XmlToken>) -> Seq<char>
    decreases events.len(),
{
    if events.len() == 0 {
        Seq::empty()
    } else {
        body_text(events.drop_last()) + (match events.last() {
            XmlToken::Text(Some(s)) => if exists|k: int|
                0 <= k < s.len() && !text::is_white(#[trigger] s[k]) {
                text::trim(s) + " "@
            } else {
                Seq::empty()
            },
            XmlToken::Start(tag) | XmlToken::Empty(tag) => if begins_line(tag) {
                "\n"@
            } else {
                Seq::empty()
            },
            _ => Seq::empty(),
        })
    }
}

/// The file names of all attachments that are named, in order.
pub open spec fn attachment_names(events: Seq<XmlToken>) -> Seq<Seq<char>>
    decreases events.len(),
{
    if events.len() == 0 {
        Seq::empty()
    } else {
        let before = attachment_names(events.drop_last());
        match events.last() {
            XmlToken::Start(tag) | XmlToken::Empty(tag) => match xml::attribute(
                tag.attrs,
                "ri:filename"@,
            ) {
                Some(name) => if tag.name == vstd::utf8::encode_utf8("ri:attachment"@) {
                    before.push(name)
                } else {
                    before
                },
                None => before,
            },
            _ => before,
        }
    }
}

proof fn lemma_body_ink(events: Seq<XmlToken>)
    requires
        forall|i: int| 0 <= i < events.len() ==> !opens_diagram(#[trigger] events[i]),
    ensures
        storage::at_rest(storage::storage_run(storage::storage_start(), events)),
        storage::storage_run(storage::storage_start(), events).out.text == body_text(events),
        text_laws::ink(storage::storage_run(storage::storage_start(), events).out.text)
            == text_laws::ink(event_texts(events)),
        storage::storage_run(storage::storage_start(), events).out.image_refs == attachment_names(
            events,
        ),
        storage::storage_run(storage::storage_start(), events).out.drawio_refs.len() == 0,
        storage::storage_run(storage::storage_start(), events).out.mermaid_blocks.len() == 0,
    decreases events.len(),
{
    text_laws::lemma_ink_of_one(' ');
    text_laws::lemma_ink_of_one('\n');
    if events.len() > 0 {
        let prev = events.drop_last();
        let e = events.last();
        assert forall|i: int| 0 <= i < prev.len() implies !opens_diagram(#[trigger] prev[i]) by {
            assert(prev[i] == events[i]);
        }
        assert(!opens_diagram(events[events.len() - 1]));
        lemma_body_ink(prev);
        let st = storage::storage_run(storage::storage_start(), prev);
        law_body_event(st, e);
        reveal_strlit(" ");
        reveal_strlit("\n");
        assert(" "@ =~= seq![' ']);
        assert("\n"@ =~= seq!['\n']);
        let none = Seq::<char>::empty();
        let before = event_texts(prev);
        assert(st.out.text + none =~= st.out.text);
        match e {
            XmlToken::Text(Some(s)) => {
                let t = text::trim(s);
                assert(st.out.text + (t + " "@) =~= st.out.text + t + " "@);
                text_laws::law_trim_keeps_ink(s);
                text_laws::lemma_ink_adds_up(st.out.text + t, " "@);
                text_laws::lemma_ink_adds_up(st.out.text, t);
                text_laws::lemma_ink_adds_up(before, s);
                assert(text_laws::ink(st.out.text) + text_laws::ink(t) + none =~= text_laws::ink(
                    st.out.text,
                ) + text_laws::ink(s));
                if forall|k: int| 0 <= k < s.len() ==> text::is_white(#[trigger] s[k]) {
                    text_laws::lemma_white_has_no_ink(s);
                    assert(text_laws::ink(before) + text_laws::ink(s) =~= text_laws::ink(before));
                }
            },
            _ => {
                text_laws::lemma_ink_adds_up(st.out.text, "\n"@);
                assert(text_laws::ink(st.out.text) + none =~= text_laws::ink(st.out.text));
                assert(before + none =~= before);
            },
        }
        match e {
            XmlToken::Start(tag) | XmlToken::Empty(tag) => {
                if let Some(name) = xml::attribute(tag.attrs, "ri:filename"@) {
                    assert(st.out.image_refs.push(name) =~= st.out.image_refs + seq![name]);
                }
            },
            _ => {},
        }
    }
}

/// Compressing white space loses no other character.
pub proof fn law_compressing_keeps_ink(s: Seq<char>, line: bool, space: bool)
    ensures
        text_laws::ink(storage::compressed_from(s, line, space)) == text_laws::ink(s),
        text_laws::ink(storage::compressed(s)) == text_laws::ink(s),
    decreases s.len(), (if line || space { 1nat } else { 0nat }),
{
    text_laws::lemma_ink_of_one('\n');
    text_laws::lemma_ink_of_one(' ');
    if s.len() > 0 {
        let rest = s.drop_first();
        let none = Seq::<char>::empty();
        assert(seq![s[0]] + rest =~= s);
        text_laws::lemma_ink_adds_up(seq![s[0]], rest);
        text_laws::lemma_ink_of_one(s[0]);
        assert(none + text_laws::ink(rest) =~= text_laws::ink(rest));
        if s[0] == '\n' {
            law_compressing_keeps_ink(rest, true, false);
            text_laws::lemma_ink_adds_up(seq!['\n'], storage::compressed_from(rest, true, false));
        } else if text::is_white(s[0]) {
            law_compressing_keeps_ink(rest, line, true);
            text_laws::lemma_ink_adds_up(seq![' '], storage::compressed_from(rest, line, true));
        } else {
            law_compressing_keeps_ink(rest, false, false);
            text_laws::lemma_ink_adds_up(seq![s[0]], storage::compressed_from(rest, false, false));
        }
    }
    if line || space {
        law_compressing_keeps_ink(s, false, false);
    }
}

/// What a run of white space becomes, where a line has just begun or white space
/// was just read.
spec fn run_text(w: Seq<char>, line: bool, space: bool) -> Seq<char> {
    (if !line && !space && w.len() > 0 && w[0] != '\n' {
        " "@
    } else {
        Seq::empty()
    }) + (if !line && w.contains('\n') {
        "\n"@
    } else {
        Seq::empty()
    })
}

proof fn lemma_white_run(w: Seq<char>, s: Seq<char>, line: bool, space: bool)
    requires
        forall|i: int| 0 <= i < w.len() ==> text::is_white(#[trigger] w[i]),
        s.len() == 0 || !text::is_white(s[0]),
    ensures
        storage::compressed_from(w + s, line, space) == run_text(w, line, space)
            + storage::compressed(s),
    decreases w.len(),
{
    reveal_strlit(" ");
    reveal_strlit("\n");
    assert(" "@ =~= seq![' ']);
    assert("\n"@ =~= seq!['\n']);
    text_laws::law_white_space('\n');
    let all = w + s;
    let end = storage::compressed(s);
    if w.len() == 0 {
        assert(all =~= s);
        assert(run_text(w, line, space) + end =~= end);
        assert(storage::compressed_from(s, line, space) == storage::compressed_from(
            s,
            false,
            false,
        ));
    } else {
        let rest = w.drop_first();
        assert(text::is_white(w[0]));
        assert(all[0] == w[0]);
        assert(all.drop_first() =~= rest + s);
        assert forall|i: int| 0 <= i < rest.len() implies text::is_white(#[trigger] rest[i]) by {
            assert(rest[i] == w[i + 1]);
        }
        assert(seq![w[0]] + rest =~= w);
        assert(w.contains('\n') <==> w[0] == '\n' || rest.contains('\n')) by {
            if rest.contains('\n') {
                let k = choose|k: int| 0 <= k < rest.len() && rest[k] == '\n';
                assert(w[k + 1] == '\n');
            }
            if w.contains('\n') && w[0] != '\n' {
                let k = choose|k: int| 0 <= k < w.len() && w[k] == '\n';
                assert(rest[k - 1] == '\n');
            }
        }
        if w[0] == '\n' {
            lemma_white_run(rest, s, true, false);
            assert(run_text(rest, true, false) =~= Seq::empty());
            assert(Seq::<char>::empty() + end =~= end);
            assert(seq!['\n'] + end =~= Seq::<char>::empty() + seq!['\n'] + end);
        } else {
            lemma_white_run(rest, s, line, true);
            let tail = run_text(rest, line, true);
            assert(seq![' '] + (tail + end) =~= seq![' '] + tail + end);
            assert(run_text(w, line, space) =~= (if line || space {
                Seq::<char>::empty()
            } else {
                seq![' ']
            }) + tail);
            assert(Seq::<char>::empty() + tail =~= tail);
        }
    }
}

/// Compressing keeps every character that is no white space, and makes of each
/// run of white space a space, where it does not begin with a line feed, and a line
/// feed, where it holds one: no two words run together, and no line is lost.
pub proof fn law_white_space_is_compressed(c: char, w: Seq<char>, s: Seq<char>)
    requires
        !text::is_white(c),
        w.len() > 0,
        forall|i: int| 0 <= i < w.len() ==> text::is_white(#[trigger] w[i]),
        s.len() == 0 || !text::is_white(s[0]),
    ensures
        storage::compressed(seq![c] + s) == seq![c] + storage::compressed(s),
        storage::compressed(seq![c] + w + s) == seq![c] + storage::compressed(w + s),
        storage::compressed(w + s) == (if w[0] == '\n' {
            "\n"@
        } else if w.contains('\n') {
            " \n"@
        } else {
            " "@
        }) + storage::compressed(s),
        storage::compressed(Seq::empty()) == Seq::<char>::empty(),
{
    text_laws::law_white_space('\n');
    assert((seq![c] + s).drop_first() =~= s);
    assert((seq![c] + w + s).drop_first() =~= w + s);
    lemma_white_run(w, s, false, false);
    reveal_strlit(" ");
    reveal_strlit("\n");
    reveal_strlit(" \n");
    assert(" "@ + "\n"@ =~= " \n"@);
    assert(Seq::<char>::empty() + "\n"@ =~= "\n"@);
    assert(" "@ + Seq::<char>::empty() =~= " "@);
    if w[0] == '\n' {
        assert(w.contains('\n'));
    }
}

/// The text of a page is that of its body with its white space compressed: every
/// text counts, whole and in order, of whatever length.
pub proof fn law_page_text(events: Seq<XmlToken>)
    requires
        forall|i: int| 0 <= i < events.len() ==> !opens_diagram(#[trigger] events[i]),
    ensures
        storage::storage_content(events).text == storage::compressed(body_text(events)),
{
    lemma_body_ink(events);
}

/// No text of a page is lost, and none is made up: outside of draw.io and Mermaid
/// macros the characters of its text that are no white space are exactly those of
/// its text events, in order, and its images are exactly the attachments that are
/// named, in order.
pub proof fn law_no_text_is_lost(events: Seq<XmlToken>)
    requires
        forall|i: int| 0 <= i < events.len() ==> !opens_diagram(#[trigger] events[i]),
    ensures
        text_laws::ink(storage::storage_content(events).text) == text_laws::ink(
            event_texts(events),
        ),
        storage::storage_content(events).image_refs == attachment_names(events),
        storage::storage_content(events).drawio_refs.len() == 0,
        storage::storage_content(events).mermaid_blocks.len() == 0,
{
    lemma_body_ink(events);
    let raw = storage::storage_run(storage::storage_start(), events).out.text;
    law_compressing_keeps_ink(raw, false, false);
}

// ---------------------------------------------------------------------------
// Macros

/// The characters of texts and CDATA sections, one after another.
pub open spec fn chars_in(events: Seq<XmlToken>) -> Seq<char>
    decreases events.len(),
{
    if events.len() == 0 {
        Seq::empty()
    } else {
        chars_in(events.drop_last()) + (match events.last() {
            XmlToken::Text(Some(s)) => s,
            XmlToken::CData(data) => codec::utf8_text(data),
            _ => Seq::empty(),
        })
    }
}

/// Whether all of `events` are texts or CDATA sections.
pub open spec fn is_char_data(events: Seq<XmlToken>) -> bool {
    forall|i: int|
        0 <= i < events.len() ==> (#[trigger] events[i]) is Text || events[i] is CData
}

proof fn lemma_param_text(st: StorageView, t: Seq<XmlToken>)
    requires
        st.in_param,
        !st.in_plain_body,
        is_char_data(t),
    ensures
        storage::storage_run(st, t) == (StorageView { param_buf: st.param_buf + chars_in(t), ..st }),
    decreases t.len(),
{
    let none = Seq::<char>::empty();
    assert(st.param_buf + none =~= st.param_buf);
    if t.len() > 0 {
        let prev = t.drop_last();
        assert forall|i: int| 0 <= i < prev.len() implies (#[trigger] prev[i]) is Text || prev[i]
            is CData by {
            assert(prev[i] == t[i]);
        }
        lemma_param_text(st, prev);
        assert(t[t.len() - 1] is Text || t[t.len() - 1] is CData);
        let before = chars_in(prev);
        match t.last() {
            XmlToken::Text(Some(s)) => {
                assert(st.param_buf + (before + s) =~= st.param_buf + before + s);
            },
            XmlToken::CData(data) => {
                let s = codec::utf8_text(data);
                assert(st.param_buf + (before + s) =~= st.param_buf + before + s);
            },
            _ => {
                assert(before + none =~= before);
            },
        }
    }
}

proof fn lemma_block_text(st: StorageView, t: Seq<XmlToken>)
    requires
        st.in_plain_body,
        is_char_data(t),
    ensures
        storage::storage_run(st, t) == (StorageView {
            plain_body_buf: st.plain_body_buf + chars_in(t),
            ..st
        }),
    decreases t.len(),
{
    let none = Seq::<char>::empty();
    assert(st.plain_body_buf + none =~= st.plain_body_buf);
    if t.len() > 0 {
        let prev = t.drop_last();
        assert forall|i: int| 0 <= i < prev.len() implies (#[trigger] prev[i]) is Text || prev[i]
            is CData by {
            assert(prev[i] == t[i]);
        }
        lemma_block_text(st, prev);
        assert(t[t.len() - 1] is Text || t[t.len() - 1] is CData);
        let before = chars_in(prev);
        match t.last() {
            XmlToken::Text(Some(s)) => {
                assert(st.plain_body_buf + (before + s) =~= st.plain_body_buf + before + s);
            },
            XmlToken::CData(data) => {
                let s = codec::utf8_text(data);
                assert(st.plain_body_buf + (before + s) =~= st.plain_body_buf + before + s);
            },
            _ => {
                assert(before + none =~= before);
            },
        }
    }
}

proof fn lemma_one_event(st: StorageView, e: XmlToken)
    ensures
        storage::storage_run(st, seq![e]) == storage::storage_step(st, e),
{
    let one = seq![e];
    assert(one.drop_last() =~= Seq::empty());
    assert(storage::storage_run(st, one.drop_last()) == st);
}

/// The name of a draw.io diagram is the whole text of the parameter
/// `diagramName`, trimmed; where that is blank, the macro names none.
pub proof fn law_diagram_name_is_read(
    st: StorageView,
    tag: TagToken,
    param: TagToken,
    t: Seq<XmlToken>,
    param_end: Seq<u8>,
    end: Seq<u8>,
)
    requires
        storage::at_rest(st),
        xml::is_name(tag.name, "ac:structured-macro"@),
        xml::attribute(tag.attrs, "ac:name"@) == Some("drawio"@),
        xml::is_name(param.name, "ac:parameter"@),
        xml::attribute(param.attrs, "ac:name"@) == Some("diagramName"@),
        is_char_data(t),
        xml::is_name(param_end, "ac:parameter"@),
        xml::is_name(end, "ac:structured-macro"@),
    ensures
        ({
            let r = storage::storage_run(
                st,
                seq![XmlToken::Start(tag)] + seq![XmlToken::Start(param)] + t + seq![
                    XmlToken::End(param_end),
                ] + seq![XmlToken::End(end)],
            );
            let value = chars_in(t);
            &&& storage::at_rest(r)
            &&& (exists|k: int| 0 <= k < value.len() && !text::is_white(#[trigger] value[k]))
                ==> r.out.drawio_refs == st.out.drawio_refs + seq![text::trim(value)]
            &&& (forall|k: int| 0 <= k < value.len() ==> text::is_white(#[trigger] value[k]))
                ==> r.out.drawio_refs == st.out.drawio_refs
        }),
{
    storage::lemma_names_differ();
    let e0 = XmlToken::Start(tag);
    let e1 = XmlToken::Start(param);
    let e2 = XmlToken::End(param_end);
    let e3 = XmlToken::End(end);
    let s0 = storage::storage_step(st, e0);
    let s1 = storage::storage_step(s0, e1);
    let s2 = storage::storage_run(s1, t);
    let s3 = storage::storage_step(s2, e2);
    lemma_one_event(st, e0);
    lemma_one_event(s0, e1);
    lemma_one_event(s2, e2);
    lemma_one_event(s3, e3);
    storage::lemma_run_parts(st, seq![e0], seq![e1]);
    storage::lemma_run_parts(st, seq![e0] + seq![e1], t);
    storage::lemma_run_parts(st, seq![e0] + seq![e1] + t, seq![e2]);
    storage::lemma_run_parts(st, seq![e0] + seq![e1] + t + seq![e2], seq![e3]);
    lemma_param_text(s1, t);
    let value = chars_in(t);
    assert(Seq::<char>::empty() + value =~= value);
    text::law_blank_is_white(value);
    assert(st.out.drawio_refs.push(text::trim(value)) =~= st.out.drawio_refs + seq![
        text::trim(value),
    ]);
}

/// A Mermaid block is the whole text of the body of its macro, trimmed; where
/// that is blank, there is none.
pub proof fn law_mermaid_block_is_read(
    st: StorageView,
    tag: TagToken,
    body: TagToken,
    t: Seq<XmlToken>,
    body_end: Seq<u8>,
    end: Seq<u8>,
)
    requires
        storage::at_rest(st),
        xml::is_name(tag.name, "ac:structured-macro"@),
        xml::attribute(tag.attrs, "ac:name"@) == Some("mermaid"@) || xml::attribute(
            tag.attrs,
            "ac:name"@,
        ) == Some("mermaid-cloud"@),
        xml::is_name(body.name, "ac:plain-text-body"@),
        is_char_data(t),
        xml::is_name(body_end, "ac:plain-text-body"@),
        xml::is_name(end, "ac:structured-macro"@),
    ensures
        ({
            let r = storage::storage_run(
                st,
                seq![XmlToken::Start(tag)] + seq![XmlToken::Start(body)] + t + seq![
                    XmlToken::End(body_end),
                ] + seq![XmlToken::End(end)],
            );
            let block = chars_in(t);
            &&& storage::at_rest(r)
            &&& (exists|k: int| 0 <= k < block.len() && !text::is_white(#[trigger] block[k]))
                ==> r.out.mermaid_blocks == st.out.mermaid_blocks + seq![text::trim(block)]
            &&& (forall|k: int| 0 <= k < block.len() ==> text::is_white(#[trigger] block[k]))
                ==> r.out.mermaid_blocks == st.out.mermaid_blocks
        }),
{
    storage::lemma_names_differ();
    reveal_strlit("drawio");
    reveal_strlit("mermaid");
    reveal_strlit("mermaid-cloud");
    assert("drawio"@.len() == 6 && "mermaid"@.len() == 7 && "mermaid-cloud"@.len() == 13);
    let e0 = XmlToken::Start(tag);
    let e1 = XmlToken::Start(body);
    let e2 = XmlToken::End(body_end);
    let e3 = XmlToken::End(end);
    let s0 = storage::storage_step(st, e0);
    let s1 = storage::storage_step(s0, e1);
    let s2 = storage::storage_run(s1, t);
    let s3 = storage::storage_step(s2, e2);
    lemma_one_event(st, e0);
    lemma_one_event(s0, e1);
    lemma_one_event(s2, e2);
    lemma_one_event(s3, e3);
    storage::lemma_run_parts(st, seq![e0], seq![e1]);
    storage::lemma_run_parts(st, seq![e0] + seq![e1], t);
    storage::lemma_run_parts(st, seq![e0] + seq![e1] + t, seq![e2]);
    storage::lemma_run_parts(st, seq![e0] + seq![e1] + t + seq![e2], seq![e3]);
    lemma_block_text(s1, t);
    let block = chars_in(t);
    assert(Seq::<char>::empty() + block =~= block);
    text::law_blank_is_white(block);
    assert(st.out.mermaid_blocks.push(text::trim(block)) =~= st.out.mermaid_blocks + seq![
        text::trim(block),
    ]);
}

/// Every parameter of a macro is read for itself, wherever it stands in the
/// macro: in a draw.io macro the one named `diagramName` gives the name of the
/// diagram, and no other changes anything.
pub proof fn law_parameter_in_macro(
    st: StorageView,
    param: TagToken,
    t: Seq<XmlToken>,
    end: Seq<u8>,
)
    requires
        storage::in_macro(st),
        !st.in_param,
        !st.in_plain_body,
        xml::is_name(param.name, "ac:parameter"@),
        is_char_data(t),
        xml::is_name(end, "ac:parameter"@),
    ensures
        ({
            let r = storage::storage_run(
                st,
                seq![XmlToken::Start(param)] + t + seq![XmlToken::End(end)],
            );
            let value = chars_in(t);
            let named = st.in_drawio && xml::attribute(param.attrs, "ac:name"@) == Some(
                "diagramName"@,
            ) && exists|k: int| 0 <= k < value.len() && !text::is_white(#[trigger] value[k]);
            &&& r.out.drawio_refs == (if named {
                st.out.drawio_refs + seq![text::trim(value)]
            } else {
                st.out.drawio_refs
            })
            &&& r.out.text == st.out.text && r.out.image_refs == st.out.image_refs
                && r.out.mermaid_blocks == st.out.mermaid_blocks
            &&& r.in_drawio == st.in_drawio && r.in_mermaid == st.in_mermaid
            &&& !r.in_param && !r.in_plain_body
        }),
{
    storage::lemma_names_differ();
    let e1 = XmlToken::Start(param);
    let e2 = XmlToken::End(end);
    let s1 = storage::storage_step(st, e1);
    let s2 = storage::storage_run(s1, t);
    lemma_one_event(st, e1);
    lemma_one_event(s2, e2);
    storage::lemma_run_parts(st, seq![e1], t);
    storage::lemma_run_parts(st, seq![e1] + t, seq![e2]);
    lemma_param_text(s1, t);
    let value = chars_in(t);
    assert(Seq::<char>::empty() + value =~= value);
    text::law_blank_is_white(value);
    assert(st.out.drawio_refs.push(text::trim(value)) =~= st.out.drawio_refs + seq![
        text::trim(value),
    ]);
}

/// Every text body of a Mermaid macro is a block of its own.
pub proof fn law_body_in_macro(st: StorageView, body: TagToken, t: Seq<XmlToken>, end: Seq<u8>)
    requires
        st.in_mermaid,
        !st.in_param,
        !st.in_plain_body,
        xml::is_name(body.name, "ac:plain-text-body"@),
        is_char_data(t),
        xml::is_name(end, "ac:plain-text-body"@),
    ensures
        ({
            let r = storage::storage_run(
                st,
                seq![XmlToken::Start(body)] + t + seq![XmlToken::End(end)],
            );
            let block = chars_in(t);
            let some = exists|k: int| 0 <= k < block.len() && !text::is_white(#[trigger] block[k]);
            &&& r.out.mermaid_blocks == (if some {
                st.out.mermaid_blocks + seq![text::trim(block)]
            } else {
                st.out.mermaid_blocks
            })
            &&& r.out.text == st.out.text && r.out.image_refs == st.out.image_refs
                && r.out.drawio_refs == st.out.drawio_refs
            &&& r.in_drawio == st.in_drawio && r.in_mermaid
            &&& !r.in_param && !r.in_plain_body
        }),
{
    storage::lemma_names_differ();
    let e1 = XmlToken::Start(body);
    let e2 = XmlToken::End(end);
    let s1 = storage::storage_step(st, e1);
    let s2 = storage::storage_run(s1, t);
    lemma_one_event(st, e1);
    lemma_one_event(s2, e2);
    storage::lemma_run_parts(st, seq![e1], t);
    storage::lemma_run_parts(st, seq![e1] + t, seq![e2]);
    lemma_block_text(s1, t);
    let block = chars_in(t);
    assert(Seq::<char>::empty() + block =~= block);
    text::law_blank_is_white(block);
    assert(st.out.mermaid_blocks.push(text::trim(block)) =~= st.out.mermaid_blocks + seq![
        text::trim(block),
    ]);
}

/// What begins a macro is known by its name; what ends one ends both kinds; and
/// in a macro, outside of its parameters and bodies, nothing else changes anything.
pub proof fn law_around_parameters(st: StorageView, e: XmlToken)
    ensures
        e matches XmlToken::End(name) ==> (xml::is_name(name, "ac:structured-macro"@)
            ==> storage::storage_step(st, e) == (StorageView {
            in_drawio: false,
            in_mermaid: false,
            ..st
        })),
        e matches XmlToken::Start(tag) ==> (xml::is_name(tag.name, "ac:structured-macro"@) ==> {
            let kind = xml::attribute(tag.attrs, "ac:name"@);
            let r = storage::storage_step(st, e);
            &&& kind == Some("drawio"@) ==> r == (StorageView { in_drawio: true, ..st })
            &&& kind == Some("mermaid"@) || kind == Some("mermaid-cloud"@) ==> r == (StorageView {
                in_mermaid: true,
                ..st
            })
            &&& kind != Some("drawio"@) && kind != Some("mermaid"@) && kind != Some(
                "mermaid-cloud"@,
            ) ==> r == st
        }),
        storage::in_macro(st) && !st.in_param && !st.in_plain_body && (match e {
            XmlToken::Start(tag) => !xml::is_name(tag.name, "ac:structured-macro"@)
                && !xml::is_name(tag.name, "ac:parameter"@) && !xml::is_name(
                tag.name,
                "ac:plain-text-body"@,
            ),
            XmlToken::Empty(tag) => !xml::is_name(tag.name, "ac:parameter"@) && !xml::is_name(
                tag.name,
                "ac:plain-text-body"@,
            ),
            XmlToken::End(name) => !xml::is_name(name, "ac:structured-macro"@) && !xml::is_name(
                name,
                "ac:parameter"@,
            ) && !xml::is_name(name, "ac:plain-text-body"@),
            _ => true,
        }) ==> storage::storage_step(st, e) == st,
{
    storage::lemma_names_differ();
    reveal_strlit("drawio");
    reveal_strlit("mermaid");
    reveal_strlit("mermaid-cloud");
    assert("drawio"@.len() == 6 && "mermaid"@.len() == 7 && "mermaid-cloud"@.len() == 13);
}

// ---------------------------------------------------------------------------
// Documents of Jira

/// The characters of a text that are no line feed, in order.
pub open spec fn without_line_feeds(s: Seq<char>) -> Seq<char> {
    s.filter(|c: char| c != '\n')
}

proof fn lemma_feeds_add_up(a: Seq<char>, b: Seq<char>)
    ensures
        without_line_feeds(a + b) == without_line_feeds(a) + without_line_feeds(b),
{
    Seq::filter_distributes_over_add(a, b, |c: char| c != '\n');
}

proof fn lemma_feeds_of_one(c: char)
    ensures
        c == '\n' ==> without_line_feeds(seq![c]) == Seq::<char>::empty(),
        c != '\n' ==> without_line_feeds(seq![c]) == seq![c],
{
    reveal_with_fuel(Seq::<_>::filter, 2);
    assert(seq![c].drop_last() =~= Seq::empty());
    assert(Seq::<char>::empty().push(c) =~= seq![c]);
}

/// Limiting line feeds loses nothing but line feeds, whatever the text holds.
pub proof fn law_only_line_feeds_are_lost(s: Seq<char>, run: int)
    ensures
        without_line_feeds(adf::limit_from(s, run)) == without_line_feeds(s),
        without_line_feeds(adf::limit_line_feeds(s)) == without_line_feeds(s),
    decreases s.len(), (if run == 0 { 0nat } else { 1nat }),
{
    if s.len() > 0 {
        let rest = s.drop_first();
        assert(seq![s[0]] + rest =~= s);
        lemma_feeds_add_up(seq![s[0]], rest);
        lemma_feeds_of_one(s[0]);
        law_only_line_feeds_are_lost(rest, 0);
        law_only_line_feeds_are_lost(rest, run + 1);
        lemma_feeds_add_up(seq![s[0]], adf::limit_from(rest, 0));
        lemma_feeds_add_up(seq![s[0]], adf::limit_from(rest, run + 1));
        assert(Seq::<char>::empty() + without_line_feeds(rest) =~= without_line_feeds(rest));
    }
    if run != 0 {
        law_only_line_feeds_are_lost(s, 0);
    }
}

proof fn lemma_few_feeds(s: Seq<char>, run: int)
    requires
        0 <= run <= 2,
        !adf::has_three_line_feeds(s),
        run == 1 && s.len() >= 2 ==> s[0] != '\n' || s[1] != '\n',
        run == 2 && s.len() >= 1 ==> s[0] != '\n',
    ensures
        adf::limit_from(s, run) == s,
    decreases s.len(),
{
    if s.len() > 0 {
        let rest = s.drop_first();
        assert(seq![s[0]] + rest =~= s);
        if adf::has_three_line_feeds(rest) {
            let i = choose|i: int|
                0 <= i && i + 2 < rest.len() && #[trigger] rest[i] == '\n' && rest[i + 1] == '\n'
                    && rest[i + 2] == '\n';
            assert(s[i + 1] == '\n' && s[i + 1 + 1] == '\n' && s[i + 1 + 2] == '\n');
        }
        if s[0] == '\n' {
            if run == 0 && rest.len() >= 2 && rest[0] == '\n' && rest[1] == '\n' {
                assert(s[0] == '\n' && s[1] == '\n' && s[2] == '\n');
            }
            lemma_few_feeds(rest, run + 1);
        } else {
            lemma_few_feeds(rest, 0);
        }
    }
}

proof fn lemma_feed_run(w: Seq<char>, s: Seq<char>, run: int)
    requires
        0 <= run,
        forall|i: int| 0 <= i < w.len() ==> #[trigger] w[i] == '\n',
        s.len() == 0 || s[0] != '\n',
    ensures
        adf::limit_from(w + s, run) == (if run >= 2 {
            Seq::empty()
        } else if w.len() + run <= 2 {
            w
        } else {
            w.take(2 - run)
        }) + adf::limit_line_feeds(s),
    decreases w.len(),
{
    let all = w + s;
    let end = adf::limit_line_feeds(s);
    if w.len() == 0 {
        assert(all =~= s);
        assert(adf::limit_from(s, run) == adf::limit_from(s, 0));
        assert(w =~= Seq::empty());
        assert(Seq::<char>::empty() + end =~= end);
    } else {
        let rest = w.drop_first();
        assert(w[0] == '\n');
        assert(all[0] == '\n');
        assert(all.drop_first() =~= rest + s);
        assert forall|i: int| 0 <= i < rest.len() implies #[trigger] rest[i] == '\n' by {
            assert(rest[i] == w[i + 1]);
        }
        lemma_feed_run(rest, s, run + 1);
        assert(seq!['\n'] + rest =~= w);
        if run < 2 {
            let kept = if run + 1 >= 2 {
                Seq::empty()
            } else if rest.len() + run + 1 <= 2 {
                rest
            } else {
                rest.take(2 - (run + 1))
            };
            assert(seq!['\n'] + (kept + end) =~= seq!['\n'] + kept + end);
            if w.len() + run <= 2 {
                assert(seq!['\n'] + kept =~= w);
            } else {
                assert(seq!['\n'] + kept =~= w.take(2 - run));
            }
        }
    }
}

/// Of each run of line feeds the first two are kept, or the one there is; any
/// other character is kept where it stands.
pub proof fn law_runs_of_line_feeds(c: char, w: Seq<char>, s: Seq<char>)
    requires
        c != '\n',
        forall|i: int| 0 <= i < w.len() ==> #[trigger] w[i] == '\n',
        s.len() == 0 || s[0] != '\n',
    ensures
        adf::limit_line_feeds(seq![c] + w + s) == seq![c] + adf::limit_line_feeds(w + s),
        w.len() <= 2 ==> adf::limit_line_feeds(w + s) == w + adf::limit_line_feeds(s),
        w.len() > 2 ==> adf::limit_line_feeds(w + s) == "\n\n"@ + adf::limit_line_feeds(s),
{
    assert((seq![c] + w + s).drop_first() =~= w + s);
    lemma_feed_run(w, s, 0);
    reveal_strlit("\n\n");
    if w.len() > 2 {
        assert(w.take(2) =~= "\n\n"@);
    }
}

/// A text in which no three line feeds follow one another is kept as it is.
pub proof fn law_two_line_feeds_are_kept(s: Seq<char>)
    requires
        !adf::has_three_line_feeds(s),
    ensures
        adf::limit_line_feeds(s) == s,
{
    lemma_few_feeds(s, 0);
}

proof fn lemma_types_differ()
    ensures
        forall|ty: Seq<char>|
            ty == "hardBreak"@ || ty == "rule"@ || ty == "mention"@ || ty == "emoji"@ || ty
                == "media"@ || ty == "inlineCard"@ || ty == "table"@ || ty == "codeBlock"@ || ty
                == "panel"@ || #[trigger] adf::is_block(ty) ==> ty != "text"@,
        forall|ty: Seq<char>|
            ty == "codeBlock"@ || ty == "panel"@ || #[trigger] adf::is_block(ty) ==> ty
                != "hardBreak"@ && ty != "rule"@ && ty != "mention"@ && ty != "emoji"@ && ty
                != "media"@ && ty != "inlineCard"@ && ty != "table"@,
        "hardBreak"@ != "rule"@ && "hardBreak"@ != "mention"@ && "hardBreak"@ != "emoji"@
            && "hardBreak"@ != "media"@ && "hardBreak"@ != "inlineCard"@ && "hardBreak"@ != "table"@,
        "rule"@ != "mention"@ && "rule"@ != "emoji"@ && "rule"@ != "media"@ && "rule"@
            != "inlineCard"@ && "rule"@ != "table"@,
        "mention"@ != "emoji"@ && "mention"@ != "media"@ && "mention"@ != "inlineCard"@
            && "mention"@ != "table"@,
        "emoji"@ != "media"@ && "emoji"@ != "inlineCard"@ && "emoji"@ != "table"@,
        "media"@ != "inlineCard"@ && "media"@ != "table"@,
        "inlineCard"@ != "table"@,
        "text"@ != "hardBreak"@ && "text"@ != "rule"@ && "text"@ != "mention"@ && "text"@
            != "emoji"@ && "text"@ != "media"@ && "text"@ != "inlineCard"@ && "text"@ != "table"@,
        "codeBlock"@ != "panel"@,
        "doc"@ != "text"@ && "doc"@ != "hardBreak"@ && "doc"@ != "rule"@ && "doc"@ != "mention"@,
        "doc"@ != "emoji"@ && "doc"@ != "media"@ && "doc"@ != "inlineCard"@ && "doc"@ != "table"@,
        "doc"@ != "codeBlock"@ && "doc"@ != "panel"@ && !adf::is_block("doc"@),
        !adf::is_block("codeBlock"@),
        !adf::is_block("panel"@),
{
    reveal_strlit("doc");
    reveal_strlit("text");
    reveal_strlit("hardBreak");
    reveal_strlit("rule");
    reveal_strlit("mention");
    reveal_strlit("emoji");
    reveal_strlit("media");
    reveal_strlit("inlineCard");
    reveal_strlit("table");
    reveal_strlit("codeBlock");
    reveal_strlit("panel");
    reveal_strlit("paragraph");
    reveal_strlit("heading");
    reveal_strlit("blockquote");
    reveal_strlit("listItem");
    reveal_strlit("taskItem");
    reveal_strlit("bulletList");
    reveal_strlit("orderedList");
    reveal_strlit("taskList");
    assert("doc"@.len() == 3);
    assert("text"@.len() == 4 && "hardBreak"@.len() == 9 && "rule"@.len() == 4);
    assert("mention"@.len() == 7 && "emoji"@.len() == 5 && "media"@.len() == 5);
    assert("inlineCard"@.len() == 10 && "table"@.len() == 5 && "codeBlock"@.len() == 9);
    assert("panel"@.len() == 5 && "paragraph"@.len() == 9 && "heading"@.len() == 7);
    assert("blockquote"@.len() == 10 && "listItem"@.len() == 8 && "taskItem"@.len() == 8);
    assert("bulletList"@.len() == 10 && "orderedList"@.len() == 11 && "taskList"@.len() == 8);
    assert("text"@[0] == 't' && "rule"@[0] == 'r');
    assert("hardBreak"@[0] == 'h' && "codeBlock"@[0] == 'c' && "paragraph"@[0] == 'p');
    assert("mention"@[0] == 'm' && "heading"@[0] == 'h');
    assert("emoji"@[0] == 'e' && "media"@[0] == 'm' && "table"@[0] == 't' && "panel"@[0] == 'p');
    assert("inlineCard"@[0] == 'i' && "blockquote"@[0] == 'b' && "bulletList"@[0] == 'b');
}

/// An attribute of a node is a text among its `attrs`; its type is a text too,
/// and empty where there is none.
pub proof fn law_attributes_of_nodes(node: Json, attrs: Json, key: Seq<char>, ty: Seq<char>)
    ensures
        json::json_get(node, "attrs"@) == Some(attrs) ==> adf::attr(node, key) == json::json_str(
            json::json_get(attrs, key),
        ),
        json::json_get(node, "attrs"@) is None ==> adf::attr(node, key) is None,
        json::json_str(json::json_get(node, "type"@)) == Some(ty) ==> adf::node_type(node) == ty,
        json::json_str(json::json_get(node, "type"@)) is None ==> adf::node_type(node).len() == 0,
        json::json_items(json::json_get(node, "content"@)) is None ==> adf::children(node).len()
            == 0,
        json::json_items(json::json_get(node, "content"@)) matches Some(items) ==> adf::children(
            node,
        ) == items,
{
}

/// The text of a node of type `text` is its whole text.
pub proof fn law_text_node(node: Json)
    requires
        adf::node_type(node) == "text"@,
    ensures
        adf::node_text(node) == (match json::json_str(json::json_get(node, "text"@)) {
            Some(s) => s,
            None => Seq::empty(),
        }),
{
}

/// Leaves: a break, a rule, a mention by its text or identifier, an emoji by its
/// short name or text, an image by its name or identifier, a card by its address.
pub proof fn law_leaf_nodes(node: Json)
    ensures
        adf::node_type(node) == "hardBreak"@ ==> adf::node_text(node) == "\n"@,
        adf::node_type(node) == "rule"@ ==> adf::node_text(node) == "\n---\n"@,
        adf::node_type(node) == "mention"@ ==> adf::node_text(node) == (match adf::attr(
            node,
            "text"@,
        ) {
            Some(s) => s,
            None => match adf::attr(node, "id"@) {
                Some(id) => "@"@ + id,
                None => Seq::empty(),
            },
        }),
        adf::node_type(node) == "emoji"@ ==> adf::node_text(node) == (match adf::attr(
            node,
            "shortName"@,
        ) {
            Some(s) => s,
            None => match adf::attr(node, "text"@) {
                Some(s) => s,
                None => Seq::empty(),
            },
        }),
        adf::node_type(node) == "media"@ ==> adf::node_text(node) == (match adf::attr(
            node,
            "alt"@,
        ) {
            Some(s) => "[画像: "@ + s + "]\n"@,
            None => match adf::attr(node, "id"@) {
                Some(id) => "[画像:id="@ + id + "]\n"@,
                None => Seq::empty(),
            },
        }),
        adf::node_type(node) == "inlineCard"@ ==> adf::node_text(node) == (match adf::attr(
            node,
            "url"@,
        ) {
            Some(s) => s,
            None => Seq::empty(),
        }),
{
    lemma_types_differ();
}

/// The texts of nodes that follow one another follow one another: none is left
/// out.
pub proof fn law_nodes_add_up(a: Seq<Json>, b: Seq<Json>, n: Json)
    ensures
        adf::nodes_text(a + b) == adf::nodes_text(a) + adf::nodes_text(b),
        adf::nodes_text(seq![n]) == adf::node_text(n),
        adf::nodes_text(Seq::empty()) == Seq::<char>::empty(),
    decreases a.len(),
{
    let one = seq![n];
    let none = Seq::<char>::empty();
    assert(one.drop_first() =~= Seq::empty());
    assert(adf::nodes_text(one.drop_first()) == none);
    assert(adf::node_text(n) + none =~= adf::node_text(n));
    if a.len() == 0 {
        assert(a + b =~= b);
        assert(none + adf::nodes_text(b) =~= adf::nodes_text(b));
    } else {
        law_nodes_add_up(a.drop_first(), b, n);
        assert((a + b).drop_first() =~= a.drop_first() + b);
        assert((a + b)[0] == a[0]);
        assert(adf::node_text(a[0]) + (adf::nodes_text(a.drop_first()) + adf::nodes_text(b))
            =~= adf::node_text(a[0]) + adf::nodes_text(a.drop_first()) + adf::nodes_text(b));
    }
}

/// The text of a node with children holds the whole text of its children: a code
/// block in a fence, a panel behind its type, a paragraph, heading, quote or list
/// with a line feed behind it, and any node that is not known as it is.
pub proof fn law_inner_nodes(node: Json, items: Seq<Json>)
    requires
        json::json_items(json::json_get(node, "content"@)) == Some(items),
    ensures
        adf::node_type(node) == "codeBlock"@ ==> adf::node_text(node) == "```"@ + (match adf::attr(
            node,
            "language"@,
        ) {
            Some(s) => s,
            None => Seq::empty(),
        }) + "\n"@ + adf::nodes_text(items) + "\n```\n"@,
        adf::node_type(node) == "panel"@ ==> adf::node_text(node) == "["@ + (match adf::attr(
            node,
            "panelType"@,
        ) {
            Some(s) => s,
            None => "info"@,
        }) + "]\n"@ + adf::nodes_text(items) + "\n"@,
        adf::node_type(node) == "paragraph"@ || adf::node_type(node) == "heading"@
            || adf::node_type(node) == "blockquote"@ || adf::node_type(node) == "listItem"@
            || adf::node_type(node) == "taskItem"@ || adf::node_type(node) == "bulletList"@
            || adf::node_type(node) == "orderedList"@ || adf::node_type(node) == "taskList"@
            ==> adf::node_text(node) == adf::nodes_text(items) + "\n"@,
        adf::node_type(node) == "doc"@ ==> adf::node_text(node) == adf::nodes_text(items),
        adf::node_type(node) == "table"@ ==> adf::node_text(node) == adf::rows_text(items) + "\n"@,
{
    lemma_types_differ();
    let ty = adf::node_type(node);
    if adf::is_block(ty) {
        assert(ty != "codeBlock"@ && ty != "panel"@);
        assert(ty != "text"@ && ty != "table"@);
        assert(adf::node_text(node) == adf::around_children(node, adf::nodes_text(items)));
    }
}

/// A node of a type that is not known has the text of its children.
pub proof fn law_unknown_nodes(node: Json, items: Seq<Json>, ty: Seq<char>)
    requires
        json::json_items(json::json_get(node, "content"@)) == Some(items),
        adf::node_type(node) == ty,
        ty != "text"@ && ty != "hardBreak"@ && ty != "rule"@ && ty != "mention"@ && ty != "emoji"@,
        ty != "media"@ && ty != "inlineCard"@ && ty != "table"@ && ty != "codeBlock"@,
        ty != "panel"@ && ty != "paragraph"@ && ty != "heading"@ && ty != "blockquote"@,
        ty != "listItem"@ && ty != "taskItem"@ && ty != "bulletList"@ && ty != "orderedList"@,
        ty != "taskList"@,
    ensures
        adf::node_text(node) == adf::nodes_text(items),
{
}

/// The rows of a table follow one another.
pub proof fn law_rows_add_up(a: Seq<Json>, b: Seq<Json>, row: Json)
    ensures
        adf::rows_text(a + b) == adf::rows_text(a) + adf::rows_text(b),
        adf::rows_text(seq![row]) == adf::row_text(row),
    decreases a.len(),
{
    let one = seq![row];
    let none = Seq::<char>::empty();
    assert(one.drop_first() =~= Seq::empty());
    assert(adf::rows_text(one.drop_first()) == none);
    assert(adf::row_text(row) + none =~= adf::row_text(row));
    if a.len() == 0 {
        assert(a + b =~= b);
        assert(none + adf::rows_text(b) =~= adf::rows_text(b));
    } else {
        law_rows_add_up(a.drop_first(), b, row);
        assert((a + b).drop_first() =~= a.drop_first() + b);
        assert((a + b)[0] == a[0]);
        assert(adf::row_text(a[0]) + (adf::rows_text(a.drop_first()) + adf::rows_text(b))
            =~= adf::row_text(a[0]) + adf::rows_text(a.drop_first()) + adf::rows_text(b));
    }
}

proof fn lemma_cells(cells: Seq<Json>)
    ensures
        adf::cell_texts(cells).len() == cells.len(),
        forall|k: int|
            0 <= k < cells.len() ==> #[trigger] adf::cell_texts(cells)[k] == adf::cell_text(
                cells[k],
            ),
    decreases cells.len(),
{
    if cells.len() > 0 {
        let rest = cells.drop_first();
        lemma_cells(rest);
        assert forall|k: int| 0 <= k < cells.len() implies #[trigger] adf::cell_texts(cells)[k]
            == adf::cell_text(cells[k]) by {
            if k > 0 {
                assert(adf::cell_texts(cells)[k] == adf::cell_texts(rest)[k - 1]);
                assert(rest[k - 1] == cells[k]);
            }
        }
    }
}

/// A row is a line with the texts of all its cells, in order, a bar between
/// them, each on one line with the whole text of what stands in the cell.
pub proof fn law_row_holds_all_cells(row: Json, cells: Seq<Json>)
    requires
        json::json_items(json::json_get(row, "content"@)) == Some(cells),
    ensures
        adf::row_text(row) == text::join(
            cells.map_values(
                |c: Json|
                    text::one_line(
                        text::trim(
                            adf::nodes_text(
                                match json::json_items(json::json_get(c, "content"@)) {
                                    Some(items) => items,
                                    None => Seq::empty(),
                                },
                            ),
                        ),
                    ),
            ),
            " | "@,
        ) + "\n"@,
{
    lemma_cells(cells);
    let texts = cells.map_values(
        |c: Json|
            text::one_line(
                text::trim(
                    adf::nodes_text(
                        match json::json_items(json::json_get(c, "content"@)) {
                            Some(items) => items,
                            None => Seq::empty(),
                        },
                    ),
                ),
            ),
    );
    assert(adf::cell_texts(cells) =~= texts) by {
        assert forall|k: int| 0 <= k < cells.len() implies adf::cell_texts(cells)[k] == texts[k] by {
            assert(adf::cell_texts(cells)[k] == adf::cell_text(cells[k]));
        }
    }
}

} // verus!
