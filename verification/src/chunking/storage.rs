//! Pages in the storage format of Confluence.
use crate::codec;
use crate::text;
use crate::text::{chars_of, is_whitespace, same, trimmed};
use crate::xml;
use crate::xml::{attr_get, named, read_events, TagToken, XmlEvent, XmlTag, XmlToken};
use vstd::prelude::*;

verus! {

/// What is read from a page: its text, and the macros and images in it.
#[derive(Debug, Clone)]
pub struct ConfluencePageContent {
    pub text: String,
    /// The diagram names of the draw.io macros.
    pub drawio_refs: Vec<String>,
    /// The sources of the Mermaid blocks.
    pub mermaid_blocks: Vec<String>,
    /// The file names of the attachments that the body shows.
    pub image_refs: Vec<String>,
}

/// The model of what is read from a page.
pub struct PageContentView {
    pub text: Seq<char>,
    pub drawio_refs: Seq<Seq<char>>,
    pub mermaid_blocks: Seq<Seq<char>>,
    pub image_refs: Seq<Seq<char>>,
}

impl DeepView for ConfluencePageContent {
    type V = PageContentView;

    open spec fn deep_view(&self) -> PageContentView {
        PageContentView {
            text: self.text@,
            drawio_refs: self.drawio_refs.deep_view(),
            mermaid_blocks: self.mermaid_blocks.deep_view(),
            image_refs: self.image_refs.deep_view(),
        }
    }
}

/// Nothing read.
pub open spec fn no_content() -> PageContentView {
    PageContentView {
        text: Seq::empty(),
        drawio_refs: Seq::empty(),
        mermaid_blocks: Seq::empty(),
        image_refs: Seq::empty(),
    }
}

impl Default for ConfluencePageContent {
    fn default() -> (r: Self)
        ensures
            r.deep_view() == no_content(),
    {
        let r = ConfluencePageContent {
            text: String::new(),
            drawio_refs: Vec::new(),
            mermaid_blocks: Vec::new(),
            image_refs: Vec::new(),
        };
        assert(r.drawio_refs.deep_view() =~= Seq::empty());
        assert(r.mermaid_blocks.deep_view() =~= Seq::empty());
        assert(r.image_refs.deep_view() =~= Seq::empty());
        r
    }
}

// ---------------------------------------------------------------------------
// Reading a page, event by event

/// Where the reading of a page stands.
pub struct StorageState {
    pub out: ConfluencePageContent,
    pub in_drawio: bool,
    pub in_mermaid: bool,
    pub in_param: bool,
    pub param_name: Option<String>,
    pub param_buf: String,
    pub in_plain_body: bool,
    pub plain_body_buf: String,
}

/// The model of where the reading of a page stands.
pub struct StorageView {
    pub out: PageContentView,
    pub in_drawio: bool,
    pub in_mermaid: bool,
    pub in_param: bool,
    pub param_name: Option<Seq<char>>,
    pub param_buf: Seq<char>,
    pub in_plain_body: bool,
    pub plain_body_buf: Seq<char>,
}

impl DeepView for StorageState {
    type V = StorageView;

    open spec fn deep_view(&self) -> StorageView {
        StorageView {
            out: self.out.deep_view(),
            in_drawio: self.in_drawio,
            in_mermaid: self.in_mermaid,
            in_param: self.in_param,
            param_name: self.param_name.deep_view(),
            param_buf: self.param_buf@,
            in_plain_body: self.in_plain_body,
            plain_body_buf: self.plain_body_buf@,
        }
    }
}

/// Before the first event.
pub open spec fn storage_start() -> StorageView {
    StorageView {
        out: no_content(),
        in_drawio: false,
        in_mermaid: false,
        in_param: false,
        param_name: None,
        param_buf: Seq::empty(),
        in_plain_body: false,
        plain_body_buf: Seq::empty(),
    }
}

/// Whether a draw.io or Mermaid macro is being read.
pub open spec fn in_macro(st: StorageView) -> bool {
    st.in_drawio || st.in_mermaid
}

/// The tags that begin a new line.
pub open spec fn breaks_line(name: Seq<u8>) -> bool {
    ||| xml::is_name(name, "br"@)
    ||| xml::is_name(name, "p"@)
    ||| xml::is_name(name, "div"@)
    ||| xml::is_name(name, "li"@)
    ||| xml::is_name(name, "tr"@)
    ||| xml::is_name(name, "h1"@)
    ||| xml::is_name(name, "h2"@)
    ||| xml::is_name(name, "h3"@)
    ||| xml::is_name(name, "h4"@)
}

/// After an opening tag.
pub open spec fn after_open(st: StorageView, tag: TagToken) -> StorageView {
    if xml::is_name(tag.name, "ac:structured-macro"@) {
        let kind = text::text_or_empty(xml::attribute(tag.attrs, "ac:name"@));
        if kind == "drawio"@ {
            StorageView { in_drawio: true, ..st }
        } else if kind == "mermaid-cloud"@ || kind == "mermaid"@ {
            StorageView { in_mermaid: true, ..st }
        } else {
            st
        }
    } else if xml::is_name(tag.name, "ac:parameter"@) {
        if in_macro(st) {
            StorageView {
                in_param: true,
                param_name: xml::attribute(tag.attrs, "ac:name"@),
                param_buf: Seq::empty(),
                ..st
            }
        } else {
            st
        }
    } else if xml::is_name(tag.name, "ac:plain-text-body"@) {
        if st.in_mermaid {
            StorageView { in_plain_body: true, plain_body_buf: Seq::empty(), ..st }
        } else {
            st
        }
    } else if xml::is_name(tag.name, "ri:attachment"@) {
        match xml::attribute(tag.attrs, "ri:filename"@) {
            Some(name) if !in_macro(st) => StorageView {
                out: PageContentView { image_refs: st.out.image_refs.push(name), ..st.out },
                ..st
            },
            _ => st,
        }
    } else if breaks_line(tag.name) && !in_macro(st) {
        StorageView { out: PageContentView { text: st.out.text.push('\n'), ..st.out }, ..st }
    } else {
        st
    }
}

/// After a closing tag.
pub open spec fn after_close(st: StorageView, name: Seq<u8>) -> StorageView {
    if xml::is_name(name, "ac:structured-macro"@) {
        StorageView { in_drawio: false, in_mermaid: false, ..st }
    } else if xml::is_name(name, "ac:parameter"@) {
        let value = text::trim(st.param_buf);
        let named = st.in_drawio && st.param_name == Some("diagramName"@) && value.len() > 0;
        StorageView {
            out: if named {
                PageContentView { drawio_refs: st.out.drawio_refs.push(value), ..st.out }
            } else {
                st.out
            },
            in_param: false,
            param_name: None,
            ..st
        }
    } else if xml::is_name(name, "ac:plain-text-body"@) {
        let block = text::trim(st.plain_body_buf);
        StorageView {
            out: if st.in_mermaid && block.len() > 0 {
                PageContentView { mermaid_blocks: st.out.mermaid_blocks.push(block), ..st.out }
            } else {
                st.out
            },
            in_plain_body: false,
            ..st
        }
    } else {
        st
    }
}

/// After character data: it belongs to the block or the parameter that is
/// being read, or else, outside of macros, to the page's text.
pub open spec fn after_text(st: StorageView, s: Seq<char>) -> StorageView {
    if st.in_plain_body {
        StorageView { plain_body_buf: st.plain_body_buf + s, ..st }
    } else if st.in_param {
        StorageView { param_buf: st.param_buf + s, ..st }
    } else if !in_macro(st) && text::trim(s).len() > 0 {
        StorageView {
            out: PageContentView { text: (st.out.text + text::trim(s)).push(' '), ..st.out },
            ..st
        }
    } else {
        st
    }
}

/// After a CDATA section: it belongs to the block or the parameter that is
/// being read.
pub open spec fn after_cdata(st: StorageView, data: Seq<u8>) -> StorageView {
    if st.in_plain_body {
        StorageView { plain_body_buf: st.plain_body_buf + codec::utf8_text(data), ..st }
    } else if st.in_param {
        StorageView { param_buf: st.param_buf + codec::utf8_text(data), ..st }
    } else {
        st
    }
}

/// After a self-closing tag, which is opened and closed at once. A macro that
/// holds nothing changes nothing, wherever it stands.
pub open spec fn after_empty(st: StorageView, tag: TagToken) -> StorageView {
    if xml::is_name(tag.name, "ac:structured-macro"@) {
        st
    } else {
        after_close(after_open(st, tag), tag.name)
    }
}

/// After one event.
pub open spec fn storage_step(st: StorageView, e: XmlToken) -> StorageView {
    match e {
        XmlToken::Start(tag) => after_open(st, tag),
        XmlToken::Empty(tag) => after_empty(st, tag),
        XmlToken::End(name) => after_close(st, name),
        XmlToken::Text(Some(s)) => after_text(st, s),
        XmlToken::CData(data) => after_cdata(st, data),
        _ => st,
    }
}

/// After all of `events`.
pub open spec fn storage_run(st: StorageView, events: Seq<XmlToken>) -> StorageView
    decreases events.len(),
{
    if events.len() == 0 {
        st
    } else {
        storage_step(storage_run(st, events.drop_last()), events.last())
    }
}

/// What is read from a page with these events.
pub open spec fn storage_content(events: Seq<XmlToken>) -> PageContentView {
    let out = storage_run(storage_start(), events).out;
    PageContentView { text: compressed(out.text), ..out }
}

impl StorageState {
    /// Before the first event.
    pub fn new() -> (r: Self)
        ensures
            r.deep_view() == storage_start(),
    {
        StorageState {
            out: ConfluencePageContent::default(),
            in_drawio: false,
            in_mermaid: false,
            in_param: false,
            param_name: None,
            param_buf: String::new(),
            in_plain_body: false,
            plain_body_buf: String::new(),
        }
    }

    fn open(&mut self, tag: &XmlTag)
        ensures
            final(self).deep_view() == after_open(old(self).deep_view(), tag.deep_view()),
    {
        let name = &tag.name;
        let outside = !self.in_drawio && !self.in_mermaid;
        if named(name, "ac:structured-macro") {
            let kind = text::or_empty(&attr_get(tag, "ac:name"));
            if same(kind.as_str(), "drawio") {
                self.in_drawio = true;
            } else if same(kind.as_str(), "mermaid-cloud") || same(kind.as_str(), "mermaid") {
                self.in_mermaid = true;
            }
        } else if named(name, "ac:parameter") {
            if !outside {
                self.in_param = true;
                self.param_name = attr_get(tag, "ac:name");
                self.param_buf = String::new();
            }
        } else if named(name, "ac:plain-text-body") {
            if self.in_mermaid {
                self.in_plain_body = true;
                self.plain_body_buf = String::new();
            }
        } else if named(name, "ri:attachment") {
            if outside {
                if let Some(filename) = attr_get(tag, "ri:filename") {
                    let ghost before = self.out.image_refs.deep_view();
                    self.out.image_refs.push(filename);
                    assert(self.out.image_refs.deep_view() =~= before.push(filename@));
                }
            }
        } else if named(name, "br") || named(name, "p") || named(name, "div") || named(name, "li")
            || named(name, "tr") || named(name, "h1") || named(name, "h2") || named(name, "h3")
            || named(name, "h4") {
            if outside {
                self.out.text.push('\n');
            }
        }
    }

    fn close(&mut self, name: &Vec<u8>)
        ensures
            final(self).deep_view() == after_close(old(self).deep_view(), name@),
    {
        if named(name, "ac:structured-macro") {
            self.in_drawio = false;
            self.in_mermaid = false;
        } else if named(name, "ac:parameter") {
            let diagram = match &self.param_name {
                Some(n) => same(n.as_str(), "diagramName"),
                None => false,
            };
            if self.in_drawio && diagram {
                let value = trimmed(self.param_buf.as_str());
                if !value.as_str().is_empty() {
                    let ghost before = self.out.drawio_refs.deep_view();
                    self.out.drawio_refs.push(value);
                    assert(self.out.drawio_refs.deep_view() =~= before.push(value@));
                }
            }
            self.in_param = false;
            self.param_name = None;
        } else if named(name, "ac:plain-text-body") {
            if self.in_mermaid {
                let block = trimmed(self.plain_body_buf.as_str());
                if !block.as_str().is_empty() {
                    let ghost before = self.out.mermaid_blocks.deep_view();
                    self.out.mermaid_blocks.push(block);
                    assert(self.out.mermaid_blocks.deep_view() =~= before.push(block@));
                }
            }
            self.in_plain_body = false;
        }
    }

    fn characters(&mut self, s: &str)
        ensures
            final(self).deep_view() == after_text(old(self).deep_view(), s@),
    {
        if self.in_plain_body {
            self.plain_body_buf.append(s);
        } else if self.in_param {
            self.param_buf.append(s);
        } else if !self.in_drawio && !self.in_mermaid {
            let t = trimmed(s);
            if !t.as_str().is_empty() {
                self.out.text.append(t.as_str());
                self.out.text.push(' ');
            }
        }
    }

    fn cdata(&mut self, data: &Vec<u8>)
        ensures
            final(self).deep_view() == after_cdata(old(self).deep_view(), data@),
    {
        if self.in_plain_body {
            let s = codec::text_of_utf8(data.as_slice());
            self.plain_body_buf.append(s.as_str());
        } else if self.in_param {
            let s = codec::text_of_utf8(data.as_slice());
            self.param_buf.append(s.as_str());
        }
    }

    /// Reads one event.
    pub fn step(&mut self, e: &XmlEvent)
        ensures
            final(self).deep_view() == storage_step(old(self).deep_view(), e.deep_view()),
    {
        match e {
            XmlEvent::Start(tag) => self.open(tag),
            XmlEvent::Empty(tag) => {
                if !named(&tag.name, "ac:structured-macro") {
                    self.open(tag);
                    self.close(&tag.name);
                }
            },
            XmlEvent::End(name) => self.close(name),
            XmlEvent::Text(Some(s)) => self.characters(s.as_str()),
            XmlEvent::CData(data) => self.cdata(data),
            _ => {},
        }
    }
}

/// What is read from a page with these events.
pub fn content_of(events: &Vec<XmlEvent>) -> (r: ConfluencePageContent)
    ensures
        r.deep_view() == storage_content(events.deep_view()),
{
    let mut st = StorageState::new();
    let ghost all = events.deep_view();
    for i in 0..events.len()
        invariant
            all == events.deep_view(),
            st.deep_view() == storage_run(storage_start(), all.take(i as int)),
    {
        assert(all.take(i + 1).drop_last() =~= all.take(i as int));
        assert(all.take(i + 1).last() == events@[i as int].deep_view());
        st.step(&events[i]);
    }
    assert(all.take(events@.len() as int) =~= all);
    let mut out = st.out;
    out.text = compress_whitespace(out.text.as_str());
    out
}

/// The events of a page whose body is `html`.
pub open spec fn page_events(html: Seq<char>) -> Seq<XmlToken> {
    xml::until_last(
        xml::xml_events(
            vstd::utf8::encode_utf8("<root>"@ + html + "</root>"@),
            false,
            false,
            true,
        ),
    )
}

/// What is read from a page whose body is `html`.
pub open spec fn page_content(html: Seq<char>) -> PageContentView {
    storage_content(page_events(html))
}

/// Reads a page in the storage format: its text, and the macros and images in
/// it. Where the markup is broken, what was read up to there counts.
pub fn parse_confluence_storage(html: &str) -> (r: ConfluencePageContent)
    ensures
        r.deep_view() == page_content(html@),
{
    let mut wrapped = "<root>".to_owned();
    wrapped.append(html);
    wrapped.append("</root>");
    let events = read_events(wrapped.as_str().as_bytes(), false, false, true);
    content_of(&events)
}

// ---------------------------------------------------------------------------
// White space

/// `s` with each run of line feeds, and the white space among them, made one
/// line feed, and each other run of white space made one space.
/// `line` says that a line has just begun, `space` that white space was just
/// read.
pub open spec fn compressed_from(s: Seq<char>, line: bool, space: bool) -> Seq<char>
    decreases s.len(),
{
    if s.len() == 0 {
        s
    } else if s[0] == '\n' {
        let rest = compressed_from(s.drop_first(), true, false);
        if line {
            rest
        } else {
            seq!['\n'] + rest
        }
    } else if text::is_white(s[0]) {
        let rest = compressed_from(s.drop_first(), line, true);
        if space || line {
            rest
        } else {
            seq![' '] + rest
        }
    } else {
        seq![s[0]] + compressed_from(s.drop_first(), false, false)
    }
}

/// `s` with its white space compressed.
pub open spec fn compressed(s: Seq<char>) -> Seq<char> {
    compressed_from(s, false, false)
}

/// `s` with each run of line feeds made one line feed and each other run of
/// white space made one space; white space at the start of a line is left out.
pub fn compress_whitespace(s: &str) -> (r: String)
    ensures
        r@ == compressed(s@),
{
    let v = chars_of(s);
    let mut out = String::new();
    let mut line = false;
    let mut space = false;
    let mut i: usize = 0;
    assert(v@.skip(0) =~= v@);
    assert(out@ + compressed_from(v@, false, false) =~= compressed(s@));
    while i < v.len()
        invariant
            i <= v@.len(),
            v@ == s@,
            out@ + compressed_from(v@.skip(i as int), line, space) == compressed(s@),
        decreases v@.len() - i,
    {
        let ghost before = out@;
        let ghost old_rest = compressed_from(v@.skip(i as int), line, space);
        let c = v[i];
        assert(v@.skip(i as int).drop_first() =~= v@.skip(i + 1));
        if c == '\n' {
            if !line {
                out.push('\n');
            }
            line = true;
            space = false;
        } else if is_whitespace(c) {
            if !space && !line {
                out.push(' ');
            }
            space = true;
        } else {
            out.push(c);
            line = false;
            space = false;
        }
        i += 1;
        assert(out@ + compressed_from(v@.skip(i as int), line, space) =~= before + old_rest);
    }
    assert(out@ + compressed_from(v@.skip(i as int), line, space) =~= out@);
    out
}

// ---------------------------------------------------------------------------
// Laws

/// Whether an event ends a macro.
pub open spec fn ends_macro(e: XmlToken) -> bool {
    closes(e, "ac:structured-macro"@)
}

/// A self-closing macro changes nothing, so that what it stands in goes on.
pub proof fn law_empty_macro_changes_nothing(st: StorageView, tag: TagToken)
    requires
        xml::is_name(tag.name, "ac:structured-macro"@),
    ensures
        storage_step(st, XmlToken::Empty(tag)) == st,
{
}

/// Inside a draw.io or Mermaid macro no event but the macro's end touches the
/// page's text or its images: what a macro holds does not leak into the body.
pub proof fn law_macro_does_not_leak(st: StorageView, e: XmlToken)
    requires
        in_macro(st),
    ensures
        storage_step(st, e).out.text == st.out.text,
        storage_step(st, e).out.image_refs == st.out.image_refs,
        in_macro(storage_step(st, e)) || ends_macro(e),
{
    lemma_names_differ();
}

/// The names of the tags that are read differ.
pub proof fn lemma_names_differ()
    ensures
        "ac:structured-macro"@ != "ac:parameter"@,
        "ac:structured-macro"@ != "ac:plain-text-body"@,
        "ac:parameter"@ != "ac:plain-text-body"@,
        forall|a: Seq<char>, b: Seq<char>, name: Seq<u8>|
            a != b && #[trigger] xml::is_name(name, a) ==> !#[trigger] xml::is_name(name, b),
{
    reveal_strlit("ac:structured-macro");
    reveal_strlit("ac:parameter");
    reveal_strlit("ac:plain-text-body");
    assert("ac:structured-macro"@.len() == 19);
    assert("ac:parameter"@.len() == 12);
    assert("ac:plain-text-body"@.len() == 18);
    assert forall|a: Seq<char>, b: Seq<char>, name: Seq<u8>|
        a != b && #[trigger] xml::is_name(name, a) implies !#[trigger] xml::is_name(name, b) by {
        vstd::utf8::encode_utf8_decode_utf8(a);
        vstd::utf8::encode_utf8_decode_utf8(b);
    }
}

/// Nothing between the beginning and the end of a draw.io or Mermaid macro gets
/// into the text of a page or among its images, up to and with its end.
pub proof fn law_macro_stays_apart(st: StorageView, events: Seq<XmlToken>)
    requires
        in_macro(st),
        forall|i: int| 0 <= i < events.len() - 1 ==> !ends_macro(#[trigger] events[i]),
    ensures
        storage_run(st, events).out.text == st.out.text,
        storage_run(st, events).out.image_refs == st.out.image_refs,
        events.len() == 0 || !ends_macro(events.last()) ==> in_macro(storage_run(st, events)),
    decreases events.len(),
{
    if events.len() > 0 {
        let prev = events.drop_last();
        assert forall|i: int| 0 <= i < prev.len() implies !ends_macro(#[trigger] prev[i]) by {
            assert(prev[i] == events[i]);
        }
        law_macro_stays_apart(st, prev);
        law_macro_does_not_leak(storage_run(st, prev), events.last());
    }
}

/// Whether an event opens an element with this name.
pub open spec fn opens(e: XmlToken, name: Seq<char>) -> bool {
    e matches XmlToken::Start(tag) && xml::is_name(tag.name, name)
}

/// Whether an event closes an element with this name.
pub open spec fn closes(e: XmlToken, name: Seq<char>) -> bool {
    e matches XmlToken::End(n) && xml::is_name(n, name)
}

/// Whether an element with this name is closed behind position `i`.
pub open spec fn closed_behind(events: Seq<XmlToken>, name: Seq<char>, i: int) -> bool {
    exists|j: int| i < j < events.len() && closes(#[trigger] events[j], name)
}

/// Whether every element with this name that is opened is closed behind it.
pub open spec fn closes_all(events: Seq<XmlToken>, name: Seq<char>) -> bool {
    forall|i: int|
        0 <= i < events.len() && opens(#[trigger] events[i], name) ==> closed_behind(
            events,
            name,
            i,
        )
}

/// Whether every macro, parameter and text body that is opened is closed, as in
/// well-formed markup.
pub open spec fn closes_macros(events: Seq<XmlToken>) -> bool {
    &&& closes_all(events, "ac:structured-macro"@)
    &&& closes_all(events, "ac:parameter"@)
    &&& closes_all(events, "ac:plain-text-body"@)
}

/// Whether nothing that was opened is still being read.
pub open spec fn at_rest(st: StorageView) -> bool {
    &&& !in_macro(st)
    &&& !st.in_param
    &&& st.param_name is None
    &&& !st.in_plain_body
}

/// Whether some element with this name is open after `events`.
spec fn left_open(events: Seq<XmlToken>, name: Seq<char>) -> bool {
    exists|i: int|
        0 <= i < events.len() && opens(#[trigger] events[i], name) && !closed_behind(
            events,
            name,
            i,
        )
}

/// An element stays open unless the event that comes closes it.
proof fn lemma_left_open(events: Seq<XmlToken>, name: Seq<char>)
    requires
        events.len() > 0,
    ensures
        left_open(events.drop_last(), name) && !closes(events.last(), name) ==> left_open(
            events,
            name,
        ),
        opens(events.last(), name) ==> left_open(events, name),
{
    let prev = events.drop_last();
    let n = events.len() - 1;
    if left_open(prev, name) && !closes(events.last(), name) {
        let i = choose|i: int|
            0 <= i < prev.len() && opens(#[trigger] prev[i], name) && !closed_behind(prev, name, i);
        assert(opens(events[i], name));
        if closed_behind(events, name, i) {
            let j = choose|j: int| i < j < events.len() && closes(#[trigger] events[j], name);
            assert(j < n);
            assert(closes(prev[j], name));
        }
    }
    if opens(events.last(), name) {
        assert(opens(events[n], name) && !closed_behind(events, name, n));
    }
}

/// What is still being read was opened and not closed.
proof fn lemma_still_open(st: StorageView, events: Seq<XmlToken>)
    requires
        at_rest(st),
    ensures
        in_macro(storage_run(st, events)) ==> left_open(events, "ac:structured-macro"@),
        storage_run(st, events).in_param ==> left_open(events, "ac:parameter"@),
        storage_run(st, events).param_name is Some ==> left_open(events, "ac:parameter"@),
        storage_run(st, events).in_plain_body ==> left_open(events, "ac:plain-text-body"@),
    decreases events.len(),
{
    if events.len() > 0 {
        lemma_still_open(st, events.drop_last());
        lemma_names_differ();
        lemma_left_open(events, "ac:structured-macro"@);
        lemma_left_open(events, "ac:parameter"@);
        lemma_left_open(events, "ac:plain-text-body"@);
    }
}

/// Where everything that is opened is closed, nothing is being read at the end.
pub proof fn law_closed_markup_leaves_nothing_open(st: StorageView, events: Seq<XmlToken>)
    requires
        at_rest(st),
        closes_macros(events),
    ensures
        at_rest(storage_run(st, events)),
{
    lemma_still_open(st, events);
}

/// `events` in two parts.
pub proof fn lemma_run_parts(st: StorageView, a: Seq<XmlToken>, b: Seq<XmlToken>)
    ensures
        storage_run(st, a + b) == storage_run(storage_run(st, a), b),
    decreases b.len(),
{
    if b.len() == 0 {
        assert(a + b =~= a);
    } else {
        assert((a + b).drop_last() =~= a + b.drop_last());
        lemma_run_parts(st, a, b.drop_last());
    }
}

/// Whether two states are at the same place, where what was read before them
/// may differ.
spec fn same_place(x: StorageView, y: StorageView) -> bool {
    &&& x.in_drawio == y.in_drawio
    &&& x.in_mermaid == y.in_mermaid
    &&& x.in_param == y.in_param
    &&& x.param_name == y.param_name
    &&& x.in_plain_body == y.in_plain_body
    &&& x.in_param || x.param_name is Some ==> x.param_buf == y.param_buf
}

/// What `y` has read, behind `before`.
spec fn read_behind(before: PageContentView, x: PageContentView, y: PageContentView) -> bool {
    &&& x.text == before.text + y.text
    &&& x.drawio_refs == before.drawio_refs + y.drawio_refs
    &&& x.image_refs == before.image_refs + y.image_refs
}

/// One event reads the same at the same place.
proof fn lemma_step_apart(before: PageContentView, x: StorageView, y: StorageView, e: XmlToken)
    requires
        same_place(x, y),
        read_behind(before, x.out, y.out),
    ensures
        same_place(storage_step(x, e), storage_step(y, e)),
        read_behind(before, storage_step(x, e).out, storage_step(y, e).out),
{
    match e {
        XmlToken::Start(tag) => {
            lemma_open_apart(before, x, y, tag);
        },
        XmlToken::Empty(tag) => {
            if !xml::is_name(tag.name, "ac:structured-macro"@) {
                lemma_open_apart(before, x, y, tag);
                lemma_close_apart(before, after_open(x, tag), after_open(y, tag), tag.name);
            }
        },
        XmlToken::End(name) => {
            lemma_close_apart(before, x, y, name);
        },
        XmlToken::Text(Some(s)) => {
            let more = text::trim(s).push(' ');
            assert((x.out.text + text::trim(s)).push(' ') =~= x.out.text + more);
            assert((y.out.text + text::trim(s)).push(' ') =~= y.out.text + more);
            assert(before.text + (y.out.text + more) =~= (before.text + y.out.text) + more);
        },
        _ => {},
    }
}

proof fn lemma_open_apart(before: PageContentView, x: StorageView, y: StorageView, tag: TagToken)
    requires
        same_place(x, y),
        read_behind(before, x.out, y.out),
    ensures
        same_place(after_open(x, tag), after_open(y, tag)),
        read_behind(before, after_open(x, tag).out, after_open(y, tag).out),
{
    assert(x.out.text.push('\n') =~= before.text + y.out.text.push('\n'));
    if let Some(name) = xml::attribute(tag.attrs, "ri:filename"@) {
        assert(x.out.image_refs.push(name) =~= before.image_refs + y.out.image_refs.push(name));
    }
}

proof fn lemma_close_apart(before: PageContentView, x: StorageView, y: StorageView, name: Seq<u8>)
    requires
        same_place(x, y),
        read_behind(before, x.out, y.out),
    ensures
        same_place(after_close(x, name), after_close(y, name)),
        read_behind(before, after_close(x, name).out, after_close(y, name).out),
{
    let value = text::trim(x.param_buf);
    assert(x.out.drawio_refs.push(value) =~= before.drawio_refs + y.out.drawio_refs.push(value));
}

/// What is read from a state at rest does not depend on what was read before.
proof fn lemma_run_apart(st: StorageView, events: Seq<XmlToken>)
    requires
        at_rest(st),
    ensures
        same_place(storage_run(st, events), storage_run(storage_start(), events)),
        read_behind(st.out, storage_run(st, events).out, storage_run(storage_start(), events).out),
    decreases events.len(),
{
    if events.len() == 0 {
        assert(st.out.text + Seq::<char>::empty() =~= st.out.text);
        assert(st.out.drawio_refs + Seq::<Seq<char>>::empty() =~= st.out.drawio_refs);
        assert(st.out.image_refs + Seq::<Seq<char>>::empty() =~= st.out.image_refs);
    } else {
        let prev = events.drop_last();
        lemma_run_apart(st, prev);
        lemma_step_apart(
            st.out,
            storage_run(st, prev),
            storage_run(storage_start(), prev),
            events.last(),
        );
    }
}

/// Whether a tag is that of a draw.io or Mermaid macro.
pub open spec fn is_diagram_tag(tag: TagToken) -> bool {
    let kind = text::text_or_empty(xml::attribute(tag.attrs, "ac:name"@));
    xml::is_name(tag.name, "ac:structured-macro"@) && (kind == "drawio"@ || kind
        == "mermaid-cloud"@ || kind == "mermaid"@)
}

/// Whether `events` are one draw.io or Mermaid macro, with no other macro in
/// it but self-closing ones, and everything in it closed: a self-closing tag, or
/// an opening one, what is in it, and the closing one.
pub open spec fn is_diagram_macro(events: Seq<XmlToken>) -> bool {
    ||| events.len() == 1 && (events[0] matches XmlToken::Empty(tag) && is_diagram_tag(tag))
    ||| {
        &&& events.len() > 1
        &&& events[0] matches XmlToken::Start(tag) && is_diagram_tag(tag)
        &&& ends_macro(events.last())
        &&& forall|i: int|
            0 < i < events.len() - 1 ==> !ends_macro(#[trigger] events[i]) && !opens(
                events[i],
                "ac:structured-macro"@,
            )
        &&& closes_all(events, "ac:parameter"@)
        &&& closes_all(events, "ac:plain-text-body"@)
    }
}

/// A macro leaves the state at rest, and the text and images as they were.
proof fn lemma_macro_read(st: StorageView, m: Seq<XmlToken>)
    requires
        at_rest(st),
        is_diagram_macro(m),
    ensures
        at_rest(storage_run(st, m)),
        storage_run(st, m).out.text == st.out.text,
        storage_run(st, m).out.image_refs == st.out.image_refs,
{
    lemma_names_differ();
    let first = m.take(1);
    let rest = m.skip(1);
    assert(first + rest =~= m);
    lemma_run_parts(st, first, rest);
    assert(first.drop_last() =~= Seq::empty());
    assert(storage_run(st, first.drop_last()) == st);
    assert(storage_run(st, first) == storage_step(st, m[0]));
    if m.len() == 1 {
        assert(rest =~= Seq::empty());
    } else {
        assert forall|i: int| 0 <= i < m.len() && opens(
            #[trigger] m[i],
            "ac:structured-macro"@,
        ) implies closed_behind(m, "ac:structured-macro"@, i) by {
            assert(closes(m[m.len() - 1], "ac:structured-macro"@));
        }
        law_closed_markup_leaves_nothing_open(st, m);
        assert forall|i: int| 0 <= i < rest.len() - 1 implies !ends_macro(#[trigger] rest[i]) by {
            assert(rest[i] == m[i + 1]);
        }
        law_macro_stays_apart(storage_step(st, m[0]), rest);
    }
}

/// A draw.io or Mermaid macro neither reaches nor hides what is around it: the
/// text and the images of a page are those that it has without the macro, and
/// its diagrams are those before the macro, in it and behind it, in order.
/// The markup before the macro closes what it opens.
pub proof fn law_macro_is_read_apart(a: Seq<XmlToken>, m: Seq<XmlToken>, b: Seq<XmlToken>)
    requires
        closes_macros(a),
        is_diagram_macro(m),
    ensures
        storage_content(a + m + b).text == storage_content(a + b).text,
        storage_content(a + m + b).image_refs == storage_content(a + b).image_refs,
        storage_content(a + m + b).drawio_refs == storage_content(a).drawio_refs + storage_content(
            m,
        ).drawio_refs + storage_content(b).drawio_refs,
{
    let start = storage_start();
    let sa = storage_run(start, a);
    let sm = storage_run(sa, m);
    law_closed_markup_leaves_nothing_open(start, a);
    lemma_macro_read(sa, m);
    lemma_run_parts(start, a, m);
    lemma_run_parts(start, a + m, b);
    lemma_run_parts(start, a, b);
    lemma_run_apart(sa, m);
    lemma_run_apart(sm, b);
    lemma_run_apart(sa, b);
}

/// A page reads as it would without a draw.io or Mermaid macro in it, but for
/// the diagrams.
pub proof fn law_page_with_macro(
    html: Seq<char>,
    without: Seq<char>,
    a: Seq<XmlToken>,
    m: Seq<XmlToken>,
    b: Seq<XmlToken>,
)
    requires
        page_events(html) == a + m + b,
        page_events(without) == a + b,
        closes_macros(a),
        is_diagram_macro(m),
    ensures
        page_content(html).text == page_content(without).text,
        page_content(html).image_refs == page_content(without).image_refs,
        page_content(html).drawio_refs == storage_content(a).drawio_refs + storage_content(
            m,
        ).drawio_refs + storage_content(b).drawio_refs,
{
    law_macro_is_read_apart(a, m, b);
}

/// Whether white space in `s` is compressed, after a line has just begun
/// (`line`) or white space was just read (`space`).
pub open spec fn is_compressed(s: Seq<char>, line: bool, space: bool) -> bool
    decreases s.len(),
{
    if s.len() == 0 {
        true
    } else if s[0] == '\n' {
        !line && is_compressed(s.drop_first(), true, false)
    } else if text::is_white(s[0]) {
        s[0] == ' ' && !line && !space && is_compressed(s.drop_first(), line, true)
    } else {
        is_compressed(s.drop_first(), false, false)
    }
}

proof fn lemma_compressed(s: Seq<char>, line: bool, space: bool)
    ensures
        is_compressed(compressed_from(s, line, space), line, space),
    decreases s.len(),
{
    if s.len() > 0 {
        let rest = s.drop_first();
        if s[0] == '\n' {
            lemma_compressed(rest, true, false);
            let t = compressed_from(rest, true, false);
            if line {
                lemma_space_after_line(t, space);
            } else {
                assert((seq!['\n'] + t).drop_first() =~= t);
            }
        } else if text::is_white(s[0]) {
            lemma_compressed(rest, line, true);
            let t = compressed_from(rest, line, true);
            if space {
            } else if line {
                lemma_space_after_line(t, false);
            } else {
                assert((seq![' '] + t).drop_first() =~= t);
            }
        } else {
            lemma_compressed(rest, false, false);
            let t = compressed_from(rest, false, false);
            assert((seq![s[0]] + t).drop_first() =~= t);
        }
    }
}

/// At the start of a line it makes no difference whether white space was just
/// read.
proof fn lemma_space_after_line(s: Seq<char>, space: bool)
    ensures
        is_compressed(s, true, space) == is_compressed(s, true, !space),
{
}

proof fn lemma_compressed_stays(s: Seq<char>, line: bool, space: bool)
    requires
        is_compressed(s, line, space),
    ensures
        compressed_from(s, line, space) == s,
    decreases s.len(),
{
    if s.len() > 0 {
        let rest = s.drop_first();
        assert(seq![s[0]] + rest =~= s);
        if s[0] == '\n' {
            lemma_compressed_stays(rest, true, false);
        } else if text::is_white(s[0]) {
            lemma_compressed_stays(rest, line, true);
        } else {
            lemma_compressed_stays(rest, false, false);
        }
    }
}

/// Compressing white space leaves no two line feeds in a row, no two spaces in
/// a row and no white space at the start of a line but the first; doing it
/// twice is doing it once.
pub proof fn law_compress_whitespace(s: Seq<char>)
    ensures
        is_compressed(compressed(s), false, false),
        compressed(compressed(s)) == compressed(s),
{
    lemma_compressed(s, false, false);
    lemma_compressed_stays(compressed(s), false, false);
}

} // verus!
