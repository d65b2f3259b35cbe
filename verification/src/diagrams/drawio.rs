//! draw.io diagrams.
use crate::codec;
use crate::diagrams::mermaid;
use crate::diagrams::mermaid::heading_of;
use crate::text;
use crate::text::{chars_of, is_blank, number, same, squeeze, trimmed, without_leading_white};
use crate::xml;
use crate::xml::{attr_get, named, read_events, TagToken, XmlEvent, XmlTag, XmlToken};
use vstd::prelude::*;

verus! {

// ---------------------------------------------------------------------------
// Diagrams

/// A diagram: the pages of a draw.io file.
#[derive(Debug, Clone)]
pub struct DrawioDiagram {
    pub pages: Vec<DrawioPage>,
}

/// A page of a diagram.
#[derive(Debug, Clone)]
pub struct DrawioPage {
    pub name: Option<String>,
    pub nodes: Vec<DrawioNode>,
    pub edges: Vec<DrawioEdge>,
}

/// A node with a label.
#[derive(Debug, Clone)]
pub struct DrawioNode {
    pub id: String,
    pub value: String,
}

/// An edge between the nodes with these ids.
#[derive(Debug, Clone)]
pub struct DrawioEdge {
    pub source: Option<String>,
    pub target: Option<String>,
    pub value: String,
}

/// The model of a node.
pub struct NodeView {
    pub id: Seq<char>,
    pub value: Seq<char>,
}

/// The model of an edge.
pub struct EdgeView {
    pub source: Option<Seq<char>>,
    pub target: Option<Seq<char>>,
    pub value: Seq<char>,
}

/// The model of a page.
pub struct PageView {
    pub name: Option<Seq<char>>,
    pub nodes: Seq<NodeView>,
    pub edges: Seq<EdgeView>,
}

impl DeepView for DrawioNode {
    type V = NodeView;

    open spec fn deep_view(&self) -> NodeView {
        NodeView { id: self.id@, value: self.value@ }
    }
}

impl DeepView for DrawioEdge {
    type V = EdgeView;

    open spec fn deep_view(&self) -> EdgeView {
        EdgeView {
            source: self.source.deep_view(),
            target: self.target.deep_view(),
            value: self.value@,
        }
    }
}

impl DeepView for DrawioPage {
    type V = PageView;

    open spec fn deep_view(&self) -> PageView {
        PageView {
            name: self.name.deep_view(),
            nodes: self.nodes.deep_view(),
            edges: self.edges.deep_view(),
        }
    }
}

impl DeepView for DrawioDiagram {
    type V = Seq<PageView>;

    open spec fn deep_view(&self) -> Seq<PageView> {
        self.pages.deep_view()
    }
}

impl Default for DrawioDiagram {
    fn default() -> (r: Self)
        ensures
            r.deep_view() == Seq::<PageView>::empty(),
    {
        let r = DrawioDiagram { pages: Vec::new() };
        assert(r.pages.deep_view() =~= Seq::empty());
        r
    }
}

impl Default for DrawioPage {
    fn default() -> (r: Self)
        ensures
            r.deep_view() == (PageView { name: None, nodes: Seq::empty(), edges: Seq::empty() }),
    {
        let r = DrawioPage { name: None, nodes: Vec::new(), edges: Vec::new() };
        assert(r.nodes.deep_view() =~= Seq::empty());
        assert(r.edges.deep_view() =~= Seq::empty());
        r
    }
}

/// Why a draw.io file could not be read; the message is that of the XML
/// reader.
#[derive(Debug)]
pub enum DrawioError {
    /// The file is malformed outside of a graph.
    Xml(String),
    /// The file is malformed inside of a graph.
    Model(String),
}

/// The model of an error.
pub enum DrawioErrorView {
    Xml(Seq<char>),
    Model(Seq<char>),
}

impl DeepView for DrawioError {
    type V = DrawioErrorView;

    open spec fn deep_view(&self) -> DrawioErrorView {
        match self {
            DrawioError::Xml(m) => DrawioErrorView::Xml(m@),
            DrawioError::Model(m) => DrawioErrorView::Model(m@),
        }
    }
}

impl DrawioError {
    /// The error in words.
    pub fn message(&self) -> (r: String)
        ensures
            r@ == match self.deep_view() {
                DrawioErrorView::Xml(m) => "drawio xml: "@ + m,
                DrawioErrorView::Model(m) => "mxGraphModel: "@ + m,
            },
    {
        match self {
            DrawioError::Xml(m) => {
                let mut r = "drawio xml: ".to_owned();
                r.append(m.as_str());
                r
            },
            DrawioError::Model(m) => {
                let mut r = "mxGraphModel: ".to_owned();
                r.append(m.as_str());
                r
            },
        }
    }
}

// ---------------------------------------------------------------------------
// Labels

/// `s` without what is between angle brackets; `tag` says that a bracket is
/// open.
pub open spec fn without_tags(s: Seq<char>, tag: bool) -> Seq<char>
    decreases s.len(),
{
    if s.len() == 0 {
        s
    } else if s[0] == '<' {
        without_tags(s.drop_first(), true)
    } else if s[0] == '>' {
        without_tags(s.drop_first(), false)
    } else if tag {
        without_tags(s.drop_first(), true)
    } else {
        seq![s[0]] + without_tags(s.drop_first(), false)
    }
}

/// The text of a label that may hold HTML: no tags, and one space between
/// words.
pub open spec fn label_text(s: Seq<char>) -> Seq<char> {
    text::single_spaced(without_tags(s, false))
}

/// The text of a label that may hold HTML.
pub fn strip_html(s: &str) -> (r: String)
    ensures
        r@ == label_text(s@),
{
    let v = chars_of(s);
    let mut out = String::new();
    let mut tag = false;
    let mut i: usize = 0;
    assert(v@.skip(0) =~= v@);
    assert(out@ + without_tags(v@, false) =~= without_tags(s@, false));
    while i < v.len()
        invariant
            i <= v@.len(),
            v@ == s@,
            out@ + without_tags(v@.skip(i as int), tag) == without_tags(s@, false),
        decreases v@.len() - i,
    {
        let ghost before = out@;
        let ghost old_rest = without_tags(v@.skip(i as int), tag);
        let c = v[i];
        assert(v@.skip(i as int).drop_first() =~= v@.skip(i + 1));
        if c == '<' {
            tag = true;
        } else if c == '>' {
            tag = false;
        } else if !tag {
            out.push(c);
        }
        i += 1;
        assert(out@ + without_tags(v@.skip(i as int), tag) =~= before + old_rest);
    }
    assert(out@ + without_tags(v@.skip(i as int), tag) =~= out@);
    squeeze(out.as_str())
}

// ---------------------------------------------------------------------------
// Reading graphs

/// The nodes and edges of a graph.
pub struct ParsedModel {
    pub nodes: Vec<DrawioNode>,
    pub edges: Vec<DrawioEdge>,
}

/// The model of the nodes and edges of a graph.
pub struct ModelView {
    pub nodes: Seq<NodeView>,
    pub edges: Seq<EdgeView>,
}

impl DeepView for ParsedModel {
    type V = ModelView;

    open spec fn deep_view(&self) -> ModelView {
        ModelView { nodes: self.nodes.deep_view(), edges: self.edges.deep_view() }
    }
}

/// A graph without nodes and edges.
pub open spec fn empty_model() -> ModelView {
    ModelView { nodes: Seq::empty(), edges: Seq::empty() }
}

/// Whether the attribute `key` of a tag is set to 1.
pub open spec fn is_set(tag: TagToken, key: Seq<char>) -> bool {
    text::text_or_empty(xml::attribute(tag.attrs, key)) == "1"@
}

/// The graph with one more cell: a vertex with a label becomes a node, an
/// edge becomes an edge, any other cell is passed over.
pub open spec fn add_cell(m: ModelView, tag: TagToken) -> ModelView {
    let value = label_text(text::text_or_empty(xml::attribute(tag.attrs, "value"@)));
    if is_set(tag, "vertex"@) && !text::blank(value) {
        ModelView {
            nodes: m.nodes.push(
                NodeView {
                    id: text::text_or_empty(xml::attribute(tag.attrs, "id"@)),
                    value,
                },
            ),
            ..m
        }
    } else if is_set(tag, "edge"@) {
        ModelView {
            edges: m.edges.push(
                EdgeView {
                    source: xml::attribute(tag.attrs, "source"@),
                    target: xml::attribute(tag.attrs, "target"@),
                    value,
                },
            ),
            ..m
        }
    } else {
        m
    }
}

/// The graph that `events` hold from position `i` on, behind what was read of
/// it already, and the position behind it; or where it is malformed.
pub open spec fn model_from(events: Seq<XmlToken>, i: int, m: ModelView) -> Result<
    (ModelView, int),
    Seq<char>,
>
    decreases events.len() - i,
{
    if i < 0 || i >= events.len() {
        Ok((m, i))
    } else {
        match events[i] {
            XmlToken::Start(tag) => model_from(
                events,
                i + 1,
                if xml::is_name(tag.name, "mxCell"@) {
                    add_cell(m, tag)
                } else {
                    m
                },
            ),
            XmlToken::Empty(tag) => model_from(
                events,
                i + 1,
                if xml::is_name(tag.name, "mxCell"@) {
                    add_cell(m, tag)
                } else {
                    m
                },
            ),
            XmlToken::End(name) => if xml::is_name(name, "mxGraphModel"@) {
                Ok((m, i + 1))
            } else {
                model_from(events, i + 1, m)
            },
            XmlToken::Eof => Ok((m, i + 1)),
            XmlToken::Malformed(e) => Err(e),
            _ => model_from(events, i + 1, m),
        }
    }
}

/// A graph ends behind the position at which it begins.
pub proof fn lemma_model_advances(events: Seq<XmlToken>, i: int, m: ModelView)
    requires
        0 <= i <= events.len(),
    ensures
        model_from(events, i, m) matches Ok((_, j)) ==> i <= j <= events.len(),
    decreases events.len() - i,
{
    if i < events.len() {
        match events[i] {
            XmlToken::Start(tag) => {
                lemma_model_advances(
                    events,
                    i + 1,
                    if xml::is_name(tag.name, "mxCell"@) {
                        add_cell(m, tag)
                    } else {
                        m
                    },
                );
            },
            XmlToken::Empty(tag) => {
                lemma_model_advances(
                    events,
                    i + 1,
                    if xml::is_name(tag.name, "mxCell"@) {
                        add_cell(m, tag)
                    } else {
                        m
                    },
                );
            },
            _ => {
                lemma_model_advances(events, i + 1, m);
            },
        }
    }
}

/// `is_set`, executable.
fn attr_is_set(tag: &XmlTag, key: &str) -> (r: bool)
    ensures
        r == is_set(tag.deep_view(), key@),
{
    let value = text::or_empty(&attr_get(tag, key));
    same(value.as_str(), "1")
}

impl ParsedModel {
    /// Takes in one cell.
    pub fn add_cell(&mut self, tag: &XmlTag)
        ensures
            final(self).deep_view() == add_cell(old(self).deep_view(), tag.deep_view()),
    {
        let id = text::or_empty(&attr_get(tag, "id"));
        let value = text::or_empty(&attr_get(tag, "value"));
        let vertex = attr_is_set(tag, "vertex");
        let edge = attr_is_set(tag, "edge");
        let source = attr_get(tag, "source");
        let target = attr_get(tag, "target");
        let value_text = strip_html(value.as_str());
        if vertex && !is_blank(value_text.as_str()) {
            let ghost before = self.nodes.deep_view();
            let node = DrawioNode { id, value: value_text };
            self.nodes.push(node);
            assert(self.nodes.deep_view() =~= before.push(node.deep_view()));
        } else if edge {
            let ghost before = self.edges.deep_view();
            let e = DrawioEdge { source, target, value: value_text };
            self.edges.push(e);
            assert(self.edges.deep_view() =~= before.push(e.deep_view()));
        }
    }
}

/// The graph that `events` hold from position `i` on, and the position behind
/// it; or where it is malformed.
pub fn parse_mxgraph_model(events: &Vec<XmlEvent>, i: usize) -> (r: Result<
    (ParsedModel, usize),
    String,
>)
    requires
        i <= events@.len(),
    ensures
        match r {
            Ok((m, j)) => model_from(events.deep_view(), i as int, empty_model()) == Ok::<
                (ModelView, int),
                Seq<char>,
            >((m.deep_view(), j as int)) && i <= j <= events@.len(),
            Err(e) => model_from(events.deep_view(), i as int, empty_model()) == Err::<
                (ModelView, int),
                Seq<char>,
            >(e@),
        },
{
    let ghost all = events.deep_view();
    let mut m = ParsedModel { nodes: Vec::new(), edges: Vec::new() };
    assert(m.nodes.deep_view() =~= Seq::empty());
    assert(m.edges.deep_view() =~= Seq::empty());
    let mut k: usize = i;
    while k < events.len()
        invariant
            i <= k <= events@.len(),
            all == events.deep_view(),
            model_from(all, i as int, empty_model()) == model_from(all, k as int, m.deep_view()),
        decreases events@.len() - k,
    {
        assert(all[k as int] == events@[k as int].deep_view());
        match &events[k] {
            XmlEvent::Start(tag) => {
                if named(&tag.name, "mxCell") {
                    m.add_cell(tag);
                }
            },
            XmlEvent::Empty(tag) => {
                if named(&tag.name, "mxCell") {
                    m.add_cell(tag);
                }
            },
            XmlEvent::End(name) => {
                if named(name, "mxGraphModel") {
                    return Ok((m, k + 1));
                }
            },
            XmlEvent::Eof => {
                return Ok((m, k + 1));
            },
            XmlEvent::Malformed(e) => {
                return Err(e.clone());
            },
            _ => {},
        }
        k += 1;
    }
    Ok((m, k))
}

// ---------------------------------------------------------------------------
// Compressed pages

/// Why a compressed page could not be decoded.
#[derive(Debug, PartialEq, Eq, Structural)]
pub enum DecodeError {
    /// The payload is no base64.
    Base64,
    /// The payload is no deflated text.
    Deflate,
}

/// The value of a hexadecimal digit.
pub open spec fn hex_value(b: u8) -> Option<u8> {
    if '0' <= b as char <= '9' {
        Some((b - '0' as u8) as u8)
    } else if 'a' <= b as char <= 'f' {
        Some((b - 'a' as u8 + 10) as u8)
    } else if 'A' <= b as char <= 'F' {
        Some((b - 'A' as u8 + 10) as u8)
    } else {
        None
    }
}

/// Whether two bytes are UTF-8 by themselves: two of ASCII, or one character
/// of two bytes.
pub open spec fn is_utf8_pair(a: u8, b: u8) -> bool {
    (a < 0x80 && b < 0x80) || (0xc2 <= a <= 0xdf && 0x80 <= b <= 0xbf)
}

/// The byte that stands behind a percent sign: two hexadecimal digits, or a
/// plus sign and one of them. A pair that is torn out of a longer character
/// counts as zero.
pub open spec fn escaped_byte(a: u8, b: u8) -> Option<u8> {
    if !is_utf8_pair(a, b) {
        Some(0)
    } else if a as char == '+' {
        hex_value(b)
    } else {
        match (hex_value(a), hex_value(b)) {
            (Some(x), Some(y)) => Some((x * 16 + y) as u8),
            _ => None,
        }
    }
}

/// Bytes with percent escapes decoded and plus signs made spaces.
pub open spec fn percent_decoded(bytes: Seq<u8>) -> Seq<u8>
    decreases bytes.len(),
{
    if bytes.len() == 0 {
        bytes
    } else if bytes[0] as char == '%' && bytes.len() > 2 && escaped_byte(bytes[1], bytes[2]) is Some {
        seq![escaped_byte(bytes[1], bytes[2])->0] + percent_decoded(bytes.skip(3))
    } else {
        seq![
            if bytes[0] as char == '+' {
                ' ' as u8
            } else {
                bytes[0]
            },
        ] + percent_decoded(bytes.skip(1))
    }
}

/// Whether `s` is XML already: its first character that is not white space is
/// an angle bracket.
pub open spec fn looks_like_xml(s: Seq<char>) -> bool {
    "<"@.is_prefix_of(text::trim_start(s))
}

/// A payload of draw.io with its URL encoding undone; XML stays as it is.
pub open spec fn url_decoded(s: Seq<char>) -> Seq<char> {
    if looks_like_xml(s) {
        s
    } else {
        codec::utf8_text(percent_decoded(vstd::utf8::encode_utf8(s)))
    }
}

/// `hex_value`, executable.
fn hex_value_of(b: u8) -> (r: Option<u8>)
    ensures
        r == hex_value(b),
{
    if b >= '0' as u8 && b <= '9' as u8 {
        Some(b - '0' as u8)
    } else if b >= 'a' as u8 && b <= 'f' as u8 {
        Some(b - 'a' as u8 + 10)
    } else if b >= 'A' as u8 && b <= 'F' as u8 {
        Some(b - 'A' as u8 + 10)
    } else {
        None
    }
}

/// `escaped_byte`, executable.
fn escaped_byte_of(a: u8, b: u8) -> (r: Option<u8>)
    ensures
        r == escaped_byte(a, b),
{
    if !((a < 0x80 && b < 0x80) || (0xc2 <= a && a <= 0xdf && 0x80 <= b && b <= 0xbf)) {
        Some(0)
    } else if a == '+' as u8 {
        hex_value_of(b)
    } else {
        match (hex_value_of(a), hex_value_of(b)) {
            (Some(x), Some(y)) => Some(x * 16 + y),
            _ => None,
        }
    }
}

/// Where no byte is a percent or plus sign, nothing is escaped.
proof fn lemma_nothing_escaped(bytes: Seq<u8>)
    requires
        forall|i: int|
            0 <= i < bytes.len() ==> #[trigger] bytes[i] as char != '%' && bytes[i] as char != '+',
    ensures
        percent_decoded(bytes) == bytes,
    decreases bytes.len(),
{
    if bytes.len() > 0 {
        let rest = bytes.skip(1);
        assert forall|i: int| 0 <= i < rest.len() implies #[trigger] rest[i] as char != '%'
            && rest[i] as char != '+' by {
            assert(rest[i] == bytes[i + 1]);
        }
        lemma_nothing_escaped(rest);
        assert(bytes[0] as char != '%' && bytes[0] as char != '+');
        assert(seq![bytes[0]] + rest =~= bytes);
    }
}

/// A payload of draw.io with its URL encoding undone; XML stays as it is, and
/// so does text without percent and plus signs.
pub fn url_decode(s: &str) -> (r: String)
    ensures
        r@ == url_decoded(s@),
        (forall|i: int|
            0 <= i < vstd::utf8::encode_utf8(s@).len() ==> #[trigger] vstd::utf8::encode_utf8(
                s@,
            )[i] as char != '%' && vstd::utf8::encode_utf8(s@)[i] as char != '+') ==> r@ == s@,
{
    if text::starts_with(without_leading_white(s).as_str(), "<") {
        return s.to_owned();
    }
    let bytes = s.as_bytes();
    let n = bytes.len();
    let mut out: Vec<u8> = Vec::new();
    let mut i: usize = 0;
    assert(bytes@.skip(0) =~= bytes@);
    assert(out@ + percent_decoded(bytes@) =~= percent_decoded(bytes@));
    while i < n
        invariant
            i <= n,
            n == bytes@.len(),
            out@ + percent_decoded(bytes@.skip(i as int)) == percent_decoded(bytes@),
        decreases n - i,
    {
        let ghost before = out@;
        let ghost rest = bytes@.skip(i as int);
        if bytes[i] == '%' as u8 && n - i > 2 {
            if let Some(b) = escaped_byte_of(bytes[i + 1], bytes[i + 2]) {
                assert(rest.skip(3) =~= bytes@.skip(i + 3));
                assert(rest[1] == bytes@[i + 1] && rest[2] == bytes@[i + 2]);
                out.push(b);
                i += 3;
                assert(out@ + percent_decoded(bytes@.skip(i as int)) =~= before + percent_decoded(
                    rest,
                ));
                continue;
            }
            assert(rest[1] == bytes@[i + 1] && rest[2] == bytes@[i + 2]);
        }
        assert(rest.skip(1) =~= bytes@.skip(i + 1));
        if bytes[i] == '+' as u8 {
            out.push(' ' as u8);
        } else {
            out.push(bytes[i]);
        }
        i += 1;
        assert(out@ + percent_decoded(bytes@.skip(i as int)) =~= before + percent_decoded(rest));
    }
    assert(out@ + percent_decoded(bytes@.skip(i as int)) =~= out@);
    let r = codec::text_of_utf8(out.as_slice());
    proof {
        let b = vstd::utf8::encode_utf8(s@);
        if forall|i: int|
            0 <= i < b.len() ==> #[trigger] b[i] as char != '%' && b[i] as char != '+' {
            lemma_nothing_escaped(b);
            codec::law_encoded_text_reads_back(s@);
        }
    }
    r
}

/// The markup in a compressed page: base64 of deflated, often URL-encoded,
/// XML.
pub open spec fn decoded_page(b64: Seq<char>) -> Result<Seq<char>, DecodeError> {
    match codec::base64_bytes(text::trim(b64)) {
        None => Err(DecodeError::Base64),
        Some(bytes) => match codec::inflated_text(bytes) {
            None => Err(DecodeError::Deflate),
            Some(text) => Ok(url_decoded(text)),
        },
    }
}

/// The markup in a compressed page.
pub fn decode_compressed(b64: &str) -> (r: Result<String, DecodeError>)
    ensures
        match r {
            Ok(s) => decoded_page(b64@) == Ok::<Seq<char>, DecodeError>(s@),
            Err(e) => decoded_page(b64@) == Err::<Seq<char>, DecodeError>(e),
        },
{
    match codec::base64_decode(trimmed(b64).as_str()) {
        None => Err(DecodeError::Base64),
        Some(bytes) => {
            assert(bytes.deep_view() =~= bytes@);
            match codec::inflate(bytes.as_slice()) {
                None => Err(DecodeError::Deflate),
                Some(text) => Ok(url_decode(text.as_str())),
            }
        },
    }
}

// ---------------------------------------------------------------------------
// Reading files

/// The events of draw.io markup.
pub open spec fn drawio_events(markup: Seq<u8>) -> Seq<XmlToken> {
    xml::until_last(xml::xml_events(markup, true, true, false))
}

/// The first graph that `events` hold from position `i` on, if there is one
/// before they end.
pub open spec fn first_model(events: Seq<XmlToken>, i: int) -> Result<Option<ModelView>, Seq<char>>
    decreases events.len() - i,
{
    if i < 0 || i >= events.len() || xml::is_last(events[i]) {
        Ok(None)
    } else {
        match events[i] {
            XmlToken::Start(tag) if xml::is_name(tag.name, "mxGraphModel"@) => match model_from(
                events,
                i + 1,
                empty_model(),
            ) {
                Ok((m, _)) => Ok(Some(m)),
                Err(e) => Err(e),
            },
            _ => first_model(events, i + 1),
        }
    }
}

/// The graph in the payload of a compressed page, if the payload can be
/// decoded and holds one.
pub open spec fn payload_model(payload: Seq<char>) -> Result<Option<ModelView>, Seq<char>> {
    match decoded_page(payload) {
        Ok(markup) => first_model(drawio_events(vstd::utf8::encode_utf8(markup)), 0),
        Err(_) => Ok(None),
    }
}

/// Where the reading of a file stands.
pub struct FileView {
    pub pages: Seq<PageView>,
    pub in_diagram: bool,
    pub diagram_text: Seq<char>,
    pub page_name: Option<Seq<char>>,
}

/// With one more page.
pub open spec fn add_page(st: FileView, m: ModelView) -> FileView {
    FileView {
        pages: st.pages.push(PageView { name: st.page_name, nodes: m.nodes, edges: m.edges }),
        ..st
    }
}

/// After the end of a `diagram` element: a payload in it is a compressed page.
pub open spec fn after_diagram(st: FileView) -> Result<FileView, Seq<char>> {
    let closed = FileView { in_diagram: false, ..st };
    let payload = text::trim(st.diagram_text);
    if payload.len() == 0 {
        Ok(closed)
    } else {
        match payload_model(payload) {
            Ok(Some(m)) => Ok(add_page(closed, m)),
            Ok(None) => Ok(closed),
            Err(e) => Err(e),
        }
    }
}

/// The pages that `events` hold from position `i` on, behind what was read
/// already; or where they are malformed.
pub open spec fn pages_from(events: Seq<XmlToken>, i: int, st: FileView) -> Result<
    Seq<PageView>,
    DrawioErrorView,
>
    decreases events.len() - i,
{
    if i < 0 || i >= events.len() {
        Ok(st.pages)
    } else {
        match events[i] {
            XmlToken::Start(tag) => if xml::is_name(tag.name, "diagram"@) {
                pages_from(
                    events,
                    i + 1,
                    FileView {
                        in_diagram: true,
                        diagram_text: Seq::empty(),
                        page_name: xml::attribute(tag.attrs, "name"@),
                        ..st
                    },
                )
            } else if xml::is_name(tag.name, "mxGraphModel"@) {
                proof {
                    lemma_model_advances(events, i + 1, empty_model());
                }
                match model_from(events, i + 1, empty_model()) {
                    Ok((m, j)) => pages_from(events, j, add_page(st, m)),
                    Err(e) => Err(DrawioErrorView::Model(e)),
                }
            } else {
                pages_from(events, i + 1, st)
            },
            XmlToken::Text(Some(s)) if st.in_diagram => pages_from(
                events,
                i + 1,
                FileView { diagram_text: st.diagram_text + s, ..st },
            ),
            XmlToken::CData(data) if st.in_diagram => pages_from(
                events,
                i + 1,
                FileView { diagram_text: st.diagram_text + codec::utf8_text(data), ..st },
            ),
            XmlToken::End(name) => if xml::is_name(name, "diagram"@) {
                match after_diagram(st) {
                    Ok(next) => pages_from(events, i + 1, next),
                    Err(e) => Err(DrawioErrorView::Model(e)),
                }
            } else {
                pages_from(events, i + 1, st)
            },
            XmlToken::Eof => Ok(st.pages),
            XmlToken::Malformed(e) => Err(DrawioErrorView::Xml(e)),
            _ => pages_from(events, i + 1, st),
        }
    }
}

/// Before the first event of a file.
pub open spec fn file_start() -> FileView {
    FileView {
        pages: Seq::empty(),
        in_diagram: false,
        diagram_text: Seq::empty(),
        page_name: None,
    }
}

/// The diagram that a file with these events holds.
pub open spec fn diagram_of(events: Seq<XmlToken>) -> Result<Seq<PageView>, DrawioErrorView> {
    pages_from(events, 0, file_start())
}

/// `first_model`, executable.
pub fn find_model(events: &Vec<XmlEvent>) -> (r: Result<Option<ParsedModel>, String>)
    ensures
        match r {
            Ok(m) => first_model(events.deep_view(), 0) == Ok::<Option<ModelView>, Seq<char>>(
                m.deep_view(),
            ),
            Err(e) => first_model(events.deep_view(), 0) == Err::<Option<ModelView>, Seq<char>>(
                e@,
            ),
        },
{
    let ghost all = events.deep_view();
    let mut i: usize = 0;
    while i < events.len()
        invariant
            i <= events@.len(),
            all == events.deep_view(),
            first_model(all, 0) == first_model(all, i as int),
        decreases events@.len() - i,
    {
        assert(all[i as int] == events@[i as int].deep_view());
        match &events[i] {
            XmlEvent::Start(tag) => {
                if named(&tag.name, "mxGraphModel") {
                    return match parse_mxgraph_model(events, i + 1) {
                        Ok((m, _j)) => Ok(Some(m)),
                        Err(e) => Err(e),
                    };
                }
            },
            XmlEvent::Eof => {
                return Ok(None);
            },
            XmlEvent::Malformed(_) => {
                return Ok(None);
            },
            _ => {},
        }
        i += 1;
    }
    Ok(None)
}

/// `payload_model`, executable.
fn model_in_payload(payload: &str) -> (r: Result<Option<ParsedModel>, String>)
    ensures
        match r {
            Ok(m) => payload_model(payload@) == Ok::<Option<ModelView>, Seq<char>>(m.deep_view()),
            Err(e) => payload_model(payload@) == Err::<Option<ModelView>, Seq<char>>(e@),
        },
{
    match decode_compressed(payload) {
        Ok(markup) => {
            let events = read_events(markup.as_str().as_bytes(), true, true, false);
            find_model(&events)
        },
        Err(_) => Ok(None),
    }
}

/// Where the reading of a file stands.
struct FileState {
    pages: Vec<DrawioPage>,
    in_diagram: bool,
    diagram_text: String,
    page_name: Option<String>,
}

impl FileState {
    spec fn model(self) -> FileView {
        FileView {
            pages: self.pages.deep_view(),
            in_diagram: self.in_diagram,
            diagram_text: self.diagram_text@,
            page_name: self.page_name.deep_view(),
        }
    }

    fn add_page(&mut self, m: ParsedModel)
        ensures
            final(self).model() == add_page(old(self).model(), m.deep_view()),
    {
        let page = DrawioPage { name: self.page_name.clone(), nodes: m.nodes, edges: m.edges };
        let ghost before = self.pages.deep_view();
        self.pages.push(page);
        assert(self.pages.deep_view() =~= before.push(page.deep_view()));
    }

    fn end_diagram(&mut self) -> (r: Result<(), String>)
        ensures
            match r {
                Ok(_) => after_diagram(old(self).model()) == Ok::<FileView, Seq<char>>(
                    final(self).model(),
                ),
                Err(e) => after_diagram(old(self).model()) == Err::<FileView, Seq<char>>(e@),
            },
    {
        self.in_diagram = false;
        let payload = trimmed(self.diagram_text.as_str());
        if payload.as_str().is_empty() {
            return Ok(());
        }
        match model_in_payload(payload.as_str()) {
            Ok(Some(m)) => {
                self.add_page(m);
                Ok(())
            },
            Ok(None) => Ok(()),
            Err(e) => Err(e),
        }
    }
}

/// The diagram that a file with these events holds.
pub fn diagram_from_events(events: &Vec<XmlEvent>) -> (r: Result<DrawioDiagram, DrawioError>)
    ensures
        match r {
            Ok(d) => diagram_of(events.deep_view()) == Ok::<Seq<PageView>, DrawioErrorView>(
                d.deep_view(),
            ),
            Err(e) => diagram_of(events.deep_view()) == Err::<Seq<PageView>, DrawioErrorView>(
                e.deep_view(),
            ),
        },
{
    let ghost all = events.deep_view();
    let mut st = FileState {
        pages: Vec::new(),
        in_diagram: false,
        diagram_text: String::new(),
        page_name: None,
    };
    assert(st.pages.deep_view() =~= Seq::empty());
    let mut i: usize = 0;
    while i < events.len()
        invariant
            i <= events@.len(),
            all == events.deep_view(),
            diagram_of(all) == pages_from(all, i as int, st.model()),
        decreases events@.len() - i,
    {
        assert(all[i as int] == events@[i as int].deep_view());
        match &events[i] {
            XmlEvent::Start(tag) => {
                if named(&tag.name, "diagram") {
                    st.in_diagram = true;
                    st.diagram_text = String::new();
                    st.page_name = attr_get(tag, "name");
                } else if named(&tag.name, "mxGraphModel") {
                    match parse_mxgraph_model(events, i + 1) {
                        Ok((m, j)) => {
                            st.add_page(m);
                            i = j;
                            continue;
                        },
                        Err(e) => {
                            return Err(DrawioError::Model(e));
                        },
                    }
                }
            },
            XmlEvent::Text(Some(s)) => {
                if st.in_diagram {
                    st.diagram_text.append(s.as_str());
                }
            },
            XmlEvent::CData(data) => {
                if st.in_diagram {
                    let s = codec::text_of_utf8(data.as_slice());
                    st.diagram_text.append(s.as_str());
                }
            },
            XmlEvent::End(name) => {
                if named(name, "diagram") {
                    match st.end_diagram() {
                        Ok(_) => {},
                        Err(e) => {
                            return Err(DrawioError::Model(e));
                        },
                    }
                }
            },
            XmlEvent::Eof => {
                return Ok(DrawioDiagram { pages: st.pages });
            },
            XmlEvent::Malformed(e) => {
                return Err(DrawioError::Xml(e.clone()));
            },
            _ => {},
        }
        i += 1;
    }
    Ok(DrawioDiagram { pages: st.pages })
}

/// Reads a `.drawio` file, whose pages may be compressed or not.
pub fn parse_drawio(bytes: &[u8]) -> (r: Result<DrawioDiagram, DrawioError>)
    ensures
        match r {
            Ok(d) => diagram_of(drawio_events(bytes@)) == Ok::<Seq<PageView>, DrawioErrorView>(
                d.deep_view(),
            ),
            Err(e) => diagram_of(drawio_events(bytes@)) == Err::<Seq<PageView>, DrawioErrorView>(
                e.deep_view(),
            ),
        },
{
    let events = read_events(bytes, true, true, false);
    diagram_from_events(&events)
}

// ---------------------------------------------------------------------------
// Text

/// One line for each node.
pub open spec fn node_lines(nodes: Seq<NodeView>) -> Seq<char>
    decreases nodes.len(),
{
    if nodes.len() == 0 {
        Seq::empty()
    } else {
        node_lines(nodes.drop_last()) + "  - "@ + nodes.last().value + "\n"@
    }
}

/// The label of the node with this id, the last one where there are several.
pub open spec fn label_of(nodes: Seq<NodeView>, id: Seq<char>) -> Option<Seq<char>>
    decreases nodes.len(),
{
    if nodes.len() == 0 {
        None
    } else if nodes.last().id == id {
        Some(nodes.last().value)
    } else {
        label_of(nodes.drop_last(), id)
    }
}

/// How the end of an edge is written.
pub open spec fn end_text(nodes: Seq<NodeView>, id: Option<Seq<char>>) -> Seq<char> {
    match id {
        Some(s) => match label_of(nodes, s) {
            Some(label) => label,
            None => "(?)"@,
        },
        None => "(?)"@,
    }
}

/// The line of an edge.
pub open spec fn edge_line(nodes: Seq<NodeView>, e: EdgeView) -> Seq<char> {
    let ends = "  "@ + end_text(nodes, e.source) + " -> "@ + end_text(nodes, e.target);
    if text::blank(e.value) {
        ends + "\n"@
    } else {
        ends + ": "@ + e.value + "\n"@
    }
}

/// One line for each edge.
pub open spec fn edge_lines(nodes: Seq<NodeView>, edges: Seq<EdgeView>) -> Seq<char>
    decreases edges.len(),
{
    if edges.len() == 0 {
        Seq::empty()
    } else {
        edge_lines(nodes, edges.drop_last()) + edge_line(nodes, edges.last())
    }
}

/// The heading of a page.
pub open spec fn page_heading(number: nat, name: Option<Seq<char>>) -> Seq<char> {
    "--- ページ"@ + text::decimal(number) + " "@ + (match name {
        Some(n) => n,
        None => "(無題)"@,
    }) + " ---\n"@
}

/// The nodes and edges of a page; either part is left out where it is empty.
pub open spec fn page_body(page: PageView) -> Seq<char> {
    (if page.nodes.len() == 0 {
        Seq::empty()
    } else {
        "ノード:\n"@ + node_lines(page.nodes)
    }) + (if page.edges.len() == 0 {
        Seq::empty()
    } else {
        "接続:\n"@ + edge_lines(page.nodes, page.edges)
    })
}

/// The page with this number, with a heading where `headings`.
pub open spec fn page_text(number: nat, page: PageView, headings: bool) -> Seq<char> {
    if headings {
        page_heading(number, page.name) + page_body(page)
    } else {
        page_body(page)
    }
}

/// The pages, each with a heading where `headings`.
pub open spec fn pages_text(pages: Seq<PageView>, headings: bool) -> Seq<char>
    decreases pages.len(),
{
    if pages.len() == 0 {
        Seq::empty()
    } else {
        pages_text(pages.drop_last(), headings) + page_text(pages.len(), pages.last(), headings)
    }
}

/// A diagram as text; pages have headings where there are several.
pub open spec fn diagram_text(pages: Seq<PageView>, title: Option<Seq<char>>) -> Seq<char> {
    mermaid::heading("draw.io 図"@, title) + pages_text(pages, pages.len() > 1)
}

/// `node_lines`, executable.
fn node_lines_of(nodes: &Vec<DrawioNode>) -> (r: String)
    ensures
        r@ == node_lines(nodes.deep_view()),
{
    let ghost all = nodes.deep_view();
    let mut out = String::new();
    assert(out@ =~= node_lines(all.take(0)));
    for i in 0..nodes.len()
        invariant
            all == nodes.deep_view(),
            out@ == node_lines(all.take(i as int)),
    {
        assert(all.take(i + 1).drop_last() =~= all.take(i as int));
        assert(all.take(i + 1).last() == nodes@[i as int].deep_view());
        out.append("  - ");
        out.append(nodes[i].value.as_str());
        out.append("\n");
    }
    assert(all.take(nodes.len() as int) =~= all);
    out
}

/// `label_of`, executable.
fn find_label(nodes: &Vec<DrawioNode>, id: &str) -> (r: Option<String>)
    ensures
        r.deep_view() == label_of(nodes.deep_view(), id@),
{
    let ghost all = nodes.deep_view();
    let mut i: usize = nodes.len();
    assert(all.take(i as int) =~= all);
    while i > 0
        invariant
            i <= nodes@.len(),
            all == nodes.deep_view(),
            label_of(all, id@) == label_of(all.take(i as int), id@),
        decreases i,
    {
        assert(all.take(i as int).drop_last() =~= all.take(i - 1));
        assert(all.take(i as int).last() == nodes@[i - 1].deep_view());
        i -= 1;
        if same(nodes[i].id.as_str(), id) {
            return Some(nodes[i].value.clone());
        }
    }
    None
}

/// `end_text`, executable.
fn end_text_of(nodes: &Vec<DrawioNode>, id: &Option<String>) -> (r: String)
    ensures
        r@ == end_text(nodes.deep_view(), id.deep_view()),
{
    match id {
        None => "(?)".to_owned(),
        Some(id) => match find_label(nodes, id.as_str()) {
            Some(label) => label,
            None => "(?)".to_owned(),
        },
    }
}

/// `edge_line`, executable.
fn edge_line_of(nodes: &Vec<DrawioNode>, e: &DrawioEdge) -> (r: String)
    ensures
        r@ == edge_line(nodes.deep_view(), e.deep_view()),
{
    let mut out = "  ".to_owned();
    out.append(end_text_of(nodes, &e.source).as_str());
    out.append(" -> ");
    out.append(end_text_of(nodes, &e.target).as_str());
    if !is_blank(e.value.as_str()) {
        out.append(": ");
        out.append(e.value.as_str());
    }
    out.append("\n");
    out
}

/// `edge_lines`, executable.
fn edge_lines_of(nodes: &Vec<DrawioNode>, edges: &Vec<DrawioEdge>) -> (r: String)
    ensures
        r@ == edge_lines(nodes.deep_view(), edges.deep_view()),
{
    let ghost all = edges.deep_view();
    let mut out = String::new();
    assert(out@ =~= edge_lines(nodes.deep_view(), all.take(0)));
    for i in 0..edges.len()
        invariant
            all == edges.deep_view(),
            out@ == edge_lines(nodes.deep_view(), all.take(i as int)),
    {
        assert(all.take(i + 1).drop_last() =~= all.take(i as int));
        assert(all.take(i + 1).last() == edges@[i as int].deep_view());
        out.append(edge_line_of(nodes, &edges[i]).as_str());
    }
    assert(all.take(edges.len() as int) =~= all);
    out
}

/// `page_body`, executable.
fn page_body_of(page: &DrawioPage) -> (r: String)
    ensures
        r@ == page_body(page.deep_view()),
{
    let mut out = String::new();
    if page.nodes.len() > 0 {
        out.append("ノード:\n");
        out.append(node_lines_of(&page.nodes).as_str());
    }
    let ghost nodes = out@;
    if page.edges.len() > 0 {
        out.append("接続:\n");
        out.append(edge_lines_of(&page.nodes, &page.edges).as_str());
    }
    assert(out@ =~= page_body(page.deep_view()));
    out
}

/// `page_heading`, executable.
fn page_heading_of(n: u64, name: &Option<String>) -> (r: String)
    ensures
        r@ == page_heading(n as nat, name.deep_view()),
{
    let mut out = "--- ページ".to_owned();
    out.append(number(n).as_str());
    out.append(" ");
    match name {
        Some(name) => out.append(name.as_str()),
        None => out.append("(無題)"),
    }
    out.append(" ---\n");
    out
}

/// `page_text`, executable.
fn page_text_of(n: u64, page: &DrawioPage, headings: bool) -> (r: String)
    ensures
        r@ == page_text(n as nat, page.deep_view(), headings),
{
    let body = page_body_of(page);
    if headings {
        let mut out = page_heading_of(n, &page.name);
        out.append(body.as_str());
        out
    } else {
        body
    }
}

/// A diagram as text, with a title where there is one.
pub fn to_text(d: &DrawioDiagram, title_hint: Option<&str>) -> (r: String)
    ensures
        r@ == diagram_text(d.deep_view(), title_hint.deep_view()),
{
    let ghost all = d.pages.deep_view();
    let mut out = heading_of("draw.io 図", title_hint);
    let ghost head = out@;
    let headings = d.pages.len() > 1;
    assert(head + pages_text(all.take(0), headings) =~= out@);
    for i in 0..d.pages.len()
        invariant
            all == d.pages.deep_view(),
            headings == (all.len() > 1),
            out@ == head + pages_text(all.take(i as int), headings),
    {
        let ghost now = all.take(i + 1);
        assert(now.drop_last() =~= all.take(i as int));
        assert(now.last() == d.pages@[i as int].deep_view());
        let ghost before = pages_text(all.take(i as int), headings);
        let page = page_text_of(i as u64 + 1, &d.pages[i], headings);
        assert(pages_text(now, headings) == before + page@);
        out.append(page.as_str());
        assert(out@ =~= head + (before + page@));
    }
    assert(all.take(d.pages.len() as int) =~= all);
    out
}

/// A diagram as text, with a title where there is one.
pub fn to_text_pub(d: &DrawioDiagram, title_hint: Option<&str>) -> (r: String)
    ensures
        r@ == diagram_text(d.deep_view(), title_hint.deep_view()),
{
    to_text(d, title_hint)
}

// ---------------------------------------------------------------------------
// Laws

proof fn lemma_without_tags(s: Seq<char>, tag: bool)
    ensures
        !without_tags(s, tag).contains('<'),
        !without_tags(s, tag).contains('>'),
    decreases s.len(),
{
    if s.len() > 0 {
        lemma_without_tags(s.drop_first(), true);
        lemma_without_tags(s.drop_first(), false);
        let rest = without_tags(s.drop_first(), false);
        let all = seq![s[0]] + rest;
        assert forall|i: int| 0 < i < all.len() implies #[trigger] all[i] == rest[i - 1] by {}
        assert forall|c: char| c != s[0] && !rest.contains(c) implies !#[trigger] all.contains(
            c,
        ) by {
            if all.contains(c) {
                let i = choose|i: int| 0 <= i < all.len() && all[i] == c;
                assert(all[i] == if i == 0 { s[0] } else { rest[i - 1] });
            }
        }
    }
}

/// No tag is left in the text of a label: it holds no angle bracket.
pub proof fn law_label_holds_no_tag(s: Seq<char>)
    ensures
        !label_text(s).contains('<'),
        !label_text(s).contains('>'),
{
    lemma_without_tags(s, false);
    text::lemma_single_spaced_chars(without_tags(s, false), '<');
    text::lemma_single_spaced_chars(without_tags(s, false), '>');
}

proof fn lemma_add_cell_labels(m: ModelView, tag: TagToken)
    requires
        forall|i: int| 0 <= i < m.nodes.len() ==> !text::blank(#[trigger] m.nodes[i].value),
    ensures
        forall|i: int|
            0 <= i < add_cell(m, tag).nodes.len() ==> !text::blank(
                #[trigger] add_cell(m, tag).nodes[i].value,
            ),
{
}

/// Every node of a graph has a label.
pub proof fn law_nodes_have_labels(events: Seq<XmlToken>, i: int, m: ModelView)
    requires
        forall|k: int| 0 <= k < m.nodes.len() ==> !text::blank(#[trigger] m.nodes[k].value),
    ensures
        model_from(events, i, m) matches Ok((r, _)) ==> forall|k: int|
            0 <= k < r.nodes.len() ==> !text::blank(#[trigger] r.nodes[k].value),
    decreases events.len() - i,
{
    if 0 <= i < events.len() {
        match events[i] {
            XmlToken::Start(tag) => {
                lemma_add_cell_labels(m, tag);
                law_nodes_have_labels(events, i + 1, add_cell(m, tag));
                law_nodes_have_labels(events, i + 1, m);
            },
            XmlToken::Empty(tag) => {
                lemma_add_cell_labels(m, tag);
                law_nodes_have_labels(events, i + 1, add_cell(m, tag));
                law_nodes_have_labels(events, i + 1, m);
            },
            _ => {
                law_nodes_have_labels(events, i + 1, m);
            },
        }
    }
}

/// Whether a percent sign is at position `i`.
spec fn percent_at(a: Seq<u8>, i: int) -> bool {
    0 <= i < a.len() && a[i] as char == '%'
}

/// Whether an escape is at position `i`, within `a`.
spec fn escape_at(a: Seq<u8>, i: int) -> bool {
    0 <= i && i + 2 < a.len() && escaped_byte(a[i + 1], a[i + 2]) is Some
}

/// Whether every percent sign in `a` begins an escape, within `a`.
spec fn escapes_whole(a: Seq<u8>) -> bool {
    forall|i: int| #[trigger] percent_at(a, i) ==> escape_at(a, i)
}

proof fn lemma_escapes_rest(a: Seq<u8>, n: int)
    requires
        escapes_whole(a),
        0 <= n <= a.len(),
    ensures
        escapes_whole(a.skip(n)),
{
    let rest = a.skip(n);
    assert forall|i: int| #[trigger] percent_at(rest, i) implies escape_at(rest, i) by {
        assert(percent_at(a, i + n));
        assert(escape_at(a, i + n));
    }
}

proof fn lemma_escapes_whole_append(a: Seq<u8>, b: Seq<u8>)
    requires
        escapes_whole(a),
        escapes_whole(b),
    ensures
        escapes_whole(a + b),
{
    let all = a + b;
    assert forall|i: int| #[trigger] percent_at(all, i) implies escape_at(all, i) by {
        if i < a.len() {
            assert(percent_at(a, i));
            assert(escape_at(a, i));
        } else {
            assert(percent_at(b, i - a.len()));
            assert(escape_at(b, i - a.len()));
        }
    }
}

proof fn lemma_escapes_append(a: Seq<u8>, b: Seq<u8>)
    requires
        escapes_whole(a),
    ensures
        percent_decoded(a + b) == percent_decoded(a) + percent_decoded(b),
    decreases a.len(),
{
    let all = a + b;
    if a.len() == 0 {
        assert(all =~= b);
        assert(percent_decoded(a) + percent_decoded(b) =~= percent_decoded(b));
    } else {
        let n: int = if percent_at(a, 0) {
            3
        } else {
            1
        };
        assert(percent_at(a, 0) ==> escape_at(a, 0));
        let rest = a.skip(n);
        assert(all.skip(n) =~= rest + b);
        lemma_escapes_rest(a, n);
        lemma_escapes_append(rest, b);
        let x = percent_decoded(rest);
        let y = percent_decoded(b);
        let first = if n == 3 {
            escaped_byte(a[1], a[2])->0
        } else if a[0] as char == '+' {
            ' ' as u8
        } else {
            a[0]
        };
        assert(percent_decoded(a) == seq![first] + x);
        assert(percent_decoded(all) == seq![first] + percent_decoded(rest + b));
        assert(seq![first] + (x + y) =~= (seq![first] + x) + y);
    }
}

proof fn lemma_form_byte(b: u8)
    ensures
        vstd::utf8::is_ascii_chars(codec::form_byte(b)),
        escapes_whole(vstd::utf8::encode_utf8(codec::form_byte(b))),
        percent_decoded(vstd::utf8::encode_utf8(codec::form_byte(b))) == seq![b],
{
    let c = codec::form_byte(b);
    let e = vstd::utf8::encode_utf8(c);
    vstd::utf8::is_ascii_chars_encode_utf8(c);
    let none = e.skip(e.len() as int);
    assert(percent_decoded(none) =~= Seq::empty());
    assert(c[0] as u8 == e[0]);
    if c.len() == 1 {
        assert(e.skip(1) =~= none);
        assert(!percent_at(e, 0));
        assert(percent_decoded(e) =~= seq![b]);
    } else {
        assert(c[1] as u8 == e[1] && c[2] as u8 == e[2]);
        assert(escaped_byte(e[1], e[2]) == Some(b));
        assert(e.skip(3) =~= none);
        assert(escape_at(e, 0));
        assert(!percent_at(e, 1) && !percent_at(e, 2));
        assert(percent_decoded(e) =~= seq![b]);
    }
}

proof fn lemma_ascii_concat(a: Seq<char>, b: Seq<char>)
    requires
        vstd::utf8::is_ascii_chars(a),
        vstd::utf8::is_ascii_chars(b),
    ensures
        vstd::utf8::is_ascii_chars(a + b),
        vstd::utf8::encode_utf8(a + b) == vstd::utf8::encode_utf8(a) + vstd::utf8::encode_utf8(b),
{
    let all = a + b;
    assert forall|i: int| 0 <= i < all.len() implies '\0' <= #[trigger] all[i] <= '\u{7f}' by {
        if i < a.len() {
            assert(all[i] == a[i]);
        } else {
            assert(all[i] == b[i - a.len()]);
        }
    }
    vstd::utf8::is_ascii_chars_encode_utf8(all);
    vstd::utf8::is_ascii_chars_encode_utf8(a);
    vstd::utf8::is_ascii_chars_encode_utf8(b);
    let e = vstd::utf8::encode_utf8(all);
    let ea = vstd::utf8::encode_utf8(a);
    let eb = vstd::utf8::encode_utf8(b);
    assert forall|i: int| 0 <= i < e.len() implies e[i] == (ea + eb)[i] by {
        assert(all[i] as u8 == e[i]);
        if i < a.len() {
            assert(a[i] as u8 == ea[i]);
        } else {
            assert(b[i - a.len()] as u8 == eb[i - a.len()]);
        }
    }
    assert(e =~= ea + eb);
}

proof fn lemma_one_byte_more(front: Seq<u8>, back: Seq<u8>, bytes: Seq<u8>)
    requires
        bytes.len() > 0,
        escapes_whole(front),
        escapes_whole(back),
        percent_decoded(front) == bytes.drop_last(),
        percent_decoded(back) == seq![bytes.last()],
    ensures
        escapes_whole(front + back),
        percent_decoded(front + back) == bytes,
{
    lemma_escapes_append(front, back);
    lemma_escapes_whole_append(front, back);
    assert(bytes.drop_last() + seq![bytes.last()] =~= bytes);
}

#[verifier::spinoff_prover]
proof fn lemma_form_encoded(bytes: Seq<u8>)
    ensures
        vstd::utf8::is_ascii_chars(codec::form_encoded(bytes)),
        escapes_whole(vstd::utf8::encode_utf8(codec::form_encoded(bytes))),
        percent_decoded(vstd::utf8::encode_utf8(codec::form_encoded(bytes))) == bytes,
    decreases bytes.len(),
{
    if bytes.len() == 0 {
            let none = Seq::<char>::empty();
        vstd::utf8::is_ascii_chars_encode_utf8(none);
        assert(vstd::utf8::encode_utf8(none) =~= bytes);
    } else {
        let prev = codec::form_encoded(bytes.drop_last());
        let last = codec::form_byte(bytes.last());
        lemma_form_encoded(bytes.drop_last());
        lemma_form_byte(bytes.last());
        lemma_ascii_concat(prev, last);
        lemma_one_byte_more(
            vstd::utf8::encode_utf8(prev),
            vstd::utf8::encode_utf8(last),
            bytes,
        );
    }
}

/// Decoding escapes undoes the form encoding of URLs.
pub proof fn law_decoding_undoes_form_encoding(bytes: Seq<u8>)
    ensures
        percent_decoded(vstd::utf8::encode_utf8(codec::form_encoded(bytes))) == bytes,
{
    lemma_form_encoded(bytes);
}

/// A byte as a percent escape.
pub open spec fn escape_of(b: u8) -> Seq<char> {
    seq!['%', codec::hex_digit(b as int / 16), codec::hex_digit(b as int % 16)]
}

/// Bytes with every one of them escaped.
pub open spec fn percent_encoded(bytes: Seq<u8>) -> Seq<char>
    decreases bytes.len(),
{
    if bytes.len() == 0 {
        Seq::empty()
    } else {
        percent_encoded(bytes.drop_last()) + escape_of(bytes.last())
    }
}

proof fn lemma_escape_of(b: u8)
    ensures
        vstd::utf8::is_ascii_chars(escape_of(b)),
        escapes_whole(vstd::utf8::encode_utf8(escape_of(b))),
        percent_decoded(vstd::utf8::encode_utf8(escape_of(b))) == seq![b],
{
    let c = escape_of(b);
    let e = vstd::utf8::encode_utf8(c);
    vstd::utf8::is_ascii_chars_encode_utf8(c);
    let none = e.skip(e.len() as int);
    assert(percent_decoded(none) =~= Seq::empty());
    assert(c[0] as u8 == e[0] && c[1] as u8 == e[1] && c[2] as u8 == e[2]);
    assert(escaped_byte(e[1], e[2]) == Some(b));
    assert(e.skip(3) =~= none);
    assert(escape_at(e, 0));
    assert(!percent_at(e, 1) && !percent_at(e, 2));
    assert(percent_decoded(e) =~= seq![b]);
}

#[verifier::spinoff_prover]
proof fn lemma_percent_encoded(bytes: Seq<u8>)
    ensures
        vstd::utf8::is_ascii_chars(percent_encoded(bytes)),
        escapes_whole(vstd::utf8::encode_utf8(percent_encoded(bytes))),
        percent_decoded(vstd::utf8::encode_utf8(percent_encoded(bytes))) == bytes,
        bytes.len() > 0 ==> percent_encoded(bytes).len() > 0 && percent_encoded(bytes)[0] == '%',
    decreases bytes.len(),
{
    if bytes.len() == 0 {
        let none = Seq::<char>::empty();
        vstd::utf8::is_ascii_chars_encode_utf8(none);
        assert(vstd::utf8::encode_utf8(none) =~= bytes);
    } else {
        let prev = percent_encoded(bytes.drop_last());
        let last = escape_of(bytes.last());
        lemma_percent_encoded(bytes.drop_last());
        lemma_escape_of(bytes.last());
        lemma_ascii_concat(prev, last);
        lemma_one_byte_more(
            vstd::utf8::encode_utf8(prev),
            vstd::utf8::encode_utf8(last),
            bytes,
        );
    }
}

/// Markup whose bytes are all escaped is decoded to what it was, and markup
/// that is XML already stays as it is.
pub proof fn law_markup_is_decoded(markup: Seq<char>)
    ensures
        url_decoded(percent_encoded(vstd::utf8::encode_utf8(markup))) == markup,
        looks_like_xml(markup) ==> url_decoded(markup) == markup,
{
    let bytes = vstd::utf8::encode_utf8(markup);
    let s = percent_encoded(bytes);
    lemma_percent_encoded(bytes);
    codec::law_encoded_text_reads_back(markup);
    reveal_strlit("<");
    assert(text::trim_start(s) =~= s);
    if looks_like_xml(s) {
        assert("<"@[0] == s[0]);
    }
}

} // verus!
