//! Laws on the pages of draw.io files, which may be compressed or not.
use crate::chunking::laws;
use crate::codec;
use crate::diagrams::drawio;
use crate::diagrams::drawio::{
    DecodeError, DrawioErrorView, EdgeView, FileView, ModelView, NodeView, PageView,
};
use crate::text;
use crate::xml;
use crate::xml::{TagToken, XmlToken};
use vstd::prelude::*;

verus! {

/// Whether `events` neither begin nor end a page or a graph, nor end the file.
pub open spec fn is_frame(events: Seq<XmlToken>) -> bool {
    forall|i: int| 0 <= i < events.len() ==> is_frame_event(#[trigger] events[i])
}

/// Whether an event neither begins nor ends a page or a graph, nor ends the
/// file.
pub open spec fn is_frame_event(e: XmlToken) -> bool {
    match e {
        XmlToken::Start(tag) => !xml::is_name(tag.name, "diagram"@) && !xml::is_name(
            tag.name,
            "mxGraphModel"@,
        ),
        XmlToken::End(name) => !xml::is_name(name, "diagram"@),
        _ => !xml::is_last(e),
    }
}

/// Whether `events` are one element `mxGraphModel`.
pub open spec fn is_graph(events: Seq<XmlToken>) -> bool {
    &&& events.len() >= 2
    &&& events[0] matches XmlToken::Start(tag) && xml::is_name(tag.name, "mxGraphModel"@)
    &&& ends_graph(events.last())
    &&& forall|i: int|
        0 < i < events.len() - 1 ==> !xml::is_last(#[trigger] events[i]) && !ends_graph(events[i])
}

/// Whether an event ends a graph.
pub open spec fn ends_graph(e: XmlToken) -> bool {
    e matches XmlToken::End(name) && xml::is_name(name, "mxGraphModel"@)
}

/// The graph that the element holds.
pub open spec fn graph_of(events: Seq<XmlToken>) -> ModelView {
    match drawio::model_from(events, 1, drawio::empty_model()) {
        Ok((m, _)) => m,
        Err(_) => drawio::empty_model(),
    }
}

/// The events of a file with one page, in which `inner` stands.
pub open spec fn one_page_file(
    head: Seq<XmlToken>,
    tag: TagToken,
    inner: Seq<XmlToken>,
    end: Seq<u8>,
    tail: Seq<XmlToken>,
) -> Seq<XmlToken> {
    head + seq![XmlToken::Start(tag)] + inner + seq![XmlToken::End(end)] + tail + seq![
        XmlToken::Eof,
    ]
}

/// Whether `payload` is the markup of a graph as a compressed page holds it:
/// in base64, deflated, as it is or with all its bytes escaped.
pub open spec fn packs(payload: Seq<char>, markup: Seq<char>) -> bool {
    &&& text::trim(payload).len() > 0
    &&& match codec::base64_bytes(text::trim(payload)) {
        Some(bytes) => match codec::inflated_text(bytes) {
            Some(t) => (t == markup && drawio::looks_like_xml(markup)) || t == drawio::percent_encoded(
                vstd::utf8::encode_utf8(markup),
            ),
            None => false,
        },
        None => false,
    }
}

/// A graph reads the same wherever it stands.
proof fn lemma_graph_anywhere(
    events: Seq<XmlToken>,
    from: int,
    g: Seq<XmlToken>,
    k: int,
    m: ModelView,
)
    requires
        is_graph(g),
        0 <= from,
        from + g.len() <= events.len(),
        forall|i: int| 0 <= i < g.len() ==> #[trigger] g[i] == events[from + i],
        1 <= k < g.len(),
    ensures
        drawio::model_from(g, k, m) matches Ok((r, j)) && j == g.len() && drawio::model_from(events, from + k, m)
            == Ok::<(ModelView, int), Seq<char>>((r, from + g.len())),
    decreases g.len() - k,
{
    assert(g[k] == events[from + k]);
    if k < g.len() - 1 {
        match g[k] {
            XmlToken::Start(tag) => {
                lemma_graph_anywhere(events, from, g, k + 1, drawio::add_cell(m, tag));
                lemma_graph_anywhere(events, from, g, k + 1, m);
            },
            XmlToken::Empty(tag) => {
                lemma_graph_anywhere(events, from, g, k + 1, drawio::add_cell(m, tag));
                lemma_graph_anywhere(events, from, g, k + 1, m);
            },
            _ => {
                lemma_graph_anywhere(events, from, g, k + 1, m);
            },
        }
    }
}

/// What frames a page adds nothing.
proof fn lemma_frame(events: Seq<XmlToken>, i: int, j: int, st: FileView)
    requires
        0 <= i <= j <= events.len(),
        forall|k: int| i <= k < j ==> is_frame_event(#[trigger] events[k]),
        !st.in_diagram,
    ensures
        drawio::pages_from(events, i, st) == drawio::pages_from(events, j, st),
    decreases j - i,
{
    if i < j {
        assert(is_frame_event(events[i]));
        lemma_frame(events, i + 1, j, st);
    }
}

proof fn lemma_page_names()
    ensures
        forall|name: Seq<u8>|
            #[trigger] xml::is_name(name, "mxGraphModel"@) ==> !xml::is_name(name, "diagram"@),
{
    reveal_strlit("mxGraphModel");
    reveal_strlit("diagram");
    assert("mxGraphModel"@.len() == 12 && "diagram"@.len() == 7);
    vstd::utf8::encode_utf8_decode_utf8("mxGraphModel"@);
    vstd::utf8::encode_utf8_decode_utf8("diagram"@);
}

/// The state of a file with a page that is just read.
spec fn one_page(tag: TagToken, m: ModelView) -> Seq<PageView> {
    seq![PageView { name: xml::attribute(tag.attrs, "name"@), nodes: m.nodes, edges: m.edges }]
}

/// The pages of a file are those that are read up to the end of its only one.
proof fn lemma_behind_page(
    head: Seq<XmlToken>,
    tag: TagToken,
    inner: Seq<XmlToken>,
    end: Seq<u8>,
    tail: Seq<XmlToken>,
    st: FileView,
)
    requires
        is_frame(tail),
        !st.in_diagram,
    ensures
        drawio::pages_from(
            one_page_file(head, tag, inner, end, tail),
            (head.len() + inner.len() + 2) as int,
            st,
        ) == Ok::<Seq<PageView>, DrawioErrorView>(st.pages),
{
    let events = one_page_file(head, tag, inner, end, tail);
    let from = (head.len() + inner.len() + 2) as int;
    let to = from + tail.len();
    assert forall|k: int| from <= k < to implies is_frame_event(#[trigger] events[k]) by {
        assert(events[k] == tail[k - from]);
    }
    lemma_frame(events, from, to, st);
    assert(events[to] == XmlToken::Eof);
}

/// A page begins behind what frames it.
proof fn lemma_before_page(
    head: Seq<XmlToken>,
    tag: TagToken,
    inner: Seq<XmlToken>,
    end: Seq<u8>,
    tail: Seq<XmlToken>,
)
    requires
        is_frame(head),
        xml::is_name(tag.name, "diagram"@),
    ensures
        drawio::diagram_of(one_page_file(head, tag, inner, end, tail)) == drawio::pages_from(
            one_page_file(head, tag, inner, end, tail),
            (head.len() + 1) as int,
            FileView {
                in_diagram: true,
                page_name: xml::attribute(tag.attrs, "name"@),
                ..drawio::file_start()
            },
        ),
{
    let events = one_page_file(head, tag, inner, end, tail);
    let n = head.len() as int;
    assert forall|k: int| 0 <= k < n implies is_frame_event(#[trigger] events[k]) by {
        assert(events[k] == head[k]);
    }
    lemma_frame(events, 0, n, drawio::file_start());
    assert(events[n] == XmlToken::Start(tag));
}

/// A file with one plain page holds its graph.
proof fn lemma_plain_page(
    head: Seq<XmlToken>,
    tag: TagToken,
    g: Seq<XmlToken>,
    end: Seq<u8>,
    tail: Seq<XmlToken>,
)
    requires
        is_frame(head),
        is_frame(tail),
        xml::is_name(tag.name, "diagram"@),
        xml::is_name(end, "diagram"@),
        is_graph(g),
    ensures
        drawio::diagram_of(one_page_file(head, tag, g, end, tail)) == Ok::<Seq<PageView>, DrawioErrorView>(
            one_page(tag, graph_of(g)),
        ),
{
    let events = one_page_file(head, tag, g, end, tail);
    let from = (head.len() + 1) as int;
    let to = from + g.len();
    lemma_before_page(head, tag, g, end, tail);
    lemma_page_names();
    assert forall|i: int| 0 <= i < g.len() implies #[trigger] g[i] == events[from + i] by {}
    lemma_graph_anywhere(events, from, g, 1, drawio::empty_model());
    assert(events[from] == g[0]);
    assert(events[to] == XmlToken::End(end));
    let begun = FileView {
        in_diagram: true,
        page_name: xml::attribute(tag.attrs, "name"@),
        ..drawio::file_start()
    };
    let read = drawio::add_page(begun, graph_of(g));
    assert(drawio::pages_from(events, from, begun) == drawio::pages_from(events, to, read));
    let closed = FileView { in_diagram: false, ..read };
    assert(drawio::after_diagram(read) == Ok::<FileView, Seq<char>>(closed));
    lemma_behind_page(head, tag, g, end, tail, closed);
    assert(closed.pages =~= one_page(tag, graph_of(g)));
}

/// What is in a payload is the graph that was packed.
proof fn lemma_payload(payload: Seq<char>, markup: Seq<char>, g: Seq<XmlToken>)
    requires
        packs(payload, markup),
        is_graph(g),
        drawio::drawio_events(vstd::utf8::encode_utf8(markup)) == g.push(XmlToken::Eof),
    ensures
        drawio::payload_model(text::trim(payload)) == Ok::<Option<ModelView>, Seq<char>>(
            Some(graph_of(g)),
        ),
{
    let events = g.push(XmlToken::Eof);
    text::lemma_trim_twice(payload);
    drawio::law_markup_is_decoded(markup);
    assert(drawio::decoded_page(text::trim(payload)) == Ok::<Seq<char>, DecodeError>(markup));
    lemma_graph_anywhere(events, 0, g, 1, drawio::empty_model());
    assert(events[0] == g[0]);
}

/// A file with one compressed page holds the graph that was packed.
proof fn lemma_packed_page(
    head: Seq<XmlToken>,
    tag: TagToken,
    payload: Seq<char>,
    end: Seq<u8>,
    tail: Seq<XmlToken>,
    markup: Seq<char>,
    g: Seq<XmlToken>,
)
    requires
        is_frame(head),
        is_frame(tail),
        xml::is_name(tag.name, "diagram"@),
        xml::is_name(end, "diagram"@),
        packs(payload, markup),
        is_graph(g),
        drawio::drawio_events(vstd::utf8::encode_utf8(markup)) == g.push(XmlToken::Eof),
    ensures
        drawio::diagram_of(one_page_file(head, tag, seq![XmlToken::Text(Some(payload))], end, tail)) == Ok::<
            Seq<PageView>,
            DrawioErrorView,
        >(one_page(tag, graph_of(g))),
{
    let inner = seq![XmlToken::Text(Some(payload))];
    let events = one_page_file(head, tag, inner, end, tail);
    let from = (head.len() + 1) as int;
    lemma_before_page(head, tag, inner, end, tail);
    lemma_payload(payload, markup, g);
    assert(events[from as int] == XmlToken::Text(Some(payload)));
    assert(events[from + 1] == XmlToken::End(end));
    let begun = FileView {
        in_diagram: true,
        page_name: xml::attribute(tag.attrs, "name"@),
        ..drawio::file_start()
    };
    let read = FileView { diagram_text: payload, ..begun };
    assert(begun.diagram_text + payload =~= payload);
    assert(drawio::pages_from(events, from as int, begun) == drawio::pages_from(events, from + 1, read));
    let closed = drawio::add_page(FileView { in_diagram: false, ..read }, graph_of(g));
    assert(drawio::after_diagram(read) == Ok::<FileView, Seq<char>>(closed));
    lemma_behind_page(head, tag, inner, end, tail, closed);
    assert(closed.pages =~= one_page(tag, graph_of(g)));
}

/// A page is read alike whether its graph stands in it as XML or compressed,
/// there as it is or with its bytes escaped: both files hold one page, with the
/// name of the page and the nodes and edges of the graph. `markup` is the graph
/// as XML, whose events are `g`.
pub proof fn law_compressed_page_is_read_alike(
    plain: Seq<u8>,
    packed: Seq<u8>,
    markup: Seq<char>,
    payload: Seq<char>,
    g: Seq<XmlToken>,
    head: Seq<XmlToken>,
    tag: TagToken,
    end: Seq<u8>,
    tail: Seq<XmlToken>,
)
    requires
        is_frame(head),
        is_frame(tail),
        xml::is_name(tag.name, "diagram"@),
        xml::is_name(end, "diagram"@),
        is_graph(g),
        drawio::drawio_events(vstd::utf8::encode_utf8(markup)) == g.push(XmlToken::Eof),
        packs(payload, markup),
        drawio::drawio_events(plain) == one_page_file(head, tag, g, end, tail),
        drawio::drawio_events(packed) == one_page_file(
            head,
            tag,
            seq![XmlToken::Text(Some(payload))],
            end,
            tail,
        ),
    ensures
        drawio::diagram_of(drawio::drawio_events(packed)) == drawio::diagram_of(drawio::drawio_events(plain)),
        drawio::diagram_of(drawio::drawio_events(plain)) == Ok::<Seq<PageView>, DrawioErrorView>(
            seq![
                PageView {
                    name: xml::attribute(tag.attrs, "name"@),
                    nodes: graph_of(g).nodes,
                    edges: graph_of(g).edges,
                },
            ],
        ),
{
    lemma_plain_page(head, tag, g, end, tail);
    lemma_packed_page(head, tag, payload, end, tail, markup, g);
}

// ---------------------------------------------------------------------------
// Files of many pages

/// An element `diagram` of a file: what frames it in front, its tag, its graph,
/// the pieces of its payload and its markup where it is compressed, and its end.
pub struct ElementView {
    pub head: Seq<XmlToken>,
    pub tag: TagToken,
    pub graph: Seq<XmlToken>,
    pub packed: Option<(Seq<XmlToken>, Seq<char>)>,
    pub end: Seq<u8>,
}

/// Whether the element holds one graph, as XML or compressed.
pub open spec fn is_element(e: ElementView) -> bool {
    &&& is_frame(e.head)
    &&& xml::is_name(e.tag.name, "diagram"@)
    &&& xml::is_name(e.end, "diagram"@)
    &&& is_graph(e.graph)
    &&& e.packed matches Some((pieces, markup)) ==> laws::is_char_data(pieces) && packs(
        laws::chars_in(pieces),
        markup,
    ) && drawio::drawio_events(vstd::utf8::encode_utf8(markup)) == e.graph.push(XmlToken::Eof)
}

/// What stands in the element.
pub open spec fn element_inner(e: ElementView) -> Seq<XmlToken> {
    match e.packed {
        Some((pieces, _)) => pieces,
        None => e.graph,
    }
}

/// The events of the element, with what frames it in front.
pub open spec fn element_events(e: ElementView) -> Seq<XmlToken> {
    e.head + seq![XmlToken::Start(e.tag)] + element_inner(e) + seq![XmlToken::End(e.end)]
}

/// The events of elements that follow one another.
pub open spec fn elements_events(elements: Seq<ElementView>) -> Seq<XmlToken>
    decreases elements.len(),
{
    if elements.len() == 0 {
        Seq::empty()
    } else {
        elements_events(elements.drop_last()) + element_events(elements.last())
    }
}

/// The state behind an element.
spec fn after_element(st: FileView, e: ElementView) -> FileView {
    FileView {
        pages: st.pages.push(
            PageView {
                name: xml::attribute(e.tag.attrs, "name"@),
                nodes: graph_of(e.graph).nodes,
                edges: graph_of(e.graph).edges,
            },
        ),
        in_diagram: false,
        diagram_text: match e.packed {
            Some((pieces, _)) => laws::chars_in(pieces),
            None => Seq::empty(),
        },
        page_name: xml::attribute(e.tag.attrs, "name"@),
    }
}

/// The pieces of a payload are put together.
proof fn lemma_pieces(
    events: Seq<XmlToken>,
    at: int,
    pieces: Seq<XmlToken>,
    k: int,
    begun: FileView,
)
    requires
        begun.in_diagram,
        laws::is_char_data(pieces),
        0 <= at,
        at + pieces.len() <= events.len(),
        forall|i: int| 0 <= i < pieces.len() ==> #[trigger] pieces[i] == events[at + i],
        0 <= k <= pieces.len(),
    ensures
        drawio::pages_from(events, at, begun) == drawio::pages_from(
            events,
            at + k,
            FileView {
                diagram_text: begun.diagram_text + laws::chars_in(pieces.take(k)),
                ..begun
            },
        ),
    decreases k,
{
    let none = Seq::<char>::empty();
    if k == 0 {
        assert(pieces.take(0) =~= Seq::empty());
        assert(begun.diagram_text + none =~= begun.diagram_text);
    } else {
        lemma_pieces(events, at, pieces, k - 1, begun);
        assert(pieces.take(k).drop_last() =~= pieces.take(k - 1));
        assert(pieces.take(k).last() == pieces[k - 1]);
        assert(pieces[k - 1] == events[at + (k - 1)]);
        assert(pieces[k - 1] is Text || pieces[k - 1] is CData);
        let before = laws::chars_in(pieces.take(k - 1));
        match pieces[k - 1] {
            XmlToken::Text(Some(s)) => {
                assert(begun.diagram_text + (before + s) =~= begun.diagram_text + before + s);
            },
            XmlToken::CData(data) => {
                let s = codec::utf8_text(data);
                assert(begun.diagram_text + (before + s) =~= begun.diagram_text + before + s);
            },
            _ => {
                assert(before + none =~= before);
            },
        }
    }
}

proof fn lemma_element(events: Seq<XmlToken>, from: int, st: FileView, e: ElementView)
    requires
        is_element(e),
        !st.in_diagram,
        0 <= from,
        from + element_events(e).len() <= events.len(),
        forall|i: int|
            0 <= i < element_events(e).len() ==> #[trigger] element_events(e)[i] == events[from + i],
    ensures
        drawio::pages_from(events, from, st) == drawio::pages_from(
            events,
            from + element_events(e).len(),
            after_element(st, e),
        ),
{
    let own = element_events(e);
    let inner = element_inner(e);
    let n = e.head.len() as int;
    assert forall|k: int| from <= k < from + n implies is_frame_event(#[trigger] events[k]) by {
        assert(own[k - from] == e.head[k - from]);
        assert(events[k] == own[k - from]);
        assert(is_frame_event(e.head[k - from]));
    }
    lemma_frame(events, from, from + n, st);
    assert(own[n] == XmlToken::Start(e.tag));
    assert(events[from + n] == XmlToken::Start(e.tag));
    let begun = FileView {
        in_diagram: true,
        diagram_text: Seq::empty(),
        page_name: xml::attribute(e.tag.attrs, "name"@),
        ..st
    };
    let at = from + n + 1;
    let to = at + inner.len();
    assert(drawio::pages_from(events, from, st) == drawio::pages_from(events, at, begun));
    assert(own[n + 1 + inner.len()] == XmlToken::End(e.end));
    assert(events[to] == own[n + 1 + inner.len()]);
    match e.packed {
        Some((pieces, markup)) => {
            let payload = laws::chars_in(pieces);
            lemma_payload(payload, markup, e.graph);
            assert forall|i: int| 0 <= i < pieces.len() implies #[trigger] pieces[i] == events[at
                + i] by {
                assert(own[n + 1 + i] == pieces[i]);
                assert(events[from + (n + 1 + i)] == own[n + 1 + i]);
            }
            lemma_pieces(events, at, pieces, pieces.len() as int, begun);
            assert(pieces.take(pieces.len() as int) =~= pieces);
            let read = FileView { diagram_text: payload, ..begun };
            assert(begun.diagram_text + payload =~= payload);
            assert(drawio::pages_from(events, at, begun) == drawio::pages_from(events, to, read));
            let closed = drawio::add_page(FileView { in_diagram: false, ..read }, graph_of(e.graph));
            assert(drawio::after_diagram(read) == Ok::<FileView, Seq<char>>(closed));
            assert(closed == after_element(st, e));
        },
        None => {
            lemma_page_names();
            assert forall|i: int| 0 <= i < e.graph.len() implies #[trigger] e.graph[i] == events[at
                + i] by {
                assert(own[n + 1 + i] == e.graph[i]);
                assert(events[from + (n + 1 + i)] == own[n + 1 + i]);
            }
            lemma_graph_anywhere(events, at, e.graph, 1, drawio::empty_model());
            assert(events[at + 0] == e.graph[0]);
            let read = drawio::add_page(begun, graph_of(e.graph));
            assert(drawio::pages_from(events, at, begun) == drawio::pages_from(events, to, read));
            let closed = FileView { in_diagram: false, ..read };
            assert(text::trim(read.diagram_text).len() == 0);
            assert(drawio::after_diagram(read) == Ok::<FileView, Seq<char>>(closed));
            assert(closed == after_element(st, e));
        },
    }
}

/// The pages of elements that follow one another.
spec fn element_pages(elements: Seq<ElementView>) -> Seq<PageView> {
    Seq::new(
        elements.len(),
        |k: int|
            PageView {
                name: xml::attribute(elements[k].tag.attrs, "name"@),
                nodes: graph_of(elements[k].graph).nodes,
                edges: graph_of(elements[k].graph).edges,
            },
    )
}

proof fn lemma_elements(events: Seq<XmlToken>, elements: Seq<ElementView>) -> (st: FileView)
    requires
        forall|k: int| 0 <= k < elements.len() ==> is_element(#[trigger] elements[k]),
        elements_events(elements).len() <= events.len(),
        forall|i: int|
            0 <= i < elements_events(elements).len() ==> #[trigger] elements_events(elements)[i]
                == events[i],
    ensures
        !st.in_diagram,
        st.pages == element_pages(elements),
        drawio::diagram_of(events) == drawio::pages_from(
            events,
            elements_events(elements).len() as int,
            st,
        ),
    decreases elements.len(),
{
    if elements.len() == 0 {
        assert(element_pages(elements) =~= Seq::empty());
        drawio::file_start()
    } else {
        let prev = elements.drop_last();
        let e = elements.last();
        let all = elements_events(elements);
        let before = elements_events(prev);
        assert forall|k: int| 0 <= k < prev.len() implies is_element(#[trigger] prev[k]) by {
            assert(prev[k] == elements[k]);
        }
        assert(is_element(elements[elements.len() - 1]));
        assert forall|i: int| 0 <= i < before.len() implies #[trigger] before[i] == events[i] by {
            assert(all[i] == before[i]);
        }
        let st = lemma_elements(events, prev);
        let from = before.len() as int;
        assert forall|i: int| 0 <= i < element_events(e).len() implies #[trigger] element_events(
            e,
        )[i] == events[from + i] by {
            assert(all[from + i] == element_events(e)[i]);
        }
        lemma_element(events, from, st, e);
        let next = after_element(st, e);
        assert(next.pages =~= element_pages(elements)) by {
            assert(element_pages(prev) =~= element_pages(elements).drop_last());
        }
        next
    }
}

/// A file of any number of elements `diagram`, each with one graph, plain or
/// compressed, is read as exactly as many pages, in their order: each has the
/// name of its element and the nodes and edges of its graph.
pub proof fn law_every_page_is_read(
    file: Seq<u8>,
    elements: Seq<ElementView>,
    tail: Seq<XmlToken>,
)
    requires
        forall|k: int| 0 <= k < elements.len() ==> is_element(#[trigger] elements[k]),
        is_frame(tail),
        drawio::drawio_events(file) == elements_events(elements) + tail + seq![XmlToken::Eof],
    ensures
        drawio::diagram_of(drawio::drawio_events(file)) matches Ok(pages) && pages.len()
            == elements.len() && forall|k: int|
            0 <= k < elements.len() ==> (#[trigger] pages[k]).name == xml::attribute(
                elements[k].tag.attrs,
                "name"@,
            ) && pages[k].nodes == graph_of(elements[k].graph).nodes && pages[k].edges == graph_of(
                elements[k].graph,
            ).edges,
{
    let events = drawio::drawio_events(file);
    let before = elements_events(elements);
    let st = lemma_elements(events, elements);
    let from = before.len() as int;
    let to = from + tail.len();
    assert forall|k: int| from <= k < to implies is_frame_event(#[trigger] events[k]) by {
        assert(events[k] == tail[k - from]);
    }
    lemma_frame(events, from, to, st);
    assert(events[to] == XmlToken::Eof);
}

/// A file that is malformed behind its pages is refused, with what is wrong.
pub proof fn law_malformed_file_is_refused(
    elements: Seq<ElementView>,
    tail: Seq<XmlToken>,
    fault: Seq<char>,
)
    requires
        forall|k: int| 0 <= k < elements.len() ==> is_element(#[trigger] elements[k]),
        is_frame(tail),
    ensures
        drawio::diagram_of(elements_events(elements) + tail + seq![XmlToken::Malformed(fault)])
            == Err::<Seq<PageView>, DrawioErrorView>(DrawioErrorView::Xml(fault)),
{
    let before = elements_events(elements);
    let events = before + tail + seq![XmlToken::Malformed(fault)];
    assert forall|i: int| 0 <= i < before.len() implies #[trigger] before[i] == events[i] by {}
    let st = lemma_elements(events, elements);
    let from = before.len() as int;
    let to = from + tail.len();
    assert forall|k: int| from <= k < to implies is_frame_event(#[trigger] events[k]) by {
        assert(events[k] == tail[k - from]);
    }
    lemma_frame(events, from, to, st);
    assert(events[to] == XmlToken::Malformed(fault));
}

proof fn lemma_fault_in_graph(events: Seq<XmlToken>, i: int, n: int, m: ModelView, fault: Seq<char>)
    requires
        0 <= i <= n < events.len(),
        events[n] == XmlToken::Malformed(fault),
        forall|k: int| i <= k < n ==> !xml::is_last(#[trigger] events[k]) && !ends_graph(events[k]),
    ensures
        drawio::model_from(events, i, m) == Err::<(ModelView, int), Seq<char>>(fault),
    decreases n - i,
{
    if i < n {
        assert(!xml::is_last(events[i]) && !ends_graph(events[i]));
        lemma_fault_in_graph(events, i + 1, n, m, fault);
        match events[i] {
            XmlToken::Start(tag) => {
                lemma_fault_in_graph(events, i + 1, n, drawio::add_cell(m, tag), fault);
            },
            XmlToken::Empty(tag) => {
                lemma_fault_in_graph(events, i + 1, n, drawio::add_cell(m, tag), fault);
            },
            _ => {},
        }
    }
}

/// A file that is malformed inside of a graph is refused, with what is wrong.
pub proof fn law_malformed_graph_is_refused(
    elements: Seq<ElementView>,
    head: Seq<XmlToken>,
    tag: TagToken,
    inner: Seq<XmlToken>,
    fault: Seq<char>,
)
    requires
        forall|k: int| 0 <= k < elements.len() ==> is_element(#[trigger] elements[k]),
        is_frame(head),
        xml::is_name(tag.name, "mxGraphModel"@),
        stands_in_graph(inner),
    ensures
        drawio::diagram_of(
            elements_events(elements) + head + seq![XmlToken::Start(tag)] + inner + seq![
                XmlToken::Malformed(fault),
            ],
        ) == Err::<Seq<PageView>, DrawioErrorView>(DrawioErrorView::Model(fault)),
{
    let before = elements_events(elements);
    let events = before + head + seq![XmlToken::Start(tag)] + inner + seq![
        XmlToken::Malformed(fault),
    ];
    assert forall|i: int| 0 <= i < before.len() implies #[trigger] before[i] == events[i] by {}
    let st = lemma_elements(events, elements);
    let from = before.len() as int;
    let to = from + head.len();
    let n = to + 1 + inner.len();
    assert forall|k: int| from <= k < to implies is_frame_event(#[trigger] events[k]) by {
        assert(events[k] == head[k - from]);
    }
    lemma_frame(events, from, to, st);
    lemma_page_names();
    assert(events[to] == XmlToken::Start(tag));
    assert(events[n] == XmlToken::Malformed(fault));
    assert forall|k: int| to + 1 <= k < n implies !xml::is_last(#[trigger] events[k])
        && !ends_graph(events[k]) by {
        assert(events[k] == inner[k - to - 1]);
    }
    lemma_fault_in_graph(events, to + 1, n, drawio::empty_model(), fault);
}

/// A page whose payload cannot be decoded is left out, and so is one without
/// anything in it; the pages before it stay.
pub proof fn law_unreadable_page_is_left_out(st: FileView)
    ensures
        (forall|k: int|
            0 <= k < st.diagram_text.len() ==> text::is_white(#[trigger] st.diagram_text[k]))
            || drawio::decoded_page(text::trim(st.diagram_text)) is Err ==> (drawio::after_diagram(
            st,
        ) matches Ok(r) && r.pages == st.pages && !r.in_diagram),
{
    text::law_blank_is_white(st.diagram_text);
}

/// A file is read whole, up to the first event that ends it.
pub proof fn law_file_is_read_whole(file: Seq<u8>, n: int)
    requires
        0 <= n < xml::xml_events(file, true, true, false).len(),
        xml::is_last(xml::xml_events(file, true, true, false)[n]),
        forall|i: int|
            0 <= i < n ==> !xml::is_last(#[trigger] xml::xml_events(file, true, true, false)[i]),
    ensures
        drawio::drawio_events(file) == xml::xml_events(file, true, true, false).take(n + 1),
{
    let events = xml::xml_events(file, true, true, false);
    assert forall|i: int| 0 <= i < n implies !((#[trigger] events[i]) is Eof) && !(events[i] is Malformed) by {
        assert(!xml::is_last(events[i]));
    }
    laws::law_events_up_to_the_end(events, n);
}

/// The pages of elements that follow other elements follow their pages.
pub proof fn law_pages_of_files_add_up(
    a: Seq<ElementView>,
    b: Seq<ElementView>,
    tail: Seq<XmlToken>,
)
    requires
        forall|k: int| 0 <= k < a.len() ==> is_element(#[trigger] a[k]),
        forall|k: int| 0 <= k < b.len() ==> is_element(#[trigger] b[k]),
        is_frame(tail),
    ensures
        match (
            drawio::diagram_of(elements_events(a) + tail + seq![XmlToken::Eof]),
            drawio::diagram_of(elements_events(b) + tail + seq![XmlToken::Eof]),
            drawio::diagram_of(elements_events(a + b) + tail + seq![XmlToken::Eof]),
        ) {
            (Ok(x), Ok(y), Ok(z)) => z == x + y && x.len() == a.len() && y.len() == b.len(),
            _ => false,
        },
{
    lemma_pages_of(a, tail);
    lemma_pages_of(b, tail);
    assert forall|k: int| 0 <= k < (a + b).len() implies is_element(#[trigger] (a + b)[k]) by {
        if k < a.len() {
            assert((a + b)[k] == a[k]);
        } else {
            assert((a + b)[k] == b[k - a.len()]);
        }
    }
    lemma_pages_of(a + b, tail);
    assert(element_pages(a + b) =~= element_pages(a) + element_pages(b));
}

proof fn lemma_pages_of(elements: Seq<ElementView>, tail: Seq<XmlToken>)
    requires
        forall|k: int| 0 <= k < elements.len() ==> is_element(#[trigger] elements[k]),
        is_frame(tail),
    ensures
        drawio::diagram_of(elements_events(elements) + tail + seq![XmlToken::Eof]) == Ok::<
            Seq<PageView>,
            DrawioErrorView,
        >(element_pages(elements)),
{
    let before = elements_events(elements);
    let events = before + tail + seq![XmlToken::Eof];
    assert forall|i: int| 0 <= i < before.len() implies #[trigger] before[i] == events[i] by {}
    let st = lemma_elements(events, elements);
    let from = before.len() as int;
    let to = from + tail.len();
    assert forall|k: int| from <= k < to implies is_frame_event(#[trigger] events[k]) by {
        assert(events[k] == tail[k - from]);
    }
    lemma_frame(events, from, to, st);
    assert(events[to] == XmlToken::Eof);
}

// ---------------------------------------------------------------------------
// Cells

/// Whether `events` may stand in a graph: none of them ends it or the file.
pub open spec fn stands_in_graph(events: Seq<XmlToken>) -> bool {
    forall|i: int|
        0 <= i < events.len() ==> !xml::is_last(#[trigger] events[i]) && !ends_graph(events[i])
}

/// The graph whose cells stand in `inner`.
pub open spec fn graph_with(tag: TagToken, inner: Seq<XmlToken>, end: Seq<u8>) -> Seq<XmlToken> {
    seq![XmlToken::Start(tag)] + inner + seq![XmlToken::End(end)]
}

/// Two graphs, one behind another.
spec fn both(a: ModelView, b: ModelView) -> ModelView {
    ModelView { nodes: a.nodes + b.nodes, edges: a.edges + b.edges }
}

/// What the cells from `i` on add to a graph does not depend on it.
proof fn lemma_model_apart(g: Seq<XmlToken>, i: int, m: ModelView)
    ensures
        match (drawio::model_from(g, i, m), drawio::model_from(g, i, drawio::empty_model())) {
            (Ok((x, j)), Ok((y, k))) => j == k && x == both(m, y),
            (Err(x), Err(y)) => x == y,
            _ => false,
        },
    decreases g.len() - i, 0nat,
{
    let none = drawio::empty_model();
    assert(both(m, none).nodes =~= m.nodes && both(m, none).edges =~= m.edges);
    if 0 <= i < g.len() {
        lemma_model_apart(g, i + 1, m);
        match g[i] {
            XmlToken::Start(tag) => {
                lemma_cell_apart(g, i + 1, m, tag);
            },
            XmlToken::Empty(tag) => {
                lemma_cell_apart(g, i + 1, m, tag);
            },
            _ => {},
        }
    }
}

proof fn lemma_cell_apart(g: Seq<XmlToken>, i: int, m: ModelView, tag: TagToken)
    requires
        i <= g.len(),
    ensures
        match (
            drawio::model_from(g, i, drawio::add_cell(m, tag)),
            drawio::model_from(g, i, drawio::add_cell(drawio::empty_model(), tag)),
        ) {
            (Ok((x, j)), Ok((y, k))) => j == k && x == both(m, y),
            (Err(x), Err(y)) => x == y,
            _ => false,
        },
    decreases g.len() - i, 1nat,
{
    let none = drawio::empty_model();
    let one = drawio::add_cell(none, tag);
    let more = drawio::add_cell(m, tag);
    lemma_model_apart(g, i, more);
    lemma_model_apart(g, i, one);
    assert(more.nodes =~= m.nodes + one.nodes && more.edges =~= m.edges + one.edges);
    if let Ok((y, _)) = drawio::model_from(g, i, none) {
        assert(both(more, y).nodes =~= both(m, both(one, y)).nodes);
        assert(both(more, y).edges =~= both(m, both(one, y)).edges);
    }
}

/// A run over the first events of a graph, then over the rest.
proof fn lemma_model_parts(
    tag: TagToken,
    a: Seq<XmlToken>,
    b: Seq<XmlToken>,
    end: Seq<u8>,
    k: int,
    m: ModelView,
)
    requires
        stands_in_graph(a),
        stands_in_graph(b),
        ends_graph(XmlToken::End(end)),
        0 <= k <= a.len(),
    ensures
        match (
            drawio::model_from(graph_with(tag, a, end), 1 + k, m),
            drawio::model_from(graph_with(tag, b, end), 1, drawio::empty_model()),
            drawio::model_from(graph_with(tag, a + b, end), 1 + k, m),
        ) {
            (Ok((x, _)), Ok((y, _)), Ok((z, _))) => z == both(x, y),
            _ => false,
        },
    decreases a.len() - k,
{
    let ga = graph_with(tag, a, end);
    let gb = graph_with(tag, b, end);
    let gab = graph_with(tag, a + b, end);
    if k < a.len() {
        assert(ga[1 + k] == a[k]);
        assert(gab[1 + k] == a[k]);
        assert(!xml::is_last(a[k]) && !ends_graph(a[k]));
        lemma_model_parts(tag, a, b, end, k + 1, m);
        match a[k] {
            XmlToken::Start(t) => {
                lemma_model_parts(tag, a, b, end, k + 1, drawio::add_cell(m, t));
            },
            XmlToken::Empty(t) => {
                lemma_model_parts(tag, a, b, end, k + 1, drawio::add_cell(m, t));
            },
            _ => {},
        }
    } else {
        assert(ga[1 + k] == XmlToken::End(end));
        lemma_model_shifted(gab, gb, a.len() as int, 1, m);
        lemma_model_apart(gb, 1, m);
        lemma_no_fault(tag, b, end, 0, drawio::empty_model());
    }
}

proof fn lemma_model_shifted(g: Seq<XmlToken>, h: Seq<XmlToken>, by: int, i: int, m: ModelView)
    requires
        0 <= by,
        0 <= i,
        g.len() == h.len() + by,
        forall|j: int| i <= j < h.len() ==> #[trigger] h[j] == g[by + j],
    ensures
        match (drawio::model_from(g, by + i, m), drawio::model_from(h, i, m)) {
            (Ok((x, _)), Ok((y, _))) => x == y,
            (Err(x), Err(y)) => x == y,
            _ => false,
        },
    decreases h.len() - i,
{
    if i < h.len() {
        assert(h[i] == g[by + i]);
        lemma_model_shifted(g, h, by, i + 1, m);
        match h[i] {
            XmlToken::Start(t) => {
                lemma_model_shifted(g, h, by, i + 1, drawio::add_cell(m, t));
            },
            XmlToken::Empty(t) => {
                lemma_model_shifted(g, h, by, i + 1, drawio::add_cell(m, t));
            },
            _ => {},
        }
    }
}

proof fn lemma_no_fault(tag: TagToken, b: Seq<XmlToken>, end: Seq<u8>, k: int, m: ModelView)
    requires
        stands_in_graph(b),
        ends_graph(XmlToken::End(end)),
        0 <= k <= b.len(),
    ensures
        drawio::model_from(graph_with(tag, b, end), 1 + k, m) is Ok,
    decreases b.len() - k,
{
    let g = graph_with(tag, b, end);
    if k < b.len() {
        assert(g[1 + k] == b[k]);
        assert(!xml::is_last(b[k]) && !ends_graph(b[k]));
        lemma_no_fault(tag, b, end, k + 1, m);
        match b[k] {
            XmlToken::Start(t) => {
                lemma_no_fault(tag, b, end, k + 1, drawio::add_cell(m, t));
            },
            XmlToken::Empty(t) => {
                lemma_no_fault(tag, b, end, k + 1, drawio::add_cell(m, t));
            },
            _ => {},
        }
    } else {
        assert(g[1 + k] == XmlToken::End(end));
    }
}

/// The nodes and edges of a graph are those of its parts, in order: no cell is
/// left out, and none is read twice.
pub proof fn law_cells_add_up(
    tag: TagToken,
    a: Seq<XmlToken>,
    b: Seq<XmlToken>,
    end: Seq<u8>,
)
    requires
        stands_in_graph(a),
        stands_in_graph(b),
        ends_graph(XmlToken::End(end)),
    ensures
        graph_of(graph_with(tag, a + b, end)).nodes == graph_of(graph_with(tag, a, end)).nodes
            + graph_of(graph_with(tag, b, end)).nodes,
        graph_of(graph_with(tag, a + b, end)).edges == graph_of(graph_with(tag, a, end)).edges
            + graph_of(graph_with(tag, b, end)).edges,
{
    lemma_model_parts(tag, a, b, end, 0, drawio::empty_model());
}

/// A cell that is a vertex with a label is a node, with the label free of tags
/// and single spaced; else one that is an edge is an edge, between the cells that
/// it names; no other event is either.
pub proof fn law_one_cell(tag: TagToken, e: XmlToken, end: Seq<u8>, value: Seq<char>)
    requires
        !xml::is_last(e),
        !ends_graph(e),
        ends_graph(XmlToken::End(end)),
        e matches XmlToken::Start(t) ==> value == drawio::label_text(
            text::text_or_empty(xml::attribute(t.attrs, "value"@)),
        ),
        e matches XmlToken::Empty(t) ==> value == drawio::label_text(
            text::text_or_empty(xml::attribute(t.attrs, "value"@)),
        ),
    ensures
        ({
            let m = graph_of(graph_with(tag, seq![e], end));
            match e {
                XmlToken::Start(t) | XmlToken::Empty(t) => {
                    let cell = xml::is_name(t.name, "mxCell"@);
                    let vertex = xml::attribute(t.attrs, "vertex"@) == Some("1"@);
                    let edge = xml::attribute(t.attrs, "edge"@) == Some("1"@);
                    let labelled = exists|k: int|
                        0 <= k < value.len() && !text::is_white(#[trigger] value[k]);
                    &&& m.nodes == (if cell && vertex && labelled {
                        seq![
                            NodeView {
                                id: match xml::attribute(t.attrs, "id"@) {
                                    Some(id) => id,
                                    None => Seq::empty(),
                                },
                                value,
                            },
                        ]
                    } else {
                        Seq::empty()
                    })
                    &&& m.edges == (if cell && edge && !(vertex && labelled) {
                        seq![
                            EdgeView {
                                source: xml::attribute(t.attrs, "source"@),
                                target: xml::attribute(t.attrs, "target"@),
                                value,
                            },
                        ]
                    } else {
                        Seq::empty()
                    })
                },
                _ => m.nodes.len() == 0 && m.edges.len() == 0,
            }
        }),
{
    let g = graph_with(tag, seq![e], end);
    let none = drawio::empty_model();
    assert(g[1] == e);
    assert(g[2] == XmlToken::End(end));
    reveal_strlit("1");
    assert("1"@.len() == 1);
    text::law_blank_is_white(value);
    match e {
        XmlToken::Start(t) => {
            let m = drawio::add_cell(none, t);
            assert(drawio::model_from(g, 2, m) == Ok::<(ModelView, int), Seq<char>>((m, 3)));
            assert(drawio::model_from(g, 2, none) == Ok::<(ModelView, int), Seq<char>>((none, 3)));
        },
        XmlToken::Empty(t) => {
            let m = drawio::add_cell(none, t);
            assert(drawio::model_from(g, 2, m) == Ok::<(ModelView, int), Seq<char>>((m, 3)));
            assert(drawio::model_from(g, 2, none) == Ok::<(ModelView, int), Seq<char>>((none, 3)));
        },
        _ => {
            assert(drawio::model_from(g, 2, none) == Ok::<(ModelView, int), Seq<char>>((none, 3)));
        },
    }
}

} // verus!
