//! Laws on the texts of diagrams.
use crate::codec;
use crate::diagrams::drawio;
use crate::diagrams::drawio::{EdgeView, NodeView, PageView};
use crate::diagrams::mermaid;
use crate::text;
use crate::text_laws;
use vstd::prelude::*;

verus! {

/// A text without angle brackets is kept as it is.
pub proof fn law_plain_label_is_kept(s: Seq<char>)
    requires
        forall|i: int| 0 <= i < s.len() ==> #[trigger] s[i] != '<' && s[i] != '>',
    ensures
        drawio::without_tags(s, false) == s,
        text_laws::ink(drawio::label_text(s)) == text_laws::ink(s),
    decreases s.len(),
{
    if s.len() > 0 {
        let rest = s.drop_first();
        assert(s[0] != '<' && s[0] != '>');
        assert forall|i: int| 0 <= i < rest.len() implies #[trigger] rest[i] != '<' && rest[i]
            != '>' by {
            assert(rest[i] == s[i + 1]);
        }
        law_plain_label_is_kept(rest);
        assert(seq![s[0]] + rest =~= s);
    }
    text_laws::law_single_spacing_keeps_ink(s);
}

proof fn lemma_inside_tag(tag: Seq<char>, behind: Seq<char>)
    requires
        !tag.contains('>'),
    ensures
        drawio::without_tags(tag + ">"@ + behind, true) == drawio::without_tags(behind, false),
    decreases tag.len(),
{
    reveal_strlit(">");
    let all = tag + ">"@ + behind;
    if tag.len() == 0 {
        assert(all[0] == '>');
        assert(all.drop_first() =~= behind);
    } else {
        assert(tag.contains(tag[0]));
        assert(all[0] == tag[0]);
        let rest = tag.drop_first();
        assert(all.drop_first() =~= rest + ">"@ + behind);
        assert forall|i: int| 0 <= i < rest.len() implies rest[i] != '>' by {
            assert(tag.contains(tag[i + 1]));
        }
        lemma_inside_tag(rest, behind);
    }
}

/// A tag is taken out, and nothing else: what stands before and behind it stays.
pub proof fn law_tag_is_taken_out(before: Seq<char>, tag: Seq<char>, behind: Seq<char>)
    requires
        !before.contains('<'),
        !before.contains('>'),
        !tag.contains('>'),
    ensures
        drawio::without_tags(before + "<"@ + tag + ">"@ + behind, false) == before
            + drawio::without_tags(behind, false),
        text_laws::ink(drawio::label_text(before + "<"@ + tag + ">"@ + behind)) == text_laws::ink(
            before + drawio::without_tags(behind, false),
        ),
    decreases before.len(),
{
    reveal_strlit("<");
    let all = before + "<"@ + tag + ">"@ + behind;
    text_laws::law_single_spacing_keeps_ink(drawio::without_tags(all, false));
    if before.len() == 0 {
        assert(all[0] == '<');
        assert(all.drop_first() =~= tag + ">"@ + behind);
        lemma_inside_tag(tag, behind);
        assert(before + drawio::without_tags(behind, false) =~= drawio::without_tags(behind, false));
    } else {
        let rest = before.drop_first();
        assert(before.contains(before[0]));
        assert(all[0] == before[0]);
        assert(all.drop_first() =~= rest + "<"@ + tag + ">"@ + behind);
        assert forall|i: int| 0 <= i < rest.len() implies rest[i] != '<' && rest[i] != '>' by {
            assert(before.contains(before[i + 1]));
        }
        law_tag_is_taken_out(rest, tag, behind);
        assert(seq![before[0]] + (rest + drawio::without_tags(behind, false)) =~= before
            + drawio::without_tags(behind, false));
    }
}

proof fn lemma_open_tag(tag: Seq<char>)
    requires
        !tag.contains('>'),
    ensures
        drawio::without_tags(tag, true) == Seq::<char>::empty(),
    decreases tag.len(),
{
    if tag.len() > 0 {
        let rest = tag.drop_first();
        assert(tag.contains(tag[0]));
        assert forall|i: int| 0 <= i < rest.len() implies rest[i] != '>' by {
            assert(tag.contains(tag[i + 1]));
        }
        lemma_open_tag(rest);
    }
}

/// A tag that is not closed goes on to the end; a closing bracket without a tag is
/// taken out alone.
pub proof fn law_stray_brackets(before: Seq<char>, tag: Seq<char>, behind: Seq<char>)
    requires
        !before.contains('<'),
        !before.contains('>'),
        !tag.contains('>'),
    ensures
        drawio::without_tags(before + "<"@ + tag, false) == before,
        drawio::without_tags(before + ">"@ + behind, false) == before + drawio::without_tags(
            behind,
            false,
        ),
    decreases before.len(),
{
    reveal_strlit("<");
    reveal_strlit(">");
    let a = before + "<"@ + tag;
    let b = before + ">"@ + behind;
    if before.len() == 0 {
        assert(a[0] == '<');
        assert(a.drop_first() =~= tag);
        lemma_open_tag(tag);
        assert(before =~= Seq::empty());
        assert(b[0] == '>');
        assert(b.drop_first() =~= behind);
        assert(before + drawio::without_tags(behind, false) =~= drawio::without_tags(behind, false));
    } else {
        let rest = before.drop_first();
        assert(before.contains(before[0]));
        assert(a[0] == before[0] && b[0] == before[0]);
        assert(a.drop_first() =~= rest + "<"@ + tag);
        assert(b.drop_first() =~= rest + ">"@ + behind);
        assert forall|i: int| 0 <= i < rest.len() implies rest[i] != '<' && rest[i] != '>' by {
            assert(before.contains(before[i + 1]));
        }
        law_stray_brackets(rest, tag, behind);
        assert(seq![before[0]] + rest =~= before);
        assert(seq![before[0]] + (rest + drawio::without_tags(behind, false)) =~= before
            + drawio::without_tags(behind, false));
    }
}

/// A heading names the kind and, where there is one, the title.
pub proof fn law_heading(kind: Seq<char>, title: Seq<char>)
    ensures
        mermaid::heading(kind, Some(title)) == "["@ + kind + ": "@ + title + "]\n"@,
        mermaid::heading(kind, None) == "["@ + kind + "]\n"@,
{
}

/// The source of a Mermaid diagram stands whole behind its heading, and one line
/// feed ends it.
pub proof fn law_source_is_whole(source: Seq<char>, title: Option<Seq<char>>)
    ensures
        source.len() > 0 && source.last() == '\n' ==> mermaid::mermaid_text(source, title)
            == mermaid::heading("Mermaid 図"@, title) + source,
        source.len() == 0 || source.last() != '\n' ==> mermaid::mermaid_text(source, title)
            == mermaid::heading("Mermaid 図"@, title) + source + "\n"@,
{
    reveal_strlit("\n");
    if source.len() > 0 && source.last() == '\n' {
        assert("\n"@ =~= source.subrange(source.len() - 1, source.len() as int));
    } else if "\n"@.is_suffix_of(source) {
        assert("\n"@ =~= source.subrange(source.len() - 1, source.len() as int));
        assert("\n"@[0] == source.last());
    }
}

/// Every node has a line of its own, in order.
pub proof fn law_node_lines(a: Seq<NodeView>, b: Seq<NodeView>, n: NodeView)
    ensures
        drawio::node_lines(a + b) == drawio::node_lines(a) + drawio::node_lines(b),
        drawio::node_lines(seq![n]) == "  - "@ + n.value + "\n"@,
    decreases b.len(),
{
    assert(seq![n].drop_last() =~= Seq::empty());
    let none = Seq::<char>::empty();
    assert(drawio::node_lines(seq![n]) == none + "  - "@ + n.value + "\n"@) by {
        assert(drawio::node_lines(seq![n].drop_last()) == none);
    }
    assert(none + "  - "@ =~= "  - "@);
    if b.len() == 0 {
        assert(a + b =~= a);
    } else {
        let prev = b.drop_last();
        law_node_lines(a, prev, n);
        assert((a + b).drop_last() =~= a + prev);
        assert((a + b).last() == b.last());
        let line = "  - "@ + b.last().value + "\n"@;
        assert(drawio::node_lines(a) + drawio::node_lines(prev) + "  - "@ + b.last().value + "\n"@
            =~= drawio::node_lines(a) + (drawio::node_lines(prev) + "  - "@ + b.last().value
            + "\n"@));
    }
}

/// A node is named by its identifier; where several have it, the last counts;
/// where none has it, there is no label.
pub proof fn law_label_of(before: Seq<NodeView>, n: NodeView, behind: Seq<NodeView>)
    requires
        forall|i: int| 0 <= i < behind.len() ==> (#[trigger] behind[i]).id != n.id,
    ensures
        drawio::label_of(before.push(n) + behind, n.id) == Some(n.value),
        drawio::label_of(behind, n.id) is None,
    decreases behind.len(),
{
    if behind.len() == 0 {
        assert(before.push(n) + behind =~= before.push(n));
    } else {
        let prev = behind.drop_last();
        assert(behind[behind.len() - 1].id != n.id);
        assert forall|i: int| 0 <= i < prev.len() implies (#[trigger] prev[i]).id != n.id by {
            assert(prev[i] == behind[i]);
        }
        law_label_of(before, n, prev);
        let all = before.push(n) + behind;
        assert(all.drop_last() =~= before.push(n) + prev);
        assert(all.last() == behind.last());
    }
}

/// An edge is a line with the labels of both ends, `(?)` for one that is not
/// known, and with its own label where it has one.
pub proof fn law_edge_line(nodes: Seq<NodeView>, e: EdgeView, from: Seq<char>, to: Seq<char>)
    requires
        from == (match e.source {
            Some(id) => match drawio::label_of(nodes, id) {
                Some(label) => label,
                None => "(?)"@,
            },
            None => "(?)"@,
        }),
        to == (match e.target {
            Some(id) => match drawio::label_of(nodes, id) {
                Some(label) => label,
                None => "(?)"@,
            },
            None => "(?)"@,
        }),
    ensures
        (forall|k: int| 0 <= k < e.value.len() ==> text::is_white(#[trigger] e.value[k]))
            ==> drawio::edge_line(nodes, e) == "  "@ + from + " -> "@ + to + "\n"@,
        (exists|k: int| 0 <= k < e.value.len() && !text::is_white(#[trigger] e.value[k]))
            ==> drawio::edge_line(nodes, e) == "  "@ + from + " -> "@ + to + ": "@ + e.value + "\n"@,
{
    text::law_blank_is_white(e.value);
}

/// Every edge has a line of its own, in order.
pub proof fn law_edge_lines(nodes: Seq<NodeView>, a: Seq<EdgeView>, b: Seq<EdgeView>, e: EdgeView)
    ensures
        drawio::edge_lines(nodes, a + b) == drawio::edge_lines(nodes, a) + drawio::edge_lines(
            nodes,
            b,
        ),
        drawio::edge_lines(nodes, seq![e]) == drawio::edge_line(nodes, e),
    decreases b.len(),
{
    assert(seq![e].drop_last() =~= Seq::empty());
    assert(drawio::edge_lines(nodes, seq![e].drop_last()) =~= Seq::empty());
    assert(Seq::<char>::empty() + drawio::edge_line(nodes, e) =~= drawio::edge_line(nodes, e));
    if b.len() == 0 {
        assert(a + b =~= a);
    } else {
        law_edge_lines(nodes, a, b.drop_last(), e);
        assert((a + b).drop_last() =~= a + b.drop_last());
        assert((a + b).last() == b.last());
    }
}

/// The text of a page holds all its nodes and all its edges; a part that is empty
/// is left out with its heading.
pub proof fn law_page_body(page: PageView)
    ensures
        page.nodes.len() > 0 && page.edges.len() > 0 ==> drawio::page_body(page) == "ノード:\n"@
            + drawio::node_lines(page.nodes) + "接続:\n"@ + drawio::edge_lines(
            page.nodes,
            page.edges,
        ),
        page.nodes.len() > 0 && page.edges.len() == 0 ==> drawio::page_body(page) == "ノード:\n"@
            + drawio::node_lines(page.nodes),
        page.nodes.len() == 0 && page.edges.len() > 0 ==> drawio::page_body(page) == "接続:\n"@
            + drawio::edge_lines(page.nodes, page.edges),
        page.nodes.len() == 0 && page.edges.len() == 0 ==> drawio::page_body(page).len() == 0,
{
}

/// With headings a page begins with its number and name.
pub proof fn law_page_text(number: nat, page: PageView)
    ensures
        drawio::page_text(number, page, false) == drawio::page_body(page),
        drawio::page_text(number, page, true) == "--- ページ"@ + text::decimal(number) + " "@ + (
        match page.name {
            Some(name) => name,
            None => "(無題)"@,
        }) + " ---\n"@ + drawio::page_body(page),
{
}

/// The texts of pages with the numbers from `from` on, one after another.
pub open spec fn texts_from(from: nat, pages: Seq<PageView>, headings: bool) -> Seq<char>
    decreases pages.len(),
{
    if pages.len() == 0 {
        Seq::empty()
    } else {
        drawio::page_text(from, pages[0], headings) + texts_from(
            from + 1,
            pages.drop_first(),
            headings,
        )
    }
}

proof fn lemma_texts_from(from: nat, pages: Seq<PageView>, headings: bool)
    requires
        pages.len() > 0,
    ensures
        texts_from(from, pages, headings) == texts_from(from, pages.drop_last(), headings)
            + drawio::page_text((from + pages.len() - 1) as nat, pages.last(), headings),
    decreases pages.len(),
{
    let rest = pages.drop_first();
    let none = Seq::<char>::empty();
    if pages.len() == 1 {
        assert(rest =~= Seq::empty());
        assert(pages.drop_last() =~= Seq::empty());
        let one = drawio::page_text(from, pages[0], headings);
        assert(texts_from(from + 1, rest, headings) == none);
        assert(one + none =~= none + one);
    } else {
        lemma_texts_from(from + 1, rest, headings);
        assert(rest.drop_last() =~= pages.drop_last().drop_first());
        assert(rest.last() == pages.last());
        let one = drawio::page_text(from, pages[0], headings);
        let mid = texts_from(from + 1, rest.drop_last(), headings);
        let last = drawio::page_text((from + pages.len() - 1) as nat, pages.last(), headings);
        assert(one + (mid + last) =~= one + mid + last);
    }
}

proof fn lemma_pages_text(pages: Seq<PageView>, headings: bool)
    ensures
        drawio::pages_text(pages, headings) == texts_from(1, pages, headings),
    decreases pages.len(),
{
    if pages.len() > 0 {
        lemma_pages_text(pages.drop_last(), headings);
        lemma_texts_from(1, pages, headings);
    }
}

/// The text of a diagram holds all its pages, in order, with the numbers 1, 2, 3
/// and so on where there is more than one.
pub proof fn law_every_page_is_written(pages: Seq<PageView>, title: Option<Seq<char>>)
    ensures
        drawio::diagram_text(pages, title) == mermaid::heading("draw.io 図"@, title) + texts_from(
            1,
            pages,
            pages.len() >= 2,
        ),
{
    lemma_pages_text(pages, pages.len() >= 2);
}

/// Bytes without a percent sign or a plus are decoded as they are, and each plus
/// as a space.
pub proof fn law_one_byte_is_decoded(b: u8, behind: Seq<u8>)
    requires
        b as char != '%',
    ensures
        b as char != '+' ==> drawio::percent_decoded(seq![b] + behind) == seq![b]
            + drawio::percent_decoded(behind),
        b as char == '+' ==> drawio::percent_decoded(seq![b] + behind) == seq![' ' as u8]
            + drawio::percent_decoded(behind),
{
    assert((seq![b] + behind).skip(1) =~= behind);
}

/// The value of a hexadecimal digit.
pub open spec fn hex(b: u8) -> Option<int> {
    if 48 <= b <= 57 {
        Some(b - 48)
    } else if 65 <= b <= 70 {
        Some(b - 55)
    } else if 97 <= b <= 102 {
        Some(b - 87)
    } else {
        None
    }
}

/// A percent sign with two hexadecimal digits is the byte that they name; before
/// anything else in ASCII, but for a plus in front of a digit, and at the end of
/// the text, it stays.
pub proof fn law_escape_is_decoded(a: u8, b: u8, behind: Seq<u8>)
    ensures
        match (hex(a), hex(b)) {
            (Some(x), Some(y)) => drawio::percent_decoded(seq!['%' as u8, a, b] + behind) == seq![
                (16 * x + y) as u8,
            ] + drawio::percent_decoded(behind),
            _ => a < 128 && b < 128 && a as char != '+' ==> drawio::percent_decoded(
                seq!['%' as u8, a, b] + behind,
            ) == seq!['%' as u8] + drawio::percent_decoded(seq![a, b] + behind),
        },
        drawio::percent_decoded(seq!['%' as u8]) == seq!['%' as u8],
        drawio::percent_decoded(seq!['%' as u8, a]) == seq!['%' as u8] + drawio::percent_decoded(
            seq![a],
        ),
{
    let s = seq!['%' as u8, a, b] + behind;
    assert(s.skip(3) =~= behind);
    assert(s.skip(1) =~= seq![a, b] + behind);
    assert(s[0] == '%' as u8 && s[1] == a && s[2] == b);
    let one = seq!['%' as u8];
    assert(one.skip(1) =~= Seq::empty());
    assert(drawio::percent_decoded(one.skip(1)) =~= Seq::empty());
    assert(seq!['%' as u8] + Seq::<u8>::empty() =~= seq!['%' as u8]);
    let two = seq!['%' as u8, a];
    assert(two.skip(1) =~= seq![a]);
}

/// A text that begins with an angle bracket, behind white space or not, is no
/// escaped text.
pub proof fn law_markup_is_left_alone(before: Seq<char>, s: Seq<char>)
    requires
        forall|i: int| 0 <= i < before.len() ==> text::is_white(#[trigger] before[i]),
    ensures
        drawio::url_decoded(before + "<"@ + s) == before + "<"@ + s,
    decreases before.len(),
{
    lemma_bracket_first(before, s);
}

proof fn lemma_bracket_first(before: Seq<char>, s: Seq<char>)
    requires
        forall|i: int| 0 <= i < before.len() ==> text::is_white(#[trigger] before[i]),
    ensures
        text::trim_start(before + "<"@ + s) == "<"@ + s,
        "<"@.is_prefix_of("<"@ + s),
    decreases before.len(),
{
    reveal_strlit("<");
    let all = before + "<"@ + s;
    assert("<"@ =~= ("<"@ + s).subrange(0, 1));
    text_laws::law_white_space('<');
    if before.len() == 0 {
        assert(all =~= "<"@ + s);
        assert(all[0] == '<');
    } else {
        let rest = before.drop_first();
        assert(text::is_white(before[0]));
        assert forall|i: int| 0 <= i < rest.len() implies text::is_white(#[trigger] rest[i]) by {
            assert(rest[i] == before[i + 1]);
        }
        lemma_bracket_first(rest, s);
        assert(all[0] == before[0]);
        assert(all.drop_first() =~= rest + "<"@ + s);
    }
}

/// A payload is decoded from base64, inflated and unescaped; what is no base64 or
/// no deflated text is refused.
pub proof fn law_payload_is_decoded(payload: Seq<char>, bytes: Seq<u8>, markup: Seq<char>)
    ensures
        codec::base64_bytes(text::trim(payload)) is None ==> drawio::decoded_page(payload) is Err,
        codec::base64_bytes(text::trim(payload)) == Some(bytes) && codec::inflated_text(bytes)
            == Some(markup) ==> drawio::decoded_page(payload) == Ok::<Seq<char>, drawio::DecodeError>(
            drawio::url_decoded(markup),
        ),
        codec::base64_bytes(text::trim(payload)) == Some(bytes) && codec::inflated_text(bytes) is None
            ==> drawio::decoded_page(payload) == Err::<Seq<char>, drawio::DecodeError>(
            drawio::DecodeError::Deflate,
        ),
{
}

} // verus!
