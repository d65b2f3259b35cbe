//! Text of the Atlassian Document Format.
use crate::json;
use crate::json::Json;
use crate::text;
use crate::text::{chars_of, joined, on_one_line, same, trimmed};
use vstd::prelude::*;

verus! {

/// The text in the field `key` of a node's attributes.
pub open spec fn attr(node: Json, key: Seq<char>) -> Option<Seq<char>> {
    match json::json_get(node, "attrs"@) {
        Some(attrs) => json::json_str(json::json_get(attrs, key)),
        None => None,
    }
}

/// The type of a node; empty where it has none.
pub open spec fn node_type(node: Json) -> Seq<char> {
    text::text_or_empty(json::json_str(json::json_get(node, "type"@)))
}

/// The children of a node; none where it has no list of them.
pub open spec fn children(node: Json) -> Seq<Json> {
    match json::json_items(json::json_get(node, "content"@)) {
        Some(items) => items,
        None => Seq::empty(),
    }
}

/// The node types that end in a line break.
pub open spec fn is_block(ty: Seq<char>) -> bool {
    ||| ty == "paragraph"@
    ||| ty == "heading"@
    ||| ty == "blockquote"@
    ||| ty == "listItem"@
    ||| ty == "taskItem"@
    ||| ty == "bulletList"@
    ||| ty == "orderedList"@
    ||| ty == "taskList"@
}

/// The text of a mention: its text, or else its id behind an at sign.
pub open spec fn mention_text(node: Json) -> Seq<char> {
    match (attr(node, "text"@), attr(node, "id"@)) {
        (Some(t), _) => t,
        (None, Some(id)) => "@"@ + id,
        (None, None) => Seq::empty(),
    }
}

/// The text of an emoji: its short name, or else its text.
pub open spec fn emoji_text(node: Json) -> Seq<char> {
    match (attr(node, "shortName"@), attr(node, "text"@)) {
        (Some(name), _) => name,
        (None, Some(t)) => t,
        (None, None) => Seq::empty(),
    }
}

/// The note that stands for an image: its alternative text, or else its id.
pub open spec fn media_text(node: Json) -> Seq<char> {
    match (attr(node, "alt"@), attr(node, "id"@)) {
        (Some(name), _) => "[画像: "@ + name + "]\n"@,
        (None, Some(id)) => "[画像:id="@ + id + "]\n"@,
        (None, None) => Seq::empty(),
    }
}

/// The type of a panel, `info` where it is not given.
pub open spec fn panel_type(node: Json) -> Seq<char> {
    match attr(node, "panelType"@) {
        Some(t) => t,
        None => "info"@,
    }
}

/// The text of a node and what is below it.
pub open spec fn node_text(node: Json) -> Seq<char>
    decreases json::json_size(node), 1nat,
{
    proof {
        json::lemma_items_smaller(node, "content"@);
    }
    let ty = node_type(node);
    if ty == "text"@ {
        text::text_or_empty(json::json_str(json::json_get(node, "text"@)))
    } else if ty == "hardBreak"@ {
        "\n"@
    } else if ty == "rule"@ {
        "\n---\n"@
    } else if ty == "mention"@ {
        mention_text(node)
    } else if ty == "emoji"@ {
        emoji_text(node)
    } else if ty == "media"@ {
        media_text(node)
    } else if ty == "inlineCard"@ {
        text::text_or_empty(attr(node, "url"@))
    } else if ty == "table"@ {
        rows_text(children(node)) + "\n"@
    } else {
        around_children(node, nodes_text(children(node)))
    }
}

/// The text of a node whose children have the text `inner`.
pub open spec fn around_children(node: Json, inner: Seq<char>) -> Seq<char> {
    let ty = node_type(node);
    if ty == "codeBlock"@ {
        "```"@ + text::text_or_empty(attr(node, "language"@)) + "\n"@ + inner + "\n```\n"@
    } else if ty == "panel"@ {
        "["@ + panel_type(node) + "]\n"@ + inner + "\n"@
    } else if is_block(ty) {
        inner + "\n"@
    } else {
        inner
    }
}

/// The texts of nodes, one after another.
pub open spec fn nodes_text(nodes: Seq<Json>) -> Seq<char>
    decreases json::items_size(nodes), 0nat,
{
    if nodes.len() == 0 {
        Seq::empty()
    } else {
        node_text(nodes[0]) + nodes_text(nodes.drop_first())
    }
}

/// The texts of the rows of a table, one after another.
pub open spec fn rows_text(rows: Seq<Json>) -> Seq<char>
    decreases json::items_size(rows), 0nat,
{
    if rows.len() == 0 {
        Seq::empty()
    } else {
        row_text(rows[0]) + rows_text(rows.drop_first())
    }
}

/// A row of a table: its cells on one line, with bars between them. A row
/// without a list of cells leaves nothing.
pub open spec fn row_text(row: Json) -> Seq<char>
    decreases json::json_size(row), 1nat,
{
    proof {
        json::lemma_items_smaller(row, "content"@);
    }
    match json::json_items(json::json_get(row, "content"@)) {
        Some(cells) => text::join(cell_texts(cells), " | "@) + "\n"@,
        None => Seq::empty(),
    }
}

/// The text of each cell of a row, on one line.
pub open spec fn cell_texts(cells: Seq<Json>) -> Seq<Seq<char>>
    decreases json::items_size(cells), 0nat,
{
    if cells.len() == 0 {
        Seq::empty()
    } else {
        seq![cell_text(cells[0])] + cell_texts(cells.drop_first())
    }
}

/// The text of a cell, on one line.
pub open spec fn cell_text(cell: Json) -> Seq<char>
    decreases json::json_size(cell), 1nat,
{
    proof {
        json::lemma_items_smaller(cell, "content"@);
    }
    text::one_line(text::trim(nodes_text(children(cell))))
}

/// `s` with at most two line feeds in a row, where `run` of them have just
/// been read.
pub open spec fn limit_from(s: Seq<char>, run: int) -> Seq<char>
    decreases s.len(),
{
    if s.len() == 0 {
        s
    } else if s[0] != '\n' {
        seq![s[0]] + limit_from(s.drop_first(), 0)
    } else if run < 2 {
        seq!['\n'] + limit_from(s.drop_first(), run + 1)
    } else {
        limit_from(s.drop_first(), run + 1)
    }
}

/// `s` with the third line feed in a row, and those after it, left out.
pub open spec fn limit_line_feeds(s: Seq<char>) -> Seq<char> {
    limit_from(s, 0)
}

/// `attr`, executable.
fn attr_str<'a>(node: &'a Json, key: &str) -> (r: Option<&'a str>)
    ensures
        r.deep_view() == attr(*node, key@),
{
    match node.get("attrs") {
        Some(attrs) => attrs.str_field(key),
        None => None,
    }
}

/// `node_type`, executable.
fn type_of(node: &Json) -> (r: String)
    ensures
        r@ == node_type(*node),
{
    match node.str_field("type") {
        Some(t) => t.to_owned(),
        None => String::new(),
    }
}

/// `is_block`, executable.
fn ends_in_line_break(ty: &str) -> (r: bool)
    ensures
        r == is_block(ty@),
{
    same(ty, "paragraph") || same(ty, "heading") || same(ty, "blockquote") || same(ty, "listItem")
        || same(ty, "taskItem") || same(ty, "bulletList") || same(ty, "orderedList") || same(
        ty,
        "taskList",
    )
}

/// The text of a node that has no children of its own to walk.
fn leaf_text(node: &Json, ty: &str) -> (r: Option<String>)
    requires
        ty@ == node_type(*node),
    ensures
        match r {
            Some(t) => t@ == node_text(*node),
            None => ty@ != "text"@ && ty@ != "hardBreak"@ && ty@ != "rule"@ && ty@ != "mention"@
                && ty@ != "emoji"@ && ty@ != "media"@ && ty@ != "inlineCard"@,
        },
{
    if same(ty, "text") {
        match node.str_field("text") {
            Some(t) => Some(t.to_owned()),
            None => Some(String::new()),
        }
    } else if same(ty, "hardBreak") {
        Some("\n".to_owned())
    } else if same(ty, "rule") {
        Some("\n---\n".to_owned())
    } else if same(ty, "mention") {
        match attr_str(node, "text") {
            Some(t) => Some(t.to_owned()),
            None => match attr_str(node, "id") {
                Some(id) => {
                    let mut r = "@".to_owned();
                    r.append(id);
                    Some(r)
                },
                None => Some(String::new()),
            },
        }
    } else if same(ty, "emoji") {
        match attr_str(node, "shortName") {
            Some(t) => Some(t.to_owned()),
            None => match attr_str(node, "text") {
                Some(t) => Some(t.to_owned()),
                None => Some(String::new()),
            },
        }
    } else if same(ty, "media") {
        match attr_str(node, "alt") {
            Some(name) => {
                let mut r = "[画像: ".to_owned();
                r.append(name);
                r.append("]\n");
                Some(r)
            },
            None => match attr_str(node, "id") {
                Some(id) => {
                    let mut r = "[画像:id=".to_owned();
                    r.append(id);
                    r.append("]\n");
                    Some(r)
                },
                None => Some(String::new()),
            },
        }
    } else if same(ty, "inlineCard") {
        match attr_str(node, "url") {
            Some(url) => Some(url.to_owned()),
            None => Some(String::new()),
        }
    } else {
        None
    }
}

/// Appends the text of a node and what is below it; what is in `out` stays.
pub fn walk_adf(node: &Json, out: &mut String)
    ensures
        final(out)@ == old(out)@ + node_text(*node),
    decreases json::json_size(*node), 1nat,
{
    proof {
        json::lemma_items_smaller(*node, "content"@);
    }
    let ty = type_of(node);
    if let Some(leaf) = leaf_text(node, ty.as_str()) {
        out.append(leaf.as_str());
        return;
    }
    let table = same(ty.as_str(), "table");
    let mut inner = String::new();
    if let Some(items) = node.items_field("content") {
        if table {
            walk_rows(items, &mut inner);
            assert(inner@ =~= rows_text(items@));
        } else {
            walk_nodes(items, &mut inner);
            assert(inner@ =~= nodes_text(items@));
        }
    }
    if table {
        inner.append("\n");
        out.append(inner.as_str());
    } else if same(ty.as_str(), "codeBlock") {
        let mut r = "```".to_owned();
        if let Some(language) = attr_str(node, "language") {
            r.append(language);
        } else {
            assert(r@ =~= r@ + text::text_or_empty(None));
        }
        r.append("\n");
        r.append(inner.as_str());
        r.append("\n```\n");
        out.append(r.as_str());
    } else if same(ty.as_str(), "panel") {
        let mut r = "[".to_owned();
        match attr_str(node, "panelType") {
            Some(t) => r.append(t),
            None => r.append("info"),
        }
        r.append("]\n");
        r.append(inner.as_str());
        r.append("\n");
        out.append(r.as_str());
    } else if ends_in_line_break(ty.as_str()) {
        inner.append("\n");
        out.append(inner.as_str());
    } else {
        out.append(inner.as_str());
    }
}

/// Appends the texts of nodes, one after another.
fn walk_nodes(nodes: &Vec<Json>, out: &mut String)
    ensures
        final(out)@ == old(out)@ + nodes_text(nodes@),
    decreases json::items_size(nodes@), 0nat,
{
    let mut i: usize = 0;
    let ghost start = out@;
    assert(nodes@.skip(0) =~= nodes@);
    while i < nodes.len()
        invariant
            i <= nodes@.len(),
            json::items_size(nodes@.skip(i as int)) <= json::items_size(nodes@),
            start + nodes_text(nodes@) == out@ + nodes_text(nodes@.skip(i as int)),
        decreases nodes@.len() - i,
    {
        let ghost before = out@;
        assert(nodes@.skip(i as int).drop_first() =~= nodes@.skip(i + 1));
        assert(nodes@.skip(i as int)[0] == nodes@[i as int]);
        walk_adf(&nodes[i], out);
        i += 1;
        assert(out@ + nodes_text(nodes@.skip(i as int)) =~= before + nodes_text(
            nodes@.skip(i - 1),
        ));
    }
    assert(out@ + nodes_text(nodes@.skip(i as int)) =~= out@);
}

/// Appends the rows of a table, one after another.
fn walk_rows(rows: &Vec<Json>, out: &mut String)
    ensures
        final(out)@ == old(out)@ + rows_text(rows@),
    decreases json::items_size(rows@), 0nat,
{
    let mut i: usize = 0;
    let ghost start = out@;
    assert(rows@.skip(0) =~= rows@);
    while i < rows.len()
        invariant
            i <= rows@.len(),
            json::items_size(rows@.skip(i as int)) <= json::items_size(rows@),
            start + rows_text(rows@) == out@ + rows_text(rows@.skip(i as int)),
        decreases rows@.len() - i,
    {
        let ghost before = out@;
        assert(rows@.skip(i as int).drop_first() =~= rows@.skip(i + 1));
        assert(rows@.skip(i as int)[0] == rows@[i as int]);
        walk_adf_table_row(&rows[i], out);
        i += 1;
        assert(out@ + rows_text(rows@.skip(i as int)) =~= before + rows_text(rows@.skip(i - 1)));
    }
    assert(out@ + rows_text(rows@.skip(i as int)) =~= out@);
}

/// Appends a row of a table.
fn walk_adf_table_row(row: &Json, out: &mut String)
    ensures
        final(out)@ == old(out)@ + row_text(*row),
    decreases json::json_size(*row), 1nat,
{
    proof {
        json::lemma_items_smaller(*row, "content"@);
    }
    if let Some(cells) = row.items_field("content") {
        let texts = walk_cells(cells);
        let mut line = joined(&texts, " | ");
        line.append("\n");
        out.append(line.as_str());
    } else {
        assert(out@ =~= out@ + row_text(*row));
    }
}

/// The text of each cell of a row, on one line.
fn walk_cells(cells: &Vec<Json>) -> (r: Vec<String>)
    ensures
        r.deep_view() == cell_texts(cells@),
    decreases json::items_size(cells@), 0nat,
{
    let mut texts: Vec<String> = Vec::new();
    let mut i: usize = 0;
    assert(cells@.skip(0) =~= cells@);
    assert(texts.deep_view() + cell_texts(cells@.skip(0)) =~= cell_texts(cells@));
    while i < cells.len()
        invariant
            i <= cells@.len(),
            json::items_size(cells@.skip(i as int)) <= json::items_size(cells@),
            cell_texts(cells@) == texts.deep_view() + cell_texts(cells@.skip(i as int)),
        decreases cells@.len() - i,
    {
        let ghost before = texts.deep_view();
        assert(cells@.skip(i as int).drop_first() =~= cells@.skip(i + 1));
        assert(cells@.skip(i as int)[0] == cells@[i as int]);
        proof {
            json::lemma_items_smaller(cells@[i as int], "content"@);
        }
        let mut buf = String::new();
        if let Some(items) = cells[i].items_field("content") {
            walk_nodes(items, &mut buf);
            assert(buf@ =~= nodes_text(items@));
        }
        let text = on_one_line(trimmed(buf.as_str()).as_str());
        texts.push(text);
        assert(texts.deep_view() =~= before.push(cell_text(cells@[i as int])));
        i += 1;
        assert(texts.deep_view() + cell_texts(cells@.skip(i as int)) =~= before + cell_texts(
            cells@.skip(i - 1),
        ));
    }
    assert(texts.deep_view() + cell_texts(cells@.skip(i as int)) =~= texts.deep_view());
    texts
}

/// `limit_line_feeds`, executable.
pub fn limited_line_feeds(s: &str) -> (r: String)
    ensures
        r@ == limit_line_feeds(s@),
{
    let v = chars_of(s);
    let mut out = String::new();
    let mut run: u32 = 0;
    let mut i: usize = 0;
    assert(v@.skip(0) =~= v@);
    assert(out@ + limit_from(v@, 0) =~= limit_line_feeds(s@));
    while i < v.len()
        invariant
            i <= v@.len(),
            v@ == s@,
            run <= 2,
            out@ + limit_from(v@.skip(i as int), run as int) == limit_line_feeds(s@),
        decreases v@.len() - i,
    {
        let ghost before = out@;
        let ghost old_run = run as int;
        let c = v[i];
        assert(v@.skip(i as int).drop_first() =~= v@.skip(i + 1));
        if c == '\n' {
            if run < 2 {
                out.push('\n');
                run += 1;
            } else {
                proof {
                    lemma_limit_run(v@.skip(i + 1), 3);
                }
            }
        } else {
            run = 0;
            out.push(c);
        }
        i += 1;
        assert(out@ + limit_from(v@.skip(i as int), run as int) =~= before + limit_from(
            v@.skip(i - 1),
            old_run,
        ));
    }
    assert(out@ + limit_from(v@.skip(i as int), run as int) =~= out@);
    out
}

/// Beyond two line feeds their number makes no difference.
proof fn lemma_limit_run(s: Seq<char>, run: int)
    requires
        run >= 2,
    ensures
        limit_from(s, run) == limit_from(s, 2),
    decreases s.len(),
{
    if s.len() > 0 && s[0] == '\n' {
        lemma_limit_run(s.drop_first(), run + 1);
        lemma_limit_run(s.drop_first(), 3);
    }
}

/// The text of a document in the Atlassian Document Format, with at most two
/// line feeds in a row.
pub fn adf_to_text(node: &Json) -> (r: String)
    ensures
        r@ == limit_line_feeds(node_text(*node)),
{
    let mut out = String::new();
    walk_adf(node, &mut out);
    assert(out@ =~= node_text(*node));
    limited_line_feeds(out.as_str())
}

/// Whether three line feeds in a row are somewhere in `s`.
pub open spec fn has_three_line_feeds(s: Seq<char>) -> bool {
    exists|i: int|
        0 <= i && i + 2 < s.len() && #[trigger] s[i] == '\n' && s[i + 1] == '\n' && s[i + 2] == '\n'
}

/// Text in which line feeds are limited holds at most two in a row, and fewer
/// at its start where some came before.
proof fn lemma_limited(s: Seq<char>, run: int)
    requires
        0 <= run,
    ensures
        !has_three_line_feeds(limit_from(s, run)),
        run >= 1 ==> !(limit_from(s, run).len() > 1 && limit_from(s, run)[0] == '\n' && limit_from(
            s,
            run,
        )[1] == '\n'),
        run >= 2 ==> !(limit_from(s, run).len() > 0 && limit_from(s, run)[0] == '\n'),
    decreases s.len(),
{
    if s.len() > 0 {
        let rest = s.drop_first();
        let r = limit_from(s, run);
        if s[0] != '\n' {
            lemma_limited(rest, 0);
            let t = limit_from(rest, 0);
            assert forall|i: int| 0 <= i && i + 2 < r.len() implies !(#[trigger] r[i] == '\n' && r[i
                + 1] == '\n' && r[i + 2] == '\n') by {
                if i > 0 {
                    assert(r[i] == t[i - 1] && r[i + 1] == t[i] && r[i + 2] == t[i + 1]);
                }
            }
        } else if run < 2 {
            lemma_limited(rest, run + 1);
            let t = limit_from(rest, run + 1);
            assert forall|i: int| 0 <= i && i + 2 < r.len() implies !(#[trigger] r[i] == '\n' && r[i
                + 1] == '\n' && r[i + 2] == '\n') by {
                if i > 0 {
                    assert(r[i] == t[i - 1] && r[i + 1] == t[i] && r[i + 2] == t[i + 1]);
                } else {
                    assert(r[1] == t[0] && r[2] == t[1]);
                }
            }
            if run >= 1 && r.len() > 1 {
                assert(r[1] == t[0]);
            }
        } else {
            lemma_limited(rest, run + 1);
        }
    }
}

/// The text of a document never holds more than two line feeds in a row.
pub proof fn law_at_most_two_line_feeds(node: Json)
    ensures
        !has_three_line_feeds(limit_line_feeds(node_text(node))),
{
    lemma_limited(node_text(node), 0);
}

/// The text of nodes is the texts of each of them, in order.
proof fn lemma_nodes_in_order(nodes: Seq<Json>)
    ensures
        nodes_text(nodes) == nodes.map_values(|n: Json| node_text(n)).flatten(),
    decreases nodes.len(),
{
    let texts = nodes.map_values(|n: Json| node_text(n));
    if nodes.len() > 0 {
        lemma_nodes_in_order(nodes.drop_first());
        assert(texts.drop_first() =~= nodes.drop_first().map_values(|n: Json| node_text(n)));
    }
}

/// The text of a document is the texts of its children, in order, and that of a
/// paragraph or a heading is too, with a line feed behind it.
pub proof fn law_children_in_order(node: Json)
    ensures
        node_type(node) == "doc"@ ==> node_text(node) == children(node).map_values(
            |n: Json| node_text(n),
        ).flatten(),
        node_type(node) == "paragraph"@ || node_type(node) == "heading"@ ==> node_text(node)
            == children(node).map_values(|n: Json| node_text(n)).flatten() + "\n"@,
{
    lemma_nodes_in_order(children(node));
    reveal_strlit("doc");
    reveal_strlit("paragraph");
    reveal_strlit("heading");
    reveal_strlit("text");
    reveal_strlit("hardBreak");
    reveal_strlit("rule");
    reveal_strlit("mention");
    reveal_strlit("emoji");
    reveal_strlit("media");
    reveal_strlit("inlineCard");
    reveal_strlit("table");
    reveal_strlit("codeBlock");
    reveal_strlit("panel");
    reveal_strlit("blockquote");
    reveal_strlit("listItem");
    reveal_strlit("taskItem");
    reveal_strlit("bulletList");
    reveal_strlit("orderedList");
    reveal_strlit("taskList");
    let ty = node_type(node);
    if ty == "doc"@ {
        assert(ty.len() == 3);
    } else if ty == "paragraph"@ {
        assert(ty.len() == 9 && ty[0] == 'p');
    } else if ty == "heading"@ {
        assert(ty.len() == 7 && ty[0] == 'h');
    }
}

} // verus!
