//! Laws on the chunks of issues and pages.
use crate::app::NewPageView;
use crate::atlassian::confluence;
use crate::atlassian::confluence::WikiPageView;
use crate::atlassian::jira::IssueView;
use crate::chunking;
use crate::chunking::adf;
use crate::chunking::storage;
use crate::diagrams::mermaid;
use crate::ingest;
use crate::ingest::batches;
use crate::ingest::batches::StoredTimeView;
use crate::ingest::{PreChunkView, SourceView};
use crate::text;
use vstd::prelude::*;

verus! {

// ---------------------------------------------------------------------------
// Parts of a text

/// Each part of a text becomes one chunk, in order: it holds the part whole,
/// its id ends in its number, and everything else is that of its source.
pub proof fn law_every_part_is_a_chunk(src: SourceView, parts: Seq<Seq<char>>)
    ensures
        ingest::part_chunks(src, parts).len() == parts.len(),
        forall|i: int|
            0 <= i < parts.len() ==> {
                let c = #[trigger] ingest::part_chunks(src, parts)[i];
                &&& c.text == parts[i]
                &&& c.id == src.id_prefix + text::decimal(i as nat)
                &&& c.source_type == src.source_type
                &&& c.source_id == src.source_id
                &&& c.title == src.title
                &&& c.url == src.url
                &&& c.space_or_project == src.space_or_project
                &&& c.author.len() == 0
                &&& c.created_at == src.created_at
                &&& c.updated_at == src.updated_at
                &&& c.labels == src.labels
            },
{
}

// ---------------------------------------------------------------------------
// Issues

/// The text of an issue begins with its whole summary and ends in the whole
/// text of its description; where there is none, it is the summary alone.
pub proof fn law_issue_text_is_whole(issue: IssueView)
    ensures
        ({
            let summary = match issue.summary {
                Some(s) => s,
                None => Seq::empty(),
            };
            &&& summary.is_prefix_of(ingest::issue_text(issue))
            &&& issue.description is None ==> ingest::issue_text(issue) == summary
            &&& issue.description matches Some(d) ==> {
                let body = adf::limit_line_feeds(adf::node_text(d));
                &&& body.is_suffix_of(ingest::issue_text(issue))
                &&& ingest::issue_text(issue).len() == summary.len() + (if body.len() == 0 {
                    0
                } else {
                    2 + body.len()
                })
                &&& body.len() > 0 ==> ingest::issue_text(issue)[summary.len() as int] == '\n'
                    && ingest::issue_text(issue)[(summary.len() + 1) as int] == '\n'
            }
        }),
{
    reveal_strlit("\n\n");
    let summary = text::text_or_empty(issue.summary);
    let r = ingest::issue_text(issue);
    assert(r.subrange(0, summary.len() as int) =~= summary);
    if let Some(d) = issue.description {
        let body = adf::limit_line_feeds(adf::node_text(d));
        assert(r.subrange(r.len() - body.len(), r.len() as int) =~= body);
    }
}

/// The chunks of issues are those of the first ones followed by those of the
/// others.
pub proof fn law_issues_add_up(site: Seq<char>, a: Seq<IssueView>, b: Seq<IssueView>)
    ensures
        ingest::all_issue_chunks(site, a + b) == ingest::all_issue_chunks(site, a)
            + ingest::all_issue_chunks(site, b),
    decreases b.len(),
{
    if b.len() == 0 {
        assert(a + b =~= a);
        assert(ingest::all_issue_chunks(site, a) + ingest::all_issue_chunks(site, b)
            =~= ingest::all_issue_chunks(site, a));
    } else {
        assert((a + b).drop_last() =~= a + b.drop_last());
        law_issues_add_up(site, a, b.drop_last());
        let x = ingest::all_issue_chunks(site, a);
        let y = ingest::all_issue_chunks(site, b.drop_last());
        let z = ingest::issue_chunks(site, b.last());
        assert(x + (y + z) =~= (x + y) + z);
    }
}

/// The chunks of one issue are the parts of its text, each under the key of the
/// issue and with what the issue says of itself; an issue whose text is nothing
/// but white space has none.
pub proof fn law_one_issue(site: Seq<char>, issue: IssueView)
    ensures
        ({
            let body = ingest::issue_text(issue);
            let parts = chunking::split_text(body);
            let r = ingest::all_issue_chunks(site, seq![issue]);
            &&& (forall|k: int| 0 <= k < body.len() ==> text::is_white(#[trigger] body[k]))
                ==> r.len() == 0
            &&& (exists|k: int| 0 <= k < body.len() && !text::is_white(#[trigger] body[k])) ==> {
                &&& r.len() == parts.len()
                &&& forall|i: int|
                    0 <= i < r.len() ==> {
                        let c = #[trigger] r[i];
                        &&& c.text == parts[i]
                        &&& c.id == "jira:"@ + issue.key + ":"@ + text::decimal(i as nat)
                        &&& c.source_type == "jira"@
                        &&& c.source_id == issue.key
                        &&& c.title == text::text_or_empty(issue.summary)
                        &&& c.url == site + "/browse/"@ + issue.key
                        &&& c.space_or_project == text::text_or_empty(issue.project)
                        &&& c.created_at == chunking::iso_seconds(issue.created)
                        &&& c.updated_at == chunking::iso_seconds(issue.updated)
                        &&& c.labels == (match issue.status {
                            Some(s) => seq![s],
                            None => Seq::<Seq<char>>::empty(),
                        })
                    }
            }
        }),
{
    let body = ingest::issue_text(issue);
    text::law_blank_is_white(body);
    let one = seq![issue];
    assert(one.drop_last() =~= Seq::empty());
    assert(ingest::all_issue_chunks(site, one.drop_last()) == Seq::<PreChunkView>::empty());
    assert(ingest::all_issue_chunks(site, one) =~= ingest::issue_chunks(site, issue));
}

/// No issue is left out: each part of the text of each issue whose text is not
/// blank is among the chunks, under the key of that issue.
pub proof fn law_no_issue_is_left_out(site: Seq<char>, issues: Seq<IssueView>, i: int, k: int)
    requires
        0 <= i < issues.len(),
        exists|c: int|
            0 <= c < ingest::issue_text(issues[i]).len() && !text::is_white(
                #[trigger] ingest::issue_text(issues[i])[c],
            ),
        0 <= k < chunking::split_text(ingest::issue_text(issues[i])).len(),
    ensures
        exists|j: int|
            0 <= j < ingest::all_issue_chunks(site, issues).len() && {
                let c = #[trigger] ingest::all_issue_chunks(site, issues)[j];
                c.source_id == issues[i].key && c.text == chunking::split_text(
                    ingest::issue_text(issues[i]),
                )[k]
            },
{
    let one = seq![issues[i]];
    let a = issues.take(i);
    let b = issues.skip(i + 1);
    assert(issues =~= a + one + b);
    law_issues_add_up(site, a + one, b);
    law_issues_add_up(site, a, one);
    law_one_issue(site, issues[i]);
    let x = ingest::all_issue_chunks(site, a);
    let y = ingest::all_issue_chunks(site, one);
    let j = x.len() + k;
    assert(ingest::all_issue_chunks(site, issues)[j] == y[k]);
}

/// A search for the issues since a time names that time, and one for all names
/// none; both ask for the latest first.
pub proof fn law_query_names_the_time(ts: Seq<char>)
    ensures
        ingest::issue_query(Some(ts)) == "updated >= '"@ + ts + "' "@ + ingest::issue_query(None),
        ingest::issue_query(None) == "ORDER BY updated DESC"@,
{
    reveal_strlit("' ORDER BY updated DESC");
    reveal_strlit("' ");
    reveal_strlit("ORDER BY updated DESC");
    assert("' ORDER BY updated DESC"@ =~= "' "@ + "ORDER BY updated DESC"@);
    assert(ingest::issue_query(Some(ts)) =~= "updated >= '"@ + ts + "' "@ + ingest::issue_query(
        None,
    ));
}

// ---------------------------------------------------------------------------
// Pages

/// The chunks of pages are those of the first ones followed by those of the
/// others.
pub proof fn law_pages_add_up(site: Seq<char>, a: Seq<WikiPageView>, b: Seq<WikiPageView>)
    ensures
        ingest::all_page_chunks(site, a + b) == ingest::all_page_chunks(site, a)
            + ingest::all_page_chunks(site, b),
    decreases b.len(),
{
    if b.len() == 0 {
        assert(a + b =~= a);
        assert(ingest::all_page_chunks(site, a) + ingest::all_page_chunks(site, b)
            =~= ingest::all_page_chunks(site, a));
    } else {
        assert((a + b).drop_last() =~= a + b.drop_last());
        law_pages_add_up(site, a, b.drop_last());
        let x = ingest::all_page_chunks(site, a);
        let y = ingest::all_page_chunks(site, b.drop_last());
        let z = ingest::page_chunks(site, b.last(), ingest::page_parts(b.last()));
        assert(x + (y + z) =~= (x + y) + z);
    }
}

/// The content of a page is what is read from its whole body.
pub proof fn law_page_content_is_read(page: WikiPageView)
    ensures
        page.storage matches Some(s) && s.len() > 0 ==> ingest::page_parts(page)
            == storage::page_content(page.storage->0),
        page.storage is None || page.storage->0.len() == 0 ==> ingest::page_parts(page)
            == storage::no_content(),
{
}

/// The chunks of one page are the parts of its text, each under the id of the
/// page and with what the page says of itself; a page whose text is nothing but
/// white space has none.
pub proof fn law_one_page(site: Seq<char>, page: WikiPageView)
    ensures
        ({
            let body = ingest::page_text(page, ingest::page_parts(page));
            let parts = chunking::split_text(body);
            let r = ingest::all_page_chunks(site, seq![page]);
            &&& (forall|k: int| 0 <= k < body.len() ==> text::is_white(#[trigger] body[k]))
                ==> r.len() == 0
            &&& (exists|k: int| 0 <= k < body.len() && !text::is_white(#[trigger] body[k])) ==> {
                &&& r.len() == parts.len()
                &&& forall|i: int|
                    0 <= i < r.len() ==> {
                        let c = #[trigger] r[i];
                        &&& c.text == parts[i]
                        &&& c.id == "confluence:"@ + page.id + ":"@ + text::decimal(i as nat)
                        &&& c.source_type == "confluence"@
                        &&& c.source_id == page.id
                        &&& c.title == page.title
                        &&& c.url == (match page.webui {
                            Some(link) => site + "/wiki"@ + link,
                            None => site + "/wiki/spaces/_/pages/"@ + page.id,
                        })
                        &&& c.space_or_project == text::text_or_empty(page.space_id)
                        &&& c.created_at == (match page.version {
                            Some(v) => chunking::iso_seconds(v.1),
                            None => 0,
                        })
                        &&& c.updated_at == c.created_at
                        &&& c.labels.len() == 0
                    }
            }
        }),
{
    let body = ingest::page_text(page, ingest::page_parts(page));
    text::law_blank_is_white(body);
    let one = seq![page];
    assert(one.drop_last() =~= Seq::empty());
    assert(ingest::all_page_chunks(site, one.drop_last()) == Seq::<PreChunkView>::empty());
    assert(ingest::all_page_chunks(site, one) =~= ingest::page_chunks(
        site,
        page,
        ingest::page_parts(page),
    ));
}

/// No page is left out: each part of the text of each page whose text is not
/// blank is among the chunks, under the id of that page.
pub proof fn law_no_page_is_left_out(site: Seq<char>, pages: Seq<WikiPageView>, i: int, k: int)
    requires
        0 <= i < pages.len(),
        exists|c: int|
            0 <= c < ingest::page_text(pages[i], ingest::page_parts(pages[i])).len()
                && !text::is_white(
                #[trigger] ingest::page_text(pages[i], ingest::page_parts(pages[i]))[c],
            ),
        0 <= k < chunking::split_text(
            ingest::page_text(pages[i], ingest::page_parts(pages[i])),
        ).len(),
    ensures
        exists|j: int|
            0 <= j < ingest::all_page_chunks(site, pages).len() && {
                let c = #[trigger] ingest::all_page_chunks(site, pages)[j];
                c.source_id == pages[i].id && c.text == chunking::split_text(
                    ingest::page_text(pages[i], ingest::page_parts(pages[i])),
                )[k]
            },
{
    let one = seq![pages[i]];
    let a = pages.take(i);
    let b = pages.skip(i + 1);
    assert(pages =~= a + one + b);
    law_pages_add_up(site, a + one, b);
    law_pages_add_up(site, a, one);
    law_one_page(site, pages[i]);
    let x = ingest::all_page_chunks(site, a);
    let y = ingest::all_page_chunks(site, one);
    let j = x.len() + k;
    assert(ingest::all_page_chunks(site, pages)[j] == y[k]);
}

/// The text of a page begins with its whole title; the whole text of its body
/// stands behind an empty line, and then each Mermaid block, in order.
pub proof fn law_page_text_is_whole(page: WikiPageView, content: storage::PageContentView)
    ensures
        page.title.is_prefix_of(ingest::page_text(page, content)),
        content.text.len() > 0 && content.mermaid_blocks.len() == 0 ==> ingest::page_text(
            page,
            content,
        ) == page.title + "\n\n"@ + content.text,
        content.text.len() == 0 && content.mermaid_blocks.len() == 0 ==> ingest::page_text(
            page,
            content,
        ) == page.title,
        ingest::page_text(page, content) == ingest::page_text(
            page,
            storage::PageContentView { mermaid_blocks: Seq::empty(), ..content },
        ) + ingest::page_text(
            WikiPageView { title: Seq::empty(), ..page },
            storage::PageContentView { text: Seq::empty(), ..content },
        ),
{
    let r = ingest::page_text(page, content);
    assert(r.subrange(0, page.title.len() as int) =~= page.title);
    let blocks = ingest::block_texts(page.id, content.mermaid_blocks);
    assert(ingest::block_texts(page.id, Seq::empty()) == Seq::<char>::empty());
    assert(content.mermaid_blocks.len() == 0 ==> content.mermaid_blocks =~= Seq::empty());
    assert(content.text.len() > 0 ==> page.title + ("\n\n"@ + content.text) =~= page.title + "\n\n"@
        + content.text);
    assert(r =~= ingest::page_text(
        page,
        storage::PageContentView { mermaid_blocks: Seq::empty(), ..content },
    ) + ingest::page_text(
        WikiPageView { title: Seq::empty(), ..page },
        storage::PageContentView { text: Seq::empty(), ..content },
    ));
    if content.text.len() > 0 && content.mermaid_blocks.len() == 0 {
        assert(r =~= page.title + "\n\n"@ + content.text);
    }
    if content.text.len() == 0 && content.mermaid_blocks.len() == 0 {
        assert(r =~= page.title);
    }
}

/// One more Mermaid block stands whole behind those before it, under a heading
/// with the id of the page and the number of the block.
pub proof fn law_mermaid_blocks_are_whole(page_id: Seq<char>, blocks: Seq<Seq<char>>, b: Seq<char>)
    ensures
        ingest::block_texts(page_id, blocks.push(b)) == ingest::block_texts(page_id, blocks)
            + "\n\n"@ + mermaid::mermaid_text(
            b,
            Some("page "@ + page_id + " #"@ + text::decimal(blocks.len() + 1)),
        ),
        ingest::block_texts(page_id, Seq::empty()) == Seq::<char>::empty(),
{
    assert(blocks.push(b).drop_last() =~= blocks);
}

// ---------------------------------------------------------------------------
// New pages

/// The new pages of a list are those of its first part and then those of the
/// rest.
pub proof fn law_new_pages_add_up(site: Seq<char>, a: Seq<WikiPageView>, b: Seq<WikiPageView>)
    ensures
        ingest::new_pages(site, a + b) == ingest::new_pages(site, a) + ingest::new_pages(site, b),
    decreases b.len(),
{
    if b.len() == 0 {
        assert(a + b =~= a);
        assert(ingest::new_pages(site, a) + ingest::new_pages(site, b) =~= ingest::new_pages(
            site,
            a,
        ));
    } else {
        assert((a + b).drop_last() =~= a + b.drop_last());
        law_new_pages_add_up(site, a, b.drop_last());
        let x = ingest::new_pages(site, a);
        let y = ingest::new_pages(site, b.drop_last());
        if let Some(p) = ingest::new_page(site, b.last()) {
            assert((x + y).push(p) =~= x + y.push(p));
        }
    }
}

/// A page is new if and only if it is in its first version and its body has
/// text; it is reported with its id, title and address, and with its title and
/// its whole text.
pub proof fn law_one_new_page(site: Seq<char>, page: WikiPageView, body: Seq<char>)
    requires
        page.storage == Some(body),
    ensures
        ({
            let seen = storage::page_content(body).text;
            let first = match page.version {
                Some(v) => v.0 == 1,
                None => false,
            };
            let r = ingest::new_pages(site, seq![page]);
            &&& first && body.len() > 0 && (exists|k: int|
                0 <= k < seen.len() && !text::is_white(#[trigger] seen[k])) ==> r == seq![
                NewPageView {
                    id: page.id,
                    title: page.title,
                    url: match page.webui {
                        Some(link) => site + "/wiki"@ + link,
                        None => site + "/wiki/spaces/_/pages/"@ + page.id,
                    },
                    text: page.title + "\n\n"@ + seen,
                },
            ]
            &&& !first || body.len() == 0 || (forall|k: int|
                0 <= k < seen.len() ==> text::is_white(#[trigger] seen[k])) ==> r.len() == 0
        }),
{
    let seen = storage::page_content(body).text;
    text::law_blank_is_white(seen);
    let one = seq![page];
    assert(one.drop_last() =~= Seq::empty());
    assert(ingest::new_pages(site, one.drop_last()) == Seq::<NewPageView>::empty());
    if let Some(p) = ingest::new_page(site, page) {
        assert(Seq::<NewPageView>::empty().push(p) =~= seq![p]);
    }
}

/// A page without a body is not new.
pub proof fn law_page_without_body_is_not_new(site: Seq<char>, page: WikiPageView)
    requires
        page.storage is None,
    ensures
        ingest::new_pages(site, seq![page]).len() == 0,
{
    let one = seq![page];
    assert(one.drop_last() =~= Seq::empty());
    assert(ingest::new_pages(site, one.drop_last()) == Seq::<NewPageView>::empty());
}

// ---------------------------------------------------------------------------
// Diagrams and images

/// A chunk of a diagram or an image belongs to its page or issue: only its id,
/// title and labels differ from those of the text, and the id tells the kind and
/// the number.
pub proof fn law_extras_belong_to_their_document(
    site: Seq<char>,
    page: WikiPageView,
    issue: IssueView,
    n: nat,
    name: Seq<char>,
)
    ensures
        ({
            let p = ingest::page_source(site, page);
            let d = ingest::diagram_source(site, page, n, name);
            &&& d.id_prefix == p.id_prefix + "drawio:"@ + text::decimal(n) + ":"@
            &&& d.title == page.title + " (draw.io: "@ + name + ")"@
            &&& d.labels == seq!["drawio"@]
            &&& d.source_type == p.source_type && d.source_id == p.source_id && d.url == p.url
            &&& d.space_or_project == p.space_or_project
            &&& d.created_at == p.created_at && d.updated_at == p.updated_at
        }),
        ({
            let p = ingest::page_source(site, page);
            let m = ingest::page_image_source(site, page, n, name);
            &&& m.id_prefix == p.id_prefix + "img:"@ + text::decimal(n) + ":"@
            &&& m.title == page.title + " (画像: "@ + name + ")"@
            &&& m.labels == seq!["image"@]
            &&& m.source_type == p.source_type && m.source_id == p.source_id && m.url == p.url
            &&& m.space_or_project == p.space_or_project
            &&& m.created_at == p.created_at && m.updated_at == p.updated_at
        }),
        ({
            let p = ingest::issue_source(site, issue);
            let m = ingest::issue_image_source(site, issue, n, name);
            &&& m.id_prefix == p.id_prefix + "img:"@ + text::decimal(n) + ":"@
            &&& m.title == p.title + " (画像: "@ + name + ")"@
            &&& m.labels == seq!["image"@]
            &&& m.source_type == p.source_type && m.source_id == p.source_id && m.url == p.url
            &&& m.space_or_project == p.space_or_project
            &&& m.created_at == p.created_at && m.updated_at == p.updated_at
        }),
{
    reveal_strlit(" (");
    reveal_strlit(": ");
    reveal_strlit("draw.io");
    reveal_strlit("画像");
    reveal_strlit(" (draw.io: ");
    reveal_strlit(" (画像: ");
    assert(" ("@ + "draw.io"@ + ": "@ =~= " (draw.io: "@);
    assert(" ("@ + "画像"@ + ": "@ =~= " (画像: "@);
    assert(ingest::title_with(page.title, "draw.io"@, name) =~= page.title + " (draw.io: "@ + name
        + ")"@);
    assert(ingest::title_with(page.title, "画像"@, name) =~= page.title + " (画像: "@ + name + ")"@);
    let t = ingest::issue_source(site, issue).title;
    assert(ingest::title_with(t, "画像"@, name) =~= t + " (画像: "@ + name + ")"@);
}

/// The text of an image names it and holds the whole description.
pub proof fn law_image_text_is_whole(name: Seq<char>, description: Seq<char>)
    ensures
        ingest::image_text(name, description) == "[画像: "@ + name + "]\n"@ + description,
        description.is_suffix_of(ingest::image_text(name, description)),
{
    let r = ingest::image_text(name, description);
    assert(r.subrange(r.len() - description.len(), r.len() as int) =~= description);
}

// ---------------------------------------------------------------------------
// What is embedded

/// What is embedded of chunks is what is of the first ones and then of the
/// others, so that their order is kept.
pub proof fn law_embedding_adds_up(
    a: Seq<PreChunkView>,
    b: Seq<PreChunkView>,
    stored: Seq<StoredTimeView>,
    incremental: bool,
)
    ensures
        batches::to_embed(a + b, stored, incremental) == batches::to_embed(a, stored, incremental)
            + batches::to_embed(b, stored, incremental),
    decreases b.len(),
{
    if b.len() == 0 {
        assert(a + b =~= a);
        assert(batches::to_embed(a, stored, incremental) + batches::to_embed(
            b,
            stored,
            incremental,
        ) =~= batches::to_embed(a, stored, incremental));
    } else {
        assert((a + b).drop_last() =~= a + b.drop_last());
        law_embedding_adds_up(a, b.drop_last(), stored, incremental);
        let x = batches::to_embed(a, stored, incremental);
        let y = batches::to_embed(b.drop_last(), stored, incremental);
        assert((x + y).push(b.last()) =~= x + y.push(b.last()));
    }
}

/// One chunk is left out if and only if the synchronisation is incremental, the
/// time of the chunk is known, and a record with its id and that time is stored.
pub proof fn law_one_chunk_is_embedded(
    c: PreChunkView,
    stored: Seq<StoredTimeView>,
    incremental: bool,
)
    ensures
        batches::to_embed(seq![c], stored, incremental) == (if incremental && c.updated_at != 0
            && exists|k: int|
            0 <= k < stored.len() && (#[trigger] stored[k]).id == c.id && stored[k].updated_at
                == c.updated_at {
            Seq::<PreChunkView>::empty()
        } else {
            seq![c]
        }),
{
    let one = seq![c];
    assert(one.drop_last() =~= Seq::empty());
    assert(batches::to_embed(one.drop_last(), stored, incremental) == Seq::<PreChunkView>::empty());
    assert(Seq::<PreChunkView>::empty().push(c) =~= one);
    let wanted = StoredTimeView { id: c.id, updated_at: c.updated_at };
    if batches::is_stored(stored, c.id, c.updated_at) {
        let k = choose|k: int| 0 <= k < stored.len() && stored[k] == wanted;
        assert(stored[k].id == c.id && stored[k].updated_at == c.updated_at);
    }
    if exists|k: int|
        0 <= k < stored.len() && (#[trigger] stored[k]).id == c.id && stored[k].updated_at
            == c.updated_at {
        let k = choose|k: int|
            0 <= k < stored.len() && (#[trigger] stored[k]).id == c.id && stored[k].updated_at
                == c.updated_at;
        assert(stored[k] == wanted);
    }
}

/// A record is its chunk with a vector: nothing of the chunk is changed.
pub proof fn law_vectors_are_added(chunks: Seq<PreChunkView>, vectors: Seq<Seq<u32>>)
    requires
        chunks.len() == vectors.len(),
    ensures
        batches::with_vectors(chunks, vectors).len() == chunks.len(),
        forall|i: int|
            0 <= i < chunks.len() ==> {
                let r = #[trigger] batches::with_vectors(chunks, vectors)[i];
                let c = chunks[i];
                &&& r.vector == vectors[i]
                &&& r.id == c.id && r.source_type == c.source_type && r.source_id == c.source_id
                &&& r.title == c.title && r.url == c.url && r.text == c.text
                &&& r.space_or_project == c.space_or_project && r.author == c.author
                &&& r.created_at == c.created_at && r.updated_at == c.updated_at
                &&& r.labels == c.labels
            },
{
}

} // verus!
