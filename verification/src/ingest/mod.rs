//! Turning issues and pages into chunks.
use crate::app::{NewPageInfo, NewPageView};
use crate::atlassian::confluence;
use crate::atlassian::confluence::WikiPageView;
use crate::atlassian::jira;
use crate::atlassian::jira::IssueView;
use crate::atlassian::{AtlassianClient, ConfluencePage, JiraIssue};
use crate::chunking;
use crate::chunking::adf;
use crate::chunking::storage;
use crate::chunking::{
    adf_to_text, parse_confluence_storage, parse_iso_string, split, ConfluencePageContent,
    CHUNK_CHARS,
};
use crate::config::IngestOptions;
use crate::diagrams::drawio;
use crate::diagrams::drawio::{DrawioDiagram, DrawioError};
use crate::diagrams::mermaid;
use crate::diagrams::mermaid::extract_mermaid_text;
use crate::text;
use crate::text::{is_blank, number};
use vstd::prelude::*;

pub mod attachments;
pub mod batches;
pub mod extras;
pub mod extras_laws;
pub mod issue_images;
pub mod laws;
pub mod run;

pub use attachments::{attachment_download_url, find_drawio_attachment};

verus! {

/// The largest number of issues, and of pages, in one synchronisation.
pub const MAX_DOCUMENTS: usize = 5000;

// ---------------------------------------------------------------------------
// Chunks

/// A chunk before it has a vector.
#[derive(Debug)]
pub struct PreChunk {
    pub id: String,
    pub source_type: String,
    pub source_id: String,
    pub title: String,
    pub url: String,
    pub space_or_project: String,
    pub author: String,
    pub created_at: i64,
    pub updated_at: i64,
    pub labels: Vec<String>,
    pub text: String,
}

/// The model of a chunk before it has a vector.
pub struct PreChunkView {
    pub id: Seq<char>,
    pub source_type: Seq<char>,
    pub source_id: Seq<char>,
    pub title: Seq<char>,
    pub url: Seq<char>,
    pub space_or_project: Seq<char>,
    pub author: Seq<char>,
    pub created_at: i64,
    pub updated_at: i64,
    pub labels: Seq<Seq<char>>,
    pub text: Seq<char>,
}

impl DeepView for PreChunk {
    type V = PreChunkView;

    open spec fn deep_view(&self) -> PreChunkView {
        PreChunkView {
            id: self.id@,
            source_type: self.source_type@,
            source_id: self.source_id@,
            title: self.title@,
            url: self.url@,
            space_or_project: self.space_or_project@,
            author: self.author@,
            created_at: self.created_at,
            updated_at: self.updated_at,
            labels: self.labels.deep_view(),
            text: self.text@,
        }
    }
}

impl Clone for PreChunk {
    fn clone(&self) -> (r: Self)
        ensures
            r.deep_view() == self.deep_view(),
    {
        let r = PreChunk {
            id: self.id.clone(),
            source_type: self.source_type.clone(),
            source_id: self.source_id.clone(),
            title: self.title.clone(),
            url: self.url.clone(),
            space_or_project: self.space_or_project.clone(),
            author: self.author.clone(),
            created_at: self.created_at,
            updated_at: self.updated_at,
            labels: self.labels.clone(),
            text: self.text.clone(),
        };
        assert(r.labels.deep_view() =~= self.labels.deep_view());
        r
    }
}

/// What the chunks of one text have in common.
pub struct ChunkSource {
    /// What stands before the number of a chunk in its id.
    pub id_prefix: String,
    pub source_type: String,
    pub source_id: String,
    pub title: String,
    pub url: String,
    pub space_or_project: String,
    pub created_at: i64,
    pub updated_at: i64,
    pub labels: Vec<String>,
}

/// The model of what the chunks of one text have in common.
pub struct SourceView {
    pub id_prefix: Seq<char>,
    pub source_type: Seq<char>,
    pub source_id: Seq<char>,
    pub title: Seq<char>,
    pub url: Seq<char>,
    pub space_or_project: Seq<char>,
    pub created_at: i64,
    pub updated_at: i64,
    pub labels: Seq<Seq<char>>,
}

impl DeepView for ChunkSource {
    type V = SourceView;

    open spec fn deep_view(&self) -> SourceView {
        SourceView {
            id_prefix: self.id_prefix@,
            source_type: self.source_type@,
            source_id: self.source_id@,
            title: self.title@,
            url: self.url@,
            space_or_project: self.space_or_project@,
            created_at: self.created_at,
            updated_at: self.updated_at,
            labels: self.labels.deep_view(),
        }
    }
}

/// The chunk with the number `i` of a text.
pub open spec fn part_chunk(src: SourceView, i: int, part: Seq<char>) -> PreChunkView {
    PreChunkView {
        id: src.id_prefix + text::decimal(i as nat),
        source_type: src.source_type,
        source_id: src.source_id,
        title: src.title,
        url: src.url,
        space_or_project: src.space_or_project,
        author: Seq::empty(),
        created_at: src.created_at,
        updated_at: src.updated_at,
        labels: src.labels,
        text: part,
    }
}

/// The chunks of a text that was split into parts.
pub open spec fn part_chunks(src: SourceView, parts: Seq<Seq<char>>) -> Seq<PreChunkView> {
    Seq::new(parts.len(), |i: int| part_chunk(src, i, parts[i]))
}

/// The chunks of a text that was split into parts.
pub fn chunk_parts(src: &ChunkSource, parts: &Vec<String>) -> (r: Vec<PreChunk>)
    ensures
        r.deep_view() == part_chunks(src.deep_view(), parts.deep_view()),
{
    let ghost s = src.deep_view();
    let ghost all = parts.deep_view();
    let mut out: Vec<PreChunk> = Vec::new();
    assert(out.deep_view() =~= Seq::empty());
    for i in 0..parts.len()
        invariant
            s == src.deep_view(),
            all == parts.deep_view(),
            out.deep_view() == Seq::new(i as nat, |k: int| part_chunk(s, k, all[k])),
    {
        let mut id = src.id_prefix.clone();
        id.append(number(i as u64).as_str());
        let labels = src.labels.clone();
        assert(labels.deep_view() =~= src.labels.deep_view());
        let c = PreChunk {
            id,
            source_type: src.source_type.clone(),
            source_id: src.source_id.clone(),
            title: src.title.clone(),
            url: src.url.clone(),
            space_or_project: src.space_or_project.clone(),
            author: String::new(),
            created_at: src.created_at,
            updated_at: src.updated_at,
            labels,
            text: parts[i].clone(),
        };
        assert(c.deep_view() == part_chunk(s, i as int, all[i as int]));
        let ghost before = out.deep_view();
        out.push(c);
        assert(out.deep_view() =~= before.push(c.deep_view()));
        assert(out.deep_view() =~= Seq::new((i + 1) as nat, |k: int| part_chunk(s, k, all[k])));
    }
    out
}

/// The chunks of a text: none is empty, and none has more than `CHUNK_CHARS`
/// characters.
pub fn chunk_text(src: &ChunkSource, body: &str) -> (r: Vec<PreChunk>)
    ensures
        r.deep_view() == part_chunks(src.deep_view(), chunking::split_text(body@)),
        forall|i: int|
            0 <= i < r@.len() ==> 0 < (#[trigger] r.deep_view()[i]).text.len()
                <= CHUNK_CHARS as nat,
{
    let parts = split(body);
    let r = chunk_parts(src, &parts);
    assert forall|i: int| 0 <= i < r@.len() implies 0 < (#[trigger] r.deep_view()[i]).text.len()
        <= CHUNK_CHARS as nat by {
        assert(r.deep_view().len() == r@.len());
        assert(parts.deep_view().len() == parts@.len());
        assert(r.deep_view()[i] == part_chunk(src.deep_view(), i, parts.deep_view()[i]));
    }
    r
}

/// A list of one text.
fn one_label(s: &str) -> (r: Vec<String>)
    ensures
        r.deep_view() == seq![s@],
{
    let mut r: Vec<String> = Vec::new();
    r.push(s.to_owned());
    assert(r.deep_view() =~= seq![s@]);
    r
}

/// An empty list of texts.
fn no_labels() -> (r: Vec<String>)
    ensures
        r.deep_view() == Seq::<Seq<char>>::empty(),
{
    let r: Vec<String> = Vec::new();
    assert(r.deep_view() =~= Seq::empty());
    r
}

// ---------------------------------------------------------------------------
// Issues

/// The query for the issues that changed since a time, or for all.
pub open spec fn issue_query(since: Option<Seq<char>>) -> Seq<char> {
    match since {
        Some(ts) => "updated >= '"@ + ts + "' ORDER BY updated DESC"@,
        None => "ORDER BY updated DESC"@,
    }
}

/// The query for the issues that changed since a time, or for all.
pub fn jql(since: Option<&str>) -> (r: String)
    ensures
        r@ == issue_query(since.deep_view()),
{
    match since {
        Some(ts) => {
            let mut q = "updated >= '".to_owned();
            q.append(ts);
            q.append("' ORDER BY updated DESC");
            q
        },
        None => "ORDER BY updated DESC".to_owned(),
    }
}

/// The text of an issue: its summary, and its description below it.
pub open spec fn issue_text(issue: IssueView) -> Seq<char> {
    let title = text::text_or_empty(issue.summary);
    let body = match issue.description {
        Some(d) => adf::limit_line_feeds(adf::node_text(d)),
        None => Seq::empty(),
    };
    if body.len() == 0 {
        title
    } else {
        title + "\n\n"@ + body
    }
}

/// What the chunks of an issue have in common.
pub open spec fn issue_source(site: Seq<char>, issue: IssueView) -> SourceView {
    SourceView {
        id_prefix: "jira:"@ + issue.key + ":"@,
        source_type: "jira"@,
        source_id: issue.key,
        title: text::text_or_empty(issue.summary),
        url: jira::issue_address(site, issue.key),
        space_or_project: text::text_or_empty(issue.project),
        created_at: chunking::iso_seconds(issue.created),
        updated_at: chunking::iso_seconds(issue.updated),
        labels: match issue.status {
            Some(s) => seq![s],
            None => Seq::empty(),
        },
    }
}

/// The chunks of an issue; an issue without text has none.
pub open spec fn issue_chunks(site: Seq<char>, issue: IssueView) -> Seq<PreChunkView> {
    if text::blank(issue_text(issue)) {
        Seq::empty()
    } else {
        part_chunks(issue_source(site, issue), chunking::split_text(issue_text(issue)))
    }
}

/// The chunks of issues.
pub open spec fn all_issue_chunks(site: Seq<char>, issues: Seq<IssueView>) -> Seq<PreChunkView>
    decreases issues.len(),
{
    if issues.len() == 0 {
        Seq::empty()
    } else {
        all_issue_chunks(site, issues.drop_last()) + issue_chunks(site, issues.last())
    }
}

/// `issue_text`, executable.
pub fn text_of_issue(issue: &JiraIssue) -> (r: String)
    ensures
        r@ == issue_text(issue.deep_view()),
{
    let mut combined = text::or_empty(&issue.fields.summary);
    let body = match &issue.fields.description {
        Some(d) => adf_to_text(d),
        None => String::new(),
    };
    if !body.as_str().is_empty() {
        combined.append("\n\n");
        combined.append(body.as_str());
    }
    combined
}

/// The key of the project of an issue, empty where it has none.
fn project_key(issue: &JiraIssue) -> (r: String)
    ensures
        r@ == text::text_or_empty(issue.deep_view().project),
{
    match &issue.fields.project {
        Some(p) => p.key.clone(),
        None => String::new(),
    }
}

/// `issue_source`, executable.
pub fn source_of_issue(client: &AtlassianClient, issue: &JiraIssue) -> (r: ChunkSource)
    ensures
        r.deep_view() == issue_source(client.site_view(), issue.deep_view()),
{
    let mut id_prefix = "jira:".to_owned();
    id_prefix.append(issue.key.as_str());
    id_prefix.append(":");
    let labels = match &issue.fields.status {
        Some(s) => one_label(s.name.as_str()),
        None => no_labels(),
    };
    ChunkSource {
        id_prefix,
        source_type: "jira".to_owned(),
        source_id: issue.key.clone(),
        title: text::or_empty(&issue.fields.summary),
        url: client.issue_url(issue.key.as_str()),
        space_or_project: project_key(issue),
        created_at: parse_iso_string(&issue.fields.created),
        updated_at: parse_iso_string(&issue.fields.updated),
        labels,
    }
}

/// The chunks of issues.
pub fn jira_to_chunks(client: &AtlassianClient, issues: &Vec<JiraIssue>) -> (r: Vec<PreChunk>)
    ensures
        r.deep_view() == all_issue_chunks(client.site_view(), issues.deep_view()),
{
    let ghost site = client.site_view();
    let ghost all = issues.deep_view();
    let mut out: Vec<PreChunk> = Vec::new();
    assert(out.deep_view() =~= all_issue_chunks(site, all.take(0)));
    for i in 0..issues.len()
        invariant
            site == client.site_view(),
            all == issues.deep_view(),
            out.deep_view() == all_issue_chunks(site, all.take(i as int)),
    {
        let issue = &issues[i];
        assert(all.take(i + 1).drop_last() =~= all.take(i as int));
        assert(all.take(i + 1).last() == issue.deep_view());
        let ghost before = out.deep_view();
        let combined = text_of_issue(issue);
        if is_blank(combined.as_str()) {
            assert(before + Seq::<PreChunkView>::empty() =~= before);
        } else {
            let src = source_of_issue(client, issue);
            let mut more = chunk_text(&src, combined.as_str());
            let ghost added = more.deep_view();
            out.append(&mut more);
            assert(out.deep_view() =~= before + added);
        }
    }
    assert(all.take(issues.len() as int) =~= all);
    out
}

// ---------------------------------------------------------------------------
// Pages

/// What a page holds; nothing where it has no body.
pub open spec fn page_parts(page: WikiPageView) -> storage::PageContentView {
    if confluence::storage_of(page).len() == 0 {
        storage::no_content()
    } else {
        storage::page_content(confluence::storage_of(page))
    }
}

/// The title of the Mermaid block with this number on a page.
pub open spec fn block_title(page_id: Seq<char>, n: nat) -> Seq<char> {
    "page "@ + page_id + " #"@ + text::decimal(n)
}

/// The Mermaid blocks of a page, as they stand below its text.
pub open spec fn block_texts(page_id: Seq<char>, blocks: Seq<Seq<char>>) -> Seq<char>
    decreases blocks.len(),
{
    if blocks.len() == 0 {
        Seq::empty()
    } else {
        block_texts(page_id, blocks.drop_last()) + "\n\n"@ + mermaid::mermaid_text(
            blocks.last(),
            Some(block_title(page_id, blocks.len())),
        )
    }
}

/// The text of a page: its title, its text and its Mermaid blocks.
pub open spec fn page_text(page: WikiPageView, content: storage::PageContentView) -> Seq<char> {
    page.title + (if content.text.len() == 0 {
        Seq::empty()
    } else {
        "\n\n"@ + content.text
    }) + block_texts(page.id, content.mermaid_blocks)
}

/// What the chunks of a page have in common.
pub open spec fn page_source(site: Seq<char>, page: WikiPageView) -> SourceView {
    SourceView {
        id_prefix: "confluence:"@ + page.id + ":"@,
        source_type: "confluence"@,
        source_id: page.id,
        title: page.title,
        url: confluence::page_address(site, page),
        space_or_project: text::text_or_empty(page.space_id),
        created_at: confluence::page_time(page),
        updated_at: confluence::page_time(page),
        labels: Seq::empty(),
    }
}

/// The chunks of a page that holds `content`; a page without title and text
/// has none.
pub open spec fn page_chunks(
    site: Seq<char>,
    page: WikiPageView,
    content: storage::PageContentView,
) -> Seq<PreChunkView> {
    if text::blank(page_text(page, content)) {
        Seq::empty()
    } else {
        part_chunks(page_source(site, page), chunking::split_text(page_text(page, content)))
    }
}

/// The chunks of pages.
pub open spec fn all_page_chunks(site: Seq<char>, pages: Seq<WikiPageView>) -> Seq<PreChunkView>
    decreases pages.len(),
{
    if pages.len() == 0 {
        Seq::empty()
    } else {
        all_page_chunks(site, pages.drop_last()) + page_chunks(
            site,
            pages.last(),
            page_parts(pages.last()),
        )
    }
}

/// `page_parts`, executable.
pub fn content_of_page(page: &ConfluencePage) -> (r: ConfluencePageContent)
    ensures
        r.deep_view() == page_parts(page.deep_view()),
{
    let body = page.storage();
    if body.as_str().is_empty() {
        ConfluencePageContent::default()
    } else {
        parse_confluence_storage(body.as_str())
    }
}

/// `page_text`, executable.
pub fn text_of_page(page: &ConfluencePage, content: &ConfluencePageContent) -> (r: String)
    ensures
        r@ == page_text(page.deep_view(), content.deep_view()),
{
    let mut combined = page.title.clone();
    if !content.text.as_str().is_empty() {
        combined.append("\n\n");
        combined.append(content.text.as_str());
    }
    let ghost head = combined@;
    assert(head =~= page.title@ + (if content.text@.len() == 0 {
        Seq::empty()
    } else {
        "\n\n"@ + content.text@
    }));
    let ghost all = content.mermaid_blocks.deep_view();
    assert(head + block_texts(page.id@, all.take(0)) =~= combined@);
    for i in 0..content.mermaid_blocks.len()
        invariant
            all == content.mermaid_blocks.deep_view(),
            combined@ == head + block_texts(page.id@, all.take(i as int)),
    {
        assert(all.take(i + 1).drop_last() =~= all.take(i as int));
        assert(all.take(i + 1).last() == content.mermaid_blocks@[i as int]@);
        let mut title = "page ".to_owned();
        title.append(page.id.as_str());
        title.append(" #");
        title.append(number(i as u64 + 1).as_str());
        let block = extract_mermaid_text(
            content.mermaid_blocks[i].as_str(),
            Some(title.as_str()),
        );
        combined.append("\n\n");
        combined.append(block.as_str());
        assert(combined@ =~= head + block_texts(page.id@, all.take(i + 1)));
    }
    assert(all.take(content.mermaid_blocks.len() as int) =~= all);
    combined
}

/// `page_source`, executable.
pub fn source_of_page(client: &AtlassianClient, page: &ConfluencePage) -> (r: ChunkSource)
    ensures
        r.deep_view() == page_source(client.site_view(), page.deep_view()),
{
    let mut id_prefix = "confluence:".to_owned();
    id_prefix.append(page.id.as_str());
    id_prefix.append(":");
    let time = page.time();
    ChunkSource {
        id_prefix,
        source_type: "confluence".to_owned(),
        source_id: page.id.clone(),
        title: page.title.clone(),
        url: client.page_url(page),
        space_or_project: text::or_empty(&page.space_id),
        created_at: time,
        updated_at: time,
        labels: no_labels(),
    }
}

/// The chunks of a page that holds `content`.
pub fn page_to_chunks(
    client: &AtlassianClient,
    page: &ConfluencePage,
    content: &ConfluencePageContent,
) -> (r: Vec<PreChunk>)
    ensures
        r.deep_view() == page_chunks(client.site_view(), page.deep_view(), content.deep_view()),
{
    let combined = text_of_page(page, content);
    if is_blank(combined.as_str()) {
        let r: Vec<PreChunk> = Vec::new();
        assert(r.deep_view() =~= Seq::empty());
        r
    } else {
        chunk_text(&source_of_page(client, page), combined.as_str())
    }
}

/// The chunks of pages.
pub fn confluence_to_chunks(client: &AtlassianClient, pages: &Vec<ConfluencePage>) -> (r: Vec<
    PreChunk,
>)
    ensures
        r.deep_view() == all_page_chunks(client.site_view(), pages.deep_view()),
{
    let ghost site = client.site_view();
    let ghost all = pages.deep_view();
    let mut out: Vec<PreChunk> = Vec::new();
    assert(out.deep_view() =~= all_page_chunks(site, all.take(0)));
    for i in 0..pages.len()
        invariant
            site == client.site_view(),
            all == pages.deep_view(),
            out.deep_view() == all_page_chunks(site, all.take(i as int)),
    {
        let page = &pages[i];
        assert(all.take(i + 1).drop_last() =~= all.take(i as int));
        assert(all.take(i + 1).last() == page.deep_view());
        let ghost before = out.deep_view();
        let content = content_of_page(page);
        let mut more = page_to_chunks(client, page, &content);
        let ghost added = more.deep_view();
        out.append(&mut more);
        assert(out.deep_view() =~= before + added);
    }
    assert(all.take(pages.len() as int) =~= all);
    out
}

// ---------------------------------------------------------------------------
// New pages

/// What is reported of a page, where it is in its first version, has a body,
/// and the body has text.
pub open spec fn new_page(site: Seq<char>, page: WikiPageView) -> Option<NewPageView> {
    let first = match page.version {
        Some(v) => v.0 == 1,
        None => false,
    };
    if first && confluence::storage_of(page).len() > 0 && !text::blank(page_parts(page).text) {
        Some(
            NewPageView {
                id: page.id,
                title: page.title,
                url: confluence::page_address(site, page),
                text: page.title + "\n\n"@ + page_parts(page).text,
            },
        )
    } else {
        None
    }
}

/// What is reported of pages.
pub open spec fn new_pages(site: Seq<char>, pages: Seq<WikiPageView>) -> Seq<NewPageView>
    decreases pages.len(),
{
    if pages.len() == 0 {
        Seq::empty()
    } else {
        let before = new_pages(site, pages.drop_last());
        match new_page(site, pages.last()) {
            Some(p) => before.push(p),
            None => before,
        }
    }
}

/// `new_page`, executable.
pub fn new_page_of(client: &AtlassianClient, page: &ConfluencePage) -> (r: Option<NewPageInfo>)
    ensures
        r.deep_view() == new_page(client.site_view(), page.deep_view()),
{
    let first = match &page.version {
        Some(v) => v.number == 1,
        None => false,
    };
    if !first {
        return None;
    }
    let body = page.storage();
    if body.as_str().is_empty() {
        return None;
    }
    let content = content_of_page(page);
    if is_blank(content.text.as_str()) {
        return None;
    }
    let mut body_text = page.title.clone();
    body_text.append("\n\n");
    body_text.append(content.text.as_str());
    Some(
        NewPageInfo {
            id: page.id.clone(),
            title: page.title.clone(),
            url: client.page_url(page),
            text: body_text,
        },
    )
}

/// The pages that are in their first version and have text.
pub fn detect_new_pages(client: &AtlassianClient, pages: &Vec<ConfluencePage>) -> (r: Vec<
    NewPageInfo,
>)
    ensures
        r.deep_view() == new_pages(client.site_view(), pages.deep_view()),
{
    let ghost site = client.site_view();
    let ghost all = pages.deep_view();
    let mut out: Vec<NewPageInfo> = Vec::new();
    assert(out.deep_view() =~= new_pages(site, all.take(0)));
    for i in 0..pages.len()
        invariant
            site == client.site_view(),
            all == pages.deep_view(),
            out.deep_view() == new_pages(site, all.take(i as int)),
    {
        assert(all.take(i + 1).drop_last() =~= all.take(i as int));
        assert(all.take(i + 1).last() == pages@[i as int].deep_view());
        let ghost before = out.deep_view();
        if let Some(p) = new_page_of(client, &pages[i]) {
            out.push(p);
            assert(out.deep_view() =~= before.push(p.deep_view()));
        }
    }
    assert(all.take(pages.len() as int) =~= all);
    out
}

// ---------------------------------------------------------------------------
// Diagrams and images

/// A title with what it is the title of behind it in brackets.
pub open spec fn title_with(title: Seq<char>, kind: Seq<char>, name: Seq<char>) -> Seq<char> {
    title + " ("@ + kind + ": "@ + name + ")"@
}

/// `title_with`, executable.
fn title_with_of(title: &str, kind: &str, name: &str) -> (r: String)
    ensures
        r@ == title_with(title@, kind@, name@),
{
    let mut out = title.to_owned();
    out.append(" (");
    out.append(kind);
    out.append(": ");
    out.append(name);
    out.append(")");
    out
}

/// What the chunks of the diagram with the number `di` on a page have in
/// common.
pub open spec fn diagram_source(
    site: Seq<char>,
    page: WikiPageView,
    di: nat,
    name: Seq<char>,
) -> SourceView {
    let src = page_source(site, page);
    SourceView {
        id_prefix: src.id_prefix + "drawio:"@ + text::decimal(di) + ":"@,
        title: title_with(page.title, "draw.io"@, name),
        labels: seq!["drawio"@],
        ..src
    }
}

/// What the chunks of the image with the number `ii` on a page have in common.
pub open spec fn page_image_source(
    site: Seq<char>,
    page: WikiPageView,
    ii: nat,
    name: Seq<char>,
) -> SourceView {
    let src = page_source(site, page);
    SourceView {
        id_prefix: src.id_prefix + "img:"@ + text::decimal(ii) + ":"@,
        title: title_with(page.title, "画像"@, name),
        labels: seq!["image"@],
        ..src
    }
}

/// What the chunks of the attachment with the number `ai` of an issue have in
/// common.
pub open spec fn issue_image_source(
    site: Seq<char>,
    issue: IssueView,
    ai: nat,
    name: Seq<char>,
) -> SourceView {
    let src = issue_source(site, issue);
    SourceView {
        id_prefix: src.id_prefix + "img:"@ + text::decimal(ai) + ":"@,
        title: title_with(src.title, "画像"@, name),
        labels: seq!["image"@],
        ..src
    }
}

/// The text of an image that was described.
pub open spec fn image_text(name: Seq<char>, description: Seq<char>) -> Seq<char> {
    "[画像: "@ + name + "]\n"@ + description
}

/// A source for a part with a number: `kind` and the number stand in its id.
fn numbered_source(
    src: ChunkSource,
    kind: &str,
    n: usize,
    title: String,
    label: &str,
) -> (r: ChunkSource)
    ensures
        r.deep_view() == (SourceView {
            id_prefix: src.deep_view().id_prefix + kind@ + text::decimal(n as nat) + ":"@,
            title: title@,
            labels: seq![label@],
            ..src.deep_view()
        }),
{
    let mut src = src;
    src.id_prefix.append(kind);
    src.id_prefix.append(number(n as u64).as_str());
    src.id_prefix.append(":");
    src.title = title;
    src.labels = one_label(label);
    src
}

/// The chunks of a diagram on a page.
pub fn diagram_chunks(
    client: &AtlassianClient,
    page: &ConfluencePage,
    di: usize,
    name: &str,
    diagram: &DrawioDiagram,
) -> (r: Vec<PreChunk>)
    ensures
        r.deep_view() == part_chunks(
            diagram_source(client.site_view(), page.deep_view(), di as nat, name@),
            chunking::split_text(drawio::diagram_text(diagram.deep_view(), Some(name@))),
        ),
{
    let title = title_with_of(page.title.as_str(), "draw.io", name);
    let src = numbered_source(source_of_page(client, page), "drawio:", di, title, "drawio");
    let body = drawio::to_text(diagram, Some(name));
    chunk_text(&src, body.as_str())
}

/// The chunks of a draw.io file on a page, or why it could not be read.
pub fn drawio_chunks(
    client: &AtlassianClient,
    page: &ConfluencePage,
    di: usize,
    name: &str,
    file: &[u8],
) -> (r: Result<Vec<PreChunk>, DrawioError>)
    ensures
        match r {
            Ok(chunks) => drawio::diagram_of(drawio::drawio_events(file@)) matches Ok(pages)
                && chunks.deep_view() == part_chunks(
                diagram_source(client.site_view(), page.deep_view(), di as nat, name@),
                chunking::split_text(drawio::diagram_text(pages, Some(name@))),
            ),
            Err(e) => drawio::diagram_of(drawio::drawio_events(file@)) == Err::<
                Seq<drawio::PageView>,
                drawio::DrawioErrorView,
            >(e.deep_view()),
        },
{
    match drawio::parse_drawio(file) {
        Ok(diagram) => Ok(diagram_chunks(client, page, di, name, &diagram)),
        Err(e) => Err(e),
    }
}

/// The text of an image that was described.
fn described_image(name: &str, description: &str) -> (r: String)
    ensures
        r@ == image_text(name@, description@),
{
    let mut out = "[画像: ".to_owned();
    out.append(name);
    out.append("]\n");
    out.append(description);
    out
}

/// The chunks of an image on a page.
pub fn page_image_chunks(
    client: &AtlassianClient,
    page: &ConfluencePage,
    ii: usize,
    name: &str,
    description: &str,
) -> (r: Vec<PreChunk>)
    ensures
        r.deep_view() == part_chunks(
            page_image_source(client.site_view(), page.deep_view(), ii as nat, name@),
            chunking::split_text(image_text(name@, description@)),
        ),
{
    let title = title_with_of(page.title.as_str(), "画像", name);
    let src = numbered_source(source_of_page(client, page), "img:", ii, title, "image");
    chunk_text(&src, described_image(name, description).as_str())
}

/// The chunks of an image that is attached to an issue.
pub fn jira_image_chunks(
    client: &AtlassianClient,
    issue: &JiraIssue,
    ai: usize,
    name: &str,
    description: &str,
) -> (r: Vec<PreChunk>)
    ensures
        r.deep_view() == part_chunks(
            issue_image_source(client.site_view(), issue.deep_view(), ai as nat, name@),
            chunking::split_text(image_text(name@, description@)),
        ),
{
    let src = source_of_issue(client, issue);
    let title = title_with_of(src.title.as_str(), "画像", name);
    let src = numbered_source(src, "img:", ai, title, "image");
    chunk_text(&src, described_image(name, description).as_str())
}

/// What of a page is fetched besides its text: its content, where it has
/// diagrams or images.
pub fn page_extras(page: &ConfluencePage) -> (r: Option<ConfluencePageContent>)
    ensures
        match r {
            Some(c) => c.deep_view() == page_parts(page.deep_view()) && (
            c.deep_view().drawio_refs.len() > 0 || c.deep_view().image_refs.len() > 0),
            None => page_parts(page.deep_view()).drawio_refs.len() == 0 && page_parts(
                page.deep_view(),
            ).image_refs.len() == 0,
        },
{
    let content = content_of_page(page);
    if content.drawio_refs.len() == 0 && content.image_refs.len() == 0 {
        assert(content.drawio_refs.deep_view().len() == 0);
        assert(content.image_refs.deep_view().len() == 0);
        None
    } else {
        assert(content.drawio_refs.deep_view().len() == content.drawio_refs@.len());
        assert(content.image_refs.deep_view().len() == content.image_refs@.len());
        Some(content)
    }
}

/// Whether images that are attached to issues are described.
pub fn wants_issue_images(options: &IngestOptions, has_vision: bool) -> (r: bool)
    ensures
        r == (options.fetch_attachments && options.enable_vision && has_vision),
{
    options.fetch_attachments && options.enable_vision && has_vision
}

// ---------------------------------------------------------------------------
// Laws

/// Two chunks of texts whose id prefixes end in a colon have the same id only
/// where the prefixes and the numbers are the same.
pub proof fn law_chunk_ids_differ(
    a: SourceView,
    b: SourceView,
    pa: Seq<char>,
    pb: Seq<char>,
    i: nat,
    j: nat,
    ta: Seq<char>,
    tb: Seq<char>,
)
    requires
        a.id_prefix == pa + ":"@,
        b.id_prefix == pb + ":"@,
        part_chunk(a, i as int, ta).id == part_chunk(b, j as int, tb).id,
    ensures
        pa == pb,
        i == j,
{
    reveal_strlit(":");
    let x = text::decimal(i);
    let y = text::decimal(j);
    text::lemma_decimal_digits(i);
    text::lemma_decimal_digits(j);
    let s = a.id_prefix + x;
    let t = b.id_prefix + y;
    assert(s == t);
    assert(s.len() == t.len());
    if x.len() < y.len() {
        let k = s.len() - x.len() - 1;
        assert(s[k] == ':');
        assert(t[k] == y[k - b.id_prefix.len()]);
        assert(text::is_digit(y[k - b.id_prefix.len()]));
    } else if y.len() < x.len() {
        let k = t.len() - y.len() - 1;
        assert(t[k] == ':');
        assert(s[k] == x[k - a.id_prefix.len()]);
        assert(text::is_digit(x[k - a.id_prefix.len()]));
    }
    assert(pa.len() == pb.len());
    assert forall|k: int| 0 <= k < pa.len() implies pa[k] == pb[k] by {
        assert(s[k] == pa[k]);
        assert(t[k] == pb[k]);
    }
    assert(pa =~= pb);
    assert forall|k: int| 0 <= k < x.len() implies x[k] == y[k] by {
        assert(s[pa.len() + 1 + k] == x[k]);
        assert(t[pb.len() + 1 + k] == y[k]);
    }
    assert(x =~= y);
}

/// The id prefixes of the chunks of an issue and of a page end in a colon, and
/// differ where the keys or ids do.
pub proof fn law_sources_differ(site: Seq<char>, a: IssueView, b: IssueView, p: WikiPageView, q: WikiPageView)
    ensures
        issue_source(site, a).id_prefix == ("jira:"@ + a.key) + ":"@,
        page_source(site, p).id_prefix == ("confluence:"@ + p.id) + ":"@,
        "jira:"@ + a.key == "jira:"@ + b.key ==> a.key == b.key,
        "confluence:"@ + p.id == "confluence:"@ + q.id ==> p.id == q.id,
        "jira:"@ + a.key != "confluence:"@ + p.id,
{
    reveal_strlit("jira:");
    reveal_strlit("confluence:");
    if "jira:"@ + a.key == "jira:"@ + b.key {
        assert(("jira:"@ + a.key).skip(5) =~= a.key);
        assert(("jira:"@ + b.key).skip(5) =~= b.key);
    }
    if "confluence:"@ + p.id == "confluence:"@ + q.id {
        assert(("confluence:"@ + p.id).skip(11) =~= p.id);
        assert(("confluence:"@ + q.id).skip(11) =~= q.id);
    }
    assert(("jira:"@ + a.key)[0] == 'j');
    assert(("confluence:"@ + p.id)[0] == 'c');
}

} // verus!
