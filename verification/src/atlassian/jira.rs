//! Issues.
use crate::atlassian::pager;
use crate::atlassian::pager::{ListView, Pager, PartView};
use crate::atlassian::AtlassianClient;
use crate::codec;
use crate::codec::urlencoding;
use crate::json::Json;
use crate::lists;
use vstd::prelude::*;

verus! {

/// An issue.
#[derive(Debug, Clone)]
pub struct JiraIssue {
    pub key: String,
    pub fields: JiraFields,
}

/// The fields of an issue.
#[derive(Debug, Clone)]
pub struct JiraFields {
    pub summary: Option<String>,
    pub description: Option<Json>,
    pub updated: Option<String>,
    pub created: Option<String>,
    pub project: Option<JiraProject>,
    pub status: Option<JiraStatus>,
    pub attachment: Vec<JiraAttachment>,
}

/// An attachment of an issue.
#[derive(Debug, Clone)]
pub struct JiraAttachment {
    pub id: String,
    pub filename: String,
    pub mime_type: Option<String>,
    /// The address of the file.
    pub content: Option<String>,
    pub size: Option<u64>,
}

/// The project of an issue.
#[derive(Debug, Clone)]
pub struct JiraProject {
    pub key: String,
    pub name: String,
}

/// The status of an issue.
#[derive(Debug, Clone)]
pub struct JiraStatus {
    pub name: String,
}

/// The model of an attachment of an issue.
pub struct JiraAttachmentView {
    pub id: Seq<char>,
    pub filename: Seq<char>,
    pub mime_type: Option<Seq<char>>,
    pub content: Option<Seq<char>>,
    pub size: Option<u64>,
}

/// The model of an issue.
pub struct IssueView {
    pub key: Seq<char>,
    pub summary: Option<Seq<char>>,
    pub description: Option<Json>,
    pub updated: Option<Seq<char>>,
    pub created: Option<Seq<char>>,
    /// The key of the project.
    pub project: Option<Seq<char>>,
    /// The name of the status.
    pub status: Option<Seq<char>>,
    pub attachment: Seq<JiraAttachmentView>,
}

impl DeepView for JiraAttachment {
    type V = JiraAttachmentView;

    open spec fn deep_view(&self) -> JiraAttachmentView {
        JiraAttachmentView {
            id: self.id@,
            filename: self.filename@,
            mime_type: self.mime_type.deep_view(),
            content: self.content.deep_view(),
            size: self.size,
        }
    }
}

impl DeepView for JiraIssue {
    type V = IssueView;

    open spec fn deep_view(&self) -> IssueView {
        IssueView {
            key: self.key@,
            summary: self.fields.summary.deep_view(),
            description: self.fields.description,
            updated: self.fields.updated.deep_view(),
            created: self.fields.created.deep_view(),
            project: match self.fields.project {
                Some(p) => Some(p.key@),
                None => None,
            },
            status: match self.fields.status {
                Some(s) => Some(s.name@),
                None => None,
            },
            attachment: self.fields.attachment.deep_view(),
        }
    }
}

/// A part of the answer to a search.
#[derive(Debug)]
pub struct SearchResponse {
    pub issues: Vec<JiraIssue>,
    pub next_page_token: Option<String>,
}

/// The model of a part of the answer to a search.
pub struct SearchPartView {
    pub issues: Seq<JiraIssue>,
    pub next_page_token: Option<Seq<char>>,
}

impl DeepView for SearchResponse {
    type V = SearchPartView;

    open spec fn deep_view(&self) -> SearchPartView {
        SearchPartView {
            issues: self.issues@,
            next_page_token: self.next_page_token.deep_view(),
        }
    }
}

/// The address of a part of a search.
pub open spec fn search_address(
    site: Seq<char>,
    jql: Seq<char>,
    token: Option<Seq<char>>,
) -> Seq<char> {
    let url = site + "/rest/api/3/search/jql?jql="@ + codec::form_encoded(
        vstd::utf8::encode_utf8(jql),
    )
        + "&maxResults=100&fields=summary,description,updated,created,project,status,attachment"@;
    match token {
        Some(t) => url + "&nextPageToken="@ + codec::form_encoded(vstd::utf8::encode_utf8(t)),
        None => url,
    }
}

/// The address at which people read an issue.
pub open spec fn issue_address(site: Seq<char>, key: Seq<char>) -> Seq<char> {
    site + "/browse/"@ + key
}

impl AtlassianClient {
    /// The address of a part of a search.
    pub fn search_url(&self, jql: &str, token: &Option<String>) -> (r: String)
        ensures
            r@ == search_address(self.site_view(), jql@, token.deep_view()),
    {
        let mut url = self.site().to_owned();
        url.append("/rest/api/3/search/jql?jql=");
        url.append(urlencoding(jql).as_str());
        url.append(
            "&maxResults=100&fields=summary,description,updated,created,project,status,attachment",
        );
        if let Some(t) = token {
            url.append("&nextPageToken=");
            url.append(urlencoding(t.as_str()).as_str());
        }
        url
    }

    /// The address at which people read an issue.
    pub fn issue_url(&self, key: &str) -> (r: String)
        ensures
            r@ == issue_address(self.site_view(), key@),
    {
        let mut url = self.site().to_owned();
        url.append("/browse/");
        url.append(key);
        url
    }
}

/// A search that is going on.
pub struct IssueSearch {
    pub pager: Pager<JiraIssue>,
    pub token: Option<String>,
}

impl DeepView for IssueSearch {
    type V = ListView<JiraIssue>;

    open spec fn deep_view(&self) -> ListView<JiraIssue> {
        ListView {
            items: self.pager.items@,
            limit: Some(self.pager.max_total as nat),
            done: self.pager.done,
            next: self.token.deep_view(),
        }
    }
}

/// Whether this part of a search is the last: there is no token for another, or
/// the part is empty.
pub open spec fn ends_search(part: SearchPartView) -> bool {
    part.next_page_token is None || part.issues.len() == 0
}

/// A part of a search as a part of a list, whose next request carries the
/// token.
pub open spec fn search_part(part: SearchPartView) -> PartView<JiraIssue> {
    PartView { items: part.issues, next: part.next_page_token, last: ends_search(part) }
}

/// Parts of a search as parts of a list.
pub open spec fn search_parts(parts: Seq<SearchPartView>) -> Seq<PartView<JiraIssue>> {
    Seq::new(parts.len(), |i: int| search_part(parts[i]))
}

impl IssueSearch {
    /// Before the first part of a search that wants `max_total` issues at most.
    pub fn new(max_total: usize) -> (r: Self)
        ensures
            r.deep_view() == pager::list_start::<JiraIssue>(Some(max_total as nat), None),
    {
        IssueSearch { pager: Pager::new(max_total), token: None }
    }

    /// The address to ask next, `None` once the search is over.
    pub fn next_request(&self, client: &AtlassianClient, jql: &str) -> (r: Option<String>)
        ensures
            r.deep_view() == (if self.deep_view().done {
                None
            } else {
                Some(search_address(client.site_view(), jql@, self.deep_view().next))
            }),
    {
        if self.pager.done {
            None
        } else {
            Some(client.search_url(jql, &self.token))
        }
    }

    /// Takes in a part of the answer.
    pub fn receive(&mut self, part: SearchResponse)
        ensures
            final(self).deep_view() == pager::list_step(
                old(self).deep_view(),
                search_part(part.deep_view()),
            ),
    {
        let last = part.next_page_token.is_none() || part.issues.len() == 0;
        self.token = part.next_page_token;
        self.pager.receive(part.issues, last);
    }

    /// The issues that were wanted.
    pub fn finish(self) -> (r: Vec<JiraIssue>)
        ensures
            r@ == pager::wanted(self.deep_view().items, self.deep_view().limit),
            r@.len() <= self.pager.max_total,
    {
        self.pager.finish()
    }
}

// ---------------------------------------------------------------------------
// Laws

/// Whatever the answers are, a search gives the first `max_total` issues of all
/// parts up to the first that is empty or has no token. The first request
/// carries no token, and each further one the token of the answer before it.
pub proof fn law_whole_search(max_total: nat, parts: Seq<SearchPartView>)
    ensures
        ({
            let start = pager::list_start::<JiraIssue>(Some(max_total), None);
            let views = search_parts(parts);
            let run = pager::list_run(start, views);
            let read = pager::up_to_last(views);
            let tokens = pager::list_requests(start, views);
            &&& pager::wanted(run.items, run.limit) == lists::at_most(
                pager::all_items(read),
                max_total as int,
            )
            &&& run.done == (parts.len() > 0 && (read.last().last || pager::all_items(read).len()
                >= max_total))
            &&& 0 < tokens.len() <= parts.len() + 1
            &&& tokens[0] is None
            &&& forall|i: int|
                0 < i < tokens.len() ==> #[trigger] tokens[i] == parts[i - 1].next_page_token
                    && tokens[i] is Some && parts[i - 1].issues.len() > 0
            &&& !run.done ==> tokens.len() == parts.len() + 1
        }),
{
    let start = pager::list_start::<JiraIssue>(Some(max_total), None);
    let views = search_parts(parts);
    pager::law_whole_list(Some(max_total), None, views);
    pager::law_requests_follow_answers(start, views);
    pager::law_limit_stays(start, views);
    let tokens = pager::list_requests(start, views);
    assert forall|i: int| 0 < i < tokens.len() implies #[trigger] tokens[i]
        == parts[i - 1].next_page_token && tokens[i] is Some && parts[i - 1].issues.len() > 0 by {
        assert(tokens[i] == views[i - 1].next && !views[i - 1].last);
    }
}

} // verus!
