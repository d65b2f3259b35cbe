//! Laws on what is asked of the site and what is read from its answers.
use crate::atlassian;
use crate::atlassian::confluence;
use crate::atlassian::confluence::{
    AttachmentsPartView, ConfluenceAttachment, ConfluencePage, PagesPartView, WikiPageView,
};
use crate::atlassian::jira;
use crate::atlassian::jira::{JiraIssue, SearchPartView};
use crate::atlassian::pager;
use crate::atlassian::pager::{ListView, PartView};
use crate::chunking;
use crate::codec;
use vstd::prelude::*;

verus! {

// ---------------------------------------------------------------------------
// Addresses

/// The slashes at the end of the site are left out, all of them and nothing else.
pub proof fn law_slashes_at_the_end(s: Seq<char>)
    ensures
        atlassian::without_slashes(s + "/"@) == atlassian::without_slashes(s),
        s.len() == 0 || s.last() != '/' ==> atlassian::without_slashes(s) == s,
{
    reveal_strlit("/");
    let t = s + "/"@;
    assert(t.last() == '/');
    assert(t.drop_last() =~= s);
}

/// A file at a full address is fetched there; one at a path from the site.
pub proof fn law_file_address(site: Seq<char>, rest: Seq<char>)
    ensures
        atlassian::file_url(site, "http"@ + rest) == "http"@ + rest,
        atlassian::file_url(site, "/"@ + rest) == site + "/"@ + rest,
        !("http"@.is_prefix_of(rest)) && !("/"@.is_prefix_of(rest)) ==> atlassian::file_url(
            site,
            rest,
        ) == site + "/"@ + rest,
{
    reveal_strlit("http");
    reveal_strlit("/");
    let h = "http"@ + rest;
    let p = "/"@ + rest;
    assert("http"@ =~= h.subrange(0, 4));
    assert("/"@ =~= p.subrange(0, 1));
    assert(p[0] == '/');
    if "http"@.is_prefix_of(p) {
        assert("http"@[0] == p[0]);
    }
    assert(site + p =~= site + "/"@ + rest);
}

/// The next part is at the address that the answer names, from the site where
/// that is no full address; where it names none, there is no next part.
pub proof fn law_next_part(site: Seq<char>, rest: Seq<char>)
    ensures
        atlassian::next_part(site, None) is None,
        atlassian::next_part(site, Some(Seq::empty())) is None,
        atlassian::next_part(site, Some("http"@ + rest)) == Some("http"@ + rest),
        rest.len() > 0 && !("http"@.is_prefix_of(rest)) ==> atlassian::next_part(site, Some(rest))
            == Some(site + rest),
{
    reveal_strlit("http");
    let h = "http"@ + rest;
    assert("http"@ =~= h.subrange(0, 4));
}

/// Credentials are the address of the user and the token, with a colon between
/// them.
pub proof fn law_credentials(email: Seq<char>, token: Seq<char>)
    ensures
        atlassian::basic_credentials(email, token) == vstd::utf8::encode_utf8(
            email + ":"@ + token,
        ),
{
}

/// A search names the query, whole and encoded, how many issues it wants at once
/// and which fields, and the token of the part.
pub proof fn law_search_address(site: Seq<char>, jql: Seq<char>, token: Seq<char>)
    ensures
        jira::search_address(site, jql, None) == site + "/rest/api/3/search/jql?jql="@
            + codec::form_encoded(vstd::utf8::encode_utf8(jql))
            + "&maxResults=100&fields=summary,description,updated,created,project,status,attachment"@,
        jira::search_address(site, jql, Some(token)) == jira::search_address(site, jql, None)
            + "&nextPageToken="@ + codec::form_encoded(vstd::utf8::encode_utf8(token)),
        jira::issue_address(site, token) == site + "/browse/"@ + token,
{
}

/// Pages are listed a hundred at once with their bodies, the latest first where
/// only those since a time are wanted; the attachments of a page are listed by its
/// id.
pub proof fn law_wiki_addresses(site: Seq<char>, id: Seq<char>)
    ensures
        confluence::pages_address(site, false) == site
            + "/wiki/api/v2/pages?limit=100&body-format=storage"@,
        confluence::pages_address(site, true) == confluence::pages_address(site, false)
            + "&sort=-modified-date"@,
        confluence::attachments_address(site, id) == site + "/wiki/api/v2/pages/"@ + id
            + "/attachments?limit=100"@,
{
}

/// A page is at the address that it names, or else at that of its id.
pub proof fn law_page_address(site: Seq<char>, page: WikiPageView)
    ensures
        page.webui matches Some(link) ==> confluence::page_address(site, page) == site + "/wiki"@
            + link,
        page.webui is None ==> confluence::page_address(site, page) == site
            + "/wiki/spaces/_/pages/"@ + page.id,
{
}

// ---------------------------------------------------------------------------
// Lists

/// A list is complete as soon as it has what is asked for or the part is the
/// last; the items of a part stand behind those before it.
pub proof fn law_one_part<T>(l: ListView<T>, part: PartView<T>, n: nat)
    ensures
        pager::list_step(l, part).items == l.items + part.items,
        pager::list_step(l, part).next == part.next,
        pager::list_step(l, part).limit == l.limit,
        l.limit == Some(n) ==> (pager::list_step(l, part).done <==> part.last || l.items.len()
            + part.items.len() >= n),
        l.limit is None ==> (pager::list_step(l, part).done <==> part.last),
{
}

/// What is wanted of a list are its first items, as many as are asked for, or all
/// of them.
pub proof fn law_what_is_wanted<T>(items: Seq<T>, n: nat)
    ensures
        pager::wanted(items, None) == items,
        items.len() <= n ==> pager::wanted(items, Some(n)) == items,
        items.len() > n ==> pager::wanted(items, Some(n)) == items.take(n as int),
{
}

/// A search is over with a part that names no other, or that is empty; no issue
/// of a part is left out.
pub proof fn law_search_part(part: SearchPartView)
    ensures
        jira::search_part(part).items == part.issues,
        jira::search_part(part).next == part.next_page_token,
        jira::search_part(part).last <==> part.next_page_token is None || part.issues.len() == 0,
{
}

/// No attachment of a part is left out; the list is over where it names no other
/// part.
pub proof fn law_attachments_part(site: Seq<char>, part: AttachmentsPartView)
    ensures
        confluence::attachments_part(site, part).items == part.results,
        confluence::attachments_part(site, part).next == atlassian::next_part(site, part.next),
        confluence::attachments_part(site, part).last <==> atlassian::next_part(
            site,
            part.next,
        ) is None,
{
}

/// A page is too old if and only if its time is known and before the one that is
/// asked for.
pub proof fn law_too_old(page: WikiPageView, t: i64, since: Seq<char>)
    ensures
        !confluence::is_older(page, None),
        page.version is None ==> !confluence::is_older(page, Some(t)) && confluence::page_time(page)
            == 0,
        page.version matches Some(v) ==> confluence::page_time(page) == chunking::iso_seconds(v.1)
            && (confluence::is_older(page, Some(t)) <==> chunking::iso_seconds(v.1) != 0
            && chunking::iso_seconds(v.1) < t),
        confluence::since_time(None) is None,
        confluence::since_time(Some(since)) == Some(chunking::iso_seconds(Some(since))),
{
}

/// Of a part of the pages those before the first that is too old are taken, all
/// of them; that page ends the list, and so does a part that names no other.
pub proof fn law_pages_part(site: Seq<char>, since: Option<i64>, part: PagesPartView, n: int)
    requires
        0 <= n <= part.results.len(),
        forall|k: int|
            0 <= k < n ==> !confluence::is_older(#[trigger] part.results[k].deep_view(), since),
        n < part.results.len() ==> confluence::is_older(part.results[n].deep_view(), since),
    ensures
        confluence::pages_part(site, since, part).items == part.results.take(n),
        confluence::pages_part(site, since, part).next == atlassian::next_part(site, part.next),
        confluence::pages_part(site, since, part).last <==> n < part.results.len()
            || atlassian::next_part(site, part.next) is None,
{
    let pages = confluence::page_views(part.results);
    lemma_cut(pages, since, n, 0, part);
}

proof fn lemma_cut(
    pages: Seq<WikiPageView>,
    since: Option<i64>,
    n: int,
    i: int,
    part: PagesPartView,
)
    requires
        pages == confluence::page_views(part.results),
        0 <= i <= n <= pages.len(),
        forall|k: int|
            0 <= k < n ==> !confluence::is_older(#[trigger] part.results[k].deep_view(), since),
        n < pages.len() ==> confluence::is_older(part.results[n].deep_view(), since),
    ensures
        confluence::cut_at(pages, since, i) == n,
    decreases n - i,
{
    if i < n {
        assert(pages[i] == part.results[i].deep_view());
        lemma_cut(pages, since, n, i + 1, part);
    } else if n < pages.len() {
        assert(pages[n] == part.results[n].deep_view());
    }
}

// ---------------------------------------------------------------------------
// Values

/// An issue is read by the key of its project and the name of its status.
pub proof fn law_issue_fields(issue: JiraIssue)
    ensures
        issue.deep_view().key == issue.key@,
        issue.fields.summary matches Some(s) ==> issue.deep_view().summary == Some(s@),
        issue.deep_view().description == issue.fields.description,
        issue.fields.updated matches Some(s) ==> issue.deep_view().updated == Some(s@),
        issue.fields.created matches Some(s) ==> issue.deep_view().created == Some(s@),
        issue.fields.project matches Some(p) ==> issue.deep_view().project == Some(p.key@),
        issue.fields.status matches Some(s) ==> issue.deep_view().status == Some(s.name@),
        issue.deep_view().attachment.len() == issue.fields.attachment@.len(),
        forall|i: int|
            0 <= i < issue.fields.attachment@.len() ==> {
                let a = #[trigger] issue.deep_view().attachment[i];
                let b = issue.fields.attachment@[i];
                &&& a.filename == b.filename@
                &&& b.mime_type matches Some(m) ==> a.mime_type == Some(m@)
                &&& b.content matches Some(c) ==> a.content == Some(c@)
            },
{
}

/// A page is read by its body in the storage format and by its own link.
pub proof fn law_page_fields(page: ConfluencePage, a: ConfluenceAttachment)
    ensures
        page.deep_view().id == page.id@,
        page.deep_view().title == page.title@,
        page.space_id matches Some(s) ==> page.deep_view().space_id == Some(s@),
        match page.body {
            Some(b) => match b.storage {
                Some(s) => page.deep_view().storage == Some(s.value@),
                None => page.deep_view().storage is None,
            },
            None => page.deep_view().storage is None,
        },
        page.version matches Some(v) ==> page.deep_view().version == Some(
            (v.number, v.created_at.deep_view()),
        ),
        page.deep_view().storage matches Some(s) ==> confluence::storage_of(page.deep_view()) == s,
        page.deep_view().storage is None ==> confluence::storage_of(page.deep_view()).len() == 0,
        a.deep_view().title == a.title@,
        a.media_type matches Some(m) ==> a.deep_view().media_type == Some(m@),
        a.download_link matches Some(l) ==> a.deep_view().download_link == Some(l@),
{
}

} // verus!
