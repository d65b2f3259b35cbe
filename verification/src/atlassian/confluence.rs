//! Pages and their attachments.
use crate::atlassian;
use crate::atlassian::pager;
use crate::atlassian::pager::{ListView, Pager, PartView};
use crate::atlassian::AtlassianClient;
use crate::chunking;
use crate::chunking::{parse_iso, parse_iso_string};
use crate::lists;
use vstd::prelude::*;

verus! {

/// A page.
#[derive(Debug, Clone)]
pub struct ConfluencePage {
    pub id: String,
    pub title: String,
    pub space_id: Option<String>,
    pub version: Option<PageVersion>,
    pub body: Option<PageBody>,
    pub links: Option<PageLinks>,
}

/// A version of a page.
#[derive(Debug, Clone)]
pub struct PageVersion {
    pub number: i64,
    /// The date and time, in the format of ISO 8601.
    pub created_at: Option<String>,
}

/// The body of a page in the formats in which it was asked for.
#[derive(Debug, Clone)]
pub struct PageBody {
    pub storage: Option<PageBodyVariant>,
    pub atlas_doc_format: Option<PageBodyVariant>,
}

/// The body of a page in one format.
#[derive(Debug, Clone)]
pub struct PageBodyVariant {
    pub value: String,
}

/// The links of a page.
#[derive(Debug, Clone)]
pub struct PageLinks {
    pub webui: Option<String>,
}

/// An attachment of a page.
#[derive(Debug, Clone)]
pub struct ConfluenceAttachment {
    pub title: String,
    pub media_type: Option<String>,
    pub download_link: Option<String>,
    pub links: Option<AttachmentLinks>,
}

/// The links of an attachment.
#[derive(Debug, Clone)]
pub struct AttachmentLinks {
    pub download: Option<String>,
}

/// The model of a page.
pub struct WikiPageView {
    pub id: Seq<char>,
    pub title: Seq<char>,
    pub space_id: Option<Seq<char>>,
    /// The number of the version and its date and time.
    pub version: Option<(i64, Option<Seq<char>>)>,
    /// The body in the storage format.
    pub storage: Option<Seq<char>>,
    pub webui: Option<Seq<char>>,
}

impl DeepView for ConfluencePage {
    type V = WikiPageView;

    open spec fn deep_view(&self) -> WikiPageView {
        WikiPageView {
            id: self.id@,
            title: self.title@,
            space_id: self.space_id.deep_view(),
            version: match self.version {
                Some(v) => Some((v.number, v.created_at.deep_view())),
                None => None,
            },
            storage: match self.body {
                Some(b) => match b.storage {
                    Some(s) => Some(s.value@),
                    None => None,
                },
                None => None,
            },
            webui: match self.links {
                Some(l) => l.webui.deep_view(),
                None => None,
            },
        }
    }
}

/// The model of an attachment of a page.
pub struct AttachmentView {
    pub title: Seq<char>,
    pub media_type: Option<Seq<char>>,
    pub download_link: Option<Seq<char>>,
    /// The link among the links.
    pub download: Option<Seq<char>>,
}

impl DeepView for ConfluenceAttachment {
    type V = AttachmentView;

    open spec fn deep_view(&self) -> AttachmentView {
        AttachmentView {
            title: self.title@,
            media_type: self.media_type.deep_view(),
            download_link: self.download_link.deep_view(),
            download: match self.links {
                Some(l) => l.download.deep_view(),
                None => None,
            },
        }
    }
}

// ---------------------------------------------------------------------------
// Facts about pages

/// The time of the version of a page, zero where it is not known.
pub open spec fn page_time(page: WikiPageView) -> i64 {
    match page.version {
        Some(v) => chunking::iso_seconds(v.1),
        None => 0,
    }
}

/// The address at which people read a page.
pub open spec fn page_address(site: Seq<char>, page: WikiPageView) -> Seq<char> {
    match page.webui {
        Some(webui) => site + "/wiki"@ + webui,
        None => site + "/wiki/spaces/_/pages/"@ + page.id,
    }
}

/// The body of a page in the storage format; empty where it has none.
pub open spec fn storage_of(page: WikiPageView) -> Seq<char> {
    match page.storage {
        Some(s) => s,
        None => Seq::empty(),
    }
}

impl ConfluencePage {
    /// The time of the version, in seconds; zero where it is not known.
    pub fn time(&self) -> (r: i64)
        ensures
            r == page_time(self.deep_view()),
    {
        match &self.version {
            Some(v) => parse_iso_string(&v.created_at),
            None => 0,
        }
    }

    /// The body in the storage format; empty where there is none.
    pub fn storage(&self) -> (r: String)
        ensures
            r@ == storage_of(self.deep_view()),
    {
        match &self.body {
            Some(b) => match &b.storage {
                Some(s) => s.value.clone(),
                None => String::new(),
            },
            None => String::new(),
        }
    }
}

// ---------------------------------------------------------------------------
// Addresses

/// The address of the first part of the list of pages. Where only pages since
/// some time are wanted they come by time, the latest first.
pub open spec fn pages_address(site: Seq<char>, since: bool) -> Seq<char> {
    let url = site + "/wiki/api/v2/pages?limit=100&body-format=storage"@;
    if since {
        url + "&sort=-modified-date"@
    } else {
        url
    }
}

/// The address of the first part of the list of attachments of a page.
pub open spec fn attachments_address(site: Seq<char>, page_id: Seq<char>) -> Seq<char> {
    site + "/wiki/api/v2/pages/"@ + page_id + "/attachments?limit=100"@
}

impl AtlassianClient {
    /// The address of the first part of the list of pages.
    pub fn pages_url(&self, since: bool) -> (r: String)
        ensures
            r@ == pages_address(self.site_view(), since),
    {
        let mut url = self.site().to_owned();
        url.append("/wiki/api/v2/pages?limit=100&body-format=storage");
        if since {
            url.append("&sort=-modified-date");
        }
        url
    }

    /// The address of the first part of the list of attachments of a page.
    pub fn attachments_url(&self, page_id: &str) -> (r: String)
        ensures
            r@ == attachments_address(self.site_view(), page_id@),
    {
        let mut url = self.site().to_owned();
        url.append("/wiki/api/v2/pages/");
        url.append(page_id);
        url.append("/attachments?limit=100");
        url
    }

    /// The address at which people read a page.
    pub fn page_url(&self, page: &ConfluencePage) -> (r: String)
        ensures
            r@ == page_address(self.site_view(), page.deep_view()),
    {
        let mut url = self.site().to_owned();
        if let Some(links) = &page.links {
            if let Some(webui) = &links.webui {
                url.append("/wiki");
                url.append(webui.as_str());
                return url;
            }
        }
        url.append("/wiki/spaces/_/pages/");
        url.append(page.id.as_str());
        url
    }
}

// ---------------------------------------------------------------------------
// The list of pages

/// A part of the list of pages.
#[derive(Debug)]
pub struct PagesResponse {
    pub results: Vec<ConfluencePage>,
    pub next: Option<String>,
}

/// The model of a part of the list of pages.
pub struct PagesPartView {
    pub results: Seq<ConfluencePage>,
    pub next: Option<Seq<char>>,
}

impl DeepView for PagesResponse {
    type V = PagesPartView;

    open spec fn deep_view(&self) -> PagesPartView {
        PagesPartView { results: self.results@, next: self.next.deep_view() }
    }
}

/// Whether a page is known to be from before `since`.
pub open spec fn is_older(page: WikiPageView, since: Option<i64>) -> bool {
    match since {
        Some(t) => page_time(page) != 0 && page_time(page) < t,
        None => false,
    }
}

/// The number of pages before the first, from `i` on, that is known to be from
/// before `since`.
pub open spec fn cut_at(pages: Seq<WikiPageView>, since: Option<i64>, i: int) -> int
    decreases pages.len() - i,
{
    if i < 0 || i >= pages.len() || is_older(pages[i], since) {
        i
    } else {
        cut_at(pages, since, i + 1)
    }
}

/// `cut_at`, executable.
pub fn pages_since(pages: &Vec<ConfluencePage>, since: Option<i64>) -> (r: usize)
    ensures
        r == cut_at(pages.deep_view(), since, 0),
        r <= pages@.len(),
{
    let ghost all = pages.deep_view();
    let mut i: usize = 0;
    while i < pages.len()
        invariant
            i <= pages@.len(),
            all == pages.deep_view(),
            cut_at(all, since, 0) == cut_at(all, since, i as int),
        decreases pages@.len() - i,
    {
        assert(all[i as int] == pages@[i as int].deep_view());
        if let Some(t) = since {
            let time = pages[i].time();
            if time != 0 && time < t {
                return i;
            }
        }
        i += 1;
    }
    i
}

/// The list of pages that is being read.
pub struct PageList {
    pub pager: Pager<ConfluencePage>,
    pub url: Option<String>,
    /// Pages from before this time are not wanted.
    pub since: Option<i64>,
}

impl DeepView for PageList {
    type V = ListView<ConfluencePage>;

    open spec fn deep_view(&self) -> ListView<ConfluencePage> {
        ListView {
            items: self.pager.items@,
            limit: Some(self.pager.max_total as nat),
            done: self.pager.done,
            next: self.url.deep_view(),
        }
    }
}

/// The models of pages.
pub open spec fn page_views(pages: Seq<ConfluencePage>) -> Seq<WikiPageView> {
    Seq::new(pages.len(), |i: int| pages[i].deep_view())
}

/// The number of pages of a part that are wanted: those before the first that
/// is known to be from before `since`.
pub open spec fn pages_kept(part: PagesPartView, since: Option<i64>) -> int {
    cut_at(page_views(part.results), since, 0)
}

/// A part of the list of pages as a part of a list, whose next request goes to
/// the link. It is the last where it has no link, or a page in it is known to be
/// from before `since`; that page and those behind it are left out.
pub open spec fn pages_part(site: Seq<char>, since: Option<i64>, part: PagesPartView) -> PartView<
    ConfluencePage,
> {
    let next = atlassian::next_part(site, part.next);
    PartView {
        items: part.results.take(pages_kept(part, since)),
        next,
        last: pages_kept(part, since) < part.results.len() || next is None,
    }
}

/// Parts of the list of pages as parts of a list.
pub open spec fn pages_parts(
    site: Seq<char>,
    since: Option<i64>,
    parts: Seq<PagesPartView>,
) -> Seq<PartView<ConfluencePage>> {
    Seq::new(parts.len(), |i: int| pages_part(site, since, parts[i]))
}

/// The time since which pages are wanted.
pub open spec fn since_time(since: Option<Seq<char>>) -> Option<i64> {
    match since {
        Some(s) => Some(chunking::iso_seconds(Some(s))),
        None => None,
    }
}

impl PageList {
    /// Before the first part of the list, of which `max_total` pages at most
    /// are wanted, and none from before `since`.
    pub fn new(client: &AtlassianClient, max_total: usize, since: Option<&str>) -> (r: Self)
        ensures
            r.deep_view() == pager::list_start::<ConfluencePage>(
                Some(max_total as nat),
                Some(pages_address(client.site_view(), since is Some)),
            ),
            r.since == since_time(since.deep_view()),
    {
        let time = match since {
            Some(s) => Some(parse_iso(Some(s))),
            None => None,
        };
        PageList {
            pager: Pager::new(max_total),
            url: Some(client.pages_url(since.is_some())),
            since: time,
        }
    }

    /// The address to ask next, `None` once the list is read.
    pub fn next_request(&self) -> (r: Option<String>)
        ensures
            r.deep_view() == (if self.deep_view().done {
                None
            } else {
                self.deep_view().next
            }),
    {
        if self.pager.done {
            None
        } else {
            self.url.clone()
        }
    }

    /// Takes in a part. It is the last where it names no other, enough pages
    /// have come, or a page in it is known to be from before the time that was
    /// asked for; that page and those behind it are left out.
    pub fn receive(&mut self, client: &AtlassianClient, part: PagesResponse)
        ensures
            final(self).since == old(self).since,
            final(self).deep_view() == pager::list_step(
                old(self).deep_view(),
                pages_part(client.site_view(), old(self).since, part.deep_view()),
            ),
    {
        let n = pages_since(&part.results, self.since);
        assert(part.results.deep_view() =~= page_views(part.results@));
        let mut results = part.results;
        let cut = n < results.len();
        if cut {
            results.truncate(n);
        }
        assert(results@ =~= part.results@.take(n as int));
        self.url = client.next_url(&part.next);
        let last = cut || self.url.is_none();
        self.pager.receive(results, last);
    }

    /// The pages that were wanted.
    pub fn finish(self) -> (r: Vec<ConfluencePage>)
        ensures
            r@ == pager::wanted(self.deep_view().items, self.deep_view().limit),
            r@.len() <= self.pager.max_total,
    {
        self.pager.finish()
    }
}

// ---------------------------------------------------------------------------
// The list of attachments

/// A part of the list of attachments.
#[derive(Debug)]
pub struct AttachmentsResponse {
    pub results: Vec<ConfluenceAttachment>,
    pub next: Option<String>,
}

/// The model of a part of the list of attachments.
pub struct AttachmentsPartView {
    pub results: Seq<ConfluenceAttachment>,
    pub next: Option<Seq<char>>,
}

impl DeepView for AttachmentsResponse {
    type V = AttachmentsPartView;

    open spec fn deep_view(&self) -> AttachmentsPartView {
        AttachmentsPartView { results: self.results@, next: self.next.deep_view() }
    }
}

/// A part of the list of attachments as a part of a list, whose next request
/// goes to the link. It is the last where it has none.
pub open spec fn attachments_part(site: Seq<char>, part: AttachmentsPartView) -> PartView<
    ConfluenceAttachment,
> {
    let next = atlassian::next_part(site, part.next);
    PartView { items: part.results, next, last: next is None }
}

/// Parts of the list of attachments as parts of a list.
pub open spec fn attachments_parts(site: Seq<char>, parts: Seq<AttachmentsPartView>) -> Seq<
    PartView<ConfluenceAttachment>,
> {
    Seq::new(parts.len(), |i: int| attachments_part(site, parts[i]))
}

/// The list of attachments that is being read.
pub struct AttachmentList {
    pub items: Vec<ConfluenceAttachment>,
    pub url: Option<String>,
}

impl DeepView for AttachmentList {
    type V = ListView<ConfluenceAttachment>;

    open spec fn deep_view(&self) -> ListView<ConfluenceAttachment> {
        ListView {
            items: self.items@,
            limit: None,
            done: self.url is None,
            next: self.url.deep_view(),
        }
    }
}

impl AttachmentList {
    /// Before the first part of the list of attachments of a page.
    pub fn new(client: &AtlassianClient, page_id: &str) -> (r: Self)
        ensures
            r.deep_view() == pager::list_start::<ConfluenceAttachment>(
                None,
                Some(attachments_address(client.site_view(), page_id@)),
            ),
    {
        AttachmentList { items: Vec::new(), url: Some(client.attachments_url(page_id)) }
    }

    /// Takes in a part.
    pub fn receive(&mut self, client: &AtlassianClient, part: AttachmentsResponse)
        ensures
            final(self).deep_view() == pager::list_step(
                old(self).deep_view(),
                attachments_part(client.site_view(), part.deep_view()),
            ),
    {
        let mut results = part.results;
        self.items.append(&mut results);
        self.url = client.next_url(&part.next);
    }
}

// ---------------------------------------------------------------------------
// Laws

/// Of the pages before the cut none is known to be from before the time that
/// was asked for, and the first behind it is; without such a time all are kept.
pub proof fn law_pages_are_cut_by_time(pages: Seq<WikiPageView>, since: Option<i64>, i: int)
    requires
        0 <= i <= pages.len(),
    ensures
        i <= cut_at(pages, since, i) <= pages.len(),
        forall|k: int|
            i <= k < cut_at(pages, since, i) ==> !is_older(#[trigger] pages[k], since),
        cut_at(pages, since, i) < pages.len() ==> is_older(
            pages[cut_at(pages, since, i)],
            since,
        ),
        since is None ==> cut_at(pages, since, i) == pages.len(),
    decreases pages.len() - i,
{
    if i < pages.len() && !is_older(pages[i], since) {
        law_pages_are_cut_by_time(pages, since, i + 1);
    }
}

/// Whatever the answers are, the list of pages gives the first `max_total` pages
/// of all parts up to the first that has no link or a page from before the time
/// that was asked for, without that page and those behind it. The first request
/// goes to the list, and each further one to the link of the answer before it.
pub proof fn law_whole_page_list(
    site: Seq<char>,
    since: Option<Seq<char>>,
    max_total: nat,
    parts: Seq<PagesPartView>,
)
    ensures
        ({
            let start = pager::list_start::<ConfluencePage>(
                Some(max_total),
                Some(pages_address(site, since is Some)),
            );
            let views = pages_parts(site, since_time(since), parts);
            let run = pager::list_run(start, views);
            let read = pager::up_to_last(views);
            let requests = pager::list_requests(start, views);
            &&& pager::wanted(run.items, run.limit) == lists::at_most(
                pager::all_items(read),
                max_total as int,
            )
            &&& run.done == (parts.len() > 0 && (read.last().last || pager::all_items(read).len()
                >= max_total))
            &&& 0 < requests.len() <= parts.len() + 1
            &&& requests[0] == Some(pages_address(site, since is Some))
            &&& forall|i: int|
                0 < i < requests.len() ==> #[trigger] requests[i] == atlassian::next_part(
                    site,
                    parts[i - 1].next,
                ) && requests[i] is Some && pages_kept(parts[i - 1], since_time(since))
                    == parts[i - 1].results.len()
            &&& !run.done ==> requests.len() == parts.len() + 1
        }),
{
    let first = Some(pages_address(site, since is Some));
    let start = pager::list_start::<ConfluencePage>(Some(max_total), first);
    let views = pages_parts(site, since_time(since), parts);
    pager::law_whole_list(Some(max_total), first, views);
    pager::law_requests_follow_answers(start, views);
    pager::law_limit_stays(start, views);
    let requests = pager::list_requests(start, views);
    assert forall|i: int| 0 < i < requests.len() implies #[trigger] requests[i]
        == atlassian::next_part(site, parts[i - 1].next) && requests[i] is Some && pages_kept(
        parts[i - 1],
        since_time(since),
    ) == parts[i - 1].results.len() by {
        assert(requests[i] == views[i - 1].next && !views[i - 1].last);
        law_pages_are_cut_by_time(page_views(parts[i - 1].results), since_time(since), 0);
    }
}

/// Whatever the answers are, the list of attachments gives those of all parts up
/// to the first that has no link. The first request goes to the list, and each
/// further one to the link of the answer before it.
pub proof fn law_whole_attachment_list(
    site: Seq<char>,
    page_id: Seq<char>,
    parts: Seq<AttachmentsPartView>,
)
    ensures
        ({
            let start = pager::list_start::<ConfluenceAttachment>(
                None,
                Some(attachments_address(site, page_id)),
            );
            let views = attachments_parts(site, parts);
            let run = pager::list_run(start, views);
            let read = pager::up_to_last(views);
            let requests = pager::list_requests(start, views);
            &&& run.items == pager::all_items(read)
            &&& run.done == (parts.len() > 0 && read.last().last)
            &&& 0 < requests.len() <= parts.len() + 1
            &&& requests[0] == Some(attachments_address(site, page_id))
            &&& forall|i: int|
                0 < i < requests.len() ==> #[trigger] requests[i] == atlassian::next_part(
                    site,
                    parts[i - 1].next,
                ) && requests[i] is Some
            &&& !run.done ==> requests.len() == parts.len() + 1
        }),
{
    let first = Some(attachments_address(site, page_id));
    let start = pager::list_start::<ConfluenceAttachment>(None, first);
    let views = attachments_parts(site, parts);
    pager::law_whole_list(None, first, views);
    pager::law_requests_follow_answers(start, views);
    let requests = pager::list_requests(start, views);
    assert forall|i: int| 0 < i < requests.len() implies #[trigger] requests[i]
        == atlassian::next_part(site, parts[i - 1].next) && requests[i] is Some by {
        assert(requests[i] == views[i - 1].next && !views[i - 1].last);
    }
}

} // verus!
