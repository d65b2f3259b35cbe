use base64::Engine;
use jira_ai::atlassian::confluence::{
    pages_since, AttachmentLinks, AttachmentList, AttachmentsResponse, PageBody, PageBodyVariant,
    PageLinks, PageList, PageVersion, PagesResponse,
};
use jira_ai::atlassian::jira::{IssueSearch, JiraFields, SearchResponse};
use jira_ai::atlassian::pager::Pager;
use jira_ai::atlassian::{AtlassianClient, ConfluenceAttachment, ConfluencePage, JiraIssue};
use jira_ai::codec::urlencoding;
use jira_ai::config::AtlassianConfig;

fn client(site: &str) -> AtlassianClient {
    AtlassianClient::new(AtlassianConfig {
        site_url: site.into(),
        email: "u@example.com".into(),
        api_token: "tok".into(),
    })
}

fn page(id: &str, time: Option<&str>) -> ConfluencePage {
    ConfluencePage {
        id: id.into(),
        title: format!("page {id}"),
        space_id: None,
        version: time.map(|t| PageVersion { number: 1, created_at: Some(t.into()) }),
        body: None,
        links: None,
    }
}

fn issue(key: &str) -> JiraIssue {
    JiraIssue {
        key: key.into(),
        fields: JiraFields {
            summary: Some("s".into()),
            description: None,
            updated: None,
            created: None,
            project: None,
            status: None,
            attachment: vec![],
        },
    }
}

#[test]
fn page_url_uses_webui() {
    let client = AtlassianClient::new(AtlassianConfig {
        site_url: "https://my.atlassian.net".into(),
        email: "x".into(),
        api_token: "y".into(),
    });
    let page = ConfluencePage {
        id: "1".into(),
        title: "t".into(),
        space_id: None,
        version: None,
        body: None,
        links: Some(PageLinks {
            webui: Some("/spaces/DEV/pages/1/Title".into()),
        }),
    };
    assert_eq!(
        client.page_url(&page),
        "https://my.atlassian.net/wiki/spaces/DEV/pages/1/Title"
    );
}

#[test]
fn page_url_without_webui() {
    let c = client("https://my.atlassian.net");
    assert_eq!(
        c.page_url(&page("7", None)),
        "https://my.atlassian.net/wiki/spaces/_/pages/7"
    );
    let mut p = page("7", None);
    p.links = Some(PageLinks { webui: None });
    assert_eq!(c.page_url(&p), "https://my.atlassian.net/wiki/spaces/_/pages/7");
}

#[test]
fn issue_url_format() {
    let client = AtlassianClient::new(AtlassianConfig {
        site_url: "https://my.atlassian.net/".into(),
        email: "x".into(),
        api_token: "y".into(),
    });
    // trailing slash should be trimmed
    assert_eq!(client.issue_url("ABC-123"), "https://my.atlassian.net/browse/ABC-123");
}

#[test]
fn site_has_no_slash_at_its_end() {
    assert_eq!(client("https://a.net///").site(), "https://a.net");
    assert_eq!(client("https://日本.net/").site(), "https://日本.net");
    assert_eq!(client("///").site(), "");
    assert_eq!(client("").site(), "");
}

#[test]
fn authorization_holds_email_and_token() {
    let header = client("https://a.net").authorization();
    let encoded = header.strip_prefix("Basic ").unwrap();
    let plain = base64::engine::general_purpose::STANDARD.decode(encoded).unwrap();
    assert_eq!(plain, b"u@example.com:tok");
}

#[test]
fn download_urls() {
    let c = client("https://a.net/");
    assert_eq!(c.download_url("http://b/x"), "http://b/x");
    assert_eq!(c.download_url("/x/y"), "https://a.net/x/y");
    assert_eq!(c.download_url("x/y"), "https://a.net/x/y");
}

#[test]
fn request_urls() {
    let c = client("https://a.net/");
    assert_eq!(
        c.search_url("updated >= '1' ORDER BY x", &None),
        "https://a.net/rest/api/3/search/jql?jql=updated+%3E%3D+%271%27+ORDER+BY+x&maxResults=100&fields=summary,description,updated,created,project,status,attachment"
    );
    assert!(c
        .search_url("x", &Some("a b".into()))
        .ends_with("&nextPageToken=a+b"));
    assert_eq!(
        c.pages_url(false),
        "https://a.net/wiki/api/v2/pages?limit=100&body-format=storage"
    );
    assert_eq!(
        c.pages_url(true),
        "https://a.net/wiki/api/v2/pages?limit=100&body-format=storage&sort=-modified-date"
    );
    assert_eq!(
        c.attachments_url("12"),
        "https://a.net/wiki/api/v2/pages/12/attachments?limit=100"
    );
}

#[test]
fn form_encoding() {
    assert_eq!(urlencoding("aZ9*-._ ~&あ"), "aZ9*-._+%7E%26%E3%81%82");
    assert_eq!(urlencoding(""), "");
}

#[test]
fn next_urls() {
    let c = client("https://a.net/");
    assert_eq!(c.next_url(&None), None);
    assert_eq!(c.next_url(&Some(String::new())), None);
    assert_eq!(c.next_url(&Some("/wiki/n".into())).as_deref(), Some("https://a.net/wiki/n"));
    assert_eq!(c.next_url(&Some("https://b/n".into())).as_deref(), Some("https://b/n"));
}

#[test]
fn jira_search_paginates_until_no_token() {
    let c = client("https://a.net");
    let jql = "ORDER BY updated DESC";
    let mut search = IssueSearch::new(100);
    let first = search.next_request(&c, jql).unwrap();
    assert!(!first.contains("nextPageToken="));
    search.receive(SearchResponse {
        issues: vec![issue("P-1"), issue("P-2")],
        next_page_token: Some("abc".into()),
    });
    let second = search.next_request(&c, jql).unwrap();
    assert!(second.contains("nextPageToken=abc"));
    search.receive(SearchResponse { issues: vec![issue("P-3")], next_page_token: None });
    assert!(search.next_request(&c, jql).is_none());
    let issues = search.finish();
    assert_eq!(issues.len(), 3);
    assert_eq!(issues[0].key, "P-1");
    assert_eq!(issues[2].key, "P-3");
}

#[test]
fn jira_search_respects_max_total() {
    let c = client("https://a.net");
    let mut search = IssueSearch::new(50);
    search.receive(SearchResponse {
        issues: (0..150).map(|i| issue(&format!("P-{i}"))).collect(),
        next_page_token: Some("next".into()),
    });
    assert!(search.next_request(&c, "ORDER BY updated DESC").is_none());
    assert_eq!(search.finish().len(), 50);
}

#[test]
fn jira_search_stops_at_an_empty_part() {
    let c = client("https://a.net");
    let mut search = IssueSearch::new(50);
    search.receive(SearchResponse { issues: vec![], next_page_token: Some("t".into()) });
    assert!(search.next_request(&c, "x").is_none());
    assert!(search.finish().is_empty());
}

#[test]
fn confluence_pages_follows_next_link() {
    let c = client("https://a.net");
    let mut list = PageList::new(&c, 100, None);
    assert_eq!(
        list.next_request().as_deref(),
        Some("https://a.net/wiki/api/v2/pages?limit=100&body-format=storage")
    );
    list.receive(
        &c,
        PagesResponse {
            results: vec![page("p1", None), page("p2", None)],
            next: Some("/wiki/api/v2/pages?cursor=xyz&limit=100".into()),
        },
    );
    assert_eq!(
        list.next_request().as_deref(),
        Some("https://a.net/wiki/api/v2/pages?cursor=xyz&limit=100")
    );
    list.receive(&c, PagesResponse { results: vec![page("p3", None)], next: None });
    assert!(list.next_request().is_none());
    let pages = list.finish();
    assert_eq!(pages.len(), 3);
    assert_eq!(pages[0].id, "p1");
    assert_eq!(pages[2].id, "p3");
}

#[test]
fn confluence_pages_respects_max_total() {
    let c = client("https://a.net");
    let mut list = PageList::new(&c, 20, None);
    list.receive(
        &c,
        PagesResponse {
            results: (0..50).map(|i| page(&format!("p{i}"), None)).collect(),
            next: Some("/wiki/api/v2/pages?cursor=x".into()),
        },
    );
    assert!(list.next_request().is_none());
    assert_eq!(list.finish().len(), 20);
}

#[test]
fn confluence_pages_are_cut_at_since() {
    let c = client("https://a.net");
    let mut list = PageList::new(&c, 100, Some("2026-05-02T00:00:00Z"));
    assert!(list.next_request().unwrap().ends_with("&sort=-modified-date"));
    list.receive(
        &c,
        PagesResponse {
            results: vec![
                page("new", Some("2026-05-03T00:00:00Z")),
                page("unknown", None),
                page("same", Some("2026-05-02T00:00:00Z")),
                page("old", Some("2026-05-01T00:00:00Z")),
                page("behind", Some("2026-05-04T00:00:00Z")),
            ],
            next: Some("/more".into()),
        },
    );
    assert!(list.next_request().is_none());
    let ids: Vec<String> = list.finish().into_iter().map(|p| p.id).collect();
    assert_eq!(ids, vec!["new", "unknown", "same"]);
    let pages = vec![page("old", Some("2000-01-01T00:00:00Z"))];
    assert_eq!(pages_since(&pages, None), 1);
}

#[test]
fn confluence_attachments_returns_results() {
    let c = client("https://a.net");
    let mut list = AttachmentList::new(&c, "123");
    assert_eq!(
        list.url.as_deref(),
        Some("https://a.net/wiki/api/v2/pages/123/attachments?limit=100")
    );
    list.receive(
        &c,
        AttachmentsResponse {
            results: vec![
                ConfluenceAttachment {
                    title: "diagram.drawio".into(),
                    media_type: Some("application/vnd.jgraph.mxfile".into()),
                    download_link: Some("/wiki/download/attachments/123/diagram.drawio".into()),
                    links: None,
                },
                ConfluenceAttachment {
                    title: "screenshot.png".into(),
                    media_type: Some("image/png".into()),
                    download_link: None,
                    links: Some(AttachmentLinks {
                        download: Some("/wiki/download/attachments/123/screenshot.png".into()),
                    }),
                },
            ],
            next: None,
        },
    );
    assert!(list.url.is_none());
    assert_eq!(list.items.len(), 2);
    assert_eq!(list.items[0].title, "diagram.drawio");
}

#[test]
fn attachment_lists_follow_their_links() {
    let c = client("https://a.net");
    let one = |title: &str| ConfluenceAttachment {
        title: title.into(),
        media_type: None,
        download_link: None,
        links: None,
    };
    let mut list = AttachmentList::new(&c, "1");
    list.receive(
        &c,
        AttachmentsResponse { results: vec![one("a")], next: Some("/wiki/next?c=1".into()) },
    );
    assert_eq!(list.url.as_deref(), Some("https://a.net/wiki/next?c=1"));
    list.receive(
        &c,
        AttachmentsResponse { results: vec![one("b"), one("c")], next: Some("".into()) },
    );
    assert!(list.url.is_none());
    let titles: Vec<&str> = list.items.iter().map(|a| a.title.as_str()).collect();
    assert_eq!(titles, vec!["a", "b", "c"]);
}

#[test]
fn searches_carry_each_token_and_stop_when_enough_came() {
    let c = client("https://a.net");
    let mut search = IssueSearch::new(3);
    let mut asked = vec![];
    let answers = [(vec!["P-1", "P-2"], "t1"), (vec!["P-3", "P-4"], "t2"), (vec!["P-5"], "t3")];
    for (keys, token) in answers {
        match search.next_request(&c, "x") {
            Some(url) => asked.push(url),
            None => break,
        }
        search.receive(SearchResponse {
            issues: keys.into_iter().map(issue).collect(),
            next_page_token: Some(token.into()),
        });
    }
    assert_eq!(asked.len(), 2);
    assert!(!asked[0].contains("nextPageToken"));
    assert!(asked[1].ends_with("&nextPageToken=t1"));
    let keys: Vec<String> = search.finish().into_iter().map(|i| i.key).collect();
    assert_eq!(keys, vec!["P-1", "P-2", "P-3"]);
}

#[test]
fn pager_keeps_no_more_than_wanted() {
    let mut p: Pager<u8> = Pager::new(3);
    p.receive(vec![1, 2], false);
    assert!(!p.done);
    p.receive(vec![3, 4], false);
    assert!(p.done);
    assert_eq!(p.finish(), vec![1, 2, 3]);
    let mut q: Pager<u8> = Pager::new(3);
    q.receive(vec![1], true);
    assert!(q.done);
    assert_eq!(q.finish(), vec![1]);
}

#[test]
fn pages_tell_time_and_body() {
    let mut p = page("1", Some("1970-01-01T00:01:00Z"));
    assert_eq!(p.time(), 60);
    assert_eq!(p.storage(), "");
    p.body = Some(PageBody { storage: None, atlas_doc_format: None });
    assert_eq!(p.storage(), "");
    p.body = Some(PageBody {
        storage: Some(PageBodyVariant { value: "<p/>".into() }),
        atlas_doc_format: None,
    });
    assert_eq!(p.storage(), "<p/>");
    assert_eq!(page("1", None).time(), 0);
}
