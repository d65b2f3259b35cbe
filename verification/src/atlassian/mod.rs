//! Requests to an Atlassian site.
use crate::codec;
use crate::config::AtlassianConfig;
use crate::text;
use crate::text::{chars_of, starts_with};
use vstd::prelude::*;

pub mod confluence;
pub mod jira;
pub mod laws;
pub mod pager;

pub use confluence::{ConfluenceAttachment, ConfluencePage};
pub use jira::{JiraAttachment, JiraIssue};

verus! {

/// Makes requests to the site that the settings name.
#[derive(Clone)]
pub struct AtlassianClient {
    pub cfg: AtlassianConfig,
}

/// `s` without slashes at its end.
pub open spec fn without_slashes(s: Seq<char>) -> Seq<char>
    decreases s.len(),
{
    if s.len() > 0 && s.last() == '/' {
        without_slashes(s.drop_last())
    } else {
        s
    }
}

/// The value of the header that gives an email and a token.
pub open spec fn basic_credentials(email: Seq<char>, token: Seq<char>) -> Seq<u8> {
    vstd::utf8::encode_utf8(email + ":"@ + token)
}

/// The address of a file that is given by an address or a path on the site.
pub open spec fn file_url(site: Seq<char>, url_or_path: Seq<char>) -> Seq<char> {
    if "http"@.is_prefix_of(url_or_path) {
        url_or_path
    } else if "/"@.is_prefix_of(url_or_path) {
        site + url_or_path
    } else {
        site + "/"@ + url_or_path
    }
}

/// The address of the next part of a list, where there is one; a path is on the
/// site.
pub open spec fn next_part(site: Seq<char>, next: Option<Seq<char>>) -> Option<Seq<char>> {
    match next {
        Some(n) => if n.len() == 0 {
            None
        } else if "http"@.is_prefix_of(n) {
            Some(n)
        } else {
            Some(site + n)
        },
        None => None,
    }
}

impl AtlassianClient {
    /// The address of the site.
    pub open spec fn site_view(&self) -> Seq<char> {
        without_slashes(self.cfg.site_url@)
    }

    /// A client for the site that the settings name.
    pub fn new(cfg: AtlassianConfig) -> (r: Self)
        ensures
            r.cfg == cfg,
    {
        AtlassianClient { cfg }
    }

    /// The address of the site, without slashes at its end.
    pub fn site(&self) -> (r: &str)
        ensures
            r@ == self.site_view(),
    {
        let s = self.cfg.site_url.as_str();
        let v = chars_of(s);
        let mut n: usize = v.len();
        assert(v@.take(n as int) =~= v@);
        while n > 0 && v[n - 1] == '/'
            invariant
                n <= v@.len(),
                v@ == s@,
                without_slashes(v@.take(n as int)) == without_slashes(s@),
            decreases n,
        {
            assert(v@.take(n as int).drop_last() =~= v@.take(n - 1));
            n -= 1;
        }
        assert(s@.subrange(0, n as int) =~= v@.take(n as int));
        s.substring_char(0, n)
    }

    /// The value of the header that gives email and token: behind `Basic `
    /// stands base64 that decodes to both with a colon between them.
    pub fn authorization(&self) -> (r: String)
        ensures
            r@ == "Basic "@ + codec::base64_text(basic_credentials(self.cfg.email@, self.cfg.api_token@)),
            codec::base64_bytes(r@.skip("Basic "@.len() as int)) == Some(
                basic_credentials(self.cfg.email@, self.cfg.api_token@),
            ),
    {
        let mut plain = self.cfg.email.clone();
        plain.append(":");
        plain.append(self.cfg.api_token.as_str());
        let encoded = codec::base64_encode(plain.as_str().as_bytes());
        let mut r = "Basic ".to_owned();
        r.append(encoded.as_str());
        assert(r@.skip("Basic "@.len() as int) =~= encoded@);
        r
    }

    /// The address of a file that is given by an address or a path on the site.
    pub fn download_url(&self, url_or_path: &str) -> (r: String)
        ensures
            r@ == file_url(self.site_view(), url_or_path@),
    {
        if starts_with(url_or_path, "http") {
            url_or_path.to_owned()
        } else if starts_with(url_or_path, "/") {
            let mut r = self.site().to_owned();
            r.append(url_or_path);
            r
        } else {
            let mut r = self.site().to_owned();
            r.append("/");
            r.append(url_or_path);
            r
        }
    }

    /// The address of the next part of a list, where there is one.
    pub fn next_url(&self, next: &Option<String>) -> (r: Option<String>)
        ensures
            r.deep_view() == next_part(self.site_view(), next.deep_view()),
    {
        match next {
            Some(n) => if n.as_str().is_empty() {
                None
            } else if starts_with(n.as_str(), "http") {
                Some(n.clone())
            } else {
                let mut r = self.site().to_owned();
                r.append(n.as_str());
                Some(r)
            },
            None => None,
        }
    }
}

// ---------------------------------------------------------------------------
// Laws

/// No slash is left at the end of the address of a site, and taking slashes
/// away once more changes nothing.
pub proof fn law_site_ends_in_no_slash(s: Seq<char>)
    ensures
        without_slashes(s).len() == 0 || without_slashes(s).last() != '/',
        without_slashes(without_slashes(s)) == without_slashes(s),
        without_slashes(s).is_prefix_of(s),
    decreases s.len(),
{
    if s.len() > 0 && s.last() == '/' {
        law_site_ends_in_no_slash(s.drop_last());
        let t = without_slashes(s);
        assert(t =~= s.subrange(0, t.len() as int));
    } else {
        assert(s =~= s.subrange(0, s.len() as int));
    }
}

} // verus!
