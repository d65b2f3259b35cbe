//! Attachments that are taken in.
use crate::atlassian::confluence::AttachmentView;
use crate::atlassian::jira::{JiraAttachment, JiraAttachmentView};
use crate::atlassian::ConfluenceAttachment;
use crate::text;
use crate::text::{
    chars_of, ends_with, last_position, lowered, same, squeeze, starts_with, text_between, trimmed,
};
use vstd::prelude::*;

verus! {

// ---------------------------------------------------------------------------
// draw.io files

/// A name in lower case with one space between words.
pub open spec fn normalized(s: Seq<char>) -> Seq<char> {
    text::trim(text::single_spaced(text::lowercase(s)))
}

/// A file name without its extension.
pub open spec fn without_extension(s: Seq<char>) -> Seq<char> {
    match text::rfind_char(s, '.') {
        Some(i) => s.take(i),
        None => s,
    }
}

/// A name in lower case with one space between words.
pub fn normalize_name(s: &str) -> (r: String)
    ensures
        r@ == normalized(s@),
{
    trimmed(squeeze(lowered(s).as_str()).as_str())
}

/// A file name without its extension.
pub fn base_name(s: &str) -> (r: String)
    ensures
        r@ == without_extension(s@),
{
    let v = chars_of(s);
    match last_position(&v, '.') {
        Some(i) => {
            assert(v@.subrange(0, i as int) =~= s@.take(i as int));
            text_between(&v, 0, i)
        },
        None => s.to_owned(),
    }
}

/// The ways in which an attachment can be the file of a diagram, the surest
/// first.
#[derive(Clone, Copy, PartialEq, Eq, Structural)]
pub enum NameMatch {
    /// It has the name, with or without an extension.
    Direct,
    /// Its name begins with the name and has the extension of a diagram.
    Fuzzy,
    /// It is a diagram.
    AnyDiagram,
}

/// Whether an attachment, by its normalized title and its media type, is the
/// file of the diagram with the normalized name `needle` in this way.
pub open spec fn is_match(
    how: NameMatch,
    needle: Seq<char>,
    title: Seq<char>,
    media_type: Option<Seq<char>>,
) -> bool {
    match how {
        NameMatch::Direct => title == needle || without_extension(title) == needle,
        NameMatch::Fuzzy => needle.is_prefix_of(title) && (".drawio"@.is_suffix_of(title)
            || ".xml"@.is_suffix_of(title)),
        NameMatch::AnyDiagram => ".drawio"@.is_suffix_of(title) || media_type == Some(
            "application/vnd.jgraph.mxfile"@,
        ),
    }
}

/// Whether an attachment is the file of a diagram in this way.
pub open spec fn attachment_matches(how: NameMatch, needle: Seq<char>, a: AttachmentView) -> bool {
    is_match(how, needle, normalized(a.title), a.media_type)
}

/// The first attachment, from `i` on, that is the file of a diagram in this
/// way.
pub open spec fn first_match(
    how: NameMatch,
    needle: Seq<char>,
    atts: Seq<AttachmentView>,
    i: int,
) -> Option<int>
    decreases atts.len() - i,
{
    if i < 0 || i >= atts.len() {
        None
    } else if attachment_matches(how, needle, atts[i]) {
        Some(i)
    } else {
        first_match(how, needle, atts, i + 1)
    }
}

/// The attachment that is the file of the diagram `name`: the first that
/// matches directly, or else the first that matches by its beginning, or else
/// the only diagram where there is one only.
pub open spec fn diagram_file(atts: Seq<AttachmentView>, name: Seq<char>) -> Option<int> {
    let needle = normalized(name);
    let direct = first_match(NameMatch::Direct, needle, atts, 0);
    let fuzzy = first_match(NameMatch::Fuzzy, needle, atts, 0);
    let any = first_match(NameMatch::AnyDiagram, needle, atts, 0);
    if needle.len() == 0 {
        None
    } else if direct is Some {
        direct
    } else if fuzzy is Some {
        fuzzy
    } else if any is Some && first_match(NameMatch::AnyDiagram, needle, atts, any->0 + 1) is None {
        any
    } else {
        None
    }
}

/// `is_match`, executable.
pub fn matches_name(
    how: NameMatch,
    needle: &str,
    title: &str,
    media_type: &Option<String>,
) -> (r: bool)
    ensures
        r == is_match(how, needle@, title@, media_type.deep_view()),
{
    match how {
        NameMatch::Direct => same(title, needle) || same(base_name(title).as_str(), needle),
        NameMatch::Fuzzy => starts_with(title, needle) && (ends_with(title, ".drawio")
            || ends_with(title, ".xml")),
        NameMatch::AnyDiagram => ends_with(title, ".drawio") || (match media_type {
            Some(m) => same(m.as_str(), "application/vnd.jgraph.mxfile"),
            None => false,
        }),
    }
}

/// `first_match`, executable.
fn find_match(
    how: NameMatch,
    needle: &str,
    atts: &Vec<ConfluenceAttachment>,
    from: usize,
) -> (r: Option<usize>)
    requires
        from <= atts@.len(),
    ensures
        match r {
            Some(i) => first_match(how, needle@, atts.deep_view(), from as int) == Some(i as int)
                && i < atts.len(),
            None => first_match(how, needle@, atts.deep_view(), from as int) is None,
        },
{
    let ghost all = atts.deep_view();
    let mut i: usize = from;
    while i < atts.len()
        invariant
            from <= i <= atts@.len(),
            all == atts.deep_view(),
            first_match(how, needle@, all, from as int) == first_match(
                how,
                needle@,
                all,
                i as int,
            ),
        decreases atts@.len() - i,
    {
        assert(all[i as int] == atts@[i as int].deep_view());
        let title = normalize_name(atts[i].title.as_str());
        if matches_name(how, needle, title.as_str(), &atts[i].media_type) {
            return Some(i);
        }
        i += 1;
    }
    None
}

/// The attachment that is the file of the diagram `name`.
pub fn find_drawio_attachment<'a>(
    attachments: &'a Vec<ConfluenceAttachment>,
    name: &str,
) -> (r: Option<&'a ConfluenceAttachment>)
    ensures
        match diagram_file(attachments.deep_view(), name@) {
            Some(i) => 0 <= i < attachments@.len() && r == Some(&attachments@[i]),
            None => r is None,
        },
{
    let needle = normalize_name(name);
    if needle.as_str().is_empty() {
        return None;
    }
    if let Some(i) = find_match(NameMatch::Direct, needle.as_str(), attachments, 0) {
        return Some(&attachments[i]);
    }
    if let Some(i) = find_match(NameMatch::Fuzzy, needle.as_str(), attachments, 0) {
        return Some(&attachments[i]);
    }
    if let Some(i) = find_match(NameMatch::AnyDiagram, needle.as_str(), attachments, 0) {
        if find_match(NameMatch::AnyDiagram, needle.as_str(), attachments, i + 1).is_none() {
            return Some(&attachments[i]);
        }
    }
    None
}

/// From where an attachment is fetched.
pub open spec fn download_of(a: AttachmentView) -> Option<Seq<char>> {
    if a.download_link is Some {
        a.download_link
    } else {
        a.download
    }
}

/// From where an attachment is fetched.
pub fn attachment_download_url(att: &ConfluenceAttachment) -> (r: Option<String>)
    ensures
        r.deep_view() == download_of(att.deep_view()),
{
    if let Some(d) = &att.download_link {
        return Some(d.clone());
    }
    match &att.links {
        Some(l) => l.download.clone(),
        None => None,
    }
}

/// From where the file of the diagram `name` is fetched, where there is one.
pub fn diagram_download_url(attachments: &Vec<ConfluenceAttachment>, name: &str) -> (r: Option<
    String,
>)
    ensures
        r.deep_view() == (match diagram_file(attachments.deep_view(), name@) {
            Some(i) => download_of(attachments.deep_view()[i]),
            None => None,
        }),
{
    match find_drawio_attachment(attachments, name) {
        Some(a) => attachment_download_url(a),
        None => None,
    }
}

// ---------------------------------------------------------------------------
// Images

/// An image that is to be fetched and described.
#[derive(Debug)]
pub struct ImageJob {
    /// Its number among the images, or attachments, of the document.
    pub index: usize,
    pub name: String,
    pub mime: String,
    pub url: String,
}

/// The model of an image that is to be fetched and described.
pub struct ImageJobView {
    pub index: int,
    pub name: Seq<char>,
    pub mime: Seq<char>,
    pub url: Seq<char>,
}

impl DeepView for ImageJob {
    type V = ImageJobView;

    open spec fn deep_view(&self) -> ImageJobView {
        ImageJobView { index: self.index as int, name: self.name@, mime: self.mime@, url: self.url@ }
    }
}

/// The first attachment, from `i` on, with this title.
pub open spec fn titled(atts: Seq<AttachmentView>, title: Seq<char>, i: int) -> Option<int>
    decreases atts.len() - i,
{
    if i < 0 || i >= atts.len() {
        None
    } else if atts[i].title == title {
        Some(i)
    } else {
        titled(atts, title, i + 1)
    }
}

/// A job for a file of this type at this address, if it is an image and can be
/// fetched.
pub open spec fn job_for(
    index: int,
    name: Seq<char>,
    media_type: Option<Seq<char>>,
    url: Option<Seq<char>>,
) -> Option<ImageJobView> {
    let mime = text::text_or_empty(media_type);
    if "image/"@.is_prefix_of(mime) && url is Some {
        Some(ImageJobView { index, name, mime, url: url->0 })
    } else {
        None
    }
}

/// The job for the image with the number `i` on a page, where there is one.
pub open spec fn page_job(atts: Seq<AttachmentView>, refs: Seq<Seq<char>>, i: int) -> Option<
    ImageJobView,
> {
    match titled(atts, refs[i], 0) {
        Some(k) => job_for(i, refs[i], atts[k].media_type, download_of(atts[k])),
        None => None,
    }
}

/// The job for the attachment with the number `i` of an issue, where there is
/// one.
pub open spec fn issue_job(atts: Seq<JiraAttachmentView>, i: int) -> Option<ImageJobView> {
    job_for(i, atts[i].filename, atts[i].mime_type, atts[i].content)
}

/// The first job of a page from number `i` on.
pub open spec fn next_page_job(atts: Seq<AttachmentView>, refs: Seq<Seq<char>>, i: int) -> Option<
    ImageJobView,
>
    decreases refs.len() - i,
{
    if i < 0 || i >= refs.len() {
        None
    } else if page_job(atts, refs, i) is Some {
        page_job(atts, refs, i)
    } else {
        next_page_job(atts, refs, i + 1)
    }
}

/// The first job of an issue from number `i` on.
pub open spec fn next_issue_job(atts: Seq<JiraAttachmentView>, i: int) -> Option<ImageJobView>
    decreases atts.len() - i,
{
    if i < 0 || i >= atts.len() {
        None
    } else if issue_job(atts, i) is Some {
        issue_job(atts, i)
    } else {
        next_issue_job(atts, i + 1)
    }
}

/// `titled`, executable.
fn find_titled(atts: &Vec<ConfluenceAttachment>, title: &str) -> (r: Option<usize>)
    ensures
        match r {
            Some(i) => titled(atts.deep_view(), title@, 0) == Some(i as int) && i < atts@.len(),
            None => titled(atts.deep_view(), title@, 0) is None,
        },
{
    let ghost all = atts.deep_view();
    let mut i: usize = 0;
    while i < atts.len()
        invariant
            i <= atts@.len(),
            all == atts.deep_view(),
            titled(all, title@, 0) == titled(all, title@, i as int),
        decreases atts@.len() - i,
    {
        assert(all[i as int] == atts@[i as int].deep_view());
        if same(atts[i].title.as_str(), title) {
            return Some(i);
        }
        i += 1;
    }
    None
}

/// `job_for`, executable.
fn make_job(
    index: usize,
    name: &String,
    media_type: &Option<String>,
    url: Option<String>,
) -> (r: Option<ImageJob>)
    ensures
        r.deep_view() == job_for(
            index as int,
            name@,
            media_type.deep_view(),
            url.deep_view(),
        ),
{
    let mime = text::or_empty(media_type);
    if !starts_with(mime.as_str(), "image/") {
        return None;
    }
    match url {
        Some(url) => Some(ImageJob { index, name: name.clone(), mime, url }),
        None => None,
    }
}

/// The images of a document that are described, one after another, a limited
/// number of them.
#[derive(Debug)]
pub struct ImageWalk {
    /// The number of the next image that is looked at.
    pub next: usize,
    /// How many were described.
    pub processed: u32,
}

/// Where a walk stands after it gave a job.
pub open spec fn walk_on(job: Option<ImageJobView>, count: int) -> int {
    match job {
        Some(j) => j.index + 1,
        None => count,
    }
}

impl ImageWalk {
    /// Before the first image.
    pub fn new() -> (r: Self)
        ensures
            r.next == 0,
            r.processed == 0,
    {
        ImageWalk { next: 0, processed: 0 }
    }

    /// The next image of a page that is to be described; none once enough were.
    pub fn next_on_page(
        &mut self,
        attachments: &Vec<ConfluenceAttachment>,
        image_refs: &Vec<String>,
        max_images: u32,
    ) -> (r: Option<ImageJob>)
        requires
            old(self).next <= image_refs@.len(),
        ensures
            r.deep_view() == (if old(self).processed >= max_images {
                None
            } else {
                next_page_job(
                    attachments.deep_view(),
                    image_refs.deep_view(),
                    old(self).next as int,
                )
            }),
            final(self).next == walk_on(r.deep_view(), image_refs@.len() as int),
            final(self).next <= image_refs@.len(),
            final(self).processed == old(self).processed,
    {
        let ghost atts = attachments.deep_view();
        let ghost refs = image_refs.deep_view();
        let start = self.next;
        let mut i: usize = start;
        self.next = image_refs.len();
        if self.processed >= max_images {
            return None;
        }
        while i < image_refs.len()
            invariant
                start <= i <= image_refs@.len(),
                atts == attachments.deep_view(),
                refs == image_refs.deep_view(),
                start == old(self).next,
                self.next == image_refs@.len(),
                self.processed == old(self).processed,
                old(self).processed < max_images,
                next_page_job(atts, refs, start as int) == next_page_job(atts, refs, i as int),
            decreases image_refs@.len() - i,
        {
            assert(refs[i as int] == image_refs@[i as int]@);
            if let Some(k) = find_titled(attachments, image_refs[i].as_str()) {
                assert(atts[k as int] == attachments@[k as int].deep_view());
                let url = attachment_download_url(&attachments[k]);
                if let Some(job) = make_job(i, &image_refs[i], &attachments[k].media_type, url) {
                    self.next = i + 1;
                    return Some(job);
                }
            }
            i += 1;
        }
        None
    }

    /// The next attachment of an issue that is to be described; none once
    /// enough were.
    pub fn next_on_issue(&mut self, attachments: &Vec<JiraAttachment>, max_images: u32) -> (r: Option<
        ImageJob,
    >)
        requires
            old(self).next <= attachments@.len(),
        ensures
            r.deep_view() == (if old(self).processed >= max_images {
                None
            } else {
                next_issue_job(attachments.deep_view(), old(self).next as int)
            }),
            final(self).next == walk_on(r.deep_view(), attachments@.len() as int),
            final(self).next <= attachments@.len(),
            final(self).processed == old(self).processed,
    {
        let ghost atts = attachments.deep_view();
        let start = self.next;
        let mut i: usize = start;
        self.next = attachments.len();
        if self.processed >= max_images {
            return None;
        }
        while i < attachments.len()
            invariant
                start <= i <= attachments@.len(),
                atts == attachments.deep_view(),
                start == old(self).next,
                self.next == attachments@.len(),
                self.processed == old(self).processed,
                old(self).processed < max_images,
                next_issue_job(atts, start as int) == next_issue_job(atts, i as int),
            decreases attachments@.len() - i,
        {
            let a = &attachments[i];
            assert(atts[i as int] == a.deep_view());
            if let Some(job) = make_job(i, &a.filename, &a.mime_type, a.content.clone()) {
                self.next = i + 1;
                return Some(job);
            }
            i += 1;
        }
        None
    }

    /// Counts an image that was described.
    pub fn described(&mut self)
        requires
            old(self).processed < u32::MAX,
        ensures
            final(self).processed == old(self).processed + 1,
            final(self).next == old(self).next,
    {
        self.processed = self.processed + 1;
    }
}

// ---------------------------------------------------------------------------
// Laws

/// The jobs of a page come in order, each an image that is attached to it and
/// can be fetched, and none is passed over.
pub proof fn law_page_jobs(atts: Seq<AttachmentView>, refs: Seq<Seq<char>>, i: int)
    requires
        0 <= i <= refs.len(),
    ensures
        match next_page_job(atts, refs, i) {
            Some(j) => i <= j.index < refs.len() && page_job(atts, refs, j.index) == Some(j)
                && "image/"@.is_prefix_of(j.mime) && forall|k: int|
                i <= k < j.index ==> page_job(atts, refs, k) is None,
            None => forall|k: int| i <= k < refs.len() ==> page_job(atts, refs, k) is None,
        },
    decreases refs.len() - i,
{
    if i < refs.len() && page_job(atts, refs, i) is None {
        law_page_jobs(atts, refs, i + 1);
    }
}

/// The jobs of an issue come in order, each an image that can be fetched, and
/// none is passed over.
pub proof fn law_issue_jobs(atts: Seq<JiraAttachmentView>, i: int)
    requires
        0 <= i <= atts.len(),
    ensures
        match next_issue_job(atts, i) {
            Some(j) => i <= j.index < atts.len() && issue_job(atts, j.index) == Some(j)
                && "image/"@.is_prefix_of(j.mime) && forall|k: int|
                i <= k < j.index ==> issue_job(atts, k) is None,
            None => forall|k: int| i <= k < atts.len() ==> issue_job(atts, k) is None,
        },
    decreases atts.len() - i,
{
    if i < atts.len() && issue_job(atts, i) is None {
        law_issue_jobs(atts, i + 1);
    }
}

pub proof fn lemma_first_match(how: NameMatch, needle: Seq<char>, atts: Seq<AttachmentView>, i: int)
    requires
        0 <= i,
    ensures
        match first_match(how, needle, atts, i) {
            Some(k) => i <= k < atts.len() && attachment_matches(how, needle, atts[k]),
            None => forall|k: int|
                i <= k < atts.len() ==> !attachment_matches(how, needle, #[trigger] atts[k]),
        },
    decreases atts.len() - i,
{
    if i < atts.len() && !attachment_matches(how, needle, atts[i]) {
        lemma_first_match(how, needle, atts, i + 1);
    }
}

/// Whether no attachment is the file of a diagram in this way.
pub open spec fn none_matches(how: NameMatch, needle: Seq<char>, atts: Seq<AttachmentView>) -> bool {
    forall|m: int|
        0 <= m < atts.len() ==> !attachment_matches(how, needle, #[trigger] atts[m])
}

/// Whether the attachment at `k` is a diagram and the only one.
pub open spec fn is_only_diagram(needle: Seq<char>, atts: Seq<AttachmentView>, k: int) -> bool {
    attachment_matches(NameMatch::AnyDiagram, needle, atts[k]) && forall|m: int|
        0 <= m < atts.len() && m != k ==> !attachment_matches(
            NameMatch::AnyDiagram,
            needle,
            #[trigger] atts[m],
        )
}

/// The file of a diagram is an attachment that has its name, or else one that
/// begins with it, or else a diagram that is the only one. There is none only
/// where no attachment is any of these or the name is empty.
pub proof fn law_diagram_file(atts: Seq<AttachmentView>, name: Seq<char>)
    ensures
        match diagram_file(atts, name) {
            Some(k) => {
                let needle = normalized(name);
                &&& 0 <= k < atts.len()
                &&& needle.len() > 0
                &&& attachment_matches(NameMatch::Direct, needle, atts[k]) || (none_matches(
                    NameMatch::Direct,
                    needle,
                    atts,
                ) && (attachment_matches(NameMatch::Fuzzy, needle, atts[k]) || (none_matches(
                    NameMatch::Fuzzy,
                    needle,
                    atts,
                ) && is_only_diagram(needle, atts, k))))
            },
            None => {
                let needle = normalized(name);
                needle.len() == 0 || (none_matches(NameMatch::Direct, needle, atts)
                    && none_matches(NameMatch::Fuzzy, needle, atts) && forall|k: int|
                    0 <= k < atts.len() ==> !(#[trigger] is_only_diagram(needle, atts, k)))
            },
        },
{
    let needle = normalized(name);
    lemma_first_match(NameMatch::Direct, needle, atts, 0);
    lemma_first_match(NameMatch::Fuzzy, needle, atts, 0);
    lemma_first_match(NameMatch::AnyDiagram, needle, atts, 0);
    let any = first_match(NameMatch::AnyDiagram, needle, atts, 0);
    if any is Some {
        lemma_first_match(NameMatch::AnyDiagram, needle, atts, any->0 + 1);
        lemma_none_before(NameMatch::AnyDiagram, needle, atts, 0);
        assert(attachment_matches(NameMatch::AnyDiagram, needle, atts[any->0]));
    }
}

pub proof fn lemma_none_before(how: NameMatch, needle: Seq<char>, atts: Seq<AttachmentView>, i: int)
    requires
        0 <= i,
    ensures
        first_match(how, needle, atts, i) matches Some(k) ==> forall|m: int|
            i <= m < k ==> !attachment_matches(how, needle, #[trigger] atts[m]),
    decreases atts.len() - i,
{
    if i < atts.len() && !attachment_matches(how, needle, atts[i]) {
        lemma_none_before(how, needle, atts, i + 1);
    }
}

} // verus!
