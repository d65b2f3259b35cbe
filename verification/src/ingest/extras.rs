//! The diagrams and images of a page.
//!
//! What is fetched, and what becomes of it, is decided here step by step; the
//! caller does the fetching and hands back what came of it.
use crate::atlassian::confluence::{AttachmentView, WikiPageView};
use crate::atlassian::{AtlassianClient, ConfluenceAttachment, ConfluencePage};
use crate::chunking;
use crate::diagrams::drawio;
use crate::ingest;
use crate::ingest::attachments;
use crate::ingest::attachments::{diagram_download_url, ImageJob, ImageJobView, ImageWalk};
use crate::ingest::{drawio_chunks, page_extras, page_image_chunks, PreChunk, PreChunkView};
use vstd::prelude::*;

verus! {

/// What is asked of the caller.
#[derive(Debug)]
pub enum ExtraAction {
    /// The list of the attachments of the page.
    FetchAttachments,
    /// The file at this address.
    Download(String),
    /// A description of the image that was just fetched, which is of this
    /// type.
    Describe(String),
    /// Nothing: all is done.
    Finish,
}

/// The model of what is asked of the caller.
pub enum ExtraActionView {
    FetchAttachments,
    Download(Seq<char>),
    Describe(Seq<char>),
    Finish,
}

impl DeepView for ExtraAction {
    type V = ExtraActionView;

    open spec fn deep_view(&self) -> ExtraActionView {
        match self {
            ExtraAction::FetchAttachments => ExtraActionView::FetchAttachments,
            ExtraAction::Download(url) => ExtraActionView::Download(url@),
            ExtraAction::Describe(mime) => ExtraActionView::Describe(mime@),
            ExtraAction::Finish => ExtraActionView::Finish,
        }
    }
}

// ---------------------------------------------------------------------------
// Pages

/// What of a page is being fetched.
enum Stage {
    Attachments,
    /// The diagram with this number, from this address.
    Diagram(usize, String),
    Image(ImageJob),
    Describe(ImageJob),
    Done,
}

/// The model of what of a page is being fetched.
pub enum StageView {
    Attachments,
    Diagram(int, Seq<char>),
    Image(ImageJobView),
    Describe(ImageJobView),
    Done,
}

impl DeepView for Stage {
    type V = StageView;

    closed spec fn deep_view(&self) -> StageView {
        match self {
            Stage::Attachments => StageView::Attachments,
            Stage::Diagram(i, url) => StageView::Diagram(*i as int, url@),
            Stage::Image(job) => StageView::Image(job.deep_view()),
            Stage::Describe(job) => StageView::Describe(job.deep_view()),
            Stage::Done => StageView::Done,
        }
    }
}

/// The diagrams and images of a page that are being fetched.
pub struct PageExtras {
    drawio_refs: Vec<String>,
    image_refs: Vec<String>,
    attachments: Vec<ConfluenceAttachment>,
    parse_drawio: bool,
    vision: bool,
    max_images: u32,
    stage: Stage,
    walk: ImageWalk,
    chunks: Vec<PreChunk>,
}

/// The model of the diagrams and images of a page that are being fetched.
pub struct ExtrasView {
    pub drawio_refs: Seq<Seq<char>>,
    pub image_refs: Seq<Seq<char>>,
    pub attachments: Seq<AttachmentView>,
    pub parse_drawio: bool,
    pub vision: bool,
    pub max_images: u32,
    pub stage: StageView,
    /// The number of the next image that is looked at.
    pub next: int,
    /// How many images were described.
    pub processed: int,
    pub chunks: Seq<PreChunkView>,
}

impl DeepView for PageExtras {
    type V = ExtrasView;

    closed spec fn deep_view(&self) -> ExtrasView {
        ExtrasView {
            drawio_refs: self.drawio_refs.deep_view(),
            image_refs: self.image_refs.deep_view(),
            attachments: self.attachments.deep_view(),
            parse_drawio: self.parse_drawio,
            vision: self.vision,
            max_images: self.max_images,
            stage: self.stage.deep_view(),
            next: self.walk.next as int,
            processed: self.walk.processed as int,
            chunks: self.chunks.deep_view(),
        }
    }
}

/// What holds at every step.
pub open spec fn extras_valid(s: ExtrasView) -> bool {
    &&& 0 <= s.next <= s.image_refs.len()
    &&& 0 <= s.processed <= s.max_images
    &&& match s.stage {
        StageView::Diagram(i, _) => 0 <= i < s.drawio_refs.len(),
        StageView::Image(job) => s.processed < s.max_images && 0 <= job.index && s.next
            == job.index + 1,
        StageView::Describe(job) => s.processed < s.max_images && 0 <= job.index && s.next
            == job.index + 1,
        _ => true,
    }
}

/// From where the diagram with the number `i` is fetched.
pub open spec fn diagram_url(atts: Seq<AttachmentView>, refs: Seq<Seq<char>>, i: int) -> Option<
    Seq<char>,
> {
    match attachments::diagram_file(atts, refs[i]) {
        Some(k) => attachments::download_of(atts[k]),
        None => None,
    }
}

/// The first diagram, from number `i` on, that can be fetched, and from where.
pub open spec fn next_diagram(atts: Seq<AttachmentView>, refs: Seq<Seq<char>>, i: int) -> Option<
    (int, Seq<char>),
>
    decreases refs.len() - i,
{
    if i < 0 || i >= refs.len() {
        None
    } else {
        match diagram_url(atts, refs, i) {
            Some(url) => Some((i, url)),
            None => next_diagram(atts, refs, i + 1),
        }
    }
}

/// On to the next image, where images are described and enough were not yet.
pub open spec fn to_images(s: ExtrasView) -> ExtrasView {
    if !s.vision {
        ExtrasView { stage: StageView::Done, ..s }
    } else {
        let job = if s.processed >= s.max_images {
            None
        } else {
            attachments::next_page_job(s.attachments, s.image_refs, s.next)
        };
        ExtrasView {
            stage: match job {
                Some(j) => StageView::Image(j),
                None => StageView::Done,
            },
            next: attachments::walk_on(job, s.image_refs.len() as int),
            ..s
        }
    }
}

/// On to the next diagram from number `i` on, where diagrams are read, and
/// then to the images.
pub open spec fn to_diagrams(s: ExtrasView, i: int) -> ExtrasView {
    match next_diagram(s.attachments, s.drawio_refs, i) {
        Some((k, url)) if s.parse_drawio => ExtrasView { stage: StageView::Diagram(k, url), ..s },
        _ => to_images(s),
    }
}

/// After the list of attachments came, or did not.
pub open spec fn after_attachments(
    s: ExtrasView,
    attachments: Option<Seq<AttachmentView>>,
) -> ExtrasView {
    match (s.stage, attachments) {
        (StageView::Attachments, Some(a)) => to_diagrams(ExtrasView { attachments: a, ..s }, 0),
        (StageView::Attachments, None) => ExtrasView { stage: StageView::Done, ..s },
        _ => s,
    }
}

/// The chunks of the diagram with the number `i`, of which this file came; none
/// where it did not come or cannot be read.
pub open spec fn diagram_part(
    site: Seq<char>,
    page: WikiPageView,
    i: int,
    name: Seq<char>,
    file: Option<Seq<u8>>,
) -> Seq<PreChunkView> {
    match file {
        Some(bytes) => match drawio::diagram_of(drawio::drawio_events(bytes)) {
            Ok(pages) => ingest::part_chunks(
                ingest::diagram_source(site, page, i as nat, name),
                chunking::split_text(drawio::diagram_text(pages, Some(name))),
            ),
            Err(_) => Seq::empty(),
        },
        None => Seq::empty(),
    }
}

/// The chunks of an image that was described.
pub open spec fn image_part(
    site: Seq<char>,
    page: WikiPageView,
    job: ImageJobView,
    description: Seq<char>,
) -> Seq<PreChunkView> {
    ingest::part_chunks(
        ingest::page_image_source(site, page, job.index as nat, job.name),
        chunking::split_text(ingest::image_text(job.name, description)),
    )
}

/// After a file came, or did not.
pub open spec fn after_download(
    s: ExtrasView,
    site: Seq<char>,
    page: WikiPageView,
    file: Option<Seq<u8>>,
) -> ExtrasView {
    match s.stage {
        StageView::Diagram(i, _) => to_diagrams(
            ExtrasView {
                chunks: s.chunks + diagram_part(site, page, i, s.drawio_refs[i], file),
                ..s
            },
            i + 1,
        ),
        StageView::Image(job) => match file {
            Some(_) => ExtrasView { stage: StageView::Describe(job), ..s },
            None => to_images(s),
        },
        _ => s,
    }
}

/// After a description came, or did not.
pub open spec fn after_description(
    s: ExtrasView,
    site: Seq<char>,
    page: WikiPageView,
    description: Option<Seq<char>>,
) -> ExtrasView {
    match (s.stage, description) {
        (StageView::Describe(job), Some(d)) => to_images(
            ExtrasView {
                chunks: s.chunks + image_part(site, page, job, d),
                processed: s.processed + 1,
                ..s
            },
        ),
        (StageView::Describe(_), None) => to_images(s),
        _ => s,
    }
}

/// What is asked of the caller.
pub open spec fn extras_action(s: ExtrasView) -> ExtraActionView {
    match s.stage {
        StageView::Attachments => ExtraActionView::FetchAttachments,
        StageView::Diagram(_, url) => ExtraActionView::Download(url),
        StageView::Image(job) => ExtraActionView::Download(job.url),
        StageView::Describe(job) => ExtraActionView::Describe(job.mime),
        StageView::Done => ExtraActionView::Finish,
    }
}

/// Before anything of a page was fetched; where it has neither diagrams nor
/// images all is done.
pub open spec fn extras_start(
    page: WikiPageView,
    parse_drawio: bool,
    vision: bool,
    max_images: u32,
) -> ExtrasView {
    let content = ingest::page_parts(page);
    ExtrasView {
        drawio_refs: content.drawio_refs,
        image_refs: content.image_refs,
        attachments: Seq::empty(),
        parse_drawio,
        vision,
        max_images,
        stage: if content.drawio_refs.len() == 0 && content.image_refs.len() == 0 {
            StageView::Done
        } else {
            StageView::Attachments
        },
        next: 0,
        processed: 0,
        chunks: Seq::empty(),
    }
}

impl PageExtras {
    #[verifier::type_invariant]
    spec fn well_formed(self) -> bool {
        extras_valid(self.deep_view())
    }

    /// Before anything of a page was fetched.
    pub fn new(page: &ConfluencePage, parse_drawio: bool, vision: bool, max_images: u32) -> (r: Self)
        ensures
            r.deep_view() == extras_start(page.deep_view(), parse_drawio, vision, max_images),
    {
        let attachments: Vec<ConfluenceAttachment> = Vec::new();
        let chunks: Vec<PreChunk> = Vec::new();
        assert(attachments.deep_view() =~= Seq::empty());
        assert(chunks.deep_view() =~= Seq::empty());
        match page_extras(page) {
            Some(content) => PageExtras {
                drawio_refs: content.drawio_refs,
                image_refs: content.image_refs,
                attachments,
                parse_drawio,
                vision,
                max_images,
                stage: Stage::Attachments,
                walk: ImageWalk::new(),
                chunks,
            },
            None => {
                let drawio_refs: Vec<String> = Vec::new();
                let image_refs: Vec<String> = Vec::new();
                assert(drawio_refs.deep_view() =~= ingest::page_parts(
                    page.deep_view(),
                ).drawio_refs);
                assert(image_refs.deep_view() =~= ingest::page_parts(page.deep_view()).image_refs);
                PageExtras {
                    drawio_refs,
                    image_refs,
                    attachments,
                    parse_drawio,
                    vision,
                    max_images,
                    stage: Stage::Done,
                    walk: ImageWalk::new(),
                    chunks,
                }
            },
        }
    }

    /// What is asked of the caller.
    pub fn action(&self) -> (r: ExtraAction)
        ensures
            r.deep_view() == extras_action(self.deep_view()),
    {
        match &self.stage {
            Stage::Attachments => ExtraAction::FetchAttachments,
            Stage::Diagram(_, url) => ExtraAction::Download(url.clone()),
            Stage::Image(job) => ExtraAction::Download(job.url.clone()),
            Stage::Describe(job) => ExtraAction::Describe(job.mime.clone()),
            Stage::Done => ExtraAction::Finish,
        }
    }

    /// On to the next image.
    fn to_images(self) -> (r: Self)
        ensures
            r.deep_view() == to_images(self.deep_view()),
    {
        proof {
            use_type_invariant(&self);
        }
        if !self.vision {
            return PageExtras { stage: Stage::Done, ..self };
        }
        let mut walk = ImageWalk { next: self.walk.next, processed: self.walk.processed };
        let job = walk.next_on_page(&self.attachments, &self.image_refs, self.max_images);
        proof {
            attachments::law_page_jobs(
                self.attachments.deep_view(),
                self.image_refs.deep_view(),
                self.walk.next as int,
            );
        }
        match job {
            Some(job) => PageExtras { stage: Stage::Image(job), walk, ..self },
            None => PageExtras { stage: Stage::Done, walk, ..self },
        }
    }

    /// On to the next diagram from number `from` on, and then to the images.
    fn to_diagrams(self, from: usize) -> (r: Self)
        requires
            from <= self.deep_view().drawio_refs.len(),
        ensures
            r.deep_view() == to_diagrams(self.deep_view(), from as int),
    {
        proof {
            use_type_invariant(&self);
        }
        let ghost atts = self.attachments.deep_view();
        let ghost refs = self.drawio_refs.deep_view();
        if self.parse_drawio {
            let mut i: usize = from;
            while i < self.drawio_refs.len()
                invariant
                    from <= i <= self.drawio_refs@.len(),
                    self.parse_drawio,
                    extras_valid(self.deep_view()),
                    atts == self.attachments.deep_view(),
                    refs == self.drawio_refs.deep_view(),
                    next_diagram(atts, refs, from as int) == next_diagram(atts, refs, i as int),
                decreases self.drawio_refs@.len() - i,
            {
                assert(refs[i as int] == self.drawio_refs@[i as int]@);
                if let Some(url) = diagram_download_url(
                    &self.attachments,
                    self.drawio_refs[i].as_str(),
                ) {
                    return PageExtras { stage: Stage::Diagram(i, url), ..self };
                }
                i += 1;
            }
        }
        self.to_images()
    }

    /// Takes in the list of attachments, `None` where it did not come.
    pub fn attachments(self, attachments: Option<Vec<ConfluenceAttachment>>) -> (r: Self)
        ensures
            r.deep_view() == after_attachments(self.deep_view(), attachments.deep_view()),
    {
        proof {
            use_type_invariant(&self);
        }
        match (&self.stage, attachments) {
            (Stage::Attachments, Some(a)) => PageExtras { attachments: a, ..self }.to_diagrams(0),
            (Stage::Attachments, None) => PageExtras { stage: Stage::Done, ..self },
            _ => self,
        }
    }

    /// Takes in a file, `None` where it did not come.
    pub fn downloaded(
        self,
        client: &AtlassianClient,
        page: &ConfluencePage,
        file: Option<&[u8]>,
    ) -> (r: Self)
        ensures
            r.deep_view() == after_download(
                self.deep_view(),
                client.site_view(),
                page.deep_view(),
                match file {
                    Some(f) => Some(f@),
                    None => None,
                },
            ),
    {
        proof {
            use_type_invariant(&self);
        }
        let ghost s = self.deep_view();
        match self.stage {
            Stage::Diagram(i, url) => {
                let mut chunks = self.chunks;
                let ghost before = chunks.deep_view();
                let name = self.drawio_refs[i].as_str();
                assert(self.drawio_refs.deep_view()[i as int] == name@);
                if let Some(bytes) = file {
                    if let Ok(more) = drawio_chunks(client, page, i, name, bytes) {
                        let ghost added = more.deep_view();
                        let mut more = more;
                        chunks.append(&mut more);
                        assert(chunks.deep_view() =~= before + added);
                    } else {
                        assert(before + Seq::<PreChunkView>::empty() =~= before);
                    }
                } else {
                    assert(before + Seq::<PreChunkView>::empty() =~= before);
                }
                let next = PageExtras { stage: Stage::Diagram(i, url), chunks, ..self };
                assert(i < next.drawio_refs.len());
                next.to_diagrams(i + 1)
            },
            Stage::Image(job) => match file {
                Some(_) => PageExtras { stage: Stage::Describe(job), ..self },
                None => PageExtras { stage: Stage::Image(job), ..self }.to_images(),
            },
            stage => PageExtras { stage, ..self },
        }
    }

    /// Takes in a description, `None` where it did not come.
    pub fn described(
        self,
        client: &AtlassianClient,
        page: &ConfluencePage,
        description: Option<&str>,
    ) -> (r: Self)
        ensures
            r.deep_view() == after_description(
                self.deep_view(),
                client.site_view(),
                page.deep_view(),
                description.deep_view(),
            ),
    {
        proof {
            use_type_invariant(&self);
        }
        match self.stage {
            Stage::Describe(job) => match description {
                Some(d) => {
                    let mut chunks = self.chunks;
                    let ghost before = chunks.deep_view();
                    let mut more = page_image_chunks(
                        client,
                        page,
                        job.index,
                        job.name.as_str(),
                        d,
                    );
                    let ghost added = more.deep_view();
                    chunks.append(&mut more);
                    assert(chunks.deep_view() =~= before + added);
                    let walk = ImageWalk {
                        next: self.walk.next,
                        processed: self.walk.processed + 1,
                    };
                    PageExtras { stage: Stage::Done, walk, chunks, ..self }.to_images()
                },
                None => PageExtras { stage: Stage::Describe(job), ..self }.to_images(),
            },
            stage => PageExtras { stage, ..self },
        }
    }

    /// The chunks of the diagrams and images that came.
    pub fn finish(self) -> (r: Vec<PreChunk>)
        ensures
            r.deep_view() == self.deep_view().chunks,
    {
        self.chunks
    }
}

// ---------------------------------------------------------------------------
// Laws of pages

/// What comes of fetching and describing: files by their addresses, and
/// descriptions by images and their types.
pub struct World {
    pub files: spec_fn(Seq<char>) -> Option<Seq<u8>>,
    pub descriptions: spec_fn(Seq<u8>, Seq<char>) -> Option<Seq<char>>,
}

/// The description of an image, where it comes and is described.
pub open spec fn seen(w: World, job: ImageJobView) -> Option<Seq<char>> {
    match (w.files)(job.url) {
        Some(bytes) => (w.descriptions)(bytes, job.mime),
        None => None,
    }
}

/// The chunks of the diagrams from number `i` on.
pub open spec fn diagrams_from(
    site: Seq<char>,
    page: WikiPageView,
    atts: Seq<AttachmentView>,
    refs: Seq<Seq<char>>,
    i: int,
    w: World,
) -> Seq<PreChunkView>
    decreases refs.len() - i,
{
    if i < 0 || i >= refs.len() {
        Seq::empty()
    } else {
        (match diagram_url(atts, refs, i) {
            Some(url) => diagram_part(site, page, i, refs[i], (w.files)(url)),
            None => Seq::empty(),
        }) + diagrams_from(site, page, atts, refs, i + 1, w)
    }
}

/// The chunks of the images from number `i` on, of which `processed` before
/// them were described and `max` at most are.
pub open spec fn images_from(
    site: Seq<char>,
    page: WikiPageView,
    atts: Seq<AttachmentView>,
    refs: Seq<Seq<char>>,
    i: int,
    processed: int,
    max: int,
    w: World,
) -> Seq<PreChunkView>
    decreases refs.len() - i,
{
    if i < 0 || i >= refs.len() || processed >= max {
        Seq::empty()
    } else {
        match attachments::page_job(atts, refs, i) {
            Some(job) => match seen(w, job) {
                Some(d) => image_part(site, page, job, d) + images_from(
                    site,
                    page,
                    atts,
                    refs,
                    i + 1,
                    processed + 1,
                    max,
                    w,
                ),
                None => images_from(site, page, atts, refs, i + 1, processed, max, w),
            },
            None => images_from(site, page, atts, refs, i + 1, processed, max, w),
        }
    }
}

/// A step in which the caller does what is asked.
pub open spec fn extras_step(
    s: ExtrasView,
    site: Seq<char>,
    page: WikiPageView,
    atts: Option<Seq<AttachmentView>>,
    w: World,
) -> ExtrasView {
    match s.stage {
        StageView::Attachments => after_attachments(s, atts),
        StageView::Diagram(_, url) => after_download(s, site, page, (w.files)(url)),
        StageView::Image(job) => after_download(s, site, page, (w.files)(job.url)),
        StageView::Describe(job) => after_description(s, site, page, seen(w, job)),
        StageView::Done => s,
    }
}

/// How many steps are left at most.
pub open spec fn steps_left(s: ExtrasView) -> int {
    match s.stage {
        StageView::Attachments => 2int + s.drawio_refs.len() + 2 * s.image_refs.len(),
        StageView::Diagram(i, _) => 1 + s.drawio_refs.len() - i + 2 * s.image_refs.len(),
        StageView::Image(job) => 2 * (s.image_refs.len() - job.index),
        StageView::Describe(job) => 2 * (s.image_refs.len() - job.index) - 1,
        StageView::Done => 0,
    }
}

proof fn lemma_to_images(s: ExtrasView)
    requires
        0 <= s.next <= s.image_refs.len(),
        0 <= s.processed <= s.max_images,
    ensures
        extras_valid(to_images(s)),
        0 <= steps_left(to_images(s)) <= 2 * (s.image_refs.len() - s.next),
{
    attachments::law_page_jobs(s.attachments, s.image_refs, s.next);
}

proof fn lemma_next_diagram(atts: Seq<AttachmentView>, refs: Seq<Seq<char>>, i: int)
    requires
        0 <= i <= refs.len(),
    ensures
        match next_diagram(atts, refs, i) {
            Some((k, url)) => i <= k < refs.len() && diagram_url(atts, refs, k) == Some(url)
                && forall|m: int| i <= m < k ==> diagram_url(atts, refs, m) is None,
            None => forall|m: int| i <= m < refs.len() ==> diagram_url(atts, refs, m) is None,
        },
    decreases refs.len() - i,
{
    if i < refs.len() && diagram_url(atts, refs, i) is None {
        lemma_next_diagram(atts, refs, i + 1);
    }
}

proof fn lemma_to_diagrams(s: ExtrasView, i: int)
    requires
        0 <= s.next <= s.image_refs.len(),
        0 <= s.processed <= s.max_images,
        0 <= i <= s.drawio_refs.len(),
    ensures
        extras_valid(to_diagrams(s, i)),
        0 <= steps_left(to_diagrams(s, i)) <= 1 + s.drawio_refs.len() - i + 2
            * s.image_refs.len(),
{
    lemma_next_diagram(s.attachments, s.drawio_refs, i);
    lemma_to_images(s);
}

/// Every step keeps what holds at every step and brings the end nearer, however
/// the fetching goes.
pub proof fn law_extras_end(
    s: ExtrasView,
    site: Seq<char>,
    page: WikiPageView,
    atts: Option<Seq<AttachmentView>>,
    w: World,
)
    requires
        extras_valid(s),
        !(s.stage is Done),
    ensures
        extras_valid(extras_step(s, site, page, atts, w)),
        0 <= steps_left(extras_step(s, site, page, atts, w)) < steps_left(s),
{
    match s.stage {
        StageView::Attachments => {
            if let Some(a) = atts {
                lemma_to_diagrams(ExtrasView { attachments: a, ..s }, 0);
            }
        },
        StageView::Diagram(i, url) => {
            lemma_to_diagrams(
                ExtrasView {
                    chunks: s.chunks + diagram_part(
                        site,
                        page,
                        i,
                        s.drawio_refs[i],
                        (w.files)(url),
                    ),
                    ..s
                },
                i + 1,
            );
        },
        StageView::Image(job) => {
            lemma_to_images(s);
        },
        StageView::Describe(job) => {
            lemma_to_images(s);
            if let Some(d) = seen(w, job) {
                lemma_to_images(
                    ExtrasView {
                        chunks: s.chunks + image_part(site, page, job, d),
                        processed: s.processed + 1,
                        ..s
                    },
                );
            }
        },
        StageView::Done => {},
    }
}

/// Step after step, up to the end.
pub open spec fn extras_run(
    s: ExtrasView,
    site: Seq<char>,
    page: WikiPageView,
    atts: Option<Seq<AttachmentView>>,
    w: World,
) -> ExtrasView
    decreases steps_left(s),
{
    if s.stage is Done || !extras_valid(s) {
        s
    } else {
        proof {
            law_extras_end(s, site, page, atts, w);
        }
        extras_run(extras_step(s, site, page, atts, w), site, page, atts, w)
    }
}

proof fn lemma_no_images(
    site: Seq<char>,
    page: WikiPageView,
    atts: Seq<AttachmentView>,
    refs: Seq<Seq<char>>,
    i: int,
    k: int,
    processed: int,
    max: int,
    w: World,
)
    requires
        0 <= i <= k <= refs.len(),
        forall|m: int| i <= m < k ==> attachments::page_job(atts, refs, m) is None,
    ensures
        images_from(site, page, atts, refs, i, processed, max, w) == images_from(
            site,
            page,
            atts,
            refs,
            k,
            processed,
            max,
            w,
        ),
    decreases k - i,
{
    if i < k {
        lemma_no_images(site, page, atts, refs, i + 1, k, processed, max, w);
    }
}

proof fn lemma_no_diagrams(
    site: Seq<char>,
    page: WikiPageView,
    atts: Seq<AttachmentView>,
    refs: Seq<Seq<char>>,
    i: int,
    k: int,
    w: World,
)
    requires
        0 <= i <= k <= refs.len(),
        forall|m: int| i <= m < k ==> diagram_url(atts, refs, m) is None,
    ensures
        diagrams_from(site, page, atts, refs, i, w) == diagrams_from(site, page, atts, refs, k, w),
    decreases k - i,
{
    if i < k {
        lemma_no_diagrams(site, page, atts, refs, i + 1, k, w);
        assert(Seq::<PreChunkView>::empty() + diagrams_from(site, page, atts, refs, i + 1, w)
            =~= diagrams_from(site, page, atts, refs, i + 1, w));
    }
}

/// The chunks of the images that are still to come.
pub open spec fn images_to_come(
    s: ExtrasView,
    site: Seq<char>,
    page: WikiPageView,
    w: World,
) -> Seq<PreChunkView> {
    if s.vision {
        images_from(
            site,
            page,
            s.attachments,
            s.image_refs,
            s.next,
            s.processed,
            s.max_images as int,
            w,
        )
    } else {
        Seq::empty()
    }
}

/// The chunks of the diagrams that are still to come, from number `i` on.
pub open spec fn diagrams_to_come(
    s: ExtrasView,
    i: int,
    site: Seq<char>,
    page: WikiPageView,
    w: World,
) -> Seq<PreChunkView> {
    if s.parse_drawio {
        diagrams_from(site, page, s.attachments, s.drawio_refs, i, w)
    } else {
        Seq::empty()
    }
}

/// A step does not change what comes out at the end.
proof fn lemma_one_step(
    s: ExtrasView,
    site: Seq<char>,
    page: WikiPageView,
    atts: Option<Seq<AttachmentView>>,
    w: World,
)
    requires
        extras_valid(s),
        !(s.stage is Done),
    ensures
        extras_run(s, site, page, atts, w) == extras_run(
            extras_step(s, site, page, atts, w),
            site,
            page,
            atts,
            w,
        ),
{
    law_extras_end(s, site, page, atts, w);
}

/// The chunks of the image of a job; none where it does not come or is not
/// described.
spec fn job_part(site: Seq<char>, page: WikiPageView, job: ImageJobView, w: World) -> Seq<
    PreChunkView,
> {
    match seen(w, job) {
        Some(d) => image_part(site, page, job, d),
        None => Seq::empty(),
    }
}

/// What is known once the image of a job is done with.
spec fn past_image(
    s: ExtrasView,
    site: Seq<char>,
    page: WikiPageView,
    job: ImageJobView,
    w: World,
) -> ExtrasView {
    ExtrasView {
        chunks: s.chunks + job_part(site, page, job, w),
        processed: if seen(w, job) is Some {
            s.processed + 1
        } else {
            s.processed
        },
        ..s
    }
}

/// The steps for one image lead on to the next.
proof fn lemma_past_image(
    s: ExtrasView,
    job: ImageJobView,
    site: Seq<char>,
    page: WikiPageView,
    atts: Option<Seq<AttachmentView>>,
    w: World,
)
    requires
        extras_valid(s),
        s.stage == StageView::Image(job),
    ensures
        extras_run(s, site, page, atts, w) == extras_run(
            to_images(past_image(s, site, page, job, w)),
            site,
            page,
            atts,
            w,
        ),
{
    lemma_one_step(s, site, page, atts, w);
    assert(s.chunks + Seq::<PreChunkView>::empty() =~= s.chunks);
    if (w.files)(job.url) is Some {
        let u = ExtrasView { stage: StageView::Describe(job), ..s };
        lemma_one_step(u, site, page, atts, w);
    }
}

/// Where there is no next image, none is still to come.
proof fn lemma_no_image_left(s: ExtrasView, site: Seq<char>, page: WikiPageView, w: World)
    requires
        0 <= s.next <= s.image_refs.len(),
        to_images(s).stage is Done,
    ensures
        images_to_come(s, site, page, w) == Seq::<PreChunkView>::empty(),
{
    if s.vision && s.processed < s.max_images {
        attachments::law_page_jobs(s.attachments, s.image_refs, s.next);
        lemma_no_images(
            site,
            page,
            s.attachments,
            s.image_refs,
            s.next,
            s.image_refs.len() as int,
            s.processed,
            s.max_images as int,
            w,
        );
    }
}

/// The images to come are the next one and those behind it.
proof fn lemma_next_image(
    s: ExtrasView,
    job: ImageJobView,
    site: Seq<char>,
    page: WikiPageView,
    w: World,
)
    requires
        0 <= s.next <= s.image_refs.len(),
        to_images(s).stage == StageView::Image(job),
    ensures
        s.next <= job.index < s.image_refs.len(),
        to_images(s).next == job.index + 1,
        images_to_come(s, site, page, w) == job_part(site, page, job, w) + images_to_come(
            past_image(to_images(s), site, page, job, w),
            site,
            page,
            w,
        ),
{
    attachments::law_page_jobs(s.attachments, s.image_refs, s.next);
    lemma_no_images(
        site,
        page,
        s.attachments,
        s.image_refs,
        s.next,
        job.index,
        s.processed,
        s.max_images as int,
        w,
    );
    let rest = images_to_come(past_image(to_images(s), site, page, job, w), site, page, w);
    assert(Seq::<PreChunkView>::empty() + rest =~= rest);
}

#[verifier::spinoff_prover]
proof fn lemma_run_images(
    s: ExtrasView,
    site: Seq<char>,
    page: WikiPageView,
    atts: Option<Seq<AttachmentView>>,
    w: World,
)
    requires
        0 <= s.next <= s.image_refs.len(),
        0 <= s.processed <= s.max_images,
    ensures
        extras_run(to_images(s), site, page, atts, w).chunks == s.chunks + images_to_come(
            s,
            site,
            page,
            w,
        ),
    decreases s.image_refs.len() - s.next,
{
    let t = to_images(s);
    lemma_to_images(s);
    let come = images_to_come(s, site, page, w);
    match t.stage {
        StageView::Image(job) => {
            let x = past_image(t, site, page, job, w);
            lemma_next_image(s, job, site, page, w);
            lemma_past_image(t, job, site, page, atts, w);
            lemma_run_images(x, site, page, atts, w);
            let part = job_part(site, page, job, w);
            let rest = images_to_come(x, site, page, w);
            assert((s.chunks + part) + rest =~= s.chunks + (part + rest));
        },
        _ => {
            lemma_no_image_left(s, site, page, w);
            assert(extras_run(t, site, page, atts, w) == t);
            assert(s.chunks + come =~= s.chunks);
        },
    }
}

/// What is known once the diagram with the number `k` is done with.
spec fn past_diagram(
    s: ExtrasView,
    k: int,
    url: Seq<char>,
    site: Seq<char>,
    page: WikiPageView,
    w: World,
) -> ExtrasView {
    ExtrasView {
        chunks: s.chunks + diagram_part(site, page, k, s.drawio_refs[k], (w.files)(url)),
        ..s
    }
}

/// The diagrams to come are the next one and those behind it.
proof fn lemma_diagrams_split(
    s: ExtrasView,
    i: int,
    k: int,
    url: Seq<char>,
    site: Seq<char>,
    page: WikiPageView,
    w: World,
)
    requires
        0 <= i <= s.drawio_refs.len(),
        s.parse_drawio,
        next_diagram(s.attachments, s.drawio_refs, i) == Some((k, url)),
    ensures
        i <= k < s.drawio_refs.len(),
        diagrams_to_come(s, i, site, page, w) == diagram_part(
            site,
            page,
            k,
            s.drawio_refs[k],
            (w.files)(url),
        ) + diagrams_to_come(s, k + 1, site, page, w),
{
    lemma_next_diagram(s.attachments, s.drawio_refs, i);
    lemma_no_diagrams(site, page, s.attachments, s.drawio_refs, i, k, w);
}

/// Where no further diagram can be fetched, none is still to come.
proof fn lemma_no_diagram_left(s: ExtrasView, i: int, site: Seq<char>, page: WikiPageView, w: World)
    requires
        0 <= i <= s.drawio_refs.len(),
        s.parse_drawio ==> next_diagram(s.attachments, s.drawio_refs, i) is None,
    ensures
        diagrams_to_come(s, i, site, page, w) == Seq::<PreChunkView>::empty(),
{
    if s.parse_drawio {
        let n = s.drawio_refs.len() as int;
        lemma_next_diagram(s.attachments, s.drawio_refs, i);
        lemma_no_diagrams(site, page, s.attachments, s.drawio_refs, i, n, w);
    }
}

#[verifier::spinoff_prover]
proof fn lemma_run_diagrams(
    s: ExtrasView,
    i: int,
    site: Seq<char>,
    page: WikiPageView,
    atts: Option<Seq<AttachmentView>>,
    w: World,
)
    requires
        0 <= s.next <= s.image_refs.len(),
        0 <= s.processed <= s.max_images,
        0 <= i <= s.drawio_refs.len(),
    ensures
        extras_run(to_diagrams(s, i), site, page, atts, w).chunks == s.chunks + diagrams_to_come(
            s,
            i,
            site,
            page,
            w,
        ) + images_to_come(s, site, page, w),
    decreases s.drawio_refs.len() - i,
{
    let come = images_to_come(s, site, page, w);
    match next_diagram(s.attachments, s.drawio_refs, i) {
        Some((k, url)) if s.parse_drawio => {
            let t = to_diagrams(s, i);
            let x = past_diagram(t, k, url, site, page, w);
            lemma_diagrams_split(s, i, k, url, site, page, w);
            lemma_to_diagrams(s, i);
            lemma_one_step(t, site, page, atts, w);
            lemma_run_diagrams(x, k + 1, site, page, atts, w);
            let part = diagram_part(site, page, k, s.drawio_refs[k], (w.files)(url));
            let rest = diagrams_to_come(s, k + 1, site, page, w);
            assert(s.chunks + part + rest + come =~= s.chunks + (part + rest) + come);
        },
        _ => {
            lemma_no_diagram_left(s, i, site, page, w);
            lemma_run_images(s, site, page, atts, w);
            assert(s.chunks + Seq::<PreChunkView>::empty() =~= s.chunks);
        },
    }
}

/// Where the list of attachments comes, the chunks of a page are those of its
/// diagrams, in order, where diagrams are read, and then those of the first
/// images that come and are described, where images are, no more than the
/// limit. Where the list does not come there are none.
pub proof fn law_page_extras(
    page: WikiPageView,
    parse_drawio: bool,
    vision: bool,
    max_images: u32,
    site: Seq<char>,
    atts: Option<Seq<AttachmentView>>,
    w: World,
)
    ensures
        extras_run(
            extras_start(page, parse_drawio, vision, max_images),
            site,
            page,
            atts,
            w,
        ).chunks == ({
            let content = ingest::page_parts(page);
            match atts {
                Some(a) => (if parse_drawio {
                    diagrams_from(site, page, a, content.drawio_refs, 0, w)
                } else {
                    Seq::empty()
                }) + (if vision {
                    images_from(site, page, a, content.image_refs, 0, 0, max_images as int, w)
                } else {
                    Seq::empty()
                }),
                None => Seq::empty(),
            }
        }),
{
    let s = extras_start(page, parse_drawio, vision, max_images);
    let content = ingest::page_parts(page);
    if s.stage is Done {
        assert(content.drawio_refs.len() == 0 && content.image_refs.len() == 0);
        assert(extras_run(s, site, page, atts, w) == s);
    } else {
        let u = extras_step(s, site, page, atts, w);
        assert(extras_run(s, site, page, atts, w) == extras_run(u, site, page, atts, w)) by {
            law_extras_end(s, site, page, atts, w);
        }
        match atts {
            Some(a) => {
                let x = ExtrasView { attachments: a, ..s };
                lemma_run_diagrams(x, 0, site, page, atts, w);
                assert(u == to_diagrams(x, 0));
            },
            None => {
                assert(extras_run(u, site, page, atts, w) == u);
            },
        }
    }
    assert(extras_run(s, site, page, atts, w).chunks =~= (match atts {
        Some(a) => (if parse_drawio {
            diagrams_from(site, page, a, content.drawio_refs, 0, w)
        } else {
            Seq::empty()
        }) + (if vision {
            images_from(site, page, a, content.image_refs, 0, 0, max_images as int, w)
        } else {
            Seq::empty()
        }),
        None => Seq::empty(),
    }));
}

} // verus!
