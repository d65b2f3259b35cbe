//! The images of an issue.
//!
//! As for the diagrams and images of a page, the caller does the fetching and
//! hands back what came of it.
use crate::atlassian::jira::IssueView;
use crate::atlassian::{AtlassianClient, JiraIssue};
use crate::chunking;
use crate::ingest;
use crate::ingest::attachments;
use crate::ingest::attachments::{ImageJob, ImageJobView, ImageWalk};
use crate::ingest::extras;
use crate::ingest::extras::{ExtraAction, ExtraActionView, World};
use crate::ingest::{jira_image_chunks, PreChunk, PreChunkView};
use vstd::prelude::*;

verus! {

/// Which image of an issue is being fetched.
enum Stage {
    Image(ImageJob),
    Describe(ImageJob),
    Done,
}

/// The model of which image of an issue is being fetched.
pub enum IssueStageView {
    Image(ImageJobView),
    Describe(ImageJobView),
    Done,
}

impl DeepView for Stage {
    type V = IssueStageView;

    closed spec fn deep_view(&self) -> IssueStageView {
        match self {
            Stage::Image(job) => IssueStageView::Image(job.deep_view()),
            Stage::Describe(job) => IssueStageView::Describe(job.deep_view()),
            Stage::Done => IssueStageView::Done,
        }
    }
}

/// The images of an issue that are being fetched.
pub struct IssueImages<'a> {
    issue: &'a JiraIssue,
    max_images: u32,
    stage: Stage,
    walk: ImageWalk,
    chunks: Vec<PreChunk>,
}

/// The model of the images of an issue that are being fetched.
pub struct IssueImagesView {
    pub issue: IssueView,
    pub max_images: u32,
    pub stage: IssueStageView,
    /// The number of the next attachment that is looked at.
    pub next: int,
    /// How many images were described.
    pub processed: int,
    pub chunks: Seq<PreChunkView>,
}

impl<'a> DeepView for IssueImages<'a> {
    type V = IssueImagesView;

    closed spec fn deep_view(&self) -> IssueImagesView {
        IssueImagesView {
            issue: self.issue.deep_view(),
            max_images: self.max_images,
            stage: self.stage.deep_view(),
            next: self.walk.next as int,
            processed: self.walk.processed as int,
            chunks: self.chunks.deep_view(),
        }
    }
}

/// What holds at every step.
pub open spec fn images_valid(s: IssueImagesView) -> bool {
    &&& 0 <= s.next <= s.issue.attachment.len()
    &&& 0 <= s.processed <= s.max_images
    &&& match s.stage {
        IssueStageView::Image(job) => s.processed < s.max_images && 0 <= job.index && s.next
            == job.index + 1,
        IssueStageView::Describe(job) => s.processed < s.max_images && 0 <= job.index && s.next
            == job.index + 1,
        IssueStageView::Done => true,
    }
}

/// On to the next image, where enough were not described yet.
pub open spec fn to_next(s: IssueImagesView) -> IssueImagesView {
    let job = if s.processed >= s.max_images {
        None
    } else {
        attachments::next_issue_job(s.issue.attachment, s.next)
    };
    IssueImagesView {
        stage: match job {
            Some(j) => IssueStageView::Image(j),
            None => IssueStageView::Done,
        },
        next: attachments::walk_on(job, s.issue.attachment.len() as int),
        ..s
    }
}

/// Before the first image.
pub open spec fn images_start(issue: IssueView, max_images: u32) -> IssueImagesView {
    to_next(
        IssueImagesView {
            issue,
            max_images,
            stage: IssueStageView::Done,
            next: 0,
            processed: 0,
            chunks: Seq::empty(),
        },
    )
}

/// After a file came, or did not.
pub open spec fn after_download(s: IssueImagesView, came: bool) -> IssueImagesView {
    match s.stage {
        IssueStageView::Image(job) => if came {
            IssueImagesView { stage: IssueStageView::Describe(job), ..s }
        } else {
            to_next(s)
        },
        _ => s,
    }
}

/// The chunks of an image that was described.
pub open spec fn image_part(
    site: Seq<char>,
    issue: IssueView,
    job: ImageJobView,
    description: Seq<char>,
) -> Seq<PreChunkView> {
    ingest::part_chunks(
        ingest::issue_image_source(site, issue, job.index as nat, job.name),
        chunking::split_text(ingest::image_text(job.name, description)),
    )
}

/// After a description came, or did not.
pub open spec fn after_description(
    s: IssueImagesView,
    site: Seq<char>,
    description: Option<Seq<char>>,
) -> IssueImagesView {
    match (s.stage, description) {
        (IssueStageView::Describe(job), Some(d)) => to_next(
            IssueImagesView {
                chunks: s.chunks + image_part(site, s.issue, job, d),
                processed: s.processed + 1,
                ..s
            },
        ),
        (IssueStageView::Describe(_), None) => to_next(s),
        _ => s,
    }
}

/// What is asked of the caller.
pub open spec fn images_action(s: IssueImagesView) -> ExtraActionView {
    match s.stage {
        IssueStageView::Image(job) => ExtraActionView::Download(job.url),
        IssueStageView::Describe(job) => ExtraActionView::Describe(job.mime),
        IssueStageView::Done => ExtraActionView::Finish,
    }
}

impl<'a> IssueImages<'a> {
    #[verifier::type_invariant]
    spec fn well_formed(self) -> bool {
        images_valid(self.deep_view())
    }

    /// Before the first image.
    pub fn new(issue: &'a JiraIssue, max_images: u32) -> (r: Self)
        ensures
            r.deep_view() == images_start(issue.deep_view(), max_images),
    {
        let chunks: Vec<PreChunk> = Vec::new();
        assert(chunks.deep_view() =~= Seq::empty());
        IssueImages { issue, max_images, stage: Stage::Done, walk: ImageWalk::new(), chunks }.to_next()
    }

    /// On to the next image.
    fn to_next(self) -> (r: Self)
        ensures
            r.deep_view() == to_next(self.deep_view()),
    {
        proof {
            use_type_invariant(&self);
            attachments::law_issue_jobs(
                self.issue.deep_view().attachment,
                self.walk.next as int,
            );
        }
        let mut walk = ImageWalk { next: self.walk.next, processed: self.walk.processed };
        let job = walk.next_on_issue(&self.issue.fields.attachment, self.max_images);
        match job {
            Some(job) => IssueImages { stage: Stage::Image(job), walk, ..self },
            None => IssueImages { stage: Stage::Done, walk, ..self },
        }
    }

    /// What is asked of the caller.
    pub fn action(&self) -> (r: ExtraAction)
        ensures
            r.deep_view() == images_action(self.deep_view()),
    {
        match &self.stage {
            Stage::Image(job) => ExtraAction::Download(job.url.clone()),
            Stage::Describe(job) => ExtraAction::Describe(job.mime.clone()),
            Stage::Done => ExtraAction::Finish,
        }
    }

    /// The name of the file that is being fetched or described; empty once all
    /// is done.
    pub fn file_name(&self) -> (r: String)
        ensures
            r@ == (match self.deep_view().stage {
                IssueStageView::Image(job) => job.name,
                IssueStageView::Describe(job) => job.name,
                IssueStageView::Done => Seq::empty(),
            }),
    {
        match &self.stage {
            Stage::Image(job) => job.name.clone(),
            Stage::Describe(job) => job.name.clone(),
            Stage::Done => String::new(),
        }
    }

    /// Takes in whether the file came.
    pub fn downloaded(self, came: bool) -> (r: Self)
        ensures
            r.deep_view() == after_download(self.deep_view(), came),
    {
        proof {
            use_type_invariant(&self);
        }
        match self.stage {
            Stage::Image(job) => if came {
                IssueImages { stage: Stage::Describe(job), ..self }
            } else {
                IssueImages { stage: Stage::Image(job), ..self }.to_next()
            },
            stage => IssueImages { stage, ..self },
        }
    }

    /// Takes in a description, `None` where it did not come.
    pub fn described(self, client: &AtlassianClient, description: Option<&str>) -> (r: Self)
        ensures
            r.deep_view() == after_description(
                self.deep_view(),
                client.site_view(),
                description.deep_view(),
            ),
    {
        proof {
            use_type_invariant(&self);
        }
        match self.stage {
            Stage::Describe(job) => match description {
                Some(d) => {
                    let mut chunks = self.chunks;
                    let ghost before = chunks.deep_view();
                    let mut more = jira_image_chunks(
                        client,
                        self.issue,
                        job.index,
                        job.name.as_str(),
                        d,
                    );
                    let ghost added = more.deep_view();
                    chunks.append(&mut more);
                    assert(chunks.deep_view() =~= before + added);
                    let walk = ImageWalk {
                        next: self.walk.next,
                        processed: self.walk.processed + 1,
                    };
                    IssueImages { stage: Stage::Done, walk, chunks, ..self }.to_next()
                },
                None => IssueImages { stage: Stage::Describe(job), ..self }.to_next(),
            },
            stage => IssueImages { stage, ..self },
        }
    }

    /// The chunks of the images that came.
    pub fn finish(self) -> (r: Vec<PreChunk>)
        ensures
            r.deep_view() == self.deep_view().chunks,
    {
        self.chunks
    }
}

// ---------------------------------------------------------------------------
// Laws

/// The chunks of the images from number `i` on, of which `processed` before
/// them were described and `max` at most are.
pub open spec fn images_from(
    site: Seq<char>,
    issue: IssueView,
    i: int,
    processed: int,
    max: int,
    w: World,
) -> Seq<PreChunkView>
    decreases issue.attachment.len() - i,
{
    if i < 0 || i >= issue.attachment.len() || processed >= max {
        Seq::empty()
    } else {
        match attachments::issue_job(issue.attachment, i) {
            Some(job) => match extras::seen(w, job) {
                Some(d) => image_part(site, issue, job, d) + images_from(
                    site,
                    issue,
                    i + 1,
                    processed + 1,
                    max,
                    w,
                ),
                None => images_from(site, issue, i + 1, processed, max, w),
            },
            None => images_from(site, issue, i + 1, processed, max, w),
        }
    }
}

/// A step in which the caller does what is asked.
pub open spec fn images_step(s: IssueImagesView, site: Seq<char>, w: World) -> IssueImagesView {
    match s.stage {
        IssueStageView::Image(job) => after_download(s, (w.files)(job.url) is Some),
        IssueStageView::Describe(job) => after_description(s, site, extras::seen(w, job)),
        IssueStageView::Done => s,
    }
}

/// How many steps are left at most.
pub open spec fn steps_left(s: IssueImagesView) -> int {
    match s.stage {
        IssueStageView::Image(job) => 2 * (s.issue.attachment.len() - job.index),
        IssueStageView::Describe(job) => 2 * (s.issue.attachment.len() - job.index) - 1,
        IssueStageView::Done => 0,
    }
}

proof fn lemma_to_next(s: IssueImagesView)
    requires
        0 <= s.next <= s.issue.attachment.len(),
        0 <= s.processed <= s.max_images,
    ensures
        images_valid(to_next(s)),
        0 <= steps_left(to_next(s)) <= 2 * (s.issue.attachment.len() - s.next),
{
    attachments::law_issue_jobs(s.issue.attachment, s.next);
}

/// Every step keeps what holds at every step and brings the end nearer, however
/// the fetching goes.
pub proof fn law_images_end(s: IssueImagesView, site: Seq<char>, w: World)
    requires
        images_valid(s),
        !(s.stage is Done),
    ensures
        images_valid(images_step(s, site, w)),
        0 <= steps_left(images_step(s, site, w)) < steps_left(s),
{
    lemma_to_next(s);
    if let IssueStageView::Describe(job) = s.stage {
        if let Some(d) = extras::seen(w, job) {
            lemma_to_next(
                IssueImagesView {
                    chunks: s.chunks + image_part(site, s.issue, job, d),
                    processed: s.processed + 1,
                    ..s
                },
            );
        }
    }
}

/// Step after step, up to the end.
pub open spec fn images_run(s: IssueImagesView, site: Seq<char>, w: World) -> IssueImagesView
    decreases steps_left(s),
{
    if s.stage is Done || !images_valid(s) {
        s
    } else {
        proof {
            law_images_end(s, site, w);
        }
        images_run(images_step(s, site, w), site, w)
    }
}

proof fn lemma_no_images(
    site: Seq<char>,
    issue: IssueView,
    i: int,
    k: int,
    processed: int,
    max: int,
    w: World,
)
    requires
        0 <= i <= k <= issue.attachment.len(),
        forall|m: int| i <= m < k ==> attachments::issue_job(issue.attachment, m) is None,
    ensures
        images_from(site, issue, i, processed, max, w) == images_from(
            site,
            issue,
            k,
            processed,
            max,
            w,
        ),
    decreases k - i,
{
    if i < k {
        lemma_no_images(site, issue, i + 1, k, processed, max, w);
    }
}

proof fn lemma_run(s: IssueImagesView, site: Seq<char>, w: World)
    requires
        0 <= s.next <= s.issue.attachment.len(),
        0 <= s.processed <= s.max_images,
    ensures
        images_run(to_next(s), site, w).chunks == s.chunks + images_from(
            site,
            s.issue,
            s.next,
            s.processed,
            s.max_images as int,
            w,
        ),
    decreases s.issue.attachment.len() - s.next,
{
    let t = to_next(s);
    let max = s.max_images as int;
    lemma_to_next(s);
    attachments::law_issue_jobs(s.issue.attachment, s.next);
    let come = images_from(site, s.issue, s.next, s.processed, max, w);
    if t.stage is Done {
        assert(images_run(t, site, w) == t);
        if s.processed < max {
            lemma_no_images(
                site,
                s.issue,
                s.next,
                s.issue.attachment.len() as int,
                s.processed,
                max,
                w,
            );
        }
        assert(come =~= Seq::empty());
        assert(s.chunks + come =~= s.chunks);
    } else {
        let job = t.stage->Image_0;
        lemma_no_images(site, s.issue, s.next, job.index, s.processed, max, w);
        let u = images_step(t, site, w);
        assert(images_run(t, site, w) == images_run(u, site, w)) by {
            law_images_end(t, site, w);
        }
        match (w.files)(job.url) {
            None => {
                lemma_run(t, site, w);
                assert(u == to_next(t));
            },
            Some(bytes) => {
                assert(u == (IssueImagesView { stage: IssueStageView::Describe(job), ..t }));
                let v = images_step(u, site, w);
                assert(images_run(u, site, w) == images_run(v, site, w)) by {
                    law_images_end(u, site, w);
                }
                match extras::seen(w, job) {
                    None => {
                        lemma_run(u, site, w);
                        assert(v == to_next(u));
                    },
                    Some(d) => {
                        let part = image_part(site, s.issue, job, d);
                        let x = IssueImagesView {
                            chunks: u.chunks + part,
                            processed: u.processed + 1,
                            ..u
                        };
                        lemma_run(x, site, w);
                        assert(v == to_next(x));
                        let rest = images_from(site, x.issue, x.next, x.processed, max, w);
                        assert((s.chunks + part) + rest =~= s.chunks + (part + rest));
                    },
                }
            },
        }
    }
}

/// The chunks of an issue's images are those of the first images that come and
/// are described, in order, no more than the limit.
pub proof fn law_issue_images(issue: IssueView, max_images: u32, site: Seq<char>, w: World)
    ensures
        images_run(images_start(issue, max_images), site, w).chunks == images_from(
            site,
            issue,
            0,
            0,
            max_images as int,
            w,
        ),
{
    let s = IssueImagesView {
        issue,
        max_images,
        stage: IssueStageView::Done,
        next: 0,
        processed: 0,
        chunks: Seq::empty(),
    };
    lemma_run(s, site, w);
    let come = images_from(site, issue, 0, 0, max_images as int, w);
    assert(Seq::<PreChunkView>::empty() + come =~= come);
}

} // verus!
