//! Laws on the diagrams and images of issues and pages.
use crate::app::sync::SyncEventView;
use crate::app::NewPageView;
use crate::atlassian::confluence::{AttachmentView, WikiPageView};
use crate::atlassian::jira::{IssueView, JiraAttachmentView};
use crate::chunking;
use crate::diagrams::drawio;
use crate::ingest::attachments;
use crate::ingest::attachments::{ImageJobView, NameMatch};
use crate::ingest::batches;
use crate::ingest::extras;
use crate::ingest::extras::{ExtraActionView, ExtrasView, StageView, World};
use crate::ingest::issue_images;
use crate::ingest::issue_images::{IssueImagesView, IssueStageView};
use crate::ingest::run;
use crate::ingest::run::SyncStage;
use crate::ingest::IngestOptions;
use crate::text;
use crate::text_laws;
use vstd::prelude::*;

verus! {

// ---------------------------------------------------------------------------
// Names

/// An extension is what stands behind the last dot.
pub proof fn law_extension(name: Seq<char>, ext: Seq<char>)
    requires
        !ext.contains('.'),
    ensures
        attachments::without_extension(name + "."@ + ext) == name,
        attachments::without_extension(ext) == ext,
{
    reveal_strlit(".");
    let s = name + "."@ + ext;
    text_laws::law_rfind_char(s, '.');
    text_laws::law_rfind_char(ext, '.');
    assert(s[name.len() as int] == '.');
    let i = text::rfind_char(s, '.')->0;
    if i > name.len() {
        assert(s[i] == ext[i - name.len() - 1]);
        assert(ext.contains(ext[i - name.len() - 1]));
    }
    assert(s.take(name.len() as int) =~= name);
    if let Some(j) = text::rfind_char(ext, '.') {
        assert(ext.contains(ext[j]));
    }
}

/// Names are compared without regard to case and white space: nothing else is
/// lost.
pub proof fn law_names_are_compared_whole(s: Seq<char>)
    ensures
        text_laws::ink(attachments::normalized(s)) == text_laws::ink(text::lowercase(s)),
{
    text_laws::law_single_spacing_keeps_ink(text::lowercase(s));
    text_laws::law_trim_keeps_ink(text::single_spaced(text::lowercase(s)));
}

/// An attachment has the name of a diagram where its name is the same, with or
/// without an extension; it is close where its name begins with it and ends as a
/// diagram does; it is a diagram by its name or its type.
pub proof fn law_which_files_match(needle: Seq<char>, a: AttachmentView, title: Seq<char>)
    requires
        title == attachments::normalized(a.title),
    ensures
        attachments::attachment_matches(NameMatch::Direct, needle, a) <==> title == needle
            || attachments::without_extension(title) == needle,
        attachments::attachment_matches(NameMatch::Fuzzy, needle, a) <==> needle.is_prefix_of(title)
            && (".drawio"@.is_suffix_of(title) || ".xml"@.is_suffix_of(title)),
        attachments::attachment_matches(NameMatch::AnyDiagram, needle, a) <==> ".drawio"@
            .is_suffix_of(title) || a.media_type == Some("application/vnd.jgraph.mxfile"@),
{
}

/// The file of a diagram is the first attachment with its name; else the first
/// that is close; else the diagram that is the only one; else there is none.
pub proof fn law_first_file_is_taken(atts: Seq<AttachmentView>, name: Seq<char>, k: int)
    requires
        0 <= k < atts.len(),
    ensures
        attachments::normalized(name).len() == 0 ==> attachments::diagram_file(atts, name) is None,
        attachments::normalized(name).len() > 0 && attachments::attachment_matches(
            NameMatch::Direct,
            attachments::normalized(name),
            atts[k],
        ) && (forall|m: int|
            0 <= m < k ==> !attachments::attachment_matches(
                NameMatch::Direct,
                attachments::normalized(name),
                #[trigger] atts[m],
            )) ==> attachments::diagram_file(atts, name) == Some(k),
        attachments::normalized(name).len() > 0 && attachments::none_matches(
            NameMatch::Direct,
            attachments::normalized(name),
            atts,
        ) && attachments::attachment_matches(
            NameMatch::Fuzzy,
            attachments::normalized(name),
            atts[k],
        ) && (forall|m: int|
            0 <= m < k ==> !attachments::attachment_matches(
                NameMatch::Fuzzy,
                attachments::normalized(name),
                #[trigger] atts[m],
            )) ==> attachments::diagram_file(atts, name) == Some(k),
        attachments::normalized(name).len() > 0 && attachments::none_matches(
            NameMatch::Direct,
            attachments::normalized(name),
            atts,
        ) && attachments::none_matches(NameMatch::Fuzzy, attachments::normalized(name), atts)
            && attachments::is_only_diagram(attachments::normalized(name), atts, k)
            ==> attachments::diagram_file(atts, name) == Some(k),
{
    let needle = attachments::normalized(name);
    attachments::law_diagram_file(atts, name);
    attachments::lemma_first_match(NameMatch::Direct, needle, atts, 0);
    attachments::lemma_first_match(NameMatch::Fuzzy, needle, atts, 0);
    attachments::lemma_first_match(NameMatch::AnyDiagram, needle, atts, 0);
    attachments::lemma_none_before(NameMatch::Direct, needle, atts, 0);
    attachments::lemma_none_before(NameMatch::Fuzzy, needle, atts, 0);
    attachments::lemma_none_before(NameMatch::AnyDiagram, needle, atts, 0);
}

/// A file is fetched from its link, or else from the address it names.
pub proof fn law_where_files_are_fetched(
    a: AttachmentView,
    atts: Seq<AttachmentView>,
    refs: Seq<Seq<char>>,
    i: int,
    k: int,
)
    ensures
        a.download_link is Some ==> attachments::download_of(a) == a.download_link,
        a.download_link is None ==> attachments::download_of(a) == a.download,
        attachments::diagram_file(atts, refs[i]) == Some(k) ==> extras::diagram_url(atts, refs, i)
            == attachments::download_of(atts[k]),
        attachments::diagram_file(atts, refs[i]) is None ==> extras::diagram_url(atts, refs, i) is None,
{
}

proof fn lemma_titled(atts: Seq<AttachmentView>, title: Seq<char>, k: int, from: int)
    requires
        0 <= from <= k <= atts.len(),
        forall|m: int| 0 <= m < k ==> (#[trigger] atts[m]).title != title,
        k < atts.len() ==> atts[k].title == title,
    ensures
        attachments::titled(atts, title, from) == (if k < atts.len() {
            Some(k)
        } else {
            None
        }),
    decreases k - from,
{
    if from < k {
        assert(atts[from].title != title);
        lemma_titled(atts, title, k, from + 1);
    }
}

/// An image of a page is described if and only if the first attachment with
/// exactly its name is an image that can be fetched.
pub proof fn law_page_image(atts: Seq<AttachmentView>, refs: Seq<Seq<char>>, i: int, k: int)
    requires
        0 <= k < atts.len(),
        atts[k].title == refs[i],
        forall|m: int| 0 <= m < k ==> (#[trigger] atts[m]).title != refs[i],
    ensures
        match (atts[k].media_type, attachments::download_of(atts[k])) {
            (Some(mime), Some(url)) => if "image/"@.is_prefix_of(mime) {
                attachments::page_job(atts, refs, i) == Some(
                    ImageJobView { index: i, name: refs[i], mime, url },
                )
            } else {
                attachments::page_job(atts, refs, i) is None
            },
            _ => attachments::page_job(atts, refs, i) is None,
        },
{
    lemma_titled(atts, refs[i], k, 0);
    reveal_strlit("image/");
}

/// An image that no attachment is named after is not described.
pub proof fn law_unknown_page_image(atts: Seq<AttachmentView>, refs: Seq<Seq<char>>, i: int)
    requires
        forall|m: int| 0 <= m < atts.len() ==> (#[trigger] atts[m]).title != refs[i],
    ensures
        attachments::page_job(atts, refs, i) is None,
{
    lemma_titled(atts, refs[i], atts.len() as int, 0);
}

/// An attachment of an issue is described if and only if it is an image that can
/// be fetched.
pub proof fn law_issue_image(atts: Seq<JiraAttachmentView>, i: int)
    ensures
        match (atts[i].mime_type, atts[i].content) {
            (Some(mime), Some(url)) => if "image/"@.is_prefix_of(mime) {
                attachments::issue_job(atts, i) == Some(
                    ImageJobView { index: i, name: atts[i].filename, mime, url },
                )
            } else {
                attachments::issue_job(atts, i) is None
            },
            _ => attachments::issue_job(atts, i) is None,
        },
{
    reveal_strlit("image/");
}

// ---------------------------------------------------------------------------
// Chunks

/// The chunks of a diagram are the parts of its whole text, all of them, under
/// the id of its page and its own number; a file that did not come or is no
/// diagram has none.
pub proof fn law_diagram_chunks(
    site: Seq<char>,
    page: WikiPageView,
    i: int,
    name: Seq<char>,
    file: Option<Seq<u8>>,
)
    requires
        0 <= i,
    ensures
        ({
            let r = extras::diagram_part(site, page, i, name, file);
            match file {
                Some(bytes) => match drawio::diagram_of(drawio::drawio_events(bytes)) {
                    Ok(pages) => {
                        let parts = chunking::split_text(drawio::diagram_text(pages, Some(name)));
                        &&& r.len() == parts.len()
                        &&& forall|k: int|
                            0 <= k < r.len() ==> {
                                let c = #[trigger] r[k];
                                &&& c.text == parts[k]
                                &&& c.id == "confluence:"@ + page.id + ":"@ + "drawio:"@
                                    + text::decimal(i as nat) + ":"@ + text::decimal(k as nat)
                                &&& c.source_id == page.id
                                &&& c.source_type == "confluence"@
                                &&& c.labels == seq!["drawio"@]
                            }
                    },
                    Err(_) => r.len() == 0,
                },
                None => r.len() == 0,
            }
        }),
{
}

/// The chunks of an image of a page are the parts of its name and its whole
/// description.
pub proof fn law_page_image_chunks(
    site: Seq<char>,
    page: WikiPageView,
    job: ImageJobView,
    description: Seq<char>,
)
    requires
        0 <= job.index,
    ensures
        ({
            let r = extras::image_part(site, page, job, description);
            let parts = chunking::split_text("[画像: "@ + job.name + "]\n"@ + description);
            &&& r.len() == parts.len()
            &&& forall|k: int|
                0 <= k < r.len() ==> {
                    let c = #[trigger] r[k];
                    &&& c.text == parts[k]
                    &&& c.id == "confluence:"@ + page.id + ":"@ + "img:"@ + text::decimal(
                        job.index as nat,
                    ) + ":"@ + text::decimal(k as nat)
                    &&& c.source_id == page.id
                    &&& c.source_type == "confluence"@
                    &&& c.labels == seq!["image"@]
                }
        }),
{
}

/// The chunks of an image of an issue are the parts of its name and its whole
/// description.
pub proof fn law_issue_image_chunks(
    site: Seq<char>,
    issue: IssueView,
    job: ImageJobView,
    description: Seq<char>,
)
    requires
        0 <= job.index,
    ensures
        ({
            let r = issue_images::image_part(site, issue, job, description);
            let parts = chunking::split_text("[画像: "@ + job.name + "]\n"@ + description);
            &&& r.len() == parts.len()
            &&& forall|k: int|
                0 <= k < r.len() ==> {
                    let c = #[trigger] r[k];
                    &&& c.text == parts[k]
                    &&& c.id == "jira:"@ + issue.key + ":"@ + "img:"@ + text::decimal(
                        job.index as nat,
                    ) + ":"@ + text::decimal(k as nat)
                    &&& c.source_id == issue.key
                    &&& c.source_type == "jira"@
                    &&& c.labels == seq!["image"@]
                }
        }),
{
}

/// Every diagram that a page names, whose file is found, comes and can be read, is
/// among the chunks, each part of its text.
pub proof fn law_no_diagram_is_left_out(
    site: Seq<char>,
    page: WikiPageView,
    atts: Seq<AttachmentView>,
    refs: Seq<Seq<char>>,
    from: int,
    i: int,
    url: Seq<char>,
    w: World,
    k: int,
)
    requires
        0 <= from <= i < refs.len(),
        extras::diagram_url(atts, refs, i) == Some(url),
        0 <= k < extras::diagram_part(site, page, i, refs[i], (w.files)(url)).len(),
    ensures
        extras::diagrams_from(site, page, atts, refs, from, w).contains(
            extras::diagram_part(site, page, i, refs[i], (w.files)(url))[k],
        ),
    decreases i - from,
{
    let c = extras::diagram_part(site, page, i, refs[i], (w.files)(url))[k];
    let rest = extras::diagrams_from(site, page, atts, refs, from + 1, w);
    let all = extras::diagrams_from(site, page, atts, refs, from, w);
    if from == i {
        assert(all[k] == c);
    } else {
        law_no_diagram_is_left_out(site, page, atts, refs, from + 1, i, url, w, k);
        let j = choose|j: int| 0 <= j < rest.len() && rest[j] == c;
        assert(all[all.len() - rest.len() + j] == c);
    }
}

/// What is asked for next is what the stage waits for: the list of attachments,
/// the file of a diagram or an image, or the description of that image.
pub proof fn law_what_is_asked_for(s: ExtrasView, t: IssueImagesView)
    ensures
        match s.stage {
            StageView::Attachments => extras::extras_action(s) == ExtraActionView::FetchAttachments,
            StageView::Diagram(_, url) => extras::extras_action(s) == ExtraActionView::Download(
                url,
            ),
            StageView::Image(job) => extras::extras_action(s) == ExtraActionView::Download(job.url),
            StageView::Describe(job) => extras::extras_action(s) == ExtraActionView::Describe(
                job.mime,
            ),
            StageView::Done => extras::extras_action(s) == ExtraActionView::Finish,
        },
        match t.stage {
            IssueStageView::Image(job) => issue_images::images_action(t)
                == ExtraActionView::Download(job.url),
            IssueStageView::Describe(job) => issue_images::images_action(t)
                == ExtraActionView::Describe(job.mime),
            IssueStageView::Done => issue_images::images_action(t) == ExtraActionView::Finish,
        },
{
}

/// Every image of an issue that comes and is described is among the chunks, each
/// part of its text, as long as the limit is not reached.
pub proof fn law_no_issue_image_is_left_out(
    site: Seq<char>,
    issue: IssueView,
    from: int,
    processed: int,
    max: int,
    w: World,
    i: int,
    job: ImageJobView,
    description: Seq<char>,
    k: int,
)
    requires
        0 <= from <= i < issue.attachment.len(),
        processed + (i - from) < max,
        attachments::issue_job(issue.attachment, i) == Some(job),
        extras::seen(w, job) == Some(description),
        0 <= k < issue_images::image_part(site, issue, job, description).len(),
    ensures
        issue_images::images_from(site, issue, from, processed, max, w).contains(
            issue_images::image_part(site, issue, job, description)[k],
        ),
    decreases i - from,
{
    let part = issue_images::image_part(site, issue, job, description);
    let all = issue_images::images_from(site, issue, from, processed, max, w);
    if from == i {
        assert(all[k] == part[k]);
    } else {
        law_no_issue_image_is_left_out(
            site, issue, from + 1, processed, max, w, i, job, description, k,
        );
        law_no_issue_image_is_left_out(
            site, issue, from + 1, processed + 1, max, w, i, job, description, k,
        );
        let same = issue_images::images_from(site, issue, from + 1, processed, max, w);
        let more = issue_images::images_from(site, issue, from + 1, processed + 1, max, w);
        let x = choose|x: int| 0 <= x < same.len() && same[x] == part[k];
        let y = choose|y: int| 0 <= y < more.len() && more[y] == part[k];
        if all.len() >= more.len() && all =~= all.take(all.len() - more.len()) + more {
            assert(all[all.len() - more.len() + y] == part[k]);
        } else {
            assert(all == same);
            assert(all[x] == part[k]);
        }
    }
}

// ---------------------------------------------------------------------------
// The order of a synchronisation

/// The stages follow one another in one order: the issues first, then the pages;
/// images and diagrams are fetched before what they belong to is embedded, and
/// only where that is asked for.
pub proof fn law_stage_order(options: IngestOptions, has_vision: bool)
    ensures
        run::next_stage(SyncStage::SearchIssues, options, has_vision) == (
        if options.fetch_attachments && options.enable_vision && has_vision {
            SyncStage::IssueImages
        } else {
            SyncStage::EmbedIssues
        }),
        run::next_stage(SyncStage::IssueImages, options, has_vision) == SyncStage::EmbedIssues,
        run::next_stage(SyncStage::EmbedIssues, options, has_vision) == SyncStage::ListPages,
        run::next_stage(SyncStage::ListPages, options, has_vision) == (
        if options.fetch_attachments {
            SyncStage::PageExtras
        } else {
            SyncStage::EmbedPages
        }),
        run::next_stage(SyncStage::PageExtras, options, has_vision) == SyncStage::EmbedPages,
        run::next_stage(SyncStage::EmbedPages, options, has_vision) == SyncStage::ReportNewPages,
        run::next_stage(SyncStage::ReportNewPages, options, has_vision) == SyncStage::Done,
        run::next_stage(SyncStage::Done, options, has_vision) == SyncStage::Done,
{
}

/// All new pages are reported at once, with how many they are; where there are
/// none, nothing is.
pub proof fn law_all_new_pages_are_reported(pages: Seq<NewPageView>)
    ensures
        pages.len() > 0 ==> run::new_page_reports(pages) == seq![
            SyncEventView::Log(
                "新規 Confluence ページを "@ + text::decimal(pages.len()) + " 件検出"@,
            ),
            SyncEventView::NewPagesDetected(pages),
        ],
        pages.len() == 0 ==> run::new_page_reports(pages).len() == 0,
{
}

/// A batch holds the next 32 chunks, or all that are left where they are fewer.
pub proof fn law_batch_size(total: int, done: int)
    requires
        0 <= done <= total,
    ensures
        done <= batches::batch_end(total, done) <= total,
        batches::batch_end(total, done) - done <= 32,
        batches::batch_end(total, done) == total || batches::batch_end(total, done) - done == 32,
{
}

} // verus!
