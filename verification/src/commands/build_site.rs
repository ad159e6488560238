//! The build command: from the configuration, the theme and the content to
//! the pages of the site.

use vstd::prelude::*;
use vstd::string::*;
use crate::commands::create_theme::theme_path;
use crate::context::{
    build_global_context,
    build_item_context,
    context_entries,
    copy_of,
    global_entries,
    lemma_fields_bind_their_mapping,
    page_entries,
    ContextValue,
};
use crate::engine::{failure_text, page_outcome, Artifact, EngineFailure};
use crate::error::SiteError;
use crate::front_matter::parse_document;
use crate::markdown::to_html;
use crate::plan::{
    first_unbound,
    job_views,
    lemma_halted_stays,
    plan_site,
    site_jobs,
    type_jobs,
    Job,
    JobKind,
    JobView,
    Plan,
};
use crate::plan_proofs::{
    lemma_halting_type_is_listed,
    lemma_halting_type_is_unbound,
    lemma_item_path_swaps_extension,
    lemma_one_listing_per_type,
    lemma_one_page_at_listing_path,
    lemma_type_jobs_planned,
    lemma_unbound_type_gets_no_page,
    lemma_unbound_type_halts,
    lemma_unbound_type_is_unplanned,
    listing_count,
    path_count,
    type_start,
};
use crate::text::{child_path, has_extension, is_under, join_path, joined, with_extension};
use crate::tree::{
    distinct_names,
    has_file,
    lemma_walk_finds_markdown,
    plain_names,
    walk,
    Entry,
};
use crate::theme::is_bound;
use crate::utils::config_handler::AppConfig;

verus! {

/// What a build made: the pages to write, in order, and the failure that
/// stopped it, if one did. The pages made before a failure are still to be
/// written.
#[derive(Debug, Clone, PartialEq, Eq)]
pub struct BuildReport {
    pub artifacts: Vec<Artifact>,
    pub error: Option<SiteError>,
}

/// The report is one that a build with the given render calls can end in,
/// where `halted` is the content type for which the theme is incomplete.
///
/// The pages stand for the first render calls, one for one, each at the
/// path of its call. Without a failure every call has its page and no
/// content type halted the build. A render failure names the template of
/// the first call without a page. An incomplete theme is reported once
/// every call has its page, and names the halting content type.
pub open spec fn follows(report: BuildReport, jobs: Seq<JobView>, halted: Option<Seq<char>>) -> bool {
    let made = report.artifacts@.len() as int;
    &&& made <= jobs.len()
    &&& forall|i: int| 0 <= i < made ==> (#[trigger] report.artifacts@[i]).path@ == jobs[i].path
    &&& match report.error {
        None => made == jobs.len() && halted is None,
        Some(SiteError::RenderFailure { template, .. }) => made < jobs.len() && template@
            == jobs[made].template,
        Some(SiteError::ThemeIncomplete { content_type }) => made == jobs.len() && halted == Some(
            content_type@,
        ),
        Some(_) => false,
    }
}

/// A build needs the configuration file, the theme directory and the
/// content directory. Where one is absent the configuration is missing.
pub fn check_workspace(config_found: bool, theme_found: bool, content_found: bool) -> (checked:
    Result<(), SiteError>)
    ensures
        checked is Ok <==> config_found && theme_found && content_found,
        checked matches Err(error) ==> error == SiteError::ConfigurationMissing,
{
    if config_found && theme_found && content_found {
        Ok(())
    } else {
        Err(SiteError::ConfigurationMissing)
    }
}

/// A copy of a directory with everything in it.
#[derive(Debug, Clone, PartialEq, Eq)]
pub struct AssetCopy {
    /// The directory to copy.
    pub from: String,
    /// Where the copy goes.
    pub to: String,
}

/// What a build does with the assets. The asset directory is optional.
/// Where it is found it is copied under the output root, under its own
/// name; where it is not, nothing is copied.
pub fn asset_copy(config: &AppConfig, found: bool) -> (copy: Option<AssetCopy>)
    ensures
        copy is Some <==> found,
        copy matches Some(assets) ==> assets.from@ == config.settings.asset_dir@ && assets.to@
            == joined(config.settings.out_dir@, config.settings.asset_dir@),
{
    if found {
        Some(
            AssetCopy {
                from: config.settings.asset_dir.clone(),
                to: join_path(config.settings.out_dir.as_str(), config.settings.asset_dir.as_str()),
            },
        )
    } else {
        None
    }
}

/// The pattern that finds the template files of a theme: every file with
/// the extension `html` at any depth under the theme's root.
pub fn template_glob(theme: &str) -> (pattern: String)
    ensures
        pattern@ == theme_path(theme@) + "/**/*.html"@,
{
    let mut pattern = String::from_str("theme/");
    pattern.append(theme);
    pattern.append("/**/*.html");
    proof {
        reveal_strlit("theme/");
        reveal_strlit("theme");
        assert("theme/"@ == "theme"@ + seq!['/']);
    }
    pattern
}

/// The context of the detail page of a source text. The text is split into
/// front matter and body and the body converted to HTML. The context binds
/// `content` to that HTML, over the front matter of the text, over the
/// site-wide context.
pub fn item_context(global: &tera::Context, text: &str) -> (ctx: tera::Context)
    ensures
        context_entries(ctx) == page_entries(context_entries(*global), text@),
{
    let doc = parse_document(text);
    let html = to_html(doc.body.as_str());
    proof {
        lemma_fields_bind_their_mapping(context_entries(*global), doc.fields@);
    }
    build_item_context(global, &doc.fields, html.as_str())
}

/// The bindings that a render call hands to its template. A top-level page
/// and a listing page see the site-wide bindings and nothing else: a listing
/// page is given no list of the items of its content type. A detail page
/// sees the bindings of its source text.
pub open spec fn job_entries(global: Map<Seq<char>, ContextValue>, job: JobView) -> Map<
    Seq<char>,
    ContextValue,
> {
    if job.kind == JobKind::Detail {
        page_entries(global, job.text)
    } else {
        global
    }
}

/// The context that a render call hands to its template.
pub fn job_context(global: &tera::Context, job: &Job) -> (ctx: tera::Context)
    ensures
        context_entries(ctx) == job_entries(context_entries(*global), job@),
{
    match job.kind {
        JobKind::Detail => item_context(global, job.text.as_str()),
        _ => copy_of(global),
    }
}

/// A build under way: the plan, the site-wide context, the pages made so
/// far, and the failure that stopped the renders, if one did. The renders
/// themselves are the caller's part. The caller asks for the next call with
/// [`next_call`], hands what the engine made of it to [`record`], and takes
/// the report from [`finish`] once no call is left.
#[derive(Debug)]
pub struct Build {
    pub plan: Plan,
    pub global: tera::Context,
    pub artifacts: Vec<Artifact>,
    pub error: Option<SiteError>,
}

/// One render call: the name of the template, and the context to render it
/// with.
#[derive(Debug)]
pub struct RenderCall {
    pub template: String,
    pub context: tera::Context,
}

impl Build {
    /// A render call is left to make: no render failed, and a job of the
    /// plan has no page yet.
    pub open spec fn pending(self) -> bool {
        self.error is None && self.artifacts@.len() < self.plan.jobs@.len()
    }

    /// The job whose render comes next.
    pub open spec fn job(self) -> Job {
        self.plan.jobs@[self.artifacts@.len() as int]
    }

    /// The content type that halts the plan, if one does.
    pub open spec fn halted(self) -> Option<Seq<char>> {
        match self.plan.halted {
            Some(content_type) => Some(content_type@),
            None => None,
        }
    }

    /// The pages stand for the first jobs of the plan, one for one, each at
    /// the path of its job, and a failure is that of the job that comes
    /// next.
    pub open spec fn on_track(self) -> bool {
        let made = self.artifacts@.len() as int;
        &&& made <= self.plan.jobs@.len()
        &&& forall|i: int|
            0 <= i < made ==> (#[trigger] self.artifacts@[i]).path@ == self.plan.jobs@[i].path@
        &&& match self.error {
            None => true,
            Some(SiteError::RenderFailure { template, .. }) => made < self.plan.jobs@.len()
                && template@ == self.plan.jobs@[made].template@,
            Some(_) => false,
        }
    }
}

/// Starts the build of a site. `theme` lists the root of the configured
/// theme, `content` the content root. The build holds the plan of the site
/// and the site-wide context; no page is made yet.
pub fn invoke(config: &AppConfig, theme: &Vec<Entry>, content: &Vec<Entry>) -> (build: Build)
    ensures
        job_views(build.plan.jobs@) == site_jobs(config.settings.out_dir@, theme@, content@),
        build.halted() == first_unbound(content@, theme@),
        context_entries(build.global) == global_entries(*config),
        build.artifacts@.len() == 0,
        build.error is None,
        build.on_track(),
{
    let global = build_global_context(config);
    let plan = plan_site(config.settings.out_dir.as_str(), theme, content);
    Build { plan, global, artifacts: Vec::new(), error: None }
}

/// The render call to make next: the template of the first job without a
/// page, with the context of that job. `None` once every job has its page,
/// and after a render failed.
pub fn next_call(build: &Build) -> (call: Option<RenderCall>)
    ensures
        call is Some <==> build.pending(),
        call matches Some(next) ==> next.template@ == build.job().template@ && context_entries(
            next.context,
        ) == job_entries(context_entries(build.global), build.job()@),
{
    if build.error.is_some() || build.artifacts.len() >= build.plan.jobs.len() {
        return None;
    }
    let job = &build.plan.jobs[build.artifacts.len()];
    Some(RenderCall { template: job.template.clone(), context: job_context(&build.global, job) })
}

/// Takes what the engine made of the render call that [`next_call`] gave.
/// A rendered page is added to the pages, at the path of its job. A failure
/// stops the renders and names the template of its job. Where no call was
/// left, nothing changes.
pub fn record(build: Build, rendered: Result<String, EngineFailure>) -> (next: Build)
    ensures
        next.plan == build.plan,
        next.global == build.global,
        !build.pending() ==> next.artifacts == build.artifacts && next.error == build.error,
        build.pending() ==> match rendered {
            Ok(html) => next.error is None && next.artifacts@.len() == build.artifacts@.len() + 1
                && next.artifacts@.drop_last() == build.artifacts@ && next.artifacts@.last().path
                == build.job().path && next.artifacts@.last().content == html,
            Err(failure) => next.error matches Some(SiteError::RenderFailure { template, message })
                && template@ == build.job().template@ && message@ == failure_text(failure)
                && next.artifacts == build.artifacts,
        },
        build.on_track() ==> next.on_track(),
{
    if build.error.is_some() || build.artifacts.len() >= build.plan.jobs.len() {
        return build;
    }
    let Build { plan, global, artifacts, error } = build;
    let made = artifacts.len();
    let page = page_outcome(plan.jobs[made].template.as_str(), plan.jobs[made].path.clone(), rendered);
    match page {
        Ok(artifact) => {
            let mut artifacts = artifacts;
            let ghost before = artifacts@;
            artifacts.push(artifact);
            assert(artifacts@.drop_last() == before);
            Build { plan, global, artifacts, error }
        },
        Err(failure) => Build { plan, global, artifacts, error: Some(failure) },
    }
}

/// The report of a build with no render call left: the pages made, and the
/// failure that stopped it. Where no render failed, a halted plan ends in an
/// incomplete theme that names the halting content type. `None` while a
/// render call is left.
pub fn finish(build: Build) -> (report: Option<BuildReport>)
    ensures
        report is Some <==> !build.pending(),
        report matches Some(made) ==> made.artifacts == build.artifacts && (match build.error {
            Some(error) => made.error == Some(error),
            None => match build.plan.halted {
                Some(halting) => made.error matches Some(
                    SiteError::ThemeIncomplete { content_type },
                ) && content_type@ == halting@,
                None => made.error is None,
            },
        }),
        report matches Some(made) ==> (build.on_track() ==> follows(
            made,
            job_views(build.plan.jobs@),
            build.halted(),
        )),
{
    if build.error.is_none() && build.artifacts.len() < build.plan.jobs.len() {
        return None;
    }
    let Build { plan, global, artifacts, error } = build;
    let error = match error {
        Some(error) => Some(error),
        None => match &plan.halted {
            Some(content_type) => Some(
                SiteError::ThemeIncomplete { content_type: content_type.clone() },
            ),
            None => None,
        },
    };
    Some(BuildReport { artifacts, error })
}

/// Every content item has its page.
///
/// Take a build that ended without a failure, a directory of the content
/// listing, and a markdown file that the walk of that directory finds. Then
/// the report holds the page of that file. Its path is that of the source
/// file, taken relative to the content root and put under the output root,
/// with the extension `md` replaced by `html`.
pub proof fn lemma_every_item_has_its_page(
    report: BuildReport,
    out: Seq<char>,
    theme: Seq<Entry>,
    content: Seq<Entry>,
    k: int,
    n: int,
)
    requires
        follows(report, site_jobs(out, theme, content), first_unbound(content, theme)),
        report.error is None,
        0 <= k < content.len(),
        content[k] is Dir,
        0 <= n < walk(content[k].entries(), content[k].label()).len(),
    ensures
        ({
            let item = walk(content[k].entries(), content[k].label())[n];
            let at = type_start(out, theme, content, k) + 1 + n;
            &&& has_extension(item.source(), "md"@)
            &&& at < report.artifacts@.len()
            &&& report.artifacts@[at].path@ == joined(
                out,
                with_extension(item.source(), "md"@, "html"@),
            )
        }),
{
    let content_type = content[k].label();
    let items = walk(content[k].entries(), content_type);
    if first_unbound(content.take(k + 1), theme) is Some {
        lemma_halted_stays(out, theme, content, k + 1);
    }
    lemma_type_jobs_planned(out, theme, content, k, 1 + n);
    lemma_walk_finds_markdown(content[k].entries(), content_type);
    lemma_item_path_swaps_extension(out, items[n]);
    let at = type_start(out, theme, content, k) + 1 + n;
    assert(type_jobs(out, content_type, content[k].entries())[1 + n].path == report.artifacts@[at].path@);
}

/// Each content type has one listing page, however many items it holds.
///
/// Take a build that ended without a failure, over a content listing in
/// which no name comes twice, and a directory of that listing. Then the
/// render calls of the build hold the listing page of that content type
/// exactly once, and the report holds its page at `index.html` in the
/// directory of the content type's name under the output root.
pub proof fn lemma_every_type_has_one_listing(
    report: BuildReport,
    out: Seq<char>,
    theme: Seq<Entry>,
    content: Seq<Entry>,
    k: int,
)
    requires
        follows(report, site_jobs(out, theme, content), first_unbound(content, theme)),
        report.error is None,
        distinct_names(content),
        0 <= k < content.len(),
        content[k] is Dir,
    ensures
        listing_count(site_jobs(out, theme, content), content[k].label()) == 1,
        type_start(out, theme, content, k) < report.artifacts@.len(),
        report.artifacts@[type_start(out, theme, content, k) as int].path@ == joined(
            out,
            child_path(content[k].label(), "index.html"@),
        ),
{
    if first_unbound(content.take(k + 1), theme) is Some {
        lemma_halted_stays(out, theme, content, k + 1);
    }
    lemma_one_listing_per_type(out, theme, content, k);
}

/// How many of the pages go to the path.
pub open spec fn file_count(artifacts: Seq<Artifact>, path: Seq<char>) -> nat
    decreases artifacts.len(),
{
    if artifacts.len() == 0 {
        0
    } else if artifacts.last().path@ == path {
        file_count(artifacts.drop_last(), path) + 1
    } else {
        file_count(artifacts.drop_last(), path)
    }
}

/// Pages that stand for render calls one for one go to a path as often as
/// the render calls do.
pub proof fn lemma_files_follow_jobs(artifacts: Seq<Artifact>, jobs: Seq<JobView>, path: Seq<char>)
    requires
        artifacts.len() == jobs.len(),
        forall|i: int| 0 <= i < artifacts.len() ==> (#[trigger] artifacts[i]).path@ == jobs[i].path,
    ensures
        file_count(artifacts, path) == path_count(jobs, path),
    decreases artifacts.len(),
{
    if artifacts.len() > 0 {
        assert forall|i: int| 0 <= i < artifacts.drop_last().len() implies (
        #[trigger] artifacts.drop_last()[i]).path@ == jobs.drop_last()[i].path by {
            assert(artifacts.drop_last()[i] == artifacts[i]);
        }
        lemma_files_follow_jobs(artifacts.drop_last(), jobs.drop_last(), path);
        assert(artifacts.last() == artifacts[artifacts.len() - 1]);
    }
}

/// Exactly one file goes to the listing page's path of each content type.
///
/// Take a build that ended without a failure, over listings in which every
/// name is plain and, in the content listing, no name comes twice. Take a
/// directory of the content listing that holds no file `index.md` directly
/// in it. Then exactly one page of the report goes to `index.html` in the
/// directory of that content type under the output root, however many
/// items the content type holds. A file `index.md` directly in the
/// directory has its own page at that path, which is why it is left out.
pub proof fn lemma_one_file_at_listing_path(
    report: BuildReport,
    out: Seq<char>,
    theme: Seq<Entry>,
    content: Seq<Entry>,
    k: int,
)
    requires
        follows(report, site_jobs(out, theme, content), first_unbound(content, theme)),
        report.error is None,
        plain_names(theme),
        plain_names(content),
        distinct_names(content),
        0 <= k < content.len(),
        content[k] is Dir,
        !has_file(content[k].entries(), "index.md"@),
    ensures
        file_count(report.artifacts@, joined(out, child_path(content[k].label(), "index.html"@)))
            == 1,
{
    if first_unbound(content.take(k + 1), theme) is Some {
        lemma_halted_stays(out, theme, content, k + 1);
    }
    lemma_one_page_at_listing_path(out, theme, content, k);
    lemma_files_follow_jobs(
        report.artifacts@,
        site_jobs(out, theme, content),
        joined(out, child_path(content[k].label(), "index.html"@)),
    );
}

/// A build of the same site makes the same render calls. Two builds with
/// the same jobs and the same site-wide bindings, as two builds of unchanged
/// inputs have them, that have made as many pages, hand the engine the same
/// template with the same bindings next.
pub proof fn lemma_rebuild_makes_the_same_calls(first: Build, second: Build)
    requires
        job_views(first.plan.jobs@) == job_views(second.plan.jobs@),
        context_entries(first.global) == context_entries(second.global),
        first.artifacts@.len() == second.artifacts@.len(),
        first.pending(),
        second.pending(),
    ensures
        first.job().template@ == second.job().template@,
        job_entries(context_entries(first.global), first.job()@) == job_entries(
            context_entries(second.global),
            second.job()@,
        ),
{
    let at = first.artifacts@.len() as int;
    assert(job_views(first.plan.jobs@)[at] == first.job()@);
    assert(job_views(second.plan.jobs@)[at] == second.job()@);
}

/// A build of the same site makes the same files. Two builds that went
/// through the same render calls without a failure made the same number of
/// pages, at the same paths, in the same order. What stands in a page is
/// the template engine's matter and is not compared here.
pub proof fn lemma_rebuild_makes_the_same_files(
    first: BuildReport,
    second: BuildReport,
    jobs: Seq<JobView>,
    halted: Option<Seq<char>>,
)
    requires
        follows(first, jobs, halted),
        follows(second, jobs, halted),
        first.error is None,
        second.error is None,
    ensures
        first.artifacts@.len() == second.artifacts@.len(),
        forall|i: int|
            0 <= i < first.artifacts@.len() ==> (#[trigger] first.artifacts@[i]).path@
                == second.artifacts@[i].path@,
{
}

/// A build reports an incomplete theme only for a content type that has
/// one. The content type that the failure names is a directory of the
/// content listing, and the theme lacks its directory, its listing template
/// or its detail template.
pub proof fn lemma_reported_type_is_incomplete(
    report: BuildReport,
    out: Seq<char>,
    theme: Seq<Entry>,
    content: Seq<Entry>,
)
    requires
        follows(report, site_jobs(out, theme, content), first_unbound(content, theme)),
        report.error matches Some(SiteError::ThemeIncomplete { .. }),
    ensures
        !is_bound(theme, report.error->0->content_type@),
        exists|k: int|
            0 <= k < content.len() && (#[trigger] content[k]) is Dir && content[k].label()
                == report.error->0->content_type@,
{
    lemma_halting_type_is_unbound(content, theme);
    lemma_halting_type_is_listed(content, theme);
}

/// An incomplete theme stops the build before anything of its content type
/// is rendered.
///
/// Take a build over a content listing with a directory for which the
/// theme is incomplete. Then the build ends in a failure, and no page of the
/// report is the listing page or a detail page of that content type.
pub proof fn lemma_incomplete_theme_stops_build(
    report: BuildReport,
    out: Seq<char>,
    theme: Seq<Entry>,
    content: Seq<Entry>,
    k: int,
)
    requires
        follows(report, site_jobs(out, theme, content), first_unbound(content, theme)),
        0 <= k < content.len(),
        content[k] is Dir,
        !is_bound(theme, content[k].label()),
    ensures
        report.error is Some,
        forall|i: int|
            0 <= i < report.artifacts@.len() ==> {
                let job = site_jobs(out, theme, content)[i];
                &&& (#[trigger] report.artifacts@[i]).path@ == job.path
                &&& job.kind == JobKind::Page || job.content_type != content[k].label()
            },
{
    lemma_unbound_type_halts(content, theme, k);
    lemma_unbound_type_is_unplanned(out, theme, content, content[k].label());
}

/// An incomplete theme stops the build before any file of its content type
/// is made.
///
/// Take a build over listings in which every name is plain, with a
/// directory of the content listing for which the theme is incomplete. Then
/// the build ends in a failure, and no page of the report goes inside the
/// directory that the output root holds for that content type.
pub proof fn lemma_incomplete_theme_makes_no_file(
    report: BuildReport,
    out: Seq<char>,
    theme: Seq<Entry>,
    content: Seq<Entry>,
    k: int,
)
    requires
        follows(report, site_jobs(out, theme, content), first_unbound(content, theme)),
        plain_names(theme),
        plain_names(content),
        0 <= k < content.len(),
        content[k] is Dir,
        !is_bound(theme, content[k].label()),
    ensures
        report.error is Some,
        forall|i: int|
            0 <= i < report.artifacts@.len() ==> !is_under(
                (#[trigger] report.artifacts@[i]).path@,
                joined(out, content[k].label()),
            ),
{
    lemma_unbound_type_halts(content, theme, k);
    lemma_unbound_type_gets_no_page(out, theme, content, content[k].label());
    assert forall|i: int| 0 <= i < report.artifacts@.len() implies !is_under(
        (#[trigger] report.artifacts@[i]).path@,
        joined(out, content[k].label()),
    ) by {
        assert(report.artifacts@[i].path@ == site_jobs(out, theme, content)[i].path);
    }
}

} // verus!
