//! The plan of a build: which template is rendered for which page, in which
//! order, and where each page goes.
//!
//! A build renders the top-level pages of the theme first. Then it takes the
//! content types in the order of the content listing: the listing page of a
//! type, then one detail page for each of its items. It stops at the first
//! content type for which the theme is incomplete.

use vstd::prelude::*;
use vstd::string::*;
use crate::text::{
    carries_extension,
    child_of,
    child_path,
    has_extension,
    join_path,
    joined,
    stem,
    strip_extension,
};
use crate::theme::{detail_template, is_bound, listing_template, resolve_binding, ThemeBinding};
use crate::tree::{collect_items, is_markdown, item_views, walk, Entry, Item, ItemView};

verus! {

/// What a page is.
#[derive(Debug, Clone, Copy, PartialEq, Eq, Structural)]
pub enum JobKind {
    /// A top-level page of the theme, such as the home page.
    Page,
    /// The listing page of a content type.
    Listing,
    /// The detail page of one content item.
    Detail,
}

/// One render call of a build: a template, and the page it makes.
#[derive(Debug, Clone, PartialEq, Eq)]
pub struct Job {
    pub kind: JobKind,
    /// The content type of a listing or detail page; empty for a top-level
    /// page.
    pub content_type: String,
    /// The name of the template, its path relative to the theme root.
    pub template: String,
    /// Where the page goes, rooted at the output root.
    pub path: String,
    /// The text of the source file of a detail page; empty for the others.
    pub text: String,
}

/// What a [`Job`] holds, as sequences of characters.
pub struct JobView {
    pub kind: JobKind,
    pub content_type: Seq<char>,
    pub template: Seq<char>,
    pub path: Seq<char>,
    pub text: Seq<char>,
}

impl View for Job {
    type V = JobView;

    open spec fn view(&self) -> JobView {
        JobView {
            kind: self.kind,
            content_type: self.content_type@,
            template: self.template@,
            path: self.path@,
            text: self.text@,
        }
    }
}

/// The render calls of a build, and the content type that stopped it.
#[derive(Debug, Clone, PartialEq, Eq)]
pub struct Plan {
    /// The render calls, in the order in which they are made.
    pub jobs: Vec<Job>,
    /// The first content type for which the theme is incomplete. Nothing is
    /// planned for it, nor for any content type after it.
    pub halted: Option<String>,
}

/// The views of a sequence of jobs.
pub open spec fn job_views(jobs: Seq<Job>) -> Seq<JobView> {
    jobs.map_values(|job: Job| job@)
}

/// The title of a content item: its file name without the markdown
/// extension.
pub open spec fn title_of(name: Seq<char>) -> Seq<char> {
    if is_markdown(name) {
        stem(name, "md"@)
    } else {
        name
    }
}

/// The file name of the page of a content item: its title with `.html`.
pub open spec fn page_name(name: Seq<char>) -> Seq<char> {
    title_of(name) + ".html"@
}

/// Where the page of a content item goes: the item's directory relative to
/// the content root, under the output root, with the page's file name.
pub open spec fn item_path(out: Seq<char>, item: ItemView) -> Seq<char> {
    joined(out, child_path(item.dir, page_name(item.name)))
}

/// The render call for the top-level page of the given file name.
pub open spec fn page_job(out: Seq<char>, name: Seq<char>) -> JobView {
    JobView {
        kind: JobKind::Page,
        content_type: Seq::empty(),
        template: name,
        path: joined(out, name),
        text: Seq::empty(),
    }
}

/// The render call for the listing page of a content type.
pub open spec fn listing_job(out: Seq<char>, content_type: Seq<char>) -> JobView {
    JobView {
        kind: JobKind::Listing,
        content_type: content_type,
        template: listing_template(content_type),
        path: joined(out, listing_template(content_type)),
        text: Seq::empty(),
    }
}

/// The render call for the detail page of a content item.
pub open spec fn detail_job(out: Seq<char>, content_type: Seq<char>, item: ItemView) -> JobView {
    JobView {
        kind: JobKind::Detail,
        content_type: content_type,
        template: detail_template(content_type),
        path: item_path(out, item),
        text: item.text,
    }
}

/// The entry is a top-level page: a file with the extension `html`.
pub open spec fn is_page(entry: Entry) -> bool {
    match entry {
        Entry::File { name, .. } => has_extension(name@, "html"@),
        Entry::Dir { .. } => false,
    }
}

/// The render calls for the top-level pages of a theme, in the order of the
/// listing of the theme root.
pub open spec fn page_jobs(out: Seq<char>, theme: Seq<Entry>) -> Seq<JobView>
    decreases theme.len(),
{
    if theme.len() == 0 {
        Seq::empty()
    } else if is_page(theme.last()) {
        page_jobs(out, theme.drop_last()).push(page_job(out, theme.last().label()))
    } else {
        page_jobs(out, theme.drop_last())
    }
}

/// The render calls for the detail pages of the given items.
pub open spec fn detail_jobs(out: Seq<char>, content_type: Seq<char>, items: Seq<ItemView>) -> Seq<
    JobView,
> {
    Seq::new(items.len(), |i: int| detail_job(out, content_type, items[i]))
}

/// The render calls for one content type: its listing page once, then the
/// detail page of each markdown file under its directory.
pub open spec fn type_jobs(out: Seq<char>, content_type: Seq<char>, children: Seq<Entry>) -> Seq<
    JobView,
> {
    seq![listing_job(out, content_type)] + detail_jobs(
        out,
        content_type,
        walk(children, content_type),
    )
}

/// The first directory of the content listing for which the theme is
/// incomplete.
pub open spec fn first_unbound(content: Seq<Entry>, theme: Seq<Entry>) -> Option<Seq<char>>
    decreases content.len(),
{
    if content.len() == 0 {
        None
    } else {
        match first_unbound(content.drop_last(), theme) {
            Some(content_type) => Some(content_type),
            None => match content.last() {
                Entry::Dir { name, .. } => if is_bound(theme, name@) {
                    None
                } else {
                    Some(name@)
                },
                Entry::File { .. } => None,
            },
        }
    }
}

/// The render calls for the content types: those of each directory of the
/// content listing, in the listing's order, up to the first directory for
/// which the theme is incomplete. A file directly under the content root
/// belongs to no content type and is passed over.
pub open spec fn content_jobs(out: Seq<char>, theme: Seq<Entry>, content: Seq<Entry>) -> Seq<
    JobView,
>
    decreases content.len(),
{
    if content.len() == 0 {
        Seq::empty()
    } else {
        let before = content_jobs(out, theme, content.drop_last());
        match content.last() {
            Entry::Dir { name, children } => if first_unbound(content, theme) is None {
                before + type_jobs(out, name@, children@)
            } else {
                before
            },
            Entry::File { .. } => before,
        }
    }
}

/// The render calls of a whole build.
pub open spec fn site_jobs(out: Seq<char>, theme: Seq<Entry>, content: Seq<Entry>) -> Seq<JobView> {
    page_jobs(out, theme) + content_jobs(out, theme, content)
}

/// The title of a content item.
pub fn item_title(name: &str) -> (title: String)
    ensures
        title@ == title_of(name@),
{
    match strip_extension(name, "md") {
        Some(title) => title,
        None => String::from_str(name),
    }
}

/// Where the page of a content item goes.
pub fn item_destination(out_dir: &str, item: &Item) -> (path: String)
    ensures
        path@ == item_path(out_dir@, item@),
{
    let mut page = item_title(item.name.as_str());
    page.append(".html");
    let rel = child_of(item.dir.as_str(), page.as_str());
    join_path(out_dir, rel.as_str())
}

/// Appends the render calls for the top-level pages of the theme.
pub fn plan_pages(out_dir: &str, theme: &Vec<Entry>, jobs: &mut Vec<Job>)
    ensures
        job_views(final(jobs)@) == job_views(old(jobs)@) + page_jobs(out_dir@, theme@),
{
    let mut i: usize = 0;
    while i < theme.len()
        invariant
            i <= theme.len(),
            job_views(jobs@) == job_views(old(jobs)@) + page_jobs(out_dir@, theme@.take(i as int)),
        decreases theme.len() - i,
    {
        let ghost before = job_views(jobs@);
        proof {
            assert(theme@.take(i + 1).drop_last() == theme@.take(i as int));
            assert(theme@.take(i + 1).last() == theme@[i as int]);
        }
        if let Entry::File { name, .. } = &theme[i] {
            if carries_extension(name.as_str(), "html") {
                jobs.push(
                    Job {
                        kind: JobKind::Page,
                        content_type: String::new(),
                        template: name.clone(),
                        path: join_path(out_dir, name.as_str()),
                        text: String::new(),
                    },
                );
                assert(job_views(jobs@) == before.push(page_job(out_dir@, name@)));
            }
        }
        assert(job_views(jobs@) == job_views(old(jobs)@) + page_jobs(
            out_dir@,
            theme@.take(i + 1),
        ));
        i = i + 1;
    }
    assert(theme@.take(theme.len() as int) == theme@);
}

/// Appends the render calls for one content type whose templates the theme
/// holds: the listing page, then the detail page of each item under the
/// content type's directory.
fn plan_content_type(
    out_dir: &str,
    content_type: &str,
    children: &Vec<Entry>,
    binding: &ThemeBinding,
    jobs: &mut Vec<Job>,
)
    requires
        binding.listing@ == listing_template(content_type@),
        binding.detail@ == detail_template(content_type@),
    ensures
        job_views(final(jobs)@) == job_views(old(jobs)@) + type_jobs(
            out_dir@,
            content_type@,
            children@,
        ),
{
    let ghost start = job_views(jobs@);
    jobs.push(
        Job {
            kind: JobKind::Listing,
            content_type: String::from_str(content_type),
            template: binding.listing.clone(),
            path: join_path(out_dir, binding.listing.as_str()),
            text: String::new(),
        },
    );
    assert(job_views(jobs@) == start + seq![listing_job(out_dir@, content_type@)]);
    let items = collect_items(children, content_type);
    let ghost found = walk(children@, content_type@);
    let mut i: usize = 0;
    while i < items.len()
        invariant
            i <= items.len(),
            item_views(items@) == found,
            binding.detail@ == detail_template(content_type@),
            job_views(jobs@) == start + seq![listing_job(out_dir@, content_type@)] + detail_jobs(
                out_dir@,
                content_type@,
                found.take(i as int),
            ),
        decreases items.len() - i,
    {
        let ghost before = job_views(jobs@);
        let item = &items[i];
        assert(item@ == found[i as int]);
        jobs.push(
            Job {
                kind: JobKind::Detail,
                content_type: String::from_str(content_type),
                template: binding.detail.clone(),
                path: item_destination(out_dir, item),
                text: item.text.clone(),
            },
        );
        assert(job_views(jobs@) == before.push(detail_job(out_dir@, content_type@, item@)));
        assert(detail_jobs(out_dir@, content_type@, found.take(i + 1)) == detail_jobs(
            out_dir@,
            content_type@,
            found.take(i as int),
        ).push(detail_job(out_dir@, content_type@, item@)));
        i = i + 1;
    }
    assert(found.take(items.len() as int) == found);
}

/// Once the theme is incomplete for a directory of the content listing, the
/// plan no longer grows: the same content type stops every longer listing,
/// and the render calls stay the same.
pub proof fn lemma_halted_stays(out: Seq<char>, theme: Seq<Entry>, content: Seq<Entry>, k: int)
    requires
        0 <= k <= content.len(),
        first_unbound(content.take(k), theme) is Some,
    ensures
        first_unbound(content, theme) == first_unbound(content.take(k), theme),
        content_jobs(out, theme, content) == content_jobs(out, theme, content.take(k)),
    decreases content.len(),
{
    if k == content.len() {
        assert(content.take(k) == content);
    } else {
        assert(content.drop_last().take(k) == content.take(k));
        lemma_halted_stays(out, theme, content.drop_last(), k);
    }
}

/// The plan of a build. The render calls are those of [`site_jobs`], and the
/// plan is halted exactly where the theme is incomplete for some directory
/// of the content listing.
pub fn plan_site(out_dir: &str, theme: &Vec<Entry>, content: &Vec<Entry>) -> (plan: Plan)
    ensures
        job_views(plan.jobs@) == site_jobs(out_dir@, theme@, content@),
        match plan.halted {
            Some(content_type) => first_unbound(content@, theme@) == Some(content_type@),
            None => first_unbound(content@, theme@) is None,
        },
{
    let mut jobs: Vec<Job> = Vec::new();
    plan_pages(out_dir, theme, &mut jobs);
    assert(job_views(jobs@) == page_jobs(out_dir@, theme@));
    let mut i: usize = 0;
    while i < content.len()
        invariant
            i <= content.len(),
            first_unbound(content@.take(i as int), theme@) is None,
            job_views(jobs@) == page_jobs(out_dir@, theme@) + content_jobs(
                out_dir@,
                theme@,
                content@.take(i as int),
            ),
        decreases content.len() - i,
    {
        let ghost before = job_views(jobs@);
        proof {
            assert(content@.take(i + 1).drop_last() == content@.take(i as int));
            assert(content@.take(i + 1).last() == content@[i as int]);
        }
        if let Entry::Dir { name, children } = &content[i] {
            match resolve_binding(theme, name.as_str()) {
                Ok(binding) => {
                    plan_content_type(out_dir, name.as_str(), children, &binding, &mut jobs);
                    assert(job_views(jobs@) == page_jobs(out_dir@, theme@) + (content_jobs(
                        out_dir@,
                        theme@,
                        content@.take(i as int),
                    ) + type_jobs(out_dir@, name@, children@)));
                },
                Err(_) => {
                    proof {
                        lemma_halted_stays(out_dir@, theme@, content@, i + 1);
                    }
                    return Plan { jobs, halted: Some(name.clone()) };
                },
            }
        }
        i = i + 1;
    }
    assert(content@.take(content.len() as int) == content@);
    Plan { jobs, halted: None }
}

} // verus!
