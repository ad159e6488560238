//! What holds of every plan: where the pages of a content type stand in it,
//! where they go, and what an incomplete theme keeps out of it.

use vstd::prelude::*;
use vstd::string::*;
use crate::plan::{
    content_jobs,
    detail_job,
    detail_jobs,
    first_unbound,
    item_path,
    listing_job,
    page_jobs,
    page_name,
    site_jobs,
    type_jobs,
    JobKind,
    JobView,
};
use crate::text::{
    child_path,
    is_within,
    lemma_rooting_is_injective,
    lemma_within_is_no_shorter,
    has_extension,
    is_under,
    joined,
    lemma_child_is_under,
    lemma_plain_name_is_under_nothing,
    lemma_rooted_dirs_are_apart,
    lemma_rooting_keeps_under,
    plain_name,
    stem,
    with_extension,
};
use crate::theme::{is_bound, listing_template};
use crate::tree::{
    distinct_names,
    has_entry,
    has_file,
    is_markdown,
    lemma_walk_finds_markdown,
    lemma_walk_stays_within,
    lemma_walk_top_files,
    plain_names,
    walk,
    Entry,
    ItemView,
};

verus! {

/// The render calls for the first entries of the content listing open the
/// render calls for the whole listing.
pub proof fn lemma_content_jobs_grow(out: Seq<char>, theme: Seq<Entry>, content: Seq<Entry>, k: int)
    requires
        0 <= k <= content.len(),
    ensures
        content_jobs(out, theme, content.take(k)).len() <= content_jobs(out, theme, content).len(),
        forall|i: int|
            0 <= i < content_jobs(out, theme, content.take(k)).len() ==> content_jobs(
                out,
                theme,
                content,
            )[i] == content_jobs(out, theme, content.take(k))[i],
    decreases content.len(),
{
    if k == content.len() {
        assert(content.take(k) == content);
    } else {
        assert(content.drop_last().take(k) == content.take(k));
        lemma_content_jobs_grow(out, theme, content.drop_last(), k);
    }
}

/// The index, among the render calls of a build, at which those of the
/// `k`-th entry of the content listing start.
pub open spec fn type_start(out: Seq<char>, theme: Seq<Entry>, content: Seq<Entry>, k: int) -> nat {
    page_jobs(out, theme).len() + content_jobs(out, theme, content.take(k)).len()
}

/// A content type that no incomplete theme keeps the build from has all its
/// render calls in the plan, next to each other, from [`type_start`] on.
pub proof fn lemma_type_jobs_planned(
    out: Seq<char>,
    theme: Seq<Entry>,
    content: Seq<Entry>,
    k: int,
    m: int,
)
    requires
        0 <= k < content.len(),
        content[k] is Dir,
        first_unbound(content.take(k + 1), theme) is None,
        0 <= m < type_jobs(out, content[k].label(), content[k].entries()).len(),
    ensures
        type_start(out, theme, content, k) + m < site_jobs(out, theme, content).len(),
        site_jobs(out, theme, content)[type_start(out, theme, content, k) + m] == type_jobs(
            out,
            content[k].label(),
            content[k].entries(),
        )[m],
{
    let upto = content.take(k + 1);
    assert(upto.drop_last() == content.take(k));
    assert(upto.last() == content[k]);
    assert(content_jobs(out, theme, upto) == content_jobs(out, theme, content.take(k)) + type_jobs(
        out,
        content[k].label(),
        content[k].entries(),
    ));
    lemma_content_jobs_grow(out, theme, content, k + 1);
    let at = content_jobs(out, theme, content.take(k)).len() + m;
    assert(content_jobs(out, theme, content)[at] == content_jobs(out, theme, upto)[at]);
}

/// The page of a markdown file goes where its source stands under the
/// content root, with the extension `md` replaced by `html`.
pub proof fn lemma_item_path_swaps_extension(out: Seq<char>, item: ItemView)
    requires
        is_markdown(item.name),
    ensures
        item_path(out, item) == joined(out, with_extension(item.source(), "md"@, "html"@)),
        has_extension(item.source(), "md"@),
{
    reveal_strlit(".html");
    reveal_strlit("html");
    reveal_strlit("md");
    let source = item.source();
    let cut = source.len() - 3;
    assert(".html"@ == seq!['.'] + "html"@);
    assert(stem(source, "md"@) == child_path(item.dir, stem(item.name, "md"@)));
    assert(with_extension(source, "md"@, "html"@) == child_path(item.dir, page_name(item.name)));
    assert(source.subrange(source.len() - 3, source.len() as int) == item.name.subrange(
        item.name.len() - 3,
        item.name.len() as int,
    ));
}

/// The theme is incomplete for the content type that halts a build.
pub proof fn lemma_halting_type_is_unbound(content: Seq<Entry>, theme: Seq<Entry>)
    requires
        first_unbound(content, theme) is Some,
    ensures
        !is_bound(theme, first_unbound(content, theme)->0),
    decreases content.len(),
{
    if content.len() > 0 && first_unbound(content.drop_last(), theme) is Some {
        lemma_halting_type_is_unbound(content.drop_last(), theme);
    }
}

/// The content type that halts a build names a directory of the content
/// listing.
pub proof fn lemma_halting_type_is_listed(content: Seq<Entry>, theme: Seq<Entry>)
    requires
        first_unbound(content, theme) is Some,
    ensures
        exists|k: int|
            0 <= k < content.len() && (#[trigger] content[k]) is Dir && content[k].label()
                == first_unbound(content, theme)->0,
    decreases content.len(),
{
    if content.len() > 0 {
        let init = content.drop_last();
        if first_unbound(init, theme) is Some {
            lemma_halting_type_is_listed(init, theme);
            let k = choose|k: int|
                0 <= k < init.len() && (#[trigger] init[k]) is Dir && init[k].label()
                    == first_unbound(init, theme)->0;
            assert(content[k] is Dir && content[k].label() == first_unbound(content, theme)->0);
        } else {
            assert(content[content.len() - 1] is Dir);
        }
    }
}

/// Every render call for a content type is a listing or a detail page of a
/// content type whose templates the theme holds.
pub proof fn lemma_content_jobs_are_bound(out: Seq<char>, theme: Seq<Entry>, content: Seq<Entry>)
    ensures
        forall|j: int|
            0 <= j < content_jobs(out, theme, content).len() ==> {
                let job = #[trigger] content_jobs(out, theme, content)[j];
                job.kind != JobKind::Page && is_bound(theme, job.content_type)
            },
    decreases content.len(),
{
    if content.len() > 0 {
        lemma_content_jobs_are_bound(out, theme, content.drop_last());
        let before = content_jobs(out, theme, content.drop_last());
        let all = content_jobs(out, theme, content);
        assert forall|j: int| 0 <= j < all.len() implies {
            let job = #[trigger] all[j];
            job.kind != JobKind::Page && is_bound(theme, job.content_type)
        } by {
            if j < before.len() {
                assert(all[j] == before[j]);
            } else {
                let label = content.last().label();
                let added = type_jobs(out, label, content.last().entries());
                assert(all == before + added);
                assert(all[j] == added[j - before.len()]);
                assert(added[j - before.len()].content_type == label);
            }
        }
    }
}

/// Every render call for the theme root is a top-level page.
pub proof fn lemma_page_jobs_are_pages(out: Seq<char>, theme: Seq<Entry>)
    ensures
        forall|j: int|
            0 <= j < page_jobs(out, theme).len() ==> (#[trigger] page_jobs(out, theme)[j]).kind
                == JobKind::Page,
    decreases theme.len(),
{
    if theme.len() > 0 {
        lemma_page_jobs_are_pages(out, theme.drop_last());
    }
}

/// Nothing is planned for a content type for which the theme is incomplete:
/// no listing page and no detail page of the plan belongs to it.
pub proof fn lemma_unbound_type_is_unplanned(
    out: Seq<char>,
    theme: Seq<Entry>,
    content: Seq<Entry>,
    content_type: Seq<char>,
)
    requires
        !is_bound(theme, content_type),
    ensures
        forall|j: int|
            0 <= j < site_jobs(out, theme, content).len() ==> {
                let job = #[trigger] site_jobs(out, theme, content)[j];
                job.kind == JobKind::Page || job.content_type != content_type
            },
{
    lemma_content_jobs_are_bound(out, theme, content);
    lemma_page_jobs_are_pages(out, theme);
    let pages = page_jobs(out, theme);
    let rest = content_jobs(out, theme, content);
    assert forall|j: int| 0 <= j < site_jobs(out, theme, content).len() implies {
        let job = #[trigger] site_jobs(out, theme, content)[j];
        job.kind == JobKind::Page || job.content_type != content_type
    } by {
        if j < pages.len() {
            assert(site_jobs(out, theme, content)[j] == pages[j]);
        } else {
            assert(site_jobs(out, theme, content)[j] == rest[j - pages.len()]);
        }
    }
}

/// A directory of the content listing for which the theme is incomplete
/// halts the build, unless an earlier one does.
pub proof fn lemma_unbound_type_halts(content: Seq<Entry>, theme: Seq<Entry>, k: int)
    requires
        0 <= k < content.len(),
        content[k] is Dir,
        !is_bound(theme, content[k].label()),
    ensures
        first_unbound(content, theme) is Some,
    decreases content.len(),
{
    if k < content.len() - 1 {
        assert(content.drop_last()[k] == content[k]);
        lemma_unbound_type_halts(content.drop_last(), theme, k);
    } else {
        assert(content.last() == content[k]);
    }
}

/// Every page of a content type goes inside the directory of the content
/// type's name under the output root.
pub proof fn lemma_type_jobs_stay_within(out: Seq<char>, content_type: Seq<char>, children: Seq<Entry>)
    ensures
        forall|m: int|
            0 <= m < type_jobs(out, content_type, children).len() ==> is_under(
                (#[trigger] type_jobs(out, content_type, children)[m]).path,
                joined(out, content_type),
            ),
{
    let jobs = type_jobs(out, content_type, children);
    let items = walk(children, content_type);
    lemma_walk_stays_within(children, content_type);
    assert forall|m: int| 0 <= m < jobs.len() implies is_under(
        (#[trigger] jobs[m]).path,
        joined(out, content_type),
    ) by {
        if m == 0 {
            let rel = child_path(content_type, "index.html"@);
            lemma_child_is_under(content_type, "index.html"@, content_type);
            lemma_rooting_keeps_under(out, rel, content_type);
        } else {
            let item = items[m - 1];
            assert(jobs[m] == detail_job(out, content_type, item));
            let rel = child_path(item.dir, page_name(item.name));
            lemma_child_is_under(item.dir, page_name(item.name), content_type);
            lemma_rooting_keeps_under(out, rel, content_type);
        }
    }
}

/// Every page of a content type goes inside the directory of its content
/// type, and its content type names an entry of the content listing.
pub proof fn lemma_content_jobs_stay_within(out: Seq<char>, theme: Seq<Entry>, content: Seq<Entry>)
    ensures
        forall|j: int|
            0 <= j < content_jobs(out, theme, content).len() ==> {
                let job = #[trigger] content_jobs(out, theme, content)[j];
                is_under(job.path, joined(out, job.content_type)) && has_entry(
                    content,
                    job.content_type,
                )
            },
    decreases content.len(),
{
    if content.len() > 0 {
        let init = content.drop_last();
        lemma_content_jobs_stay_within(out, theme, init);
        let before = content_jobs(out, theme, init);
        let all = content_jobs(out, theme, content);
        assert forall|j: int| 0 <= j < all.len() implies {
            let job = #[trigger] all[j];
            is_under(job.path, joined(out, job.content_type)) && has_entry(content, job.content_type)
        } by {
            if j < before.len() {
                assert(all[j] == before[j]);
                let i = choose|i: int|
                    0 <= i < init.len() && (#[trigger] init[i]).label() == before[j].content_type;
                assert(content[i].label() == before[j].content_type);
            } else {
                let label = content.last().label();
                let added = type_jobs(out, label, content.last().entries());
                assert(all == before + added);
                assert(all[j] == added[j - before.len()]);
                assert(added[j - before.len()].content_type == label);
                lemma_type_jobs_stay_within(out, label, content.last().entries());
                assert(content[content.len() - 1].label() == label);
            }
        }
    }
}

/// Every top-level page goes directly under the output root, under the name
/// of its template, which is the name of an entry of the theme root.
pub proof fn lemma_page_jobs_are_named(out: Seq<char>, theme: Seq<Entry>)
    ensures
        forall|j: int|
            0 <= j < page_jobs(out, theme).len() ==> {
                let job = #[trigger] page_jobs(out, theme)[j];
                job.path == joined(out, job.template) && has_entry(theme, job.template)
            },
    decreases theme.len(),
{
    if theme.len() > 0 {
        let init = theme.drop_last();
        lemma_page_jobs_are_named(out, init);
        let before = page_jobs(out, init);
        let all = page_jobs(out, theme);
        assert forall|j: int| 0 <= j < all.len() implies {
            let job = #[trigger] all[j];
            job.path == joined(out, job.template) && has_entry(theme, job.template)
        } by {
            if j < before.len() {
                assert(all[j] == before[j]);
                let i = choose|i: int|
                    0 <= i < init.len() && (#[trigger] init[i]).label() == before[j].template;
                assert(theme[i].label() == before[j].template);
            } else {
                assert(theme[theme.len() - 1].label() == all[j].template);
            }
        }
    }
}

/// No page is planned inside the directory of a content type for which the
/// theme is incomplete.
///
/// Take listings of the theme root and of the content root in which every
/// name is plain, and a plain name for which the theme is incomplete. Then
/// no render call of the build goes to a path inside the directory of that
/// name under the output root.
pub proof fn lemma_unbound_type_gets_no_page(
    out: Seq<char>,
    theme: Seq<Entry>,
    content: Seq<Entry>,
    content_type: Seq<char>,
)
    requires
        plain_names(theme),
        plain_names(content),
        plain_name(content_type),
        !is_bound(theme, content_type),
    ensures
        forall|j: int|
            0 <= j < site_jobs(out, theme, content).len() ==> !is_under(
                (#[trigger] site_jobs(out, theme, content)[j]).path,
                joined(out, content_type),
            ),
{
    let pages = page_jobs(out, theme);
    let rest = content_jobs(out, theme, content);
    lemma_content_jobs_are_bound(out, theme, content);
    lemma_content_jobs_stay_within(out, theme, content);
    lemma_page_jobs_are_named(out, theme);
    assert forall|j: int| 0 <= j < site_jobs(out, theme, content).len() implies !is_under(
        (#[trigger] site_jobs(out, theme, content)[j]).path,
        joined(out, content_type),
    ) by {
        if j < pages.len() {
            let job = pages[j];
            assert(site_jobs(out, theme, content)[j] == job);
            let i = choose|i: int| 0 <= i < theme.len() && (#[trigger] theme[i]).label() == job.template;
            assert(plain_name(theme[i].label()));
            lemma_plain_name_is_under_nothing(job.template, content_type);
            lemma_rooting_keeps_under(out, job.template, content_type);
        } else {
            let job = rest[j - pages.len()];
            assert(site_jobs(out, theme, content)[j] == job);
            let i = choose|i: int|
                0 <= i < content.len() && (#[trigger] content[i]).label() == job.content_type;
            assert(plain_name(content[i].label()));
            lemma_rooted_dirs_are_apart(out, job.path, job.content_type, content_type);
        }
    }
}

/// How many of the render calls are the listing page of the content type.
pub open spec fn listing_count(jobs: Seq<JobView>, content_type: Seq<char>) -> nat
    decreases jobs.len(),
{
    if jobs.len() == 0 {
        0
    } else if jobs.last().kind == JobKind::Listing && jobs.last().content_type == content_type {
        listing_count(jobs.drop_last(), content_type) + 1
    } else {
        listing_count(jobs.drop_last(), content_type)
    }
}

/// Some directory of the content listing has the name of the content type,
/// and the theme is complete for it and for every directory before it.
pub open spec fn is_planned(content: Seq<Entry>, theme: Seq<Entry>, content_type: Seq<char>) -> bool
    decreases content.len(),
{
    if content.len() == 0 {
        false
    } else {
        is_planned(content.drop_last(), theme, content_type) || (content.last() is Dir
            && content.last().label() == content_type && first_unbound(content, theme) is None)
    }
}

/// Listing pages are counted one sequence of render calls after the other.
pub proof fn lemma_listing_count_sums(a: Seq<JobView>, b: Seq<JobView>, content_type: Seq<char>)
    ensures
        listing_count(a + b, content_type) == listing_count(a, content_type) + listing_count(
            b,
            content_type,
        ),
    decreases b.len(),
{
    if b.len() == 0 {
        assert(a + b == a);
    } else {
        assert((a + b).drop_last() == a + b.drop_last());
        assert((a + b).last() == b.last());
        lemma_listing_count_sums(a, b.drop_last(), content_type);
    }
}

/// Render calls of which none is a listing page count no listing page.
pub proof fn lemma_no_listing_counted(jobs: Seq<JobView>, content_type: Seq<char>)
    requires
        forall|j: int| 0 <= j < jobs.len() ==> (#[trigger] jobs[j]).kind != JobKind::Listing,
    ensures
        listing_count(jobs, content_type) == 0,
    decreases jobs.len(),
{
    if jobs.len() > 0 {
        let rest = jobs.drop_last();
        assert forall|j: int| 0 <= j < rest.len() implies (#[trigger] rest[j]).kind
            != JobKind::Listing by {
            assert(rest[j] == jobs[j]);
        }
        lemma_no_listing_counted(rest, content_type);
    }
}

/// The render calls of one content type hold its own listing page once and
/// no listing page of another.
pub proof fn lemma_type_listing_count(
    out: Seq<char>,
    named: Seq<char>,
    children: Seq<Entry>,
    content_type: Seq<char>,
)
    ensures
        listing_count(type_jobs(out, named, children), content_type) == (if named == content_type {
            1nat
        } else {
            0nat
        }),
{
    let head = seq![listing_job(out, named)];
    let tail = detail_jobs(out, named, walk(children, named));
    lemma_listing_count_sums(head, tail, content_type);
    lemma_no_listing_counted(tail, content_type);
    assert(head.drop_last() == Seq::<JobView>::empty());
    assert(listing_count(head.drop_last(), content_type) == 0);
}

/// A planned content type names a directory of the content listing.
pub proof fn lemma_planned_is_listed(content: Seq<Entry>, theme: Seq<Entry>, content_type: Seq<char>)
    requires
        is_planned(content, theme, content_type),
    ensures
        exists|k: int| 0 <= k < content.len() && (#[trigger] content[k]).label() == content_type,
    decreases content.len(),
{
    if is_planned(content.drop_last(), theme, content_type) {
        lemma_planned_is_listed(content.drop_last(), theme, content_type);
        let k = choose|k: int|
            0 <= k < content.drop_last().len() && (#[trigger] content.drop_last()[k]).label()
                == content_type;
        assert(content[k].label() == content_type);
    } else {
        assert(content[content.len() - 1].label() == content_type);
    }
}

/// The `k`-th entry of the content listing is planned where it is a
/// directory and the theme is complete for it and for every directory
/// before it.
pub proof fn lemma_reached_is_planned(content: Seq<Entry>, theme: Seq<Entry>, k: int)
    requires
        0 <= k < content.len(),
        content[k] is Dir,
        first_unbound(content.take(k + 1), theme) is None,
    ensures
        is_planned(content, theme, content[k].label()),
    decreases content.len(),
{
    if k == content.len() - 1 {
        assert(content.take(k + 1) == content);
    } else {
        assert(content.drop_last().take(k + 1) == content.take(k + 1));
        lemma_reached_is_planned(content.drop_last(), theme, k);
    }
}

/// Among the render calls for the content types, the listing page of a
/// content type comes once where the content type is planned, and never
/// where it is not.
pub proof fn lemma_content_listing_count(
    out: Seq<char>,
    theme: Seq<Entry>,
    content: Seq<Entry>,
    content_type: Seq<char>,
)
    requires
        distinct_names(content),
    ensures
        listing_count(content_jobs(out, theme, content), content_type) == (if is_planned(
            content,
            theme,
            content_type,
        ) {
            1nat
        } else {
            0nat
        }),
    decreases content.len(),
{
    if content.len() > 0 {
        let init = content.drop_last();
        let last = content.last();
        assert forall|i: int, j: int| 0 <= i < j < init.len() implies (#[trigger] init[i]).label() != (
        #[trigger] init[j]).label() by {
            assert(init[i] == content[i] && init[j] == content[j]);
        }
        lemma_content_listing_count(out, theme, init, content_type);
        let before = content_jobs(out, theme, init);
        if last is Dir && first_unbound(content, theme) is None {
            let added = type_jobs(out, last.label(), last.entries());
            assert(content_jobs(out, theme, content) == before + added);
            lemma_listing_count_sums(before, added, content_type);
            lemma_type_listing_count(out, last.label(), last.entries(), content_type);
            if last.label() == content_type && is_planned(init, theme, content_type) {
                lemma_planned_is_listed(init, theme, content_type);
                let k = choose|k: int|
                    0 <= k < init.len() && (#[trigger] init[k]).label() == content_type;
                assert(content[k].label() == content[content.len() - 1].label());
            }
        } else {
            assert(content_jobs(out, theme, content) == before);
        }
    }
}

/// Each content type has one listing page, however many items it holds.
///
/// Take a content listing in which no name comes twice, and a directory of
/// it such that the theme is complete for it and for every directory before
/// it. Then the render calls of the build hold the listing page of that
/// content type exactly once. It is the first call of the content type, and
/// goes to `index.html` in the directory of the content type's name under
/// the output root.
pub proof fn lemma_one_listing_per_type(out: Seq<char>, theme: Seq<Entry>, content: Seq<Entry>, k: int)
    requires
        distinct_names(content),
        0 <= k < content.len(),
        content[k] is Dir,
        first_unbound(content.take(k + 1), theme) is None,
    ensures
        listing_count(site_jobs(out, theme, content), content[k].label()) == 1,
        type_start(out, theme, content, k) < site_jobs(out, theme, content).len(),
        site_jobs(out, theme, content)[type_start(out, theme, content, k) as int] == listing_job(
            out,
            content[k].label(),
        ),
        listing_job(out, content[k].label()).path == joined(
            out,
            child_path(content[k].label(), "index.html"@),
        ),
{
    let content_type = content[k].label();
    lemma_reached_is_planned(content, theme, k);
    lemma_content_listing_count(out, theme, content, content_type);
    lemma_page_jobs_are_pages(out, theme);
    lemma_no_listing_counted(page_jobs(out, theme), content_type);
    lemma_listing_count_sums(page_jobs(out, theme), content_jobs(out, theme, content), content_type);
    lemma_type_jobs_planned(out, theme, content, k, 0);
}

/// How many of the render calls make the page at the path.
pub open spec fn path_count(jobs: Seq<JobView>, path: Seq<char>) -> nat
    decreases jobs.len(),
{
    if jobs.len() == 0 {
        0
    } else if jobs.last().path == path {
        path_count(jobs.drop_last(), path) + 1
    } else {
        path_count(jobs.drop_last(), path)
    }
}

/// Pages at a path are counted one sequence of render calls after the
/// other.
pub proof fn lemma_path_count_sums(a: Seq<JobView>, b: Seq<JobView>, path: Seq<char>)
    ensures
        path_count(a + b, path) == path_count(a, path) + path_count(b, path),
    decreases b.len(),
{
    if b.len() == 0 {
        assert(a + b == a);
    } else {
        assert((a + b).drop_last() == a + b.drop_last());
        assert((a + b).last() == b.last());
        lemma_path_count_sums(a, b.drop_last(), path);
    }
}

/// Render calls of which none goes to the path count no page there.
pub proof fn lemma_no_path_counted(jobs: Seq<JobView>, path: Seq<char>)
    requires
        forall|j: int| 0 <= j < jobs.len() ==> (#[trigger] jobs[j]).path != path,
    ensures
        path_count(jobs, path) == 0,
    decreases jobs.len(),
{
    if jobs.len() > 0 {
        let rest = jobs.drop_last();
        assert forall|j: int| 0 <= j < rest.len() implies (#[trigger] rest[j]).path != path by {
            assert(rest[j] == jobs[j]);
        }
        lemma_no_path_counted(rest, path);
    }
}

/// The detail page of an item goes to the listing page's path only where
/// the item is a file `index.md` directly in the directory of the content
/// type.
pub proof fn lemma_detail_misses_listing_path(out: Seq<char>, content_type: Seq<char>, item: ItemView)
    requires
        is_markdown(item.name),
        is_within(item.dir, content_type),
        !(item.dir == content_type && item.name == "index.md"@),
    ensures
        item_path(out, item) != joined(out, listing_template(content_type)),
{
    reveal_strlit("index.html");
    reveal_strlit("index.md");
    reveal_strlit(".html");
    reveal_strlit("md");
    let page = page_name(item.name);
    let mine = child_path(item.dir, page);
    let listing = child_path(content_type, "index.html"@);
    if item_path(out, item) == joined(out, listing) {
        lemma_rooting_is_injective(out, mine, listing);
        lemma_within_is_no_shorter(item.dir, content_type);
        if item.dir == content_type {
            assert(mine.subrange(content_type.len() as int + 1, mine.len() as int) == page);
            assert(listing.subrange(content_type.len() as int + 1, listing.len() as int)
                == "index.html"@);
            let title = stem(item.name, "md"@);
            assert(title == page.take(5));
            assert(item.name == title + item.name.subrange(
                item.name.len() - 3,
                item.name.len() as int,
            ));
            assert(item.name =~= "index.md"@);
        } else {
            let at = item.dir.len() as int;
            assert(mine[at] == '/');
            assert(listing[at] == "index.html"@[at - content_type.len() - 1]);
        }
    }
}

/// Where no file `index.md` stands directly in the directory of a content
/// type, the listing page of the content type is the only page of the
/// content type at its path.
pub proof fn lemma_type_has_one_page_at_listing_path(
    out: Seq<char>,
    content_type: Seq<char>,
    children: Seq<Entry>,
)
    requires
        !has_file(children, "index.md"@),
    ensures
        path_count(
            type_jobs(out, content_type, children),
            joined(out, listing_template(content_type)),
        ) == 1,
{
    let target = joined(out, listing_template(content_type));
    let head = seq![listing_job(out, content_type)];
    let items = walk(children, content_type);
    let tail = detail_jobs(out, content_type, items);
    lemma_walk_finds_markdown(children, content_type);
    lemma_walk_stays_within(children, content_type);
    lemma_walk_top_files(children, content_type);
    assert forall|j: int| 0 <= j < tail.len() implies (#[trigger] tail[j]).path != target by {
        lemma_detail_misses_listing_path(out, content_type, items[j]);
    }
    lemma_no_path_counted(tail, target);
    lemma_path_count_sums(head, tail, target);
    assert(head.drop_last() == Seq::<JobView>::empty());
    assert(path_count(head.drop_last(), target) == 0);
}

/// The pages of a content type stay away from the listing page's path of
/// every content type of another name.
pub proof fn lemma_other_type_misses_listing_path(
    out: Seq<char>,
    named: Seq<char>,
    children: Seq<Entry>,
    content_type: Seq<char>,
)
    requires
        plain_name(named),
        plain_name(content_type),
        named != content_type,
    ensures
        path_count(type_jobs(out, named, children), joined(out, listing_template(content_type)))
            == 0,
{
    let target = joined(out, listing_template(content_type));
    let jobs = type_jobs(out, named, children);
    lemma_type_jobs_stay_within(out, named, children);
    lemma_child_is_under(content_type, "index.html"@, content_type);
    lemma_rooting_keeps_under(out, listing_template(content_type), content_type);
    assert forall|j: int| 0 <= j < jobs.len() implies (#[trigger] jobs[j]).path != target by {
        lemma_rooted_dirs_are_apart(out, jobs[j].path, named, content_type);
    }
    lemma_no_path_counted(jobs, target);
}

/// Among the render calls for the content types, one page goes to the
/// listing page's path of a planned content type, and none to that of
/// another.
pub proof fn lemma_content_path_count(
    out: Seq<char>,
    theme: Seq<Entry>,
    content: Seq<Entry>,
    content_type: Seq<char>,
)
    requires
        distinct_names(content),
        plain_names(content),
        plain_name(content_type),
        forall|i: int|
            0 <= i < content.len() && (#[trigger] content[i]).label() == content_type ==> !has_file(
                content[i].entries(),
                "index.md"@,
            ),
    ensures
        path_count(content_jobs(out, theme, content), joined(out, listing_template(content_type)))
            == (if is_planned(content, theme, content_type) {
            1nat
        } else {
            0nat
        }),
    decreases content.len(),
{
    if content.len() > 0 {
        let target = joined(out, listing_template(content_type));
        let init = content.drop_last();
        let last = content.last();
        assert forall|i: int, j: int| 0 <= i < j < init.len() implies (#[trigger] init[i]).label() != (
        #[trigger] init[j]).label() by {
            assert(init[i] == content[i] && init[j] == content[j]);
        }
        assert forall|i: int| 0 <= i < init.len() implies plain_name((#[trigger] init[i]).label()) by {
            assert(init[i] == content[i]);
        }
        assert forall|i: int|
            0 <= i < init.len() && (#[trigger] init[i]).label() == content_type implies !has_file(
            init[i].entries(),
            "index.md"@,
        ) by {
            assert(init[i] == content[i]);
        }
        lemma_content_path_count(out, theme, init, content_type);
        let before = content_jobs(out, theme, init);
        assert(last == content[content.len() - 1]);
        if last is Dir && first_unbound(content, theme) is None {
            let added = type_jobs(out, last.label(), last.entries());
            assert(content_jobs(out, theme, content) == before + added);
            lemma_path_count_sums(before, added, target);
            if last.label() == content_type {
                lemma_type_has_one_page_at_listing_path(out, content_type, last.entries());
                if is_planned(init, theme, content_type) {
                    lemma_planned_is_listed(init, theme, content_type);
                    let k = choose|k: int|
                        0 <= k < init.len() && (#[trigger] init[k]).label() == content_type;
                    assert(content[k].label() == content[content.len() - 1].label());
                }
            } else {
                lemma_other_type_misses_listing_path(
                    out,
                    last.label(),
                    last.entries(),
                    content_type,
                );
            }
        } else {
            assert(content_jobs(out, theme, content) == before);
        }
    }
}

/// One page goes to the listing page's path of each content type.
///
/// Take listings of the theme root and of the content root in which every
/// name is plain and, in the content listing, no name comes twice. Take a
/// directory of the content listing such that the theme is complete for it
/// and for every directory before it, and that holds no file `index.md`
/// directly in it. Then exactly one render call of the build goes to
/// `index.html` in the directory of that content type under the output
/// root, however many items the content type holds.
pub proof fn lemma_one_page_at_listing_path(
    out: Seq<char>,
    theme: Seq<Entry>,
    content: Seq<Entry>,
    k: int,
)
    requires
        plain_names(theme),
        plain_names(content),
        distinct_names(content),
        0 <= k < content.len(),
        content[k] is Dir,
        first_unbound(content.take(k + 1), theme) is None,
        !has_file(content[k].entries(), "index.md"@),
    ensures
        path_count(
            site_jobs(out, theme, content),
            joined(out, child_path(content[k].label(), "index.html"@)),
        ) == 1,
{
    let content_type = content[k].label();
    let target = joined(out, listing_template(content_type));
    let pages = page_jobs(out, theme);
    lemma_reached_is_planned(content, theme, k);
    assert forall|i: int|
        0 <= i < content.len() && (#[trigger] content[i]).label() == content_type implies !has_file(
        content[i].entries(),
        "index.md"@,
    ) by {
        assert(i == k);
    }
    lemma_content_path_count(out, theme, content, content_type);
    lemma_page_jobs_are_named(out, theme);
    lemma_child_is_under(content_type, "index.html"@, content_type);
    lemma_rooting_keeps_under(out, listing_template(content_type), content_type);
    assert forall|j: int| 0 <= j < pages.len() implies (#[trigger] pages[j]).path != target by {
        let i = choose|i: int| 0 <= i < theme.len() && (#[trigger] theme[i]).label() == pages[j].template;
        assert(plain_name(theme[i].label()));
        lemma_plain_name_is_under_nothing(pages[j].template, content_type);
        lemma_rooting_keeps_under(out, pages[j].template, content_type);
    }
    lemma_no_path_counted(pages, target);
    lemma_path_count_sums(pages, content_jobs(out, theme, content), target);
}

} // verus!
