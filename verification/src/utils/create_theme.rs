//! The skeleton of a new theme.

use vstd::prelude::*;
use vstd::string::*;
use crate::plan::is_page;
use crate::theme::{binds, is_bound};
use crate::tree::{has_entry, Entry};

verus! {

/// The text of the home page template of a new theme.
fn home_template() -> (text: String)
    ensures
        text@ == HOME_TEMPLATE@,
{
    String::from_str(HOME_TEMPLATE)
}

/// The text of the listing template for posts of a new theme.
fn listing_page_template() -> (text: String)
    ensures
        text@ == LISTING_TEMPLATE@,
{
    String::from_str(LISTING_TEMPLATE)
}

/// The text of the detail template for posts of a new theme.
fn detail_page_template() -> (text: String)
    ensures
        text@ == DETAIL_TEMPLATE@,
{
    String::from_str(DETAIL_TEMPLATE)
}

/// The home page template of a new theme: the title of the site, and a link
/// to the posts.
pub const HOME_TEMPLATE: &'static str =
    "<!DOCTYPE html>\n<html>\n  <head>\n    <meta charset=\"utf-8\">\n    <title>{{ settings.title }}</title>\n  </head>\n  <body>\n    <h1>{{ settings.title }}</h1>\n    <p><a href=\"posts/index.html\">Posts</a></p>\n  </body>\n</html>\n";

/// The listing template for posts of a new theme.
pub const LISTING_TEMPLATE: &'static str =
    "<!DOCTYPE html>\n<html>\n  <head>\n    <meta charset=\"utf-8\">\n    <title>Posts - {{ settings.title }}</title>\n  </head>\n  <body>\n    <h1>Posts</h1>\n  </body>\n</html>\n";

/// The detail template for posts of a new theme: the title of the post from
/// its front matter, and its rendered body.
pub const DETAIL_TEMPLATE: &'static str =
    "<!DOCTYPE html>\n<html>\n  <head>\n    <meta charset=\"utf-8\">\n    <title>{{ title }} - {{ settings.title }}</title>\n  </head>\n  <body>\n    <h1>{{ title }}</h1>\n    {{ content | safe }}\n  </body>\n</html>\n";

/// The listing is the root of a new theme: the home page `index.html`, and
/// the directory `posts` with the listing template `index.html` and the
/// detail template `template.html`, each file with its text.
pub open spec fn is_skeleton(theme: Seq<Entry>) -> bool {
    &&& theme.len() == 2
    &&& theme[0] is File
    &&& theme[0].label() == "index.html"@
    &&& theme[0].content() == HOME_TEMPLATE@
    &&& theme[1] is Dir
    &&& theme[1].label() == "posts"@
    &&& theme[1].entries().len() == 2
    &&& theme[1].entries()[0] is File
    &&& theme[1].entries()[0].label() == "index.html"@
    &&& theme[1].entries()[0].content() == LISTING_TEMPLATE@
    &&& theme[1].entries()[1] is File
    &&& theme[1].entries()[1].label() == "template.html"@
    &&& theme[1].entries()[1].content() == DETAIL_TEMPLATE@
}

/// The entries of a new theme's root: the home page, and the directory of
/// the content type `posts` with its listing and its detail template, each
/// with its text. The theme is complete for `posts`, and its home page is a
/// top-level page.
pub fn create_theme() -> (theme: Vec<Entry>)
    ensures
        is_skeleton(theme@),
        is_page(theme@[0]),
        is_bound(theme@, "posts"@),
{
    let mut posts: Vec<Entry> = Vec::new();
    posts.push(Entry::File { name: String::from_str("index.html"), text: listing_page_template() });
    posts.push(
        Entry::File { name: String::from_str("template.html"), text: detail_page_template() },
    );
    let mut theme: Vec<Entry> = Vec::new();
    theme.push(Entry::File { name: String::from_str("index.html"), text: home_template() });
    theme.push(Entry::Dir { name: String::from_str("posts"), children: posts });
    proof {
        reveal_strlit("index.html");
        reveal_strlit("html");
        assert("index.html"@.subrange(5, 10) == seq!['.'] + "html"@);
        assert(posts@[0].label() == "index.html"@);
        assert(posts@[1].label() == "template.html"@);
        assert(has_entry(posts@, "index.html"@));
        assert(has_entry(posts@, "template.html"@));
        assert(binds(theme@[1], "posts"@));
    }
    theme
}

} // verus!
