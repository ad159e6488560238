//! The command that creates a new project.

use std::collections::HashMap;
use vstd::prelude::*;
use vstd::string::*;
use crate::plan::first_unbound;
use crate::text::{child_of, child_path};
use crate::theme::is_bound;
use crate::tree::{is_markdown, Entry};
use crate::utils::config_handler::{default_asset_dir, default_out_dir, AppConfig, Settings};
use crate::utils::create_theme::{create_theme, is_skeleton};

verus! {

/// What a new project is made of. The paths start with the directory of the
/// project.
#[derive(Debug, PartialEq)]
pub struct Project {
    /// The content root of the project.
    pub content_dir: String,
    /// The entries of the content root: the content type `posts` with one
    /// sample post.
    pub content: Vec<Entry>,
    /// The root of the default theme.
    pub theme_dir: String,
    /// The entries of the root of the default theme.
    pub theme: Vec<Entry>,
    /// The asset directory, which starts empty.
    pub asset_dir: String,
    /// Where the configuration goes.
    pub config_path: String,
    /// The configuration of the project.
    pub config: AppConfig,
}

/// The text of the sample post of a new project.
fn sample_post() -> (text: String)
    ensures
        text@ == SAMPLE_POST@,
{
    String::from_str(SAMPLE_POST)
}

/// The sample post of a new project: front matter with a title and two
/// tags, and a short markdown body.
pub const SAMPLE_POST: &'static str =
    "---\ntitle: \"Hello\"\ntags:\n  - first\n  - post\n---\n# Hello\n\nThis is the first post of the site.\n";

/// The new project of the given name. Its title is its name, its theme is
/// `psc`, and its directories are the defaults. Its content holds the
/// content type `posts` with the sample post `tests.md`, and its theme is
/// the skeleton of a new theme. The theme is complete for `posts`, so a
/// build of the new project is halted by no content type.
pub fn invoke(name: &str) -> (project: Project)
    ensures
        project.content_dir@ == child_path(name@, "content"@),
        project.theme_dir@ == child_path(child_path(name@, "theme"@), "psc"@),
        project.asset_dir@ == child_path(name@, "asset"@),
        project.config_path@ == child_path(name@, "config.toml"@),
        project.config.settings.title@ == name@,
        project.config.settings.theme@ == "psc"@,
        project.config.settings.out_dir@ == "dist"@,
        project.config.settings.asset_dir@ == "asset"@,
        project.config.custom@.dom() =~= Set::empty(),
        project.content@.len() == 1,
        project.content@[0] is Dir && project.content@[0].label() == "posts"@,
        project.content@[0].entries().len() == 1,
        project.content@[0].entries()[0] is File && is_markdown(
            project.content@[0].entries()[0].label(),
        ),
        project.content@[0].entries()[0].label() == "tests.md"@,
        project.content@[0].entries()[0].content() == SAMPLE_POST@,
        is_skeleton(project.theme@),
        is_bound(project.theme@, "posts"@),
        first_unbound(project.content@, project.theme@) is None,
{
    let mut posts: Vec<Entry> = Vec::new();
    posts.push(Entry::File { name: String::from_str("tests.md"), text: sample_post() });
    let mut content: Vec<Entry> = Vec::new();
    content.push(Entry::Dir { name: String::from_str("posts"), children: posts });
    let theme = create_theme();
    let theme_root = child_of(name, "theme");
    proof {
        reveal_strlit("tests.md");
        reveal_strlit("md");
        assert("tests.md"@.subrange(5, 8) == seq!['.'] + "md"@);
        assert(content@.drop_last() == Seq::<Entry>::empty());
        assert(first_unbound(content@.drop_last(), theme@) is None);
    }
    Project {
        content_dir: child_of(name, "content"),
        content,
        theme_dir: child_of(theme_root.as_str(), "psc"),
        theme,
        asset_dir: child_of(name, "asset"),
        config_path: child_of(name, "config.toml"),
        config: AppConfig {
            settings: Settings {
                title: String::from_str(name),
                theme: String::from_str("psc"),
                out_dir: default_out_dir(),
                asset_dir: default_asset_dir(),
            },
            custom: HashMap::new(),
        },
    }
}

} // verus!
