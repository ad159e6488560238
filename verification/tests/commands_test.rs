use ssg::commands::build_site::{finish, invoke as build, next_call, record};
use ssg::engine::EngineFailure;
use ssg::commands::create_theme::invoke as new_theme;
use ssg::commands::init::{invoke as init, SAMPLE_POST};
use ssg::commands::theme_handler::{create_theme, find_theme, set_theme};
use ssg::error::SiteError;
use ssg::tree::Entry;
use ssg::utils::config_handler::{AppConfig, Settings};
use ssg::utils::create_theme::{
    create_theme as theme_skeleton, DETAIL_TEMPLATE, HOME_TEMPLATE, LISTING_TEMPLATE,
};
use std::collections::HashMap;
use tera::Tera;

fn add_templates(tera: &mut Tera, entries: &[Entry], prefix: &str) {
    for entry in entries {
        match entry {
            Entry::File { name, text } => {
                tera.add_raw_template(&format!("{}{}", prefix, name), text)
                    .expect("template");
            }
            Entry::Dir { name, children } => {
                add_templates(tera, children, &format!("{}{}/", prefix, name));
            }
        }
    }
}

#[test]
fn a_theme_goes_under_the_theme_directory() {
    assert_eq!(new_theme("dark", true, true), Ok("theme/dark".to_string()));
    assert_eq!(create_theme("dark", true, true), Ok("theme/dark".to_string()));
}

#[test]
fn a_theme_needs_an_initialised_project() {
    for (config, theme) in [(false, true), (true, false), (false, false)] {
        assert_eq!(new_theme("dark", config, theme), Err(SiteError::NotInitialized));
        assert_eq!(create_theme("dark", config, theme), Err(SiteError::NotInitialized));
    }
}

#[test]
fn a_site_switches_only_to_a_theme_that_exists() {
    assert_eq!(find_theme("dark", true), Ok(()));
    assert_eq!(
        find_theme("dark", false),
        Err(SiteError::ThemeNotFound {
            name: "dark".to_string()
        })
    );
}

#[test]
fn set_theme_changes_the_theme_and_nothing_else() {
    let mut custom = HashMap::new();
    custom.insert("author".to_string(), toml::Value::String("Ada".to_string()));
    let config = AppConfig {
        settings: Settings {
            title: "My Site".to_string(),
            theme: "psc".to_string(),
            out_dir: "public".to_string(),
            asset_dir: "static".to_string(),
        },
        custom: custom.clone(),
    };
    let updated = set_theme(config, "dark");
    assert_eq!(
        updated,
        AppConfig {
            settings: Settings {
                title: "My Site".to_string(),
                theme: "dark".to_string(),
                out_dir: "public".to_string(),
                asset_dir: "static".to_string(),
            },
            custom,
        }
    );
}

#[test]
fn the_theme_skeleton_holds_home_listing_and_detail() {
    let theme = theme_skeleton();
    assert_eq!(theme.len(), 2);
    assert_eq!(theme[0].name(), "index.html");
    match &theme[1] {
        Entry::Dir { name, children } => {
            assert_eq!(name, "posts");
            let names: Vec<&str> = children.iter().map(|c| c.name()).collect();
            assert_eq!(names, vec!["index.html", "template.html"]);
        }
        Entry::File { .. } => panic!("posts is a directory"),
    }
}

#[test]
fn a_new_project_has_its_paths_under_its_name() {
    let project = init("blog");
    assert_eq!(project.content_dir, "blog/content");
    assert_eq!(project.theme_dir, "blog/theme/psc");
    assert_eq!(project.asset_dir, "blog/asset");
    assert_eq!(project.config_path, "blog/config.toml");
}

#[test]
fn a_new_project_has_the_default_configuration() {
    let project = init("blog");
    assert_eq!(
        project.config,
        AppConfig {
            settings: Settings {
                title: "blog".to_string(),
                theme: "psc".to_string(),
                out_dir: "dist".to_string(),
                asset_dir: "asset".to_string(),
            },
            custom: HashMap::new(),
        }
    );
}

#[test]
fn a_new_project_has_one_sample_post() {
    let project = init("blog");
    assert_eq!(project.content.len(), 1);
    match &project.content[0] {
        Entry::Dir { name, children } => {
            assert_eq!(name, "posts");
            assert_eq!(children.len(), 1);
            assert_eq!(children[0].name(), "tests.md");
        }
        Entry::File { .. } => panic!("posts is a directory"),
    }
}

#[test]
fn a_new_project_builds() {
    let project = init("blog");
    let mut tera = Tera::default();
    add_templates(&mut tera, &project.theme, "");
    let mut site = build(&project.config, &project.theme, &project.content);
    while let Some(call) = next_call(&site) {
        let rendered = tera
            .render(&call.template, &call.context)
            .map_err(|error| EngineFailure {
                message: error.to_string(),
                cause: None,
            });
        site = record(site, rendered);
    }
    let report = finish(site).expect("no call is left");
    assert_eq!(report.error, None);
    let paths: Vec<&str> = report.artifacts.iter().map(|a| a.path.as_str()).collect();
    assert_eq!(
        paths,
        vec!["dist/index.html", "dist/posts/index.html", "dist/posts/tests.html"]
    );
    assert!(report.artifacts[0].content.contains("<h1>blog</h1>"));
    assert!(report.artifacts[2].content.contains("<h1>Hello</h1>"));
    assert!(report.artifacts[2].content.contains("This is the first post"));
}

#[test]
fn the_theme_skeleton_holds_the_default_templates() {
    let theme = theme_skeleton();
    assert_eq!(
        theme,
        vec![
            Entry::File {
                name: "index.html".to_string(),
                text: HOME_TEMPLATE.to_string(),
            },
            Entry::Dir {
                name: "posts".to_string(),
                children: vec![
                    Entry::File {
                        name: "index.html".to_string(),
                        text: LISTING_TEMPLATE.to_string(),
                    },
                    Entry::File {
                        name: "template.html".to_string(),
                        text: DETAIL_TEMPLATE.to_string(),
                    },
                ],
            },
        ]
    );
}

#[test]
fn the_default_templates_read_what_the_build_binds() {
    assert!(HOME_TEMPLATE.contains("{{ settings.title }}"));
    assert!(LISTING_TEMPLATE.contains("{{ settings.title }}"));
    assert!(DETAIL_TEMPLATE.contains("{{ title }}"));
    assert!(DETAIL_TEMPLATE.contains("{{ content | safe }}"));
}

#[test]
fn a_new_project_holds_the_sample_post_and_the_skeleton() {
    let project = init("blog");
    assert_eq!(
        project.content,
        vec![Entry::Dir {
            name: "posts".to_string(),
            children: vec![Entry::File {
                name: "tests.md".to_string(),
                text: SAMPLE_POST.to_string(),
            }],
        }]
    );
    assert_eq!(project.theme, theme_skeleton());
    assert!(SAMPLE_POST.starts_with("---\ntitle: \"Hello\"\n"));
    assert!(SAMPLE_POST.contains("# Hello"));
}
