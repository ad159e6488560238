use ssg::commands::build_site::{
    asset_copy, check_workspace, finish, invoke, item_context, job_context, next_call, record,
    template_glob, AssetCopy, BuildReport,
};
use ssg::context::build_global_context;
use ssg::engine::{page_outcome, Artifact, EngineFailure};
use ssg::error::SiteError;
use ssg::plan::{Job, JobKind};
use ssg::tree::Entry;
use ssg::utils::config_handler::{AppConfig, Settings};
use std::collections::HashMap;
use tera::{Context, Tera};

fn file(name: &str, text: &str) -> Entry {
    Entry::File {
        name: name.to_string(),
        text: text.to_string(),
    }
}

fn dir(name: &str, children: Vec<Entry>) -> Entry {
    Entry::Dir {
        name: name.to_string(),
        children,
    }
}

fn config(theme: &str) -> AppConfig {
    let mut custom = HashMap::new();
    custom.insert("author".to_string(), toml::Value::String("Ada".to_string()));
    AppConfig {
        settings: Settings {
            title: "My Site".to_string(),
            theme: theme.to_string(),
            out_dir: "dist".to_string(),
            asset_dir: "asset".to_string(),
        },
        custom,
    }
}

fn engine(templates: &[(&str, &str)]) -> Tera {
    let mut tera = Tera::default();
    for (name, text) in templates {
        tera.add_raw_template(name, text).expect("template");
    }
    tera
}

fn render(tera: &Tera, template: &str, ctx: &Context) -> Result<String, EngineFailure> {
    tera.render(template, ctx).map_err(|error| EngineFailure {
        message: error.to_string(),
        cause: std::error::Error::source(&error).map(|cause| cause.to_string()),
    })
}

fn render_page(
    tera: &Tera,
    template: &str,
    ctx: &Context,
    path: String,
) -> Result<Artifact, SiteError> {
    page_outcome(template, path, render(tera, template, ctx))
}

fn run_job(tera: &Tera, global: &Context, job: &Job) -> Result<Artifact, SiteError> {
    render_page(tera, &job.template, &job_context(global, job), job.path.clone())
}

fn built(config: &AppConfig, theme: &Vec<Entry>, content: &Vec<Entry>, tera: &Tera) -> BuildReport {
    let mut build = invoke(config, theme, content);
    while let Some(call) = next_call(&build) {
        let rendered = render(tera, &call.template, &call.context);
        build = record(build, rendered);
    }
    finish(build).expect("no call is left")
}

fn paths(report: &BuildReport) -> Vec<&str> {
    report.artifacts.iter().map(|a| a.path.as_str()).collect()
}

fn page<'a>(report: &'a BuildReport, path: &str) -> &'a str {
    report
        .artifacts
        .iter()
        .find(|a| a.path == path)
        .map(|a| a.content.as_str())
        .expect("page")
}

#[test]
fn a_build_needs_configuration_theme_and_content() {
    assert_eq!(check_workspace(true, true, true), Ok(()));
    for (c, t, n) in [
        (false, true, true),
        (true, false, true),
        (true, true, false),
        (false, false, false),
    ] {
        assert_eq!(check_workspace(c, t, n), Err(SiteError::ConfigurationMissing));
    }
}

#[test]
fn assets_go_under_the_output_root() {
    assert_eq!(
        asset_copy(&config("x"), true),
        Some(AssetCopy {
            from: "asset".to_string(),
            to: "dist/asset".to_string(),
        })
    );
}

#[test]
fn assets_that_are_not_there_are_not_copied() {
    assert_eq!(asset_copy(&config("x"), false), None);
}

#[test]
fn templates_are_the_html_files_under_the_theme() {
    assert_eq!(template_glob("psc"), "theme/psc/**/*.html");
}

#[test]
fn item_context_binds_body_over_front_matter_over_site() {
    let global = build_global_context(&config("x"));
    let ctx = item_context(
        &global,
        "---\ntitle: \"Hi\"\ncontent: mine\nsettings: [a, b]\ncount: 3\n---\n# Hello",
    );
    assert_eq!(
        ctx.get("content"),
        Some(&tera::Value::String("<h1>Hello</h1>\n".to_string()))
    );
    assert_eq!(ctx.get("title"), Some(&tera::Value::String("Hi".to_string())));
    assert_eq!(
        ctx.get("settings"),
        Some(&tera::Value::Array(vec![
            tera::Value::String("a".to_string()),
            tera::Value::String("b".to_string()),
        ]))
    );
    assert_eq!(ctx.get("custom"), global.get("custom"));
    assert!(ctx.get("count").is_none());
}

#[test]
fn pages_and_listings_see_the_site_wide_context() {
    let global = build_global_context(&config("x"));
    for kind in [JobKind::Page, JobKind::Listing] {
        let job = Job {
            kind,
            content_type: "posts".to_string(),
            template: "posts/index.html".to_string(),
            path: "dist/posts/index.html".to_string(),
            text: "---\ntitle: ignored\n---\nignored".to_string(),
        };
        assert_eq!(job_context(&global, &job), global);
    }
}

#[test]
fn a_rendered_page_becomes_an_artifact() {
    assert_eq!(
        page_outcome("index.html", "dist/index.html".to_string(), Ok("<p>x</p>".to_string())),
        Ok(Artifact {
            path: "dist/index.html".to_string(),
            content: "<p>x</p>".to_string(),
        })
    );
}

#[test]
fn a_failed_render_names_the_template_and_keeps_the_message() {
    assert_eq!(
        page_outcome(
            "posts/template.html",
            "dist/posts/a.html".to_string(),
            Err(EngineFailure {
                message: "Failed to render 'posts/template.html'".to_string(),
                cause: Some("Variable `title` not found".to_string()),
            })
        ),
        Err(SiteError::RenderFailure {
            template: "posts/template.html".to_string(),
            message: "Failed to render 'posts/template.html': Variable `title` not found"
                .to_string(),
        })
    );
    assert_eq!(
        page_outcome(
            "x.html",
            "dist/x.html".to_string(),
            Err(EngineFailure {
                message: "Template 'x.html' not found".to_string(),
                cause: None,
            })
        ),
        Err(SiteError::RenderFailure {
            template: "x.html".to_string(),
            message: "Template 'x.html' not found".to_string(),
        })
    );
}

#[test]
fn a_render_makes_the_page_of_its_template() {
    let tera = engine(&[("hello.html", "Hello {{ name }}!")]);
    let mut ctx = Context::new();
    ctx.insert("name", "world");
    assert_eq!(
        render_page(&tera, "hello.html", &ctx, "dist/hello.html".to_string()),
        Ok(Artifact {
            path: "dist/hello.html".to_string(),
            content: "Hello world!".to_string(),
        })
    );
}

#[test]
fn a_missing_template_is_a_render_failure() {
    let tera = engine(&[]);
    assert_eq!(
        render_page(&tera, "gone.html", &Context::new(), "dist/gone.html".to_string()),
        Err(SiteError::RenderFailure {
            template: "gone.html".to_string(),
            message: "Template 'gone.html' not found".to_string(),
        })
    );
}

#[test]
fn a_render_failure_carries_its_cause() {
    let tera = engine(&[("t.html", "{{ missing }}")]);
    let page = render_page(&tera, "t.html", &Context::new(), "dist/t.html".to_string());
    match page {
        Err(SiteError::RenderFailure { template, message }) => {
            assert_eq!(template, "t.html");
            assert!(message.starts_with("Failed to render 't.html': "));
            assert!(message.contains("missing"));
        }
        other => panic!("unexpected outcome: {:?}", other),
    }
}

#[test]
fn a_detail_job_sees_front_matter_and_body() {
    let tera = engine(&[("posts/template.html", "{{ title }}|{{ content | safe }}|{{ settings.title }}")]);
    let global = build_global_context(&config("x"));
    let job = Job {
        kind: JobKind::Detail,
        content_type: "posts".to_string(),
        template: "posts/template.html".to_string(),
        path: "dist/posts/hello.html".to_string(),
        text: "---\ntitle: \"Hi\"\n---\n# Hello".to_string(),
    };
    assert_eq!(
        run_job(&tera, &global, &job),
        Ok(Artifact {
            path: "dist/posts/hello.html".to_string(),
            content: "Hi|<h1>Hello</h1>\n|My Site".to_string(),
        })
    );
}

#[test]
fn a_listing_job_sees_the_site_wide_context_only() {
    let tera = engine(&[(
        "posts/index.html",
        "{{ settings.title }} by {{ custom.author }}{% if content %} with content{% endif %}",
    )]);
    let global = build_global_context(&config("x"));
    let job = Job {
        kind: JobKind::Listing,
        content_type: "posts".to_string(),
        template: "posts/index.html".to_string(),
        path: "dist/posts/index.html".to_string(),
        text: String::new(),
    };
    assert_eq!(
        run_job(&tera, &global, &job),
        Ok(Artifact {
            path: "dist/posts/index.html".to_string(),
            content: "My Site by Ada".to_string(),
        })
    );
}

#[test]
fn one_post_with_front_matter_is_built() {
    let theme = vec![dir(
        "posts",
        vec![file("index.html", ""), file("template.html", "")],
    )];
    let content = vec![dir(
        "posts",
        vec![file("hello.md", "---\ntitle: \"Hi\"\n---\n# Hello")],
    )];
    let tera = engine(&[
        ("posts/index.html", "<h1>Posts</h1>"),
        ("posts/template.html", "<title>{{ title }}</title>{{ content | safe }}"),
    ]);
    let report = built(&config("x"), &theme, &content, &tera);
    assert_eq!(report.error, None);
    assert_eq!(paths(&report), vec!["dist/posts/index.html", "dist/posts/hello.html"]);
    let hello = page(&report, "dist/posts/hello.html");
    assert!(hello.contains("<h1>Hello</h1>"));
    assert!(hello.contains("Hi"));
    assert_eq!(page(&report, "dist/posts/index.html"), "<h1>Posts</h1>");
}

#[test]
fn a_theme_without_the_detail_template_fails_the_build() {
    let theme = vec![dir("posts", vec![file("index.html", "")])];
    let content = vec![dir("posts", vec![file("hello.md", "# Hello")])];
    let tera = engine(&[("posts/index.html", "<h1>Posts</h1>")]);
    let report = built(&config("x"), &theme, &content, &tera);
    assert_eq!(
        report.error,
        Some(SiteError::ThemeIncomplete {
            content_type: "posts".to_string()
        })
    );
    assert!(report.error.as_ref().unwrap().message().contains("posts"));
    assert!(report.artifacts.is_empty());
    assert!(!report.artifacts.iter().any(|a| a.path.starts_with("dist/posts/")));
}

#[test]
fn a_nested_item_keeps_its_directory() {
    let theme = vec![dir(
        "posts",
        vec![file("index.html", ""), file("template.html", "")],
    )];
    let content = vec![dir(
        "posts",
        vec![dir("nested", vec![file("a.md", "text")])],
    )];
    let tera = engine(&[
        ("posts/index.html", "list"),
        ("posts/template.html", "{{ content | safe }}"),
    ]);
    let report = built(&config("x"), &theme, &content, &tera);
    assert_eq!(report.error, None);
    assert_eq!(
        paths(&report),
        vec!["dist/posts/index.html", "dist/posts/nested/a.html"]
    );
    assert_eq!(page(&report, "dist/posts/nested/a.html"), "<p>text</p>\n");
}

#[test]
fn top_level_pages_are_rendered_with_the_site_wide_context() {
    let theme = vec![file("index.html", ""), file("404.html", ""), file("notes.txt", "")];
    let tera = engine(&[
        ("index.html", "Welcome to {{ settings.title }}"),
        ("404.html", "Not found, says {{ custom.author }}"),
    ]);
    let report = built(&config("x"), &theme, &Vec::new(), &tera);
    assert_eq!(report.error, None);
    assert_eq!(paths(&report), vec!["dist/index.html", "dist/404.html"]);
    assert_eq!(page(&report, "dist/index.html"), "Welcome to My Site");
    assert_eq!(page(&report, "dist/404.html"), "Not found, says Ada");
}

#[test]
fn a_render_failure_stops_the_build_and_keeps_the_pages_made() {
    let theme = vec![
        file("index.html", ""),
        dir("posts", vec![file("index.html", ""), file("template.html", "")]),
    ];
    let content = vec![dir(
        "posts",
        vec![
            file("good.md", "---\ntitle: T\n---\nfine"),
            file("bad.md", "no title here"),
            file("later.md", "---\ntitle: L\n---\nnever rendered"),
        ],
    )];
    let tera = engine(&[
        ("index.html", "home"),
        ("posts/index.html", "list"),
        ("posts/template.html", "{{ title }}"),
    ]);
    let report = built(&config("x"), &theme, &content, &tera);
    assert_eq!(
        paths(&report),
        vec!["dist/index.html", "dist/posts/index.html", "dist/posts/good.html"]
    );
    match report.error {
        Some(SiteError::RenderFailure { template, .. }) => {
            assert_eq!(template, "posts/template.html")
        }
        other => panic!("unexpected outcome: {:?}", other),
    }
}

#[test]
fn an_incomplete_theme_stops_the_build_after_the_earlier_content_types() {
    let theme = vec![dir(
        "posts",
        vec![file("index.html", ""), file("template.html", "")],
    )];
    let content = vec![
        dir("posts", vec![file("a.md", "A")]),
        dir("pages", vec![file("p.md", "P")]),
    ];
    let tera = engine(&[
        ("posts/index.html", "list"),
        ("posts/template.html", "{{ content | safe }}"),
    ]);
    let report = built(&config("x"), &theme, &content, &tera);
    assert_eq!(paths(&report), vec!["dist/posts/index.html", "dist/posts/a.html"]);
    assert_eq!(
        report.error,
        Some(SiteError::ThemeIncomplete {
            content_type: "pages".to_string()
        })
    );
}

#[test]
fn front_matter_arrays_reach_the_template_in_order() {
    let theme = vec![dir(
        "posts",
        vec![file("index.html", ""), file("template.html", "")],
    )];
    let content = vec![dir(
        "posts",
        vec![file(
            "a.md",
            "---\ntags:\n  - zeta\n  - alpha\n  - mid\ncount: 3\n---\nbody",
        )],
    )];
    let tera = engine(&[
        ("posts/index.html", "list"),
        (
            "posts/template.html",
            "{% for tag in tags %}[{{ tag }}]{% endfor %}{% if count %}count{% endif %}",
        ),
    ]);
    let report = built(&config("x"), &theme, &content, &tera);
    assert_eq!(report.error, None);
    assert_eq!(page(&report, "dist/posts/a.html"), "[zeta][alpha][mid]");
}

#[test]
fn building_twice_gives_the_same_pages() {
    let theme = vec![
        file("index.html", ""),
        dir("posts", vec![file("index.html", ""), file("template.html", "")]),
    ];
    let content = vec![dir(
        "posts",
        vec![
            file("a.md", "---\ntitle: A\ntags: [x, y]\nk: v\n---\n# A"),
            dir("nested", vec![file("b.md", "---\ntitle: B\n---\n*b*")]),
        ],
    )];
    let tera = engine(&[
        ("index.html", "{{ settings.title }}"),
        ("posts/index.html", "list"),
        ("posts/template.html", "{{ title }}{{ content | safe }}"),
    ]);
    let first = built(&config("x"), &theme, &content, &tera);
    let second = built(&config("x"), &theme, &content, &tera);
    assert_eq!(first.error, None);
    assert_eq!(first, second);
}

#[test]
fn a_build_starts_with_its_plan_and_no_page() {
    let theme = vec![
        file("index.html", ""),
        dir("posts", vec![file("index.html", ""), file("template.html", "")]),
    ];
    let content = vec![dir("posts", vec![file("a.md", "A")])];
    let build = invoke(&config("x"), &theme, &content);
    let planned: Vec<&str> = build.plan.jobs.iter().map(|j| j.path.as_str()).collect();
    assert_eq!(
        planned,
        vec!["dist/index.html", "dist/posts/index.html", "dist/posts/a.html"]
    );
    assert_eq!(build.plan.halted, None);
    assert_eq!(build.global, build_global_context(&config("x")));
    assert!(build.artifacts.is_empty());
    assert_eq!(build.error, None);
}

#[test]
fn the_next_call_is_that_of_the_first_job_without_a_page() {
    let theme = vec![
        file("index.html", ""),
        dir("posts", vec![file("index.html", ""), file("template.html", "")]),
    ];
    let content = vec![dir("posts", vec![file("a.md", "---\ntitle: T\n---\nbody")])];
    let mut build = invoke(&config("x"), &theme, &content);
    let global = build_global_context(&config("x"));

    let first = next_call(&build).expect("first call");
    assert_eq!(first.template, "index.html");
    assert_eq!(first.context, global);
    build = record(build, Ok("home".to_string()));

    let second = next_call(&build).expect("second call");
    assert_eq!(second.template, "posts/index.html");
    assert_eq!(second.context, global);
    build = record(build, Ok("list".to_string()));

    let third = next_call(&build).expect("third call");
    assert_eq!(third.template, "posts/template.html");
    assert_eq!(
        third.context,
        item_context(&global, "---\ntitle: T\n---\nbody")
    );
    build = record(build, Ok("page".to_string()));

    assert!(next_call(&build).is_none());
    assert_eq!(
        finish(build),
        Some(BuildReport {
            artifacts: vec![
                Artifact {
                    path: "dist/index.html".to_string(),
                    content: "home".to_string(),
                },
                Artifact {
                    path: "dist/posts/index.html".to_string(),
                    content: "list".to_string(),
                },
                Artifact {
                    path: "dist/posts/a.html".to_string(),
                    content: "page".to_string(),
                },
            ],
            error: None,
        })
    );
}

#[test]
fn a_recorded_failure_stops_the_calls() {
    let theme = vec![file("index.html", ""), file("about.html", "")];
    let mut build = invoke(&config("x"), &theme, &Vec::new());
    build = record(build, Ok("home".to_string()));
    build = record(
        build,
        Err(EngineFailure {
            message: "Failed to render 'about.html'".to_string(),
            cause: Some("Variable `x` not found".to_string()),
        }),
    );
    assert!(next_call(&build).is_none());
    build = record(build, Ok("ignored".to_string()));
    assert_eq!(
        finish(build),
        Some(BuildReport {
            artifacts: vec![Artifact {
                path: "dist/index.html".to_string(),
                content: "home".to_string(),
            }],
            error: Some(SiteError::RenderFailure {
                template: "about.html".to_string(),
                message: "Failed to render 'about.html': Variable `x` not found".to_string(),
            }),
        })
    );
}

#[test]
fn a_build_with_a_call_left_has_no_report() {
    let theme = vec![file("index.html", "")];
    let build = invoke(&config("x"), &theme, &Vec::new());
    assert!(next_call(&build).is_some());
    assert_eq!(finish(build), None);
}

#[test]
fn a_record_without_a_call_left_changes_nothing() {
    let build = invoke(&config("x"), &Vec::new(), &Vec::new());
    assert!(next_call(&build).is_none());
    let build = record(build, Ok("stray".to_string()));
    assert_eq!(
        finish(build),
        Some(BuildReport {
            artifacts: Vec::new(),
            error: None,
        })
    );
}

#[test]
fn a_halted_plan_ends_in_an_incomplete_theme() {
    let content = vec![dir("posts", vec![file("a.md", "A")])];
    let build = invoke(&config("x"), &Vec::new(), &content);
    assert!(next_call(&build).is_none());
    assert_eq!(
        finish(build),
        Some(BuildReport {
            artifacts: Vec::new(),
            error: Some(SiteError::ThemeIncomplete {
                content_type: "posts".to_string()
            }),
        })
    );
}
