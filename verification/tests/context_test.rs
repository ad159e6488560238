use ssg::context::{build_global_context, build_item_context};
use ssg::front_matter::{FrontField, FrontValue};
use ssg::utils::config_handler::{AppConfig, Settings};
use std::collections::HashMap;
use tera::{Context, Value};

fn config() -> AppConfig {
    let mut custom = HashMap::new();
    custom.insert("author".to_string(), toml::Value::String("Ada".to_string()));
    custom.insert("year".to_string(), toml::Value::Integer(2024));
    custom.insert("draft".to_string(), toml::Value::Boolean(false));
    custom.insert(
        "links".to_string(),
        toml::Value::Array(vec![
            toml::Value::String("a".to_string()),
            toml::Value::String("b".to_string()),
        ]),
    );
    AppConfig {
        settings: Settings {
            title: "My Site".to_string(),
            theme: "psc".to_string(),
            out_dir: "dist".to_string(),
            asset_dir: "asset".to_string(),
        },
        custom,
    }
}

fn text(s: &str) -> Value {
    Value::String(s.to_string())
}

fn field(key: &str, value: FrontValue) -> FrontField {
    FrontField {
        key: key.to_string(),
        value,
    }
}

fn strings(items: &[&str]) -> FrontValue {
    FrontValue::List(items.iter().map(|s| Some(s.to_string())).collect())
}

#[test]
fn global_context_binds_settings_and_custom_apart() {
    let ctx = build_global_context(&config());
    let settings = ctx.get("settings").expect("settings");
    assert_eq!(settings.get("title"), Some(&text("My Site")));
    assert_eq!(settings.get("theme"), Some(&text("psc")));
    assert_eq!(settings.get("out_dir"), Some(&text("dist")));
    assert_eq!(settings.get("asset_dir"), Some(&text("asset")));
    assert_eq!(settings.as_object().map(|o| o.len()), Some(4));
    let custom = ctx.get("custom").expect("custom");
    assert_eq!(custom.get("author"), Some(&text("Ada")));
    assert_eq!(custom.get("year"), Some(&Value::from(2024)));
    assert_eq!(custom.get("draft"), Some(&Value::Bool(false)));
    assert_eq!(
        custom.get("links"),
        Some(&Value::Array(vec![text("a"), text("b")]))
    );
    assert!(ctx.get("author").is_none());
    assert!(ctx.get("title").is_none());
}

#[test]
fn global_context_binds_nothing_else() {
    let ctx = build_global_context(&config());
    let mut expected = Context::new();
    expected.insert("settings", ctx.get("settings").unwrap());
    expected.insert("custom", ctx.get("custom").unwrap());
    assert_eq!(ctx, expected);
}

#[test]
fn item_context_starts_from_the_global_context() {
    let global = build_global_context(&config());
    let ctx = build_item_context(&global, &Vec::new(), "<p>x</p>");
    assert_eq!(ctx.get("settings"), global.get("settings"));
    assert_eq!(ctx.get("custom"), global.get("custom"));
    assert_eq!(ctx.get("content"), Some(&text("<p>x</p>")));
    assert!(global.get("content").is_none());
}

#[test]
fn item_context_binds_strings_and_arrays_of_strings() {
    let global = build_global_context(&config());
    let fields = vec![
        field("title", FrontValue::Text("Hi".to_string())),
        field("tags", strings(&["zeta", "alpha", "mid"])),
        field("none", strings(&[])),
    ];
    let ctx = build_item_context(&global, &fields, "body");
    assert_eq!(ctx.get("title"), Some(&text("Hi")));
    assert_eq!(
        ctx.get("tags"),
        Some(&Value::Array(vec![text("zeta"), text("alpha"), text("mid")]))
    );
    assert_eq!(ctx.get("none"), Some(&Value::Array(vec![])));
}

#[test]
fn item_context_drops_values_of_other_kinds() {
    let global = build_global_context(&config());
    let fields = vec![
        field("count", FrontValue::Other),
        field(
            "mixed",
            FrontValue::List(vec![Some("one".to_string()), None]),
        ),
        field("title", FrontValue::Text("Hi".to_string())),
    ];
    let ctx = build_item_context(&global, &fields, "body");
    assert!(ctx.get("count").is_none());
    assert!(ctx.get("mixed").is_none());
    assert_eq!(ctx.get("title"), Some(&text("Hi")));
}

#[test]
fn front_matter_stands_over_site_wide_bindings() {
    let global = build_global_context(&config());
    let fields = vec![
        field("settings", FrontValue::Text("mine".to_string())),
        field("custom", strings(&["x"])),
    ];
    let ctx = build_item_context(&global, &fields, "body");
    assert_eq!(ctx.get("settings"), Some(&text("mine")));
    assert_eq!(ctx.get("custom"), Some(&Value::Array(vec![text("x")])));
}

#[test]
fn a_dropped_value_leaves_the_site_wide_binding() {
    let global = build_global_context(&config());
    let fields = vec![field("settings", FrontValue::Other)];
    let ctx = build_item_context(&global, &fields, "body");
    assert_eq!(ctx.get("settings"), global.get("settings"));
}

#[test]
fn the_rendered_body_stands_over_a_field_named_content() {
    let global = build_global_context(&config());
    let fields = vec![field("content", FrontValue::Text("from front matter".to_string()))];
    let ctx = build_item_context(&global, &fields, "<h1>Hello</h1>");
    assert_eq!(ctx.get("content"), Some(&text("<h1>Hello</h1>")));
}

#[test]
fn the_order_of_the_fields_does_not_matter() {
    let global = build_global_context(&config());
    let a = vec![
        field("title", FrontValue::Text("Hi".to_string())),
        field("tags", strings(&["x", "y"])),
        field("count", FrontValue::Other),
    ];
    let b = vec![a[2].clone(), a[1].clone(), a[0].clone()];
    assert_eq!(
        build_item_context(&global, &a, "body"),
        build_item_context(&global, &b, "body")
    );
}

#[test]
fn the_global_context_is_left_as_it_was() {
    let global = build_global_context(&config());
    let before = global.clone();
    let fields = vec![field("title", FrontValue::Text("Hi".to_string()))];
    let _ = build_item_context(&global, &fields, "body");
    assert_eq!(global, before);
}
