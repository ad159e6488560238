use ssg::error::SiteError;
use ssg::utils::config_handler::{
    default_asset_dir, default_out_dir, find_config, AppConfig, Settings,
};
use std::collections::HashMap;

#[test]
fn default_directories() {
    assert_eq!(default_out_dir(), "dist");
    assert_eq!(default_asset_dir(), "asset");
}

#[test]
fn settings_take_defaults_where_a_directory_is_not_given() {
    let settings = Settings::new("Site".to_string(), "psc".to_string(), None, None);
    assert_eq!(settings.title, "Site");
    assert_eq!(settings.theme, "psc");
    assert_eq!(settings.out_dir, "dist");
    assert_eq!(settings.asset_dir, "asset");
}

#[test]
fn settings_keep_the_directories_that_are_given() {
    let settings = Settings::new(
        "Site".to_string(),
        "psc".to_string(),
        Some("public".to_string()),
        Some("static".to_string()),
    );
    assert_eq!(settings.out_dir, "public");
    assert_eq!(settings.asset_dir, "static");
}

#[test]
fn configuration_holds_settings_and_custom_variables() {
    let mut custom = HashMap::new();
    custom.insert("author".to_string(), toml::Value::String("Ada".to_string()));
    let config = AppConfig {
        settings: Settings::new("Site".to_string(), "psc".to_string(), None, None),
        custom,
    };
    assert_eq!(config.settings.title, "Site");
    assert_eq!(
        config.custom.get("author"),
        Some(&toml::Value::String("Ada".to_string()))
    );
}

#[test]
fn a_missing_field_keeps_the_bare_message() {
    let error = SiteError::invalid_configuration(
        "TOML parse error at line 1, column 1\nmissing field `title`\n",
        "missing field `title`",
    );
    assert_eq!(
        error,
        SiteError::ConfigurationInvalid {
            message: "Configuration error = missing field `title`".to_string()
        }
    );
}

#[test]
fn a_syntax_error_keeps_the_full_report() {
    let failure = "title = ".parse::<toml::Table>().unwrap_err();
    let display = failure.to_string();
    assert!(!display.contains("missing field"));
    let error = SiteError::invalid_configuration(&display, failure.message());
    assert_eq!(
        error,
        SiteError::ConfigurationInvalid {
            message: format!("Invalid configuration format: {}", display)
        }
    );
}

#[test]
fn each_failure_has_its_text() {
    assert_eq!(
        SiteError::ConfigurationMissing.message(),
        "Invalid SSG configurations"
    );
    assert_eq!(SiteError::NotInitialized.message(), "SSG not initialized");
    assert_eq!(
        SiteError::ConfigFileMissing.message(),
        "Please initialize SSG first"
    );
    assert_eq!(
        SiteError::ConfigurationInvalid {
            message: "broken".to_string()
        }
        .message(),
        "broken"
    );
    assert_eq!(
        SiteError::ThemeNotFound {
            name: "dark".to_string()
        }
        .message(),
        "Unable to find theme `dark` in configuration."
    );
    assert_eq!(
        SiteError::ThemeIncomplete {
            content_type: "posts".to_string()
        }
        .message(),
        "Invalid theme, does not contain templates for \"posts\""
    );
    assert_eq!(
        SiteError::RenderFailure {
            template: "posts/template.html".to_string(),
            message: "no such variable".to_string()
        }
        .message(),
        "Failed to render posts/template.html: no such variable"
    );
}

#[test]
fn a_missing_configuration_file_is_a_project_never_initialised() {
    assert_eq!(find_config(true), Ok(()));
    assert_eq!(find_config(false), Err(SiteError::ConfigFileMissing));
}
