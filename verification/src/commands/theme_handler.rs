//! The commands that create a theme and that switch the site to a theme.

use vstd::prelude::*;
use vstd::string::*;
use crate::commands::create_theme::{invoke, theme_path};
use crate::error::SiteError;
use crate::utils::config_handler::{AppConfig, Settings};

verus! {

/// Decides where the skeleton of a new theme goes, as
/// [`invoke`](crate::commands::create_theme::invoke) does.
pub fn create_theme(name: &str, config_found: bool, theme_dir_found: bool) -> (path: Result<
    String,
    SiteError,
>)
    ensures
        path is Ok <==> config_found && theme_dir_found,
        path matches Ok(dir) ==> dir@ == theme_path(name@),
        path matches Err(error) ==> error == SiteError::NotInitialized,
{
    invoke(name, config_found, theme_dir_found)
}

/// A site can switch only to a theme that exists. `found` says whether the
/// directory of the theme does.
pub fn find_theme(name: &str, found: bool) -> (checked: Result<(), SiteError>)
    ensures
        checked is Ok <==> found,
        checked matches Err(error) ==> error matches SiteError::ThemeNotFound { name: missing }
            && missing@ == name@,
{
    if found {
        Ok(())
    } else {
        Err(SiteError::ThemeNotFound { name: String::from_str(name) })
    }
}

/// The configuration with the theme switched to `name`. Everything else
/// stays as it is.
pub fn set_theme(config: AppConfig, name: &str) -> (updated: AppConfig)
    ensures
        updated.settings.theme@ == name@,
        updated.settings.title == config.settings.title,
        updated.settings.out_dir == config.settings.out_dir,
        updated.settings.asset_dir == config.settings.asset_dir,
        updated.custom == config.custom,
{
    AppConfig {
        settings: Settings {
            title: config.settings.title,
            theme: String::from_str(name),
            out_dir: config.settings.out_dir,
            asset_dir: config.settings.asset_dir,
        },
        custom: config.custom,
    }
}

} // verus!
