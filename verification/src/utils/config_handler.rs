//! The site configuration: the settings that every build needs, and the
//! custom variables that templates may read.

use std::collections::HashMap;
use vstd::prelude::*;
use vstd::string::*;
use crate::error::SiteError;

verus! {

/// A value of a TOML document, `toml::Value`. The library carries such
/// values from the configuration to the templates and never looks inside.
#[verifier::external_type_specification]
#[verifier::external_body]
pub struct ExTomlValue(toml::Value);

/// The settings of a site. They stay as they are for the whole of a build.
#[derive(Debug, Clone, PartialEq, Eq)]
pub struct Settings {
    /// The title of the site.
    pub title: String,
    /// The name of the theme, a directory under `theme`.
    pub theme: String,
    /// The output root.
    pub out_dir: String,
    /// The asset directory.
    pub asset_dir: String,
}

/// The whole configuration: the settings, and every other top-level key of
/// the configuration file as a custom variable.
#[derive(Debug, Clone, PartialEq)]
pub struct AppConfig {
    pub settings: Settings,
    pub custom: HashMap<String, toml::Value>,
}

/// The output root of a site that names none.
pub fn default_out_dir() -> (dir: String)
    ensures
        dir@ == "dist"@,
{
    String::from_str("dist")
}

/// The asset directory of a site that names none.
pub fn default_asset_dir() -> (dir: String)
    ensures
        dir@ == "asset"@,
{
    String::from_str("asset")
}

/// The configuration file has to be there before it is read. `found` says
/// whether it is; where it is not, the project was never initialised.
pub fn find_config(found: bool) -> (outcome: Result<(), SiteError>)
    ensures
        outcome is Ok <==> found,
        outcome matches Err(error) ==> error == SiteError::ConfigFileMissing,
{
    if found {
        Ok(())
    } else {
        Err(SiteError::ConfigFileMissing)
    }
}

impl Settings {
    /// The settings of a site with the given title and theme. A directory
    /// that is not given takes its default.
    pub fn new(
        title: String,
        theme: String,
        out_dir: Option<String>,
        asset_dir: Option<String>,
    ) -> (settings: Settings)
        ensures
            settings.title == title,
            settings.theme == theme,
            settings.out_dir@ == (match out_dir {
                Some(dir) => dir@,
                None => "dist"@,
            }),
            settings.asset_dir@ == (match asset_dir {
                Some(dir) => dir@,
                None => "asset"@,
            }),
    {
        let out_dir = match out_dir {
            Some(dir) => dir,
            None => default_out_dir(),
        };
        let asset_dir = match asset_dir {
            Some(dir) => dir,
            None => default_asset_dir(),
        };
        Settings { title, theme, out_dir, asset_dir }
    }
}

} // verus!
