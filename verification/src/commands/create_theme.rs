//! The command that adds the skeleton of a theme to a project.

use vstd::prelude::*;
use vstd::string::*;
use crate::error::SiteError;
use crate::text::{child_of, child_path};

verus! {

/// Where the theme of the given name stands: under `theme`.
pub open spec fn theme_path(name: Seq<char>) -> Seq<char> {
    child_path("theme"@, name)
}

/// Where the theme of the given name stands.
pub fn theme_dir(name: &str) -> (dir: String)
    ensures
        dir@ == theme_path(name@),
{
    child_of("theme", name)
}

/// Decides where the skeleton of a new theme goes. A project is initialised
/// where its configuration file and its theme directory are both found;
/// anywhere else the command fails.
pub fn invoke(name: &str, config_found: bool, theme_dir_found: bool) -> (path: Result<
    String,
    SiteError,
>)
    ensures
        path is Ok <==> config_found && theme_dir_found,
        path matches Ok(dir) ==> dir@ == theme_path(name@),
        path matches Err(error) ==> error == SiteError::NotInitialized,
{
    if !config_found || !theme_dir_found {
        return Err(SiteError::NotInitialized);
    }
    Ok(theme_dir(name))
}

} // verus!
