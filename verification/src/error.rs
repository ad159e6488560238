//! The failures that stop a command, and the text that reports each.

use vstd::prelude::*;
use vstd::string::*;
use crate::text::occurs_in;
use crate::text::contains;

verus! {

/// Why a command stopped.
#[derive(Debug, Clone, PartialEq, Eq)]
pub enum SiteError {
    /// A build was asked for where the configuration file, the theme
    /// directory or the content directory is absent.
    ConfigurationMissing,
    /// A theme command was asked for outside an initialised project.
    NotInitialized,
    /// The configuration file is absent.
    ConfigFileMissing,
    /// The configuration file does not parse into the expected shape.
    ConfigurationInvalid { message: String },
    /// The theme directory holds no theme of this name.
    ThemeNotFound { name: String },
    /// A content type lacks its listing or its detail template.
    ThemeIncomplete { content_type: String },
    /// The template engine failed on this template.
    RenderFailure { template: String, message: String },
}

/// The text that reports `error`.
pub open spec fn error_text(error: SiteError) -> Seq<char> {
    match error {
        SiteError::ConfigurationMissing => "Invalid SSG configurations"@,
        SiteError::NotInitialized => "SSG not initialized"@,
        SiteError::ConfigFileMissing => "Please initialize SSG first"@,
        SiteError::ConfigurationInvalid { message } => message@,
        SiteError::ThemeNotFound { name } => "Unable to find theme `"@ + name@
            + "` in configuration."@,
        SiteError::ThemeIncomplete { content_type } => "Invalid theme, does not contain templates for \""@
            + content_type@ + "\""@,
        SiteError::RenderFailure { template, message } => "Failed to render "@ + template@ + ": "@
            + message@,
    }
}

/// What the parser's report of a rejected configuration file becomes.
/// `display` is the parser's full report, `message` its bare message. A
/// report of a missing field keeps the bare message; any other is a matter of
/// syntax and keeps the full report.
pub open spec fn config_error_text(display: Seq<char>, message: Seq<char>) -> Seq<char> {
    if occurs_in(display, "missing field"@) {
        "Configuration error = "@ + message
    } else {
        "Invalid configuration format: "@ + display
    }
}

impl SiteError {
    /// The text that reports this failure.
    pub fn message(&self) -> (text: String)
        ensures
            text@ == error_text(*self),
    {
        match self {
            SiteError::ConfigurationMissing => String::from_str("Invalid SSG configurations"),
            SiteError::NotInitialized => String::from_str("SSG not initialized"),
            SiteError::ConfigFileMissing => String::from_str("Please initialize SSG first"),
            SiteError::ConfigurationInvalid { message } => message.clone(),
            SiteError::ThemeNotFound { name } => {
                let mut text = String::from_str("Unable to find theme `");
                text.append(name.as_str());
                text.append("` in configuration.");
                text
            },
            SiteError::ThemeIncomplete { content_type } => {
                let mut text = String::from_str("Invalid theme, does not contain templates for \"");
                text.append(content_type.as_str());
                text.append("\"");
                text
            },
            SiteError::RenderFailure { template, message } => {
                let mut text = String::from_str("Failed to render ");
                text.append(template.as_str());
                text.append(": ");
                text.append(message.as_str());
                text
            },
        }
    }

    /// The failure for a configuration file that the parser rejected.
    pub fn invalid_configuration(display: &str, message: &str) -> (error: SiteError)
        ensures
            error matches SiteError::ConfigurationInvalid { message: text } && text@
                == config_error_text(display@, message@),
    {
        let text = if contains(display, "missing field") {
            let mut text = String::from_str("Configuration error = ");
            text.append(message);
            text
        } else {
            let mut text = String::from_str("Invalid configuration format: ");
            text.append(display);
            text
        };
        SiteError::ConfigurationInvalid { message: text }
    }
}

} // verus!
