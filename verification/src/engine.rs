//! What a render call comes to. The template engine itself is the caller's:
//! the library says which template to render with which context, and takes
//! back what the engine made of it.

use vstd::prelude::*;
use vstd::string::*;
use crate::error::SiteError;

verus! {

/// One rendered page on its way to the output writer.
#[derive(Debug, Clone, PartialEq, Eq)]
pub struct Artifact {
    /// Where the page goes, rooted at the output root.
    pub path: String,
    /// The rendered page.
    pub content: String,
}

/// What the engine says of a failed render: its message, and the message of
/// the cause behind it where it names one.
#[derive(Debug, Clone, PartialEq, Eq)]
pub struct EngineFailure {
    pub message: String,
    pub cause: Option<String>,
}

/// The message of a render failure: the engine's message, then its cause.
pub open spec fn failure_text(failure: EngineFailure) -> Seq<char> {
    match failure.cause {
        Some(cause) => failure.message@ + ": "@ + cause@,
        None => failure.message@,
    }
}

/// What a render call comes to. A rendered page becomes the artifact at
/// `path`; a failure becomes a render failure that names the template and
/// carries the engine's message.
pub fn page_outcome(template: &str, path: String, rendered: Result<String, EngineFailure>) -> (page:
    Result<Artifact, SiteError>)
    ensures
        match rendered {
            Ok(html) => page matches Ok(artifact) && artifact.path == path && artifact.content
                == html,
            Err(failure) => page matches Err(SiteError::RenderFailure { template: named, message })
                && named@ == template@ && message@ == failure_text(failure),
        },
{
    match rendered {
        Ok(html) => Ok(Artifact { path, content: html }),
        Err(failure) => {
            let mut message = failure.message;
            if let Some(cause) = failure.cause {
                message.append(": ");
                message.append(cause.as_str());
            }
            Err(SiteError::RenderFailure { template: String::from_str(template), message })
        },
    }
}

} // verus!
