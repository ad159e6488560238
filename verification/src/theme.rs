//! The binding of a content type to the two templates that its theme must
//! hold for it.

use vstd::prelude::*;
use vstd::string::*;
use crate::error::SiteError;
use crate::text::{child_of, child_path, same_text};
use crate::tree::{find_entry, has_entry, Entry};

verus! {

/// The templates of one content type, each named by its path relative to the
/// theme root.
#[derive(Debug, Clone, PartialEq, Eq)]
pub struct ThemeBinding {
    /// The listing template, rendered once for the content type.
    pub listing: String,
    /// The detail template, rendered once for each content item.
    pub detail: String,
}

/// The name of the listing template of a content type.
pub open spec fn listing_template(content_type: Seq<char>) -> Seq<char> {
    child_path(content_type, "index.html"@)
}

/// The name of the detail template of a content type.
pub open spec fn detail_template(content_type: Seq<char>) -> Seq<char> {
    child_path(content_type, "template.html"@)
}

/// The entry is the theme directory of the content type and holds both of
/// its templates.
pub open spec fn binds(entry: Entry, content_type: Seq<char>) -> bool {
    match entry {
        Entry::File { .. } => false,
        Entry::Dir { name, children } => name@ == content_type && has_entry(
            children@,
            "index.html"@,
        ) && has_entry(children@, "template.html"@),
    }
}

/// The theme holds a directory of the content type's name with both
/// templates in it.
pub open spec fn is_bound(theme: Seq<Entry>, content_type: Seq<char>) -> bool {
    exists|i: int| 0 <= i < theme.len() && binds(#[trigger] theme[i], content_type)
}

/// Looks up the two templates of a content type in the listing of the
/// theme root. They are found exactly where the theme holds a directory of
/// that name with an `index.html` and a `template.html` in it; anywhere
/// else the theme is incomplete for this content type.
pub fn resolve_binding(theme: &Vec<Entry>, content_type: &str) -> (found: Result<
    ThemeBinding,
    SiteError,
>)
    ensures
        found is Ok <==> is_bound(theme@, content_type@),
        found matches Ok(binding) ==> binding.listing@ == listing_template(content_type@)
            && binding.detail@ == detail_template(content_type@),
        found matches Err(error) ==> error matches SiteError::ThemeIncomplete { content_type: named }
            && named@ == content_type@,
{
    let mut i: usize = 0;
    while i < theme.len()
        invariant
            i <= theme.len(),
            forall|j: int| 0 <= j < i ==> !binds(#[trigger] theme@[j], content_type@),
        decreases theme.len() - i,
    {
        if let Entry::Dir { name, children } = &theme[i] {
            if same_text(name.as_str(), content_type) && find_entry(children, "index.html")
                && find_entry(children, "template.html") {
                return Ok(
                    ThemeBinding {
                        listing: child_of(content_type, "index.html"),
                        detail: child_of(content_type, "template.html"),
                    },
                );
            }
        }
        i = i + 1;
    }
    Err(SiteError::ThemeIncomplete { content_type: String::from_str(content_type) })
}

} // verus!
