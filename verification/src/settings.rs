//! Settings and workspaces as the front end sees them.

use vstd::prelude::*;
use crate::text::{chars_of, matches_at, occurs_at};

verus! {

/// Workspace information returned to the front end.
#[derive(Clone, Debug, PartialEq, Eq)]
pub struct WorkspaceInfo {
    pub id: String,
    pub name: String,
    pub path: String,
    pub is_active: bool,
    pub created_at: String,
    pub updated_at: String,
}

/// `text` starts with `prefix`.
pub open spec fn starts_with(text: Seq<char>, prefix: Seq<char>) -> bool {
    occurs_at(text, prefix, 0)
}

/// The category that the prefix of a setting's key places it in.
pub open spec fn category_of_key(key: Seq<char>) -> Seq<char> {
    if starts_with(key, "app."@) {
        "app"@
    } else if starts_with(key, "user."@) {
        "user"@
    } else if starts_with(key, "workspace."@) {
        "workspace"@
    } else if starts_with(key, "ai."@) {
        "ai"@
    } else {
        "general"@
    }
}

/// The category under which a setting is stored: the one given, or else the
/// one that the prefix of its key places it in.
pub fn setting_category(key: &str, category: Option<String>) -> (stored: String)
    ensures
        stored@ == (match category {
            Some(c) => c@,
            None => category_of_key(key@),
        }),
{
    if let Some(c) = category {
        return c;
    }
    let k = chars_of(key);
    if matches_at(&k, &chars_of("app."), 0) {
        "app".to_owned()
    } else if matches_at(&k, &chars_of("user."), 0) {
        "user".to_owned()
    } else if matches_at(&k, &chars_of("workspace."), 0) {
        "workspace".to_owned()
    } else if matches_at(&k, &chars_of("ai."), 0) {
        "ai".to_owned()
    } else {
        "general".to_owned()
    }
}

} // verus!
