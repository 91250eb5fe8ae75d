//! Code-index tools per project: a project may switch code indexing off,
//! and the tools then answer that it is off instead of running.

use vstd::prelude::*;

use crate::text::{push_str, string_from_chars};

verus! {

/// Whether the code-index tools may run for a project: a project that was
/// found decides by its switch; one that was not found (or could not be
/// read) leaves them on.
pub fn code_index_enabled(found: Option<bool>) -> (r: bool)
    ensures
        r == match found {
            Some(on) => on,
            None => true,
        },
{
    match found {
        Some(on) => on,
        None => true,
    }
}

/// The text of the answer given for a project with code indexing off.
pub open spec fn disabled_text(project_id: Seq<char>) -> Seq<char> {
    "Code indexing is disabled for project '"@ + project_id + "'. Enable it in project settings."@
}

/// The answer given instead of running a tool for a project with code
/// indexing off.
pub fn disabled_message(project_id: &str) -> (r: String)
    ensures
        r@ == disabled_text(project_id@),
{
    let mut out: Vec<char> = Vec::new();
    push_str(&mut out, "Code indexing is disabled for project '");
    push_str(&mut out, project_id);
    push_str(&mut out, "'. Enable it in project settings.");
    string_from_chars(out.as_slice())
}

} // verus!
