//! The rules of the project endpoints: names are stored normalised and are
//! unique per user, display names and descriptions are bounded.

use vstd::prelude::*;
use crate::error::{validation, AppError};
use crate::identification::{normalize_project_name, spec_normalize_project_name};
use crate::text::{chars_of, concat_str, str_eq};

verus! {

/// Most characters of a normalised project name.
pub const MAX_PROJECT_NAME_LEN: usize = 128;

/// Most characters of a display name.
pub const MAX_DISPLAY_NAME_LEN: usize = 128;

/// Most characters of a project description.
pub const MAX_DESCRIPTION_LEN: usize = 1024;

/// The stored name for a requested project name, or why there is none: it
/// normalises to nothing, or to more than 128 characters.
pub open spec fn spec_validate_name(name: Seq<char>) -> Result<Seq<char>, Seq<char>> {
    let n = spec_normalize_project_name(name);
    if n.len() == 0 {
        Err("project name normalizes to empty"@)
    } else if n.len() > 128 {
        Err("project name too long"@)
    } else {
        Ok(n)
    }
}

/// The normalised name under which a project named `name` is stored.
pub fn validate_name(name: &str) -> (r: Result<String, AppError>)
    ensures
        match spec_validate_name(name@) {
            Ok(n) => r matches Ok(s) && s@ == n,
            Err(m) => r matches Err(AppError::Validation(e)) && e@ == m,
        },
{
    let normalized = normalize_project_name(name);
    let v = chars_of(normalized.as_str());
    if v.len() == 0 {
        return Err(validation("project name normalizes to empty"));
    }
    if v.len() > MAX_PROJECT_NAME_LEN {
        return Err(validation("project name too long"));
    }
    Ok(normalized)
}

/// Checks an optional text field against a length in characters; `message`
/// is the refusal.
pub fn check_text_len(text: Option<&str>, max: usize, message: &str) -> (r: Result<(), AppError>)
    ensures
        match text {
            Some(t) => if t@.len() > max {
                r matches Err(AppError::Validation(e)) && e@ == message@
            } else {
                r is Ok
            },
            None => r is Ok,
        },
{
    match text {
        Some(t) => {
            let v = chars_of(t);
            if v.len() > max {
                Err(validation(message))
            } else {
                Ok(())
            }
        },
        None => Ok(()),
    }
}

/// The conflict of a name that the user already uses for another project.
pub fn name_taken(name: &str) -> (r: AppError)
    ensures
        r matches AppError::Conflict(m) && m@ == "project '"@ + name@ + "' already exists"@,
{
    let head = concat_str("project '", name);
    AppError::Conflict(concat_str(head.as_str(), "' already exists"))
}

/// Whether a rename must check the new name for a clash: only when it
/// differs from the current name.
pub fn rename_needs_check(current: &str, normalized: &str) -> (r: bool)
    ensures
        r == (current@ != normalized@),
{
    !str_eq(current, normalized)
}

/// The audit action of a project change: excluding it is recorded as such.
pub fn patch_action(is_excluded: Option<bool>) -> (r: &'static str)
    ensures
        is_excluded == Some(true) ==> r@ == "project.exclude"@,
        is_excluded != Some(true) ==> r@ == "project.update"@,
{
    proof {
        reveal_strlit("project.exclude");
        reveal_strlit("project.update");
    }
    match is_excluded {
        Some(true) => "project.exclude",
        _ => "project.update",
    }
}

} // verus!
