//! Forking: copying a project, or one observation, that was shared with a
//! user into that user's own projects. The copy belongs to the forker,
//! records where it came from, and does not follow its source afterwards.

use vstd::prelude::*;
use crate::error::{validation, AppError};
use crate::identification::{normalize_project_name, spec_normalize_project_name};
use crate::permissions::{spec_can_fork, AccessLevel};
use crate::rows::{MachineRow, ObservationRow, ProjectRow};
use crate::text::{chars_of, concat_chars, concat_str, decimal, owned, spec_decimal, str_eq,
    string_of, trim_chars, trim_spec};

verus! {

/// The default name of a fork: `<name>-fork-of-<owner>`, normalised.
pub open spec fn spec_default_fork_name(orig_name: Seq<char>, owner_username: Seq<char>) -> Seq<
    char,
> {
    spec_normalize_project_name(orig_name + "-fork-of-"@ + owner_username)
}

/// The default name of a fork of `orig_name` owned by `owner_username`.
pub fn default_fork_name(orig_name: &str, owner_username: &str) -> (r: String)
    ensures
        r@ == spec_default_fork_name(orig_name@, owner_username@),
{
    let a = concat_str(orig_name, "-fork-of-");
    let raw = concat_str(a.as_str(), owner_username);
    normalize_project_name(raw.as_str())
}

/// Forking needs an access level that allows it (owner, fork-allowed or
/// auto-copy); read-only or no access is refused.
pub fn require_fork_access(access: AccessLevel) -> (r: Result<(), AppError>)
    ensures
        spec_can_fork(access) ==> r is Ok,
        !spec_can_fork(access) ==> r == Err::<(), AppError>(AppError::Forbidden),
{
    if access.can_fork() {
        Ok(())
    } else {
        Err(AppError::Forbidden)
    }
}

/// A single observation may be forked only from a project shared
/// fork-allowed (or from one's own project, which the next check refuses
/// with its own message); auto-copy, read-only and no access are refused.
pub fn require_observation_fork_access(access: AccessLevel) -> (r: Result<(), AppError>)
    ensures
        (access == AccessLevel::ForkAllowed || access == AccessLevel::Owner) ==> r is Ok,
        !(access == AccessLevel::ForkAllowed || access == AccessLevel::Owner) ==> r == Err::<
            (),
            AppError,
        >(AppError::Forbidden),
{
    match access {
        AccessLevel::ForkAllowed | AccessLevel::Owner => Ok(()),
        _ => Err(AppError::Forbidden),
    }
}

/// A user does not fork a project of their own.
pub fn reject_own_project_fork(source_owner: &str, forker: &str, access: AccessLevel) -> (r: Result<
    (),
    AppError,
>)
    ensures
        source_owner@ == forker@ && access == AccessLevel::Owner ==> (r matches Err(
            AppError::Validation(e),
        ) && e@ == "cannot fork your own project"@),
        !(source_owner@ == forker@ && access == AccessLevel::Owner) ==> r is Ok,
{
    if str_eq(source_owner, forker) && access == AccessLevel::Owner {
        Err(validation("cannot fork your own project"))
    } else {
        Ok(())
    }
}

/// The name a fork gets before clashes are resolved: the requested name
/// (trimmed) if one is given, else the default name; normalised, it must be
/// non-empty and at most 128 characters.
pub open spec fn spec_fork_target_name(
    requested: Option<Seq<char>>,
    source_name: Seq<char>,
    owner_username: Seq<char>,
) -> Result<Seq<char>, Seq<char>> {
    let raw = match requested {
        Some(r) => if trim_spec(r).len() > 0 {
            trim_spec(r)
        } else {
            spec_default_fork_name(source_name, owner_username)
        },
        None => spec_default_fork_name(source_name, owner_username),
    };
    let n = spec_normalize_project_name(raw);
    if n.len() == 0 || n.len() > 128 {
        Err("fork project name normalizes to invalid value"@)
    } else {
        Ok(n)
    }
}

/// The name a fork gets before clashes are resolved.
pub fn fork_target_name(requested: Option<&str>, source_name: &str, owner_username: &str) -> (r:
    Result<String, AppError>)
    ensures
        match spec_fork_target_name(crate::i18n::opt_view(requested), source_name@, owner_username@) {
            Ok(n) => r matches Ok(s) && s@ == n,
            Err(m) => r matches Err(AppError::Validation(e)) && e@ == m,
        },
{
    let raw = match requested {
        Some(rq) => {
            let t = trim_chars(&chars_of(rq));
            if t.len() > 0 {
                string_of(&t)
            } else {
                default_fork_name(source_name, owner_username)
            }
        },
        None => default_fork_name(source_name, owner_username),
    };
    let n = normalize_project_name(raw.as_str());
    let v = chars_of(n.as_str());
    if v.len() == 0 || v.len() > 128 {
        return Err(validation("fork project name normalizes to invalid value"));
    }
    Ok(n)
}

// ---------- clashes with the forker's own names ----------

/// The `k`-th name tried for a fork: the base name itself, then
/// `<base>-1`, `<base>-2`, ...
pub open spec fn spec_fork_candidate(base: Seq<char>, k: nat) -> Seq<char> {
    if k == 0 {
        base
    } else {
        base + seq!['-'] + spec_decimal(k)
    }
}

/// The `k`-th name tried for a fork of base name `base`.
pub fn fork_name_candidate(base: &str, k: u32) -> (r: String)
    ensures
        r@ == spec_fork_candidate(base@, k as nat),
{
    if k == 0 {
        owned(base)
    } else {
        let b = chars_of(base);
        let mut dash: Vec<char> = Vec::new();
        dash.push('-');
        let head = concat_chars(&b, &dash);
        let digits = decimal(k as u64);
        let all = concat_chars(&head, &digits);
        string_of(&all)
    }
}

/// What to do after trying the `k`-th name.
#[derive(Debug, Clone, Copy, PartialEq, Eq, Structural)]
pub enum ForkNameStep {
    /// The name is free: use it.
    Use,
    /// The name is taken: try the `k`-th next.
    Next(u32),
    /// The base name and its 98 variants are all taken.
    TooMany,
}

/// The next step after trying name `k` (0 to 98) and finding it `taken` or
/// not: at most the base name and `-1` to `-98` are tried.
pub fn fork_name_step(k: u32, taken: bool) -> (r: ForkNameStep)
    requires
        k <= 98,
    ensures
        !taken ==> r == ForkNameStep::Use,
        taken && k == 98 ==> r == ForkNameStep::TooMany,
        taken && k < 98 ==> r == ForkNameStep::Next((k + 1) as u32),
{
    if !taken {
        ForkNameStep::Use
    } else if k == 98 {
        ForkNameStep::TooMany
    } else {
        ForkNameStep::Next(k + 1)
    }
}

/// The name chosen when the names in `taken` are already the forker's: the
/// first free one among candidates `k`, `k+1`, ..., 98 (`None`: all taken).
pub open spec fn spec_first_free(base: Seq<char>, taken: Set<Seq<char>>, k: nat) -> Option<
    Seq<char>,
>
    decreases 99 - k,
{
    if k > 98 {
        None
    } else if !taken.contains(spec_fork_candidate(base, k)) {
        Some(spec_fork_candidate(base, k))
    } else {
        spec_first_free(base, taken, k + 1)
    }
}

/// Following the steps from name 0 picks the first free candidate: if
/// names `0..k` are all taken and the steps have reached `k`, what the
/// remaining steps choose is `spec_first_free(base, taken, k)`; and the
/// fork is refused as too many duplicates exactly when the base name and
/// all 98 variants are taken.
pub proof fn law_fork_name_is_first_free(base: Seq<char>, taken: Set<Seq<char>>, k: nat)
    requires
        k <= 98,
    ensures
        spec_first_free(base, taken, k) is None <==> forall|j: nat|
            k <= j <= 98 ==> taken.contains(#[trigger] spec_fork_candidate(base, j)),
        spec_first_free(base, taken, k) matches Some(n) ==> !taken.contains(n),
    decreases 99 - k,
{
    if k < 98 {
        law_fork_name_is_first_free(base, taken, k + 1);
        if spec_first_free(base, taken, k) is None {
            assert forall|j: nat| k <= j <= 98 implies taken.contains(
                #[trigger] spec_fork_candidate(base, j),
            ) by {
                if j > k {
                }
            }
        }
    } else {
        assert(spec_first_free(base, taken, k + 1) is None);
        if spec_first_free(base, taken, k) is None {
            assert forall|j: nat| k <= j <= 98 implies taken.contains(
                #[trigger] spec_fork_candidate(base, j),
            ) by {
                assert(j == k);
            }
        }
    }
}

/// The clash that ends a fork when all names are taken.
pub fn too_many_fork_names() -> (r: AppError)
    ensures
        r matches AppError::Conflict(m) && m@ == "fork target name has too many duplicates"@,
{
    AppError::Conflict(owned("fork target name has too many duplicates"))
}

/// Copies need a machine of the forker to be recorded under.
pub fn require_forker_machine(machine: Option<MachineRow>) -> (r: Result<MachineRow, AppError>)
    ensures
        match machine {
            Some(m) => r == Ok::<MachineRow, AppError>(m),
            None => r matches Err(AppError::Validation(e)) && e@
                == "forker must have at least one active machine before forking"@,
        },
{
    match machine {
        Some(m) => Ok(m),
        None => Err(validation("forker must have at least one active machine before forking")),
    }
}

// ---------- forking one observation ----------

/// The project of an observation to be forked: it must have one.
pub fn source_project_of(project_id: Option<&str>) -> (r: Result<String, AppError>)
    ensures
        match project_id {
            Some(p) => r matches Ok(s) && s@ == p@,
            None => r matches Err(AppError::Validation(e)) && e@
                == "source observation has no project"@,
        },
{
    match project_id {
        Some(p) => Ok(owned(p)),
        None => Err(validation("source observation has no project")),
    }
}

/// A user does not fork an observation of their own.
pub fn reject_own_observation_fork(source_user: &str, forker: &str) -> (r: Result<(), AppError>)
    ensures
        source_user@ == forker@ ==> (r matches Err(AppError::Validation(e)) && e@
            == "cannot fork your own observation"@),
        source_user@ != forker@ ==> r is Ok,
{
    if str_eq(source_user, forker) {
        Err(validation("cannot fork your own observation"))
    } else {
        Ok(())
    }
}

/// The project a forked observation goes to must be one of the forker's.
pub fn require_target_project(project: Option<ProjectRow>) -> (r: Result<ProjectRow, AppError>)
    ensures
        match project {
            Some(p) => r == Ok::<ProjectRow, AppError>(p),
            None => r matches Err(AppError::Validation(e)) && e@
                == "to_project_id must be one of your own projects"@,
        },
{
    match project {
        Some(p) => Ok(p),
        None => Err(validation("to_project_id must be one of your own projects")),
    }
}

// ---------- provenance ----------

/// What `serde_json` makes of a JSON text that is an array with one more
/// string appended (`None`: the text is not a JSON array).
pub uninterp spec fn spec_json_array_push_string(text: Seq<char>, item: Seq<char>) -> Option<
    Seq<char>,
>;

/// Calls `serde_json::from_str::<Value>` on `text` and, when it is an
/// array, `Value::to_string` of that array with `item` appended as a JSON
/// string; `None` when `text` is not a JSON array.
#[verifier::external_body]
fn json_array_push_string(text: &str, item: &str) -> (r: Option<String>)
    ensures
        match spec_json_array_push_string(text@, item@) {
            Some(s) => r matches Some(x) && x@ == s,
            None => r is None,
        },
{
    match serde_json::from_str::<serde_json::Value>(text) {
        Ok(serde_json::Value::Array(mut arr)) => {
            arr.push(serde_json::Value::String(item.to_string()));
            Some(serde_json::Value::Array(arr).to_string())
        },
        _ => None,
    }
}

/// A lowercase hexadecimal digit for a value below 16.
pub open spec fn hex_digit_lower(d: nat) -> char {
    if d < 10 {
        (48 + d) as char
    } else {
        (87 + d) as char
    }
}

/// How a JSON string writes one character: `"` and `\` behind a
/// backslash; backspace, tab, line feed, form feed and carriage return as
/// `\b`, `\t`, `\n`, `\f`, `\r`; the other control characters below
/// U+0020 as `\u00` and two lowercase hex digits; every other character
/// as itself.
pub open spec fn json_escape_char(c: char) -> Seq<char> {
    let u = c as u32;
    if c == '"' || c == '\\' {
        seq!['\\', c]
    } else if u == 0x08 {
        seq!['\\', 'b']
    } else if u == 0x09 {
        seq!['\\', 't']
    } else if u == 0x0a {
        seq!['\\', 'n']
    } else if u == 0x0c {
        seq!['\\', 'f']
    } else if u == 0x0d {
        seq!['\\', 'r']
    } else if u < 0x20 {
        seq!['\\', 'u', '0', '0', hex_digit_lower((u / 16) as nat), hex_digit_lower((u % 16) as nat)]
    } else {
        seq![c]
    }
}

/// The characters of `s`, each written as a JSON string writes it.
pub open spec fn json_escape(s: Seq<char>) -> Seq<char>
    decreases s.len(),
{
    if s.len() == 0 {
        Seq::empty()
    } else {
        json_escape(s.drop_last()) + json_escape_char(s.last())
    }
}

/// The compact JSON text of a one-element array holding `item` as a
/// string: `["`, the escaped item, `"]`.
pub open spec fn spec_json_single_string_array(item: Seq<char>) -> Seq<char> {
    seq!['[', '"'] + json_escape(item) + seq!['"', ']']
}

/// Calls `Value::to_string` on `Value::Array(vec![Value::String(item)])`:
/// serde_json's compact writer puts the escaped string between `["` and
/// `"]`.
#[verifier::external_body]
fn json_single_string_array(item: &str) -> (r: String)
    ensures
        r@ == spec_json_single_string_array(item@),
{
    serde_json::Value::Array(vec![serde_json::Value::String(item.to_string())]).to_string()
}

/// The derivation chain of a copy: the source's chain with the source's id
/// appended, or a new chain of just that id when the source has no chain
/// (or one that is not a JSON array).
pub open spec fn spec_fork_chain(source_chain: Option<Seq<char>>, source_id: Seq<char>) -> Seq<char> {
    match source_chain {
        Some(c) => match spec_json_array_push_string(c, source_id) {
            Some(s) => s,
            None => spec_json_single_string_array(source_id),
        },
        None => spec_json_single_string_array(source_id),
    }
}

/// The derivation chain (JSON text) of a copy of observation `source_id`.
pub fn fork_chain(source_chain: Option<&str>, source_id: &str) -> (r: String)
    ensures
        r@ == spec_fork_chain(crate::i18n::opt_view(source_chain), source_id@),
{
    match source_chain {
        Some(c) => match json_array_push_string(c, source_id) {
            Some(s) => s,
            None => json_single_string_array(source_id),
        },
        None => json_single_string_array(source_id),
    }
}

/// The copy of observation `src` that a fork stores: it belongs to the
/// forker, was made on the forker's machine, lies in the target project,
/// keeps the content, time, path, type and metadata of its source, records
/// the source as where it came from and extends the source's chain, and
/// takes the given sequence number and receipt time.
pub fn fork_copy(
    src: &ObservationRow,
    new_id: String,
    forker: &str,
    machine_id: &str,
    project_id: &str,
    seq: i64,
    now: i64,
) -> (r: ObservationRow)
    ensures
        r.id@ == new_id@,
        r.user_id@ == forker@,
        r.machine_id@ == machine_id@,
        r.project_id matches Some(p) && p@ == project_id@,
        r.timestamp == src.timestamp,
        r.project_path == src.project_path,
        r.content == src.content,
        r.obs_type == src.obs_type,
        r.metadata == src.metadata,
        r.derived_from matches Some(d) && d@ == src.id@,
        r.derivation_chain matches Some(c) && c@ == spec_fork_chain(
            match src.derivation_chain {
                Some(x) => Some(x@),
                None => None::<Seq<char>>,
            },
            src.id@,
        ),
        r.server_seq == seq,
        r.server_received_at == now,
{
    let source_chain = match &src.derivation_chain {
        Some(c) => Some(c.as_str()),
        None => None,
    };
    let chain = fork_chain(source_chain, src.id.as_str());
    ObservationRow {
        id: new_id,
        user_id: owned(forker),
        machine_id: owned(machine_id),
        project_id: Some(owned(project_id)),
        timestamp: src.timestamp,
        project_path: src.project_path.clone(),
        content: src.content.clone(),
        obs_type: src.obs_type.clone(),
        metadata: src.metadata.clone(),
        derived_from: Some(src.id.clone()),
        derivation_chain: Some(chain),
        server_seq: seq,
        server_received_at: now,
    }
}

} // verus!
