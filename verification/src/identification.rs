//! Project identification: the normalised project name under which
//! observations from different machines are merged.

use vstd::prelude::*;
use crate::text::{ascii_lower, chars_of, concat_str, is_ascii_alnum, join_nonempty, join_with, lemma_join_form, lemma_nonempty_pieces_members, lemma_split_all_sep, lemma_split_join, lemma_split_pieces_chars, lemma_trim_blank, nonempty_pieces, owned, spec_is_whitespace, split_chars, split_on, string_of, trim_chars, trim_spec};
use vstd::string::StringSliceAdditionalSpecFns;
use vstd::utf8::{decode_utf8, encode_utf8, is_char_boundary};

verus! {

/// What `str::to_lowercase` returns for a string.
pub uninterp spec fn spec_to_lowercase(s: Seq<char>) -> Seq<char>;

/// What `char::is_alphanumeric` answers for a character.
pub uninterp spec fn spec_is_alphanumeric(c: char) -> bool;

/// Calls `str::to_lowercase` (Unicode lowercase mapping). On ASCII input it
/// maps `A`..`Z` to `a`..`z` and keeps every other character; whitespace
/// has no case, so text of whitespace alone stays as it is.
#[verifier::external_body]
pub fn to_lowercase(s: &str) -> (r: String)
    ensures
        r@ == spec_to_lowercase(s@),
        (forall|i: int| 0 <= i < s@.len() ==> spec_is_whitespace(#[trigger] s@[i])) ==> r@ == s@,
        (forall|i: int| 0 <= i < s@.len() ==> (s@[i] as u32) < 128) ==> r@ == s@.map_values(
            |c: char| ascii_lower(c),
        ),
{
    s.to_lowercase()
}

/// Calls `char::is_alphanumeric` (Unicode `Alphabetic` or `Numeric`). On an
/// ASCII character it holds exactly of letters and digits; no whitespace
/// character is alphabetic or numeric.
#[verifier::external_body]
pub fn is_alphanumeric(c: char) -> (r: bool)
    ensures
        r == spec_is_alphanumeric(c),
        (c as u32) < 128 ==> (r == is_ascii_alnum(c)),
        spec_is_whitespace(c) ==> !r,
{
    c.is_alphanumeric()
}

/// Each character kept when alphanumeric, otherwise turned into `-`.
pub open spec fn dash_non_alnum(s: Seq<char>) -> Seq<char> {
    s.map_values(|c: char| if spec_is_alphanumeric(c) { c } else { '-' })
}

/// The normalised form of a project name: lowercased, every run of
/// non-alphanumeric characters collapsed to one `-`, no `-` at either end;
/// a blank name normalises to nothing.
pub open spec fn spec_normalize_project_name(input: Seq<char>) -> Seq<char> {
    if trim_spec(input).len() == 0 {
        Seq::empty()
    } else {
        join_with(nonempty_pieces(split_on(dash_non_alnum(spec_to_lowercase(input)), '-')), '-')
    }
}

/// Normalises a project name, e.g. `Nginx RCE` → `nginx-rce` and
/// `55.ai/research` → `55-ai-research`.
pub fn normalize_project_name(input: &str) -> (r: String)
    ensures
        r@ == spec_normalize_project_name(input@),
{
    let lower = to_lowercase(input);
    let lc = chars_of(lower.as_str());
    let mut mapped: Vec<char> = Vec::new();
    let mut i: usize = 0;
    while i < lc.len()
        invariant
            i <= lc.len(),
            lc@ == spec_to_lowercase(input@),
            mapped@ == dash_non_alnum(lc@.take(i as int)),
            forall|j: int|
                0 <= j < i ==> spec_is_whitespace(lc@[j]) ==> !spec_is_alphanumeric(
                    #[trigger] lc@[j],
                ),
        decreases lc.len() - i,
    {
        let c = lc[i];
        if is_alphanumeric(c) {
            mapped.push(c);
        } else {
            mapped.push('-');
        }
        proof {
            assert(dash_non_alnum(lc@.take(i + 1)) =~= dash_non_alnum(lc@.take(i as int)).push(
                if spec_is_alphanumeric(c) { c } else { '-' },
            ));
        }
        i = i + 1;
    }
    proof {
        assert(lc@.take(lc.len() as int) =~= lc@);
    }
    let parts = split_chars(&mapped, '-');
    let joined = join_nonempty(&parts, '-');
    proof {
        if trim_spec(input@).len() == 0 {
            lemma_trim_blank(input@);
            assert(lc@ == input@);
            assert forall|k: int| 0 <= k < mapped@.len() implies #[trigger] mapped@[k] == '-' by {
                assert(spec_is_whitespace(lc@[k]));
            }
            lemma_split_all_sep(mapped@, '-');
            lemma_nonempty_pieces_members(split_on(mapped@, '-'));
        }
    }
    string_of(&joined)
}

/// A normalised name has a fixed form: it neither starts nor ends with `-`,
/// holds no `--`, and every character is `-` or alphanumeric; split at `-`
/// it gives, in order, the runs of alphanumeric characters of the
/// lowercased input; a blank input normalises to nothing.
pub proof fn law_normalized_form(input: Seq<char>)
    ensures
        ({
            let r = spec_normalize_project_name(input);
            &&& r.len() > 0 ==> r[0] != '-' && r.last() != '-'
            &&& forall|k: int| 0 <= k < r.len() ==> #[trigger] r[k] == '-' || spec_is_alphanumeric(r[k])
            &&& forall|k: int| 0 <= k < r.len() - 1 ==> !(#[trigger] r[k] == '-' && r[k + 1] == '-')
            &&& r.len() > 0 ==> split_on(r, '-') == nonempty_pieces(
                split_on(dash_non_alnum(spec_to_lowercase(input)), '-'),
            )
            &&& trim_spec(input).len() == 0 ==> r.len() == 0
        }),
{
    if trim_spec(input).len() > 0 {
        let m = dash_non_alnum(spec_to_lowercase(input));
        let good = |c: char| spec_is_alphanumeric(c);
        assert forall|k: int| 0 <= k < m.len() && m[k] != '-' implies good(#[trigger] m[k]) by {}
        lemma_split_pieces_chars(m, '-', good);
        let sp = split_on(m, '-');
        let ps = nonempty_pieces(sp);
        lemma_nonempty_pieces_members(sp);
        assert forall|i: int, j: int| 0 <= i < ps.len() && 0 <= j < ps[i].len() implies #[trigger] ps[i][j]
            != '-' && good(ps[i][j]) by {
            let jj = choose|jj: int| 0 <= jj < sp.len() && sp[jj] == ps[i];
            assert(sp[jj][j] == ps[i][j]);
        }
        lemma_join_form(ps, '-', good);
        if ps.len() > 0 {
            assert forall|i: int| 0 <= i < ps.len() implies !(#[trigger] ps[i]).contains('-') by {
                if ps[i].contains('-') {
                    let j = choose|j: int| 0 <= j < ps[i].len() && ps[i][j] == '-';
                    assert(ps[i][j] != '-');
                }
            }
            lemma_split_join(ps, '-');
        }
    }
}

// ---------- resolving the project of a pushed observation ----------

/// The project information a client sends with an observation: the id from
/// its project marker file, the project's name and its local path.
#[derive(Debug, Clone, Default)]
pub struct SubmittedProjectInfo {
    pub marker_id: Option<String>,
    pub name: Option<String>,
    pub path: Option<String>,
}

/// The text of an optional string.
pub open spec fn ostr(o: Option<String>) -> Option<Seq<char>> {
    match o {
        Some(s) => Some(s@),
        None => None,
    }
}

/// One step of resolving a project: a lookup to make, a project to create,
/// a path to record, or the outcome.
pub ghost enum ResolvePlan {
    /// Look up the user's project whose id is `marker`.
    FindById { marker: Seq<char> },
    /// Look up the user's project named `name` (`marker`: the marker that
    /// led here, recorded with the path).
    FindByName { name: Seq<char>, marker: Option<Seq<char>> },
    /// Create the user's project `id` named `name`.
    Create { id: Seq<char>, name: Seq<char>, marker: Option<Seq<char>> },
    /// Record the submitted path of project `project_id` for the machine.
    RecordPath { project_id: Seq<char>, marker: Option<Seq<char>> },
    /// The observation belongs to this project, or to none.
    Done(Option<Seq<char>>),
}

/// One step of resolving a project (see `ResolvePlan`).
#[derive(Debug, Clone)]
pub enum ResolveStep {
    FindById { marker: String },
    FindByName { name: String, marker: Option<String> },
    Create { id: String, name: String, marker: Option<String> },
    RecordPath { project_id: String, marker: Option<String> },
    Done(Option<String>),
}

impl View for ResolveStep {
    type V = ResolvePlan;

    open spec fn view(&self) -> ResolvePlan {
        match *self {
            ResolveStep::FindById { marker } => ResolvePlan::FindById { marker: marker@ },
            ResolveStep::FindByName { name, marker } => ResolvePlan::FindByName {
                name: name@,
                marker: ostr(marker),
            },
            ResolveStep::Create { id, name, marker } => ResolvePlan::Create {
                id: id@,
                name: name@,
                marker: ostr(marker),
            },
            ResolveStep::RecordPath { project_id, marker } => ResolvePlan::RecordPath {
                project_id: project_id@,
                marker: ostr(marker),
            },
            ResolveStep::Done(p) => ResolvePlan::Done(ostr(p)),
        }
    }
}

/// The marker id a submission carries: trimmed, and only when not blank.
pub open spec fn spec_marker(s: SubmittedProjectInfo) -> Option<Seq<char>> {
    match s.marker_id {
        Some(m) => if trim_spec(m@).len() > 0 {
            Some(trim_spec(m@))
        } else {
            None
        },
        None => None,
    }
}

/// The normalised name of a submission without a marker: only when the
/// name normalises to something (a blank name never does).
pub open spec fn spec_name_key(s: SubmittedProjectInfo) -> Option<Seq<char>> {
    match s.name {
        Some(n) => if spec_normalize_project_name(n@).len() > 0 {
            Some(spec_normalize_project_name(n@))
        } else {
            None
        },
        None => None,
    }
}

/// How many leading bytes of a marker stand in for a name that normalises
/// to nothing: at most 8.
pub open spec fn marker_prefix_len(marker: Seq<char>) -> int {
    if encode_utf8(marker).len() < 8 {
        encode_utf8(marker).len() as int
    } else {
        8
    }
}

/// The name of a project created for an unknown marker: the submitted name
/// (or else the marker) normalised, or `project-` and the marker's first
/// (up to 8) bytes when that normalises to nothing.
pub open spec fn spec_marker_project_name(name: Option<Seq<char>>, marker: Seq<char>) -> Seq<char> {
    let n = spec_normalize_project_name(
        match name {
            Some(x) => x,
            None => marker,
        },
    );
    if n.len() > 0 {
        n
    } else {
        "project-"@ + decode_utf8(encode_utf8(marker).subrange(0, marker_prefix_len(marker)))
    }
}

/// The byte prefix of a marker is cut at a character boundary (where the
/// name falls back to it).
pub open spec fn marker_cut_ok(name: Option<Seq<char>>, marker: Seq<char>) -> bool {
    spec_normalize_project_name(
        match name {
            Some(x) => x,
            None => marker,
        },
    ).len() == 0 ==> is_char_boundary(encode_utf8(marker), marker_prefix_len(marker))
}

/// After project `id` is known: record the submitted path if there is one,
/// else finish.
pub open spec fn spec_link(s: SubmittedProjectInfo, id: Seq<char>, marker: Option<Seq<char>>) -> ResolvePlan {
    if s.path is Some {
        ResolvePlan::RecordPath { project_id: id, marker }
    } else {
        ResolvePlan::Done(Some(id))
    }
}

/// The first step: look the marker up when there is one, else look the
/// normalised name up, else the observation has no project.
pub open spec fn spec_resolve_start(s: SubmittedProjectInfo) -> ResolvePlan {
    match spec_marker(s) {
        Some(m) => ResolvePlan::FindById { marker: m },
        None => match spec_name_key(s) {
            Some(n) => ResolvePlan::FindByName { name: n, marker: None },
            None => ResolvePlan::Done(None),
        },
    }
}

/// The step after a lookup answered `found`: a found project is used (and
/// its path recorded); a marker nobody knows leads to a lookup of the name
/// that a project for it would get; a name nobody uses leads to creating
/// the project, under the marker as id or else under `fresh_id`.
pub open spec fn spec_resolve_found(
    s: SubmittedProjectInfo,
    step: ResolvePlan,
    found: Option<Seq<char>>,
    fresh_id: Seq<char>,
) -> ResolvePlan {
    match step {
        ResolvePlan::FindById { marker } => match found {
            Some(id) => spec_link(s, id, Some(marker)),
            None => ResolvePlan::FindByName {
                name: spec_marker_project_name(ostr(s.name), marker),
                marker: Some(marker),
            },
        },
        ResolvePlan::FindByName { name, marker } => match found {
            Some(id) => spec_link(s, id, marker),
            None => match marker {
                Some(m) => ResolvePlan::Create { id: m, name, marker: Some(m) },
                None => ResolvePlan::Create { id: fresh_id, name, marker: None },
            },
        },
        _ => step,
    }
}

/// The step after creating a project.
pub open spec fn spec_resolve_created(s: SubmittedProjectInfo, step: ResolvePlan) -> ResolvePlan {
    match step {
        ResolvePlan::Create { id, marker, .. } => spec_link(s, id, marker),
        _ => step,
    }
}

/// The step after recording a path.
pub open spec fn spec_resolve_recorded(step: ResolvePlan) -> ResolvePlan {
    match step {
        ResolvePlan::RecordPath { project_id, .. } => ResolvePlan::Done(Some(project_id)),
        _ => step,
    }
}

fn opt_clone(o: &Option<String>) -> (r: Option<String>)
    ensures
        ostr(r) == ostr(*o),
{
    match o {
        Some(s) => Some(s.clone()),
        None => None,
    }
}

fn link(s: &SubmittedProjectInfo, id: String, marker: Option<String>) -> (r: ResolveStep)
    ensures
        r@ == spec_link(*s, id@, ostr(marker)),
{
    if s.path.is_some() {
        ResolveStep::RecordPath { project_id: id, marker }
    } else {
        ResolveStep::Done(Some(id))
    }
}

/// The first step of resolving the project of a submission.
pub fn resolve_start(s: &SubmittedProjectInfo) -> (r: ResolveStep)
    ensures
        r@ == spec_resolve_start(*s),
{
    if let Some(m) = &s.marker_id {
        let t = trim_chars(&chars_of(m.as_str()));
        if t.len() > 0 {
            return ResolveStep::FindById { marker: string_of(&t) };
        }
    }
    if let Some(n) = &s.name {
        let t = trim_chars(&chars_of(n.as_str()));
        if t.len() > 0 {
            let k = normalize_project_name(n.as_str());
            if k.as_str().is_empty() {
                return ResolveStep::Done(None);
            }
            return ResolveStep::FindByName { name: k, marker: None };
        }
    }
    ResolveStep::Done(None)
}

fn marker_project_name(name: &Option<String>, marker: &str) -> (r: String)
    requires
        marker_cut_ok(ostr(*name), marker@),
    ensures
        r@ == spec_marker_project_name(ostr(*name), marker@),
{
    let raw: &str = match name {
        Some(n) => n.as_str(),
        None => marker,
    };
    let n = normalize_project_name(raw);
    if !n.as_str().is_empty() {
        return n;
    }
    let bytes = marker.as_bytes();
    let k: usize = if bytes.len() < 8 {
        bytes.len()
    } else {
        8
    };
    proof {
        assert(k as int == marker_prefix_len(marker@));
    }
    let (head, _tail) = marker.split_at(k);
    proof {
        vstd::utf8::encode_utf8_decode_utf8(head@);
    }
    concat_str("project-", head)
}

/// The step after the lookup that `step` asked for answered `found`
/// (`fresh_id`: the id a project created without a marker gets).
pub fn resolve_found(s: &SubmittedProjectInfo, step: &ResolveStep, found: Option<String>, fresh_id: &str) -> (r: ResolveStep)
    requires
        step@ is FindById || step@ is FindByName,
        step@ matches ResolvePlan::FindById { marker } ==> marker_cut_ok(ostr(s.name), marker),
    ensures
        r@ == spec_resolve_found(*s, step@, ostr(found), fresh_id@),
{
    match step {
        ResolveStep::FindById { marker } => match found {
            Some(id) => link(s, id, Some(marker.clone())),
            None => {
                let name = marker_project_name(&s.name, marker.as_str());
                ResolveStep::FindByName { name, marker: Some(marker.clone()) }
            },
        },
        ResolveStep::FindByName { name, marker } => match found {
            Some(id) => link(s, id, opt_clone(marker)),
            None => match marker {
                Some(m) => ResolveStep::Create { id: m.clone(), name: name.clone(), marker: Some(m.clone()) },
                None => ResolveStep::Create { id: owned(fresh_id), name: name.clone(), marker: None },
            },
        },
        _ => {
            assert(false);
            ResolveStep::Done(None)
        },
    }
}

/// The step after the project that `step` asked for was created.
pub fn resolve_created(s: &SubmittedProjectInfo, step: &ResolveStep) -> (r: ResolveStep)
    requires
        step@ is Create,
    ensures
        r@ == spec_resolve_created(*s, step@),
{
    match step {
        ResolveStep::Create { id, marker, .. } => link(s, id.clone(), opt_clone(marker)),
        _ => {
            assert(false);
            ResolveStep::Done(None)
        },
    }
}

/// The step after the path that `step` asked for was recorded.
pub fn resolve_recorded(step: &ResolveStep) -> (r: ResolveStep)
    requires
        step@ is RecordPath,
    ensures
        r@ == spec_resolve_recorded(step@),
{
    match step {
        ResolveStep::RecordPath { project_id, .. } => ResolveStep::Done(Some(project_id.clone())),
        _ => {
            assert(false);
            ResolveStep::Done(None)
        },
    }
}

/// Finishing from a step that no longer asks a question: after a creation
/// or a path record, the outcome.
pub open spec fn spec_finish(s: SubmittedProjectInfo, step: ResolvePlan) -> Option<Seq<char>> {
    let a = spec_resolve_created(s, step);
    match spec_resolve_recorded(a) {
        ResolvePlan::Done(p) => p,
        _ => None,
    }
}

/// The project an observation ends up in, when the marker lookup answers
/// `by_marker`, the lookup of the name derived for an unknown marker
/// answers `by_marker_name`, and the lookup of the submitted name answers
/// `by_name`.
pub open spec fn spec_run(
    s: SubmittedProjectInfo,
    by_marker: Option<Seq<char>>,
    by_marker_name: Option<Seq<char>>,
    by_name: Option<Seq<char>>,
    fresh_id: Seq<char>,
) -> Option<Seq<char>> {
    let st = spec_resolve_start(s);
    match st {
        ResolvePlan::FindById { .. } => {
            let st2 = spec_resolve_found(s, st, by_marker, fresh_id);
            match st2 {
                ResolvePlan::FindByName { .. } => spec_finish(
                    s,
                    spec_resolve_found(s, st2, by_marker_name, fresh_id),
                ),
                _ => spec_finish(s, st2),
            }
        },
        ResolvePlan::FindByName { .. } => spec_finish(
            s,
            spec_resolve_found(s, st, by_name, fresh_id),
        ),
        ResolvePlan::Done(p) => p,
        _ => None,
    }
}

/// Project identification: a marker the user already has decides; an
/// unknown marker joins the user's project of the same (derived) name if
/// there is one, else becomes the id of a new project; without a marker,
/// a name normalising to an existing project's name joins that project
/// (so the same project seen from several machines merges), a new name
/// makes a new project, and a blank name means no project.
pub proof fn law_project_identification(
    s: SubmittedProjectInfo,
    by_marker: Option<Seq<char>>,
    by_marker_name: Option<Seq<char>>,
    by_name: Option<Seq<char>>,
    fresh_id: Seq<char>,
)
    ensures
        spec_run(s, by_marker, by_marker_name, by_name, fresh_id) == match spec_marker(s) {
            Some(m) => match by_marker {
                Some(id) => Some(id),
                None => match by_marker_name {
                    Some(id) => Some(id),
                    None => Some(m),
                },
            },
            None => match spec_name_key(s) {
                Some(_) => match by_name {
                    Some(id) => Some(id),
                    None => Some(fresh_id),
                },
                None => None,
            },
        },
{
}

/// Two submissions without a (non-blank) marker whose names normalise to
/// the same non-empty name land in one project: the first, finding no
/// project of that name, creates one under that name, and the second,
/// finding it, joins it (`Nginx RCE` and `nginx-rce` merge).
pub proof fn law_names_merge_across_machines(
    a: SubmittedProjectInfo,
    b: SubmittedProjectInfo,
    fresh_a: Seq<char>,
    fresh_b: Seq<char>,
)
    requires
        spec_marker(a) is None,
        spec_marker(b) is None,
        a.name is Some,
        b.name is Some,
        spec_normalize_project_name(a.name->0@) == spec_normalize_project_name(b.name->0@),
        spec_normalize_project_name(a.name->0@).len() > 0,
    ensures
        spec_resolve_found(a, spec_resolve_start(a), None, fresh_a) == (ResolvePlan::Create {
            id: fresh_a,
            name: spec_normalize_project_name(a.name->0@),
            marker: None,
        }),
        spec_run(a, None, None, None, fresh_a) == Some(fresh_a),
        spec_run(b, None, None, Some(fresh_a), fresh_b) == Some(fresh_a),
{
}

} // verus!
