//! The decisions of the sync endpoints. A push is checked as a whole
//! before anything is stored, then stored observation by observation while
//! a tally counts what was new and what was already there; a pull reads a
//! bounded window after the client's cursor and hands back the next cursor.

use vstd::prelude::*;
use vstd::utf8::encode_utf8;
use crate::auth::{spec_user_id, Principal};
use crate::error::{validation, AppError};
use crate::rows::{MachineRow, ObservationRow};
use crate::text::{concat_str, owned, str_eq};

verus! {

/// Most observations in one push.
pub const MAX_BATCH: usize = 1000;

/// Most bytes of content in one observation (1 MiB).
pub const MAX_CONTENT_LEN: usize = 1048576;

/// Most bytes of a project path.
pub const MAX_PATH_LEN: usize = 4096;

/// One observation as a client pushes it. `metadata` and
/// `derivation_chain` are JSON texts.
#[derive(Debug, Clone)]
pub struct PushObservation {
    pub id: String,
    pub timestamp: i64,
    pub project_marker_id: Option<String>,
    pub project_name: Option<String>,
    pub project_path: Option<String>,
    pub content: String,
    pub obs_type: Option<String>,
    pub metadata: Option<String>,
    pub derived_from: Option<String>,
    pub derivation_chain: Option<String>,
}

/// A push may hold at most `MAX_BATCH` observations.
pub fn check_batch_size(n: usize) -> (r: Result<(), AppError>)
    ensures
        n <= 1000 ==> r is Ok,
        n > 1000 ==> (r matches Err(AppError::Validation(m)) && m@
            == "batch too large (max 1000)"@),
{
    if n > MAX_BATCH {
        Err(validation("batch too large (max 1000)"))
    } else {
        Ok(())
    }
}

/// The machine a push comes from: a machine token names it; a user token
/// must carry one.
pub fn push_machine_id(principal: &Principal) -> (r: Result<String, AppError>)
    ensures
        match *principal {
            Principal::Machine { machine_id, .. } => r matches Ok(m) && m@ == machine_id@,
            Principal::User { machine_id, .. } => match machine_id {
                Some(mid) => r matches Ok(m) && m@ == mid@,
                None => r matches Err(AppError::Validation(e)) && e@
                    == "machine_id missing in token; register a machine and use machine_token for push"@,
            },
        },
{
    match principal {
        Principal::Machine { machine_id, .. } => Ok(machine_id.clone()),
        Principal::User { machine_id, .. } => match machine_id {
            Some(m) => Ok(m.clone()),
            None => Err(
                validation(
                    "machine_id missing in token; register a machine and use machine_token for push",
                ),
            ),
        },
    }
}

/// The pushing machine must exist, be unrevoked and belong to the user.
pub fn check_push_machine(machine: Option<&MachineRow>, user_id: &str) -> (r: Result<(), AppError>)
    ensures
        match machine {
            Some(m) => if m.revoked == 0 && m.user_id@ == user_id@ {
                r is Ok
            } else {
                r == Err::<(), AppError>(AppError::Unauthorized)
            },
            None => r == Err::<(), AppError>(AppError::Unauthorized),
        },
{
    match machine {
        Some(m) => {
            if m.revoked != 0 || !str_eq(m.user_id.as_str(), user_id) {
                Err(AppError::Unauthorized)
            } else {
                Ok(())
            }
        },
        None => Err(AppError::Unauthorized),
    }
}

/// The length in bytes of the UTF-8 encoding of `s`, as `str::len`
/// reports it.
pub open spec fn byte_len(s: Seq<char>) -> usize {
    encode_utf8(s).len() as usize
}

/// Why one pushed observation is refused, if it is: an empty id, content
/// over 1 MiB, or a project path over 4096 bytes (checked in that order).
pub open spec fn spec_item_problem(o: PushObservation) -> Option<Seq<char>> {
    if o.id@.len() == 0 {
        Some("observation.id required"@)
    } else if byte_len(o.content@) > 1048576 {
        Some("observation "@ + o.id@ + " content > 1MiB"@)
    } else if o.project_path matches Some(p) && byte_len(p@) > 4096 {
        Some("observation "@ + o.id@ + " project_path too long"@)
    } else {
        None
    }
}

/// The first refusal among `obs`, in order.
pub open spec fn spec_first_problem(obs: Seq<PushObservation>) -> Option<Seq<char>>
    decreases obs.len(),
{
    if obs.len() == 0 {
        None
    } else {
        match spec_item_problem(obs[0]) {
            Some(m) => Some(m),
            None => spec_first_problem(obs.skip(1)),
        }
    }
}

fn item_problem(o: &PushObservation) -> (r: Option<String>)
    ensures
        match spec_item_problem(*o) {
            Some(m) => r matches Some(s) && s@ == m,
            None => r is None,
        },
{
    if o.id.as_str().is_empty() {
        return Some(owned("observation.id required"));
    }
    if o.content.as_str().len() > MAX_CONTENT_LEN {
        let head = concat_str("observation ", o.id.as_str());
        return Some(concat_str(head.as_str(), " content > 1MiB"));
    }
    if let Some(p) = &o.project_path {
        if p.as_str().len() > MAX_PATH_LEN {
            let head = concat_str("observation ", o.id.as_str());
            return Some(concat_str(head.as_str(), " project_path too long"));
        }
    }
    None
}

/// Checks every observation of a push before anything is stored; the first
/// refused one decides the error.
pub fn validate_push_items(obs: &[PushObservation]) -> (r: Result<(), AppError>)
    ensures
        match spec_first_problem(obs@) {
            Some(m) => r matches Err(AppError::Validation(e)) && e@ == m,
            None => r is Ok,
        },
{
    let mut i: usize = 0;
    proof {
        assert(obs@.skip(0) =~= obs@);
    }
    while i < obs.len()
        invariant
            i <= obs.len(),
            spec_first_problem(obs@) == spec_first_problem(obs@.skip(i as int)),
        decreases obs.len() - i,
    {
        proof {
            assert(obs@.skip(i as int)[0] == obs@[i as int]);
            assert(obs@.skip(i as int).skip(1) =~= obs@.skip(i + 1));
        }
        if let Some(m) = item_problem(&obs[i]) {
            return Err(AppError::Validation(m));
        }
        i = i + 1;
    }
    Ok(())
}

/// The quick check of one observation offered to clients: an id, and
/// content within 1 MiB.
pub fn validate_obs(obs: &PushObservation) -> (r: Result<(), String>)
    ensures
        obs.id@.len() == 0 ==> (r matches Err(m) && m@ == "id required"@),
        obs.id@.len() > 0 && byte_len(obs.content@) > 1048576 ==> (r matches Err(m)
            && m@ == "content too long"@),
        obs.id@.len() > 0 && byte_len(obs.content@) <= 1048576 ==> r is Ok,
{
    if obs.id.as_str().is_empty() {
        return Err(owned("id required"));
    }
    if obs.content.as_str().len() > MAX_CONTENT_LEN {
        return Err(owned("content too long"));
    }
    Ok(())
}

/// The text of an optional field, empty when absent.
pub open spec fn or_empty(o: Option<String>) -> Seq<char> {
    match o {
        Some(s) => s@,
        None => Seq::empty(),
    }
}

/// The key under which a push remembers the project of an observation:
/// its marker, name and path as submitted, joined by `::`.
pub open spec fn spec_cache_key(o: PushObservation) -> Seq<char> {
    or_empty(o.project_marker_id) + "::"@ + or_empty(o.project_name) + "::"@ + or_empty(
        o.project_path,
    )
}

fn text_or_empty(o: &Option<String>) -> (r: &str)
    ensures
        r@ == or_empty(*o),
{
    proof {
        reveal_strlit("");
    }
    match o {
        Some(s) => s.as_str(),
        None => "",
    }
}

/// The project-cache key of an observation.
pub fn project_cache_key(o: &PushObservation) -> (r: String)
    ensures
        r@ == spec_cache_key(*o),
{
    let a = concat_str(text_or_empty(&o.project_marker_id), "::");
    let b = concat_str(a.as_str(), text_or_empty(&o.project_name));
    let c = concat_str(b.as_str(), "::");
    concat_str(c.as_str(), text_or_empty(&o.project_path))
}

/// The projects already resolved within one push, by cache key, so that
/// observations with the same project information share one resolution.
#[derive(Debug, Clone)]
pub struct ProjectCache {
    entries: Vec<(String, Option<String>)>,
}

/// The cache entries as key and project id texts.
pub open spec fn cache_entries_view(es: Seq<(String, Option<String>)>) -> Seq<
    (Seq<char>, Option<Seq<char>>),
> {
    es.map_values(
        |e: (String, Option<String>)|
            (
                e.0@,
                match e.1 {
                    Some(p) => Some(p@),
                    None => None::<Seq<char>>,
                },
            ),
    )
}

/// The resolutions held by cache entries: a later entry for a key replaces
/// an earlier one.
pub open spec fn entries_map(es: Seq<(Seq<char>, Option<Seq<char>>)>) -> Map<
    Seq<char>,
    Option<Seq<char>>,
>
    decreases es.len(),
{
    if es.len() == 0 {
        Map::empty()
    } else {
        entries_map(es.drop_last()).insert(es.last().0, es.last().1)
    }
}

impl View for ProjectCache {
    type V = Map<Seq<char>, Option<Seq<char>>>;

    closed spec fn view(&self) -> Self::V {
        entries_map(cache_entries_view(self.entries@))
    }
}

impl ProjectCache {
    /// An empty cache.
    pub fn new() -> (c: ProjectCache)
        ensures
            c@ == Map::<Seq<char>, Option<Seq<char>>>::empty(),
    {
        let c = ProjectCache { entries: Vec::new() };
        assert(cache_entries_view(c.entries@) =~= Seq::<(Seq<char>, Option<Seq<char>>)>::empty());
        c
    }

    /// The resolution remembered for `key`, if any: `Some(None)` records
    /// that the observation belongs to no project.
    pub fn get(&self, key: &str) -> (r: Option<Option<String>>)
        ensures
            self@.contains_key(key@) ==> (r matches Some(x) && match x {
                Some(p) => self@[key@] == Some(p@),
                None => self@[key@] is None,
            }),
            !self@.contains_key(key@) ==> r is None,
    {
        let ghost v = cache_entries_view(self.entries@);
        let mut i: usize = self.entries.len();
        proof {
            assert(v.take(v.len() as int) =~= v);
        }
        while i > 0
            invariant
                i <= self.entries.len(),
                v.len() == self.entries.len(),
                v == cache_entries_view(self.entries@),
                self@ == entries_map(v),
                entries_map(v).contains_key(key@) == entries_map(v.take(i as int)).contains_key(key@),
                entries_map(v).contains_key(key@) ==> entries_map(v)[key@] == entries_map(
                    v.take(i as int),
                )[key@],
            decreases i,
        {
            proof {
                assert(v.take(i as int).drop_last() =~= v.take(i - 1));
                assert(v.take(i as int).last() == v[i - 1]);
                assert(v[i - 1].0 == self.entries@[i - 1].0@);
            }
            if str_eq(self.entries[i - 1].0.as_str(), key) {
                return Some(self.entries[i - 1].1.clone());
            }
            i = i - 1;
        }
        proof {
            assert(v.take(0) =~= Seq::<(Seq<char>, Option<Seq<char>>)>::empty());
        }
        None
    }

    /// Remembers the resolution of `key`, replacing any earlier one.
    pub fn insert(&mut self, key: String, project_id: Option<String>)
        ensures
            final(self)@ == old(self)@.insert(
                key@,
                match project_id {
                    Some(p) => Some(p@),
                    None => None::<Seq<char>>,
                },
            ),
    {
        let ghost before = cache_entries_view(self.entries@);
        self.entries.push((key, project_id));
        proof {
            let after = cache_entries_view(self.entries@);
            assert(after.drop_last() =~= before);
        }
    }
}

/// What the cache last stored for a key is what it gives back for it; other
/// keys keep their resolutions.
pub proof fn law_cache_gives_back_stored(
    cache: Map<Seq<char>, Option<Seq<char>>>,
    key: Seq<char>,
    value: Option<Seq<char>>,
    other: Seq<char>,
)
    requires
        other != key,
    ensures
        cache.insert(key, value).contains_key(key),
        cache.insert(key, value)[key] == value,
        cache.insert(key, value).contains_key(other) == cache.contains_key(other),
        cache.contains_key(other) ==> cache.insert(key, value)[other] == cache[other],
{
}

/// The outcome counts of a push: observations stored, observations already
/// present, and the largest sequence number handed to a stored one (0 when
/// none was stored).
#[derive(Debug, Clone, Copy)]
pub struct PushTally {
    pub accepted: usize,
    pub duplicates: usize,
    pub server_seq_max: i64,
}

/// One insert outcome counted into the tally `prev` (stored, duplicates,
/// largest sequence number).
pub open spec fn spec_tally_step(prev: (nat, nat, i64), inserted: bool, seq: i64) -> (nat, nat, i64) {
    if inserted {
        (prev.0 + 1, prev.1, if seq > prev.2 {
            seq
        } else {
            prev.2
        })
    } else {
        (prev.0, prev.1 + 1, prev.2)
    }
}

/// The tally of a sequence of insert outcomes: whether the observation was
/// new, and the sequence number it was given.
pub open spec fn spec_tally(outcomes: Seq<(bool, i64)>) -> (nat, nat, i64)
    decreases outcomes.len(),
{
    if outcomes.len() == 0 {
        (0, 0, 0)
    } else {
        spec_tally_step(spec_tally(outcomes.drop_last()), outcomes.last().0, outcomes.last().1)
    }
}

impl PushTally {
    /// The counts of the tally.
    pub open spec fn counts(self) -> (nat, nat, i64) {
        (self.accepted as nat, self.duplicates as nat, self.server_seq_max)
    }
}

impl PushTally {
    /// Nothing counted yet.
    pub fn new() -> (t: PushTally)
        ensures
            t.accepted == 0 && t.duplicates == 0 && t.server_seq_max == 0,
            t.counts() == spec_tally(Seq::empty()),
    {
        PushTally { accepted: 0, duplicates: 0, server_seq_max: 0 }
    }

    /// Counts one insert: a new observation raises the accepted count and
    /// possibly the largest sequence number; a known one is a duplicate.
    pub fn record(&mut self, inserted: bool, seq: i64)
        requires
            old(self).accepted + old(self).duplicates < usize::MAX,
        ensures
            final(self).counts() == spec_tally_step(old(self).counts(), inserted, seq),
            inserted ==> final(self).accepted == old(self).accepted + 1 && final(self).duplicates
                == old(self).duplicates && final(self).server_seq_max == if seq > old(
                self,
            ).server_seq_max {
                seq
            } else {
                old(self).server_seq_max
            },
            !inserted ==> final(self).accepted == old(self).accepted && final(self).duplicates
                == old(self).duplicates + 1 && final(self).server_seq_max == old(
                self,
            ).server_seq_max,
    {
        if inserted {
            self.accepted = self.accepted + 1;
            if seq > self.server_seq_max {
                self.server_seq_max = seq;
            }
        } else {
            self.duplicates = self.duplicates + 1;
        }
    }
}

/// The insert outcomes of a push into a store that already holds the ids
/// `held`, where an insert of a known id is ignored: observation `i` is
/// stored when neither the store nor an earlier observation of the push
/// has its id, and is given the sequence number `seqs[i]`.
pub open spec fn spec_insert_outcomes(held: Set<Seq<char>>, ids: Seq<Seq<char>>, seqs: Seq<i64>) -> Seq<(bool, i64)> {
    Seq::new(
        ids.len(),
        |i: int| (!held.contains(ids[i]) && !ids.take(i).contains(ids[i]), seqs[i]),
    )
}

/// How many of `ids` the store `held` already has.
pub open spec fn count_held(held: Set<Seq<char>>, ids: Seq<Seq<char>>) -> nat
    decreases ids.len(),
{
    if ids.len() == 0 {
        0
    } else {
        count_held(held, ids.drop_last()) + if held.contains(ids.last()) {
            1nat
        } else {
            0nat
        }
    }
}

proof fn lemma_insert_outcomes_drop_last(held: Set<Seq<char>>, ids: Seq<Seq<char>>, seqs: Seq<i64>)
    requires
        ids.len() > 0,
        seqs.len() == ids.len(),
    ensures
        spec_insert_outcomes(held, ids, seqs).drop_last() == spec_insert_outcomes(
            held,
            ids.drop_last(),
            seqs.drop_last(),
        ),
{
    let a = spec_insert_outcomes(held, ids, seqs).drop_last();
    let b = spec_insert_outcomes(held, ids.drop_last(), seqs.drop_last());
    assert forall|i: int| 0 <= i < a.len() implies a[i] == b[i] by {
        assert(ids.drop_last().take(i) =~= ids.take(i));
        assert(ids.drop_last()[i] == ids[i]);
    }
    assert(a =~= b);
}

/// Push de-duplication by id: every observation is counted once, as stored
/// or as duplicate; with distinct ids, the duplicates are exactly those the
/// store already had; and pushing the same observations again stores
/// nothing and counts them all as duplicates.
pub proof fn law_push_dedup_by_id(held: Set<Seq<char>>, ids: Seq<Seq<char>>, seqs: Seq<i64>, again: Seq<i64>)
    requires
        seqs.len() == ids.len(),
        again.len() == ids.len(),
    ensures
        spec_tally(spec_insert_outcomes(held, ids, seqs)).0 + spec_tally(
            spec_insert_outcomes(held, ids, seqs),
        ).1 == ids.len(),
        (forall|i: int, j: int| 0 <= i < j < ids.len() ==> ids[i] != ids[j]) ==> spec_tally(
            spec_insert_outcomes(held, ids, seqs),
        ).1 == count_held(held, ids),
        spec_tally(spec_insert_outcomes(held.union(ids.to_set()), ids, again)).0 == 0,
        spec_tally(spec_insert_outcomes(held.union(ids.to_set()), ids, again)).1 == ids.len(),
{
    law_tally_counts_each_once(spec_insert_outcomes(held, ids, seqs));
    law_tally_counts_each_once(spec_insert_outcomes(held.union(ids.to_set()), ids, again));
    if forall|i: int, j: int| 0 <= i < j < ids.len() ==> ids[i] != ids[j] {
        lemma_tally_distinct(held, ids, seqs);
    }
    let h2 = held.union(ids.to_set());
    assert forall|i: int| 0 <= i < ids.len() implies h2.contains(#[trigger] ids[i]) by {
        assert(ids.to_set().contains(ids[i]));
    }
    lemma_tally_all_held(h2, ids, again);
}

proof fn lemma_tally_distinct(held: Set<Seq<char>>, ids: Seq<Seq<char>>, seqs: Seq<i64>)
    requires
        seqs.len() == ids.len(),
        forall|i: int, j: int| 0 <= i < j < ids.len() ==> ids[i] != ids[j],
    ensures
        spec_tally(spec_insert_outcomes(held, ids, seqs)).1 == count_held(held, ids),
    decreases ids.len(),
{
    if ids.len() > 0 {
        let n = ids.len() - 1;
        let d = ids.drop_last();
        assert forall|i: int, j: int| 0 <= i < j < d.len() implies d[i] != d[j] by {
            assert(d[i] == ids[i] && d[j] == ids[j]);
        }
        lemma_tally_distinct(held, d, seqs.drop_last());
        lemma_insert_outcomes_drop_last(held, ids, seqs);
        let o = spec_insert_outcomes(held, ids, seqs);
        assert(ids.last() == ids[n]);
        assert(!ids.take(n).contains(ids[n])) by {
            if ids.take(n).contains(ids[n]) {
                let k = choose|k: int| 0 <= k < ids.take(n).len() && ids.take(n)[k] == ids[n];
                assert(ids[k] == ids[n]);
            }
        }
        assert(o.last() == o[n]);
        assert(o[n].0 == !held.contains(ids.last()));
    }
}

proof fn lemma_tally_all_held(held: Set<Seq<char>>, ids: Seq<Seq<char>>, seqs: Seq<i64>)
    requires
        seqs.len() == ids.len(),
        forall|i: int| 0 <= i < ids.len() ==> held.contains(#[trigger] ids[i]),
    ensures
        spec_tally(spec_insert_outcomes(held, ids, seqs)).0 == 0,
    decreases ids.len(),
{
    if ids.len() > 0 {
        let n = ids.len() - 1;
        let d = ids.drop_last();
        assert forall|i: int| 0 <= i < d.len() implies held.contains(#[trigger] d[i]) by {
            assert(d[i] == ids[i]);
        }
        lemma_tally_all_held(held, d, seqs.drop_last());
        lemma_insert_outcomes_drop_last(held, ids, seqs);
        let o = spec_insert_outcomes(held, ids, seqs);
        assert(o.last() == o[n]);
        assert(held.contains(ids[n]));
    }
}

/// Every observation of a push is counted once, as stored or as duplicate,
/// and the reported sequence number bounds those of the stored ones.
pub proof fn law_tally_counts_each_once(outcomes: Seq<(bool, i64)>)
    ensures
        spec_tally(outcomes).0 + spec_tally(outcomes).1 == outcomes.len(),
        forall|i: int|
            0 <= i < outcomes.len() && (#[trigger] outcomes[i]).0 ==> outcomes[i].1
                <= spec_tally(outcomes).2,
        spec_tally(outcomes).2 >= 0,
    decreases outcomes.len(),
{
    if outcomes.len() > 0 {
        law_tally_counts_each_once(outcomes.drop_last());
        assert forall|i: int|
            0 <= i < outcomes.len() && (#[trigger] outcomes[i]).0 implies outcomes[i].1
                <= spec_tally(outcomes).2 by {
            if i < outcomes.len() - 1 {
                assert(outcomes.drop_last()[i] == outcomes[i]);
            }
        }
    }
}

// ---------- pull ----------

/// Rows per pull when the client names no valid limit.
pub const DEFAULT_PULL_LIMIT: i64 = 500;

/// The largest limit a client may ask for.
pub const MAX_PULL_LIMIT: i64 = 5000;

/// The limit and cursor of a pull: a missing limit, or one outside
/// 1..=5000, becomes 500; a negative cursor becomes 0.
pub open spec fn spec_pull_window(limit: Option<i64>, since_seq: i64) -> (i64, i64) {
    let l = match limit {
        Some(x) => x,
        None => 500,
    };
    (if l <= 0 || l > 5000 {
        500
    } else {
        l
    }, if since_seq < 0 {
        0
    } else {
        since_seq
    })
}

/// The limit and cursor a pull works with.
pub fn pull_window(limit: Option<i64>, since_seq: i64) -> (r: (i64, i64))
    ensures
        r == spec_pull_window(limit, since_seq),
        1 <= r.0 <= 5000,
        r.1 >= 0,
{
    let mut l = match limit {
        Some(x) => x,
        None => DEFAULT_PULL_LIMIT,
    };
    if l <= 0 || l > MAX_PULL_LIMIT {
        l = DEFAULT_PULL_LIMIT;
    }
    let since = if since_seq < 0 {
        0
    } else {
        since_seq
    };
    (l, since)
}

/// The largest of `seqs` and `floor`.
pub open spec fn spec_max_from(seqs: Seq<i64>, floor: i64) -> i64
    decreases seqs.len(),
{
    if seqs.len() == 0 {
        floor
    } else {
        let prev = spec_max_from(seqs.drop_last(), floor);
        if seqs.last() > prev {
            seqs.last()
        } else {
            prev
        }
    }
}

fn max_from(seqs: &[i64], floor: i64) -> (r: i64)
    ensures
        r == spec_max_from(seqs@, floor),
{
    let mut m = floor;
    let mut i: usize = 0;
    proof {
        assert(seqs@.take(0) =~= Seq::<i64>::empty());
    }
    while i < seqs.len()
        invariant
            i <= seqs.len(),
            m == spec_max_from(seqs@.take(i as int), floor),
        decreases seqs.len() - i,
    {
        proof {
            assert(seqs@.take(i + 1).drop_last() =~= seqs@.take(i as int));
            assert(seqs@.take(i + 1).last() == seqs@[i as int]);
        }
        if seqs[i] > m {
            m = seqs[i];
        }
        i = i + 1;
    }
    proof {
        assert(seqs@.take(seqs.len() as int) =~= seqs@);
    }
    m
}

/// The cursor for the next pull: the largest sequence number among the
/// observations returned, never below the current cursor.
pub fn next_since_seq(own_seqs: &[i64], shared_seqs: &[i64], since: i64) -> (r: i64)
    ensures
        r == spec_max_from(shared_seqs@, spec_max_from(own_seqs@, since)),
{
    let a = max_from(own_seqs, since);
    max_from(shared_seqs, a)
}

/// The next cursor never goes back, and no returned observation lies past
/// it.
pub proof fn law_cursor_bounds(seqs: Seq<i64>, floor: i64)
    ensures
        spec_max_from(seqs, floor) >= floor,
        forall|i: int| 0 <= i < seqs.len() ==> #[trigger] seqs[i] <= spec_max_from(seqs, floor),
    decreases seqs.len(),
{
    if seqs.len() > 0 {
        law_cursor_bounds(seqs.drop_last(), floor);
        assert forall|i: int| 0 <= i < seqs.len() implies #[trigger] seqs[i] <= spec_max_from(
            seqs,
            floor,
        ) by {
            if i < seqs.len() - 1 {
                assert(seqs.drop_last()[i] == seqs[i]);
            }
        }
    }
}

/// Whether more may wait after this pull: either list filled its limit.
pub fn pull_has_more(own_len: usize, shared_len: usize, limit: i64) -> (r: bool)
    requires
        limit >= 1,
    ensures
        r == (own_len >= limit || shared_len >= limit),
{
    let l = limit as u64;
    own_len as u64 >= l || shared_len as u64 >= l
}

/// How far back revoked shares are reported: 30 days before `now`.
pub fn revoke_lookback(now: i64) -> (r: i64)
    requires
        now >= i64::MIN + 2592000,
    ensures
        r == now - 2592000,
{
    now - 30 * 86400
}

/// The machine a pull comes from, if the principal names one.
pub fn pull_machine_id(principal: &Principal) -> (r: Option<String>)
    ensures
        match *principal {
            Principal::Machine { machine_id, .. } => r matches Some(m) && m@ == machine_id@,
            Principal::User { machine_id, .. } => match machine_id {
                Some(mid) => r matches Some(m) && m@ == mid@,
                None => r is None,
            },
        },
{
    match principal {
        Principal::Machine { machine_id, .. } => Some(machine_id.clone()),
        Principal::User { machine_id, .. } => machine_id.clone(),
    }
}

/// Whether `id` is one of `ids`.
pub open spec fn listed(ids: Seq<Seq<char>>, id: Seq<char>) -> bool {
    exists|j: int| 0 <= j < ids.len() && ids[j] == id
}

/// The observations of `rows` not recorded by any machine in `exclude`,
/// in order.
pub open spec fn spec_without_machines(rows: Seq<ObservationRow>, exclude: Seq<Seq<char>>) -> Seq<
    ObservationRow,
>
    decreases rows.len(),
{
    if rows.len() == 0 {
        Seq::empty()
    } else {
        let prev = spec_without_machines(rows.drop_last(), exclude);
        if listed(exclude, rows.last().machine_id@) {
            prev
        } else {
            prev.push(rows.last())
        }
    }
}

/// Leaving out machines keeps a row exactly when its machine is not in the
/// exclude list: the result is the rows, in order, whose machine is not
/// listed; every kept row is such a row of the input and every such row is
/// kept; and excluding nothing gives the rows back unchanged.
pub proof fn law_without_machines_keeps_unlisted(rows: Seq<ObservationRow>, exclude: Seq<Seq<char>>)
    ensures
        spec_without_machines(rows, exclude) == rows.filter(
            |r: ObservationRow| !listed(exclude, r.machine_id@),
        ),
        forall|i: int|
            0 <= i < spec_without_machines(rows, exclude).len() ==> !listed(
                exclude,
                (#[trigger] spec_without_machines(rows, exclude)[i]).machine_id@,
            ) && rows.contains(spec_without_machines(rows, exclude)[i]),
        forall|i: int|
            0 <= i < rows.len() && !listed(exclude, (#[trigger] rows[i]).machine_id@)
                ==> spec_without_machines(rows, exclude).contains(rows[i]),
        exclude.len() == 0 ==> spec_without_machines(rows, exclude) == rows,
    decreases rows.len(),
{
    let keep = |r: ObservationRow| !listed(exclude, r.machine_id@);
    let out = spec_without_machines(rows, exclude);
    if rows.len() > 0 {
        let d = rows.drop_last();
        law_without_machines_keeps_unlisted(d, exclude);
        let prev = spec_without_machines(d, exclude);
        reveal(Seq::filter);
        assert(rows.filter(keep) == if keep(rows.last()) {
            d.filter(keep).push(rows.last())
        } else {
            d.filter(keep)
        });
        assert forall|i: int| 0 <= i < out.len() implies !listed(
            exclude,
            (#[trigger] out[i]).machine_id@,
        ) && rows.contains(out[i]) by {
            if i < prev.len() {
                assert(out[i] == prev[i]);
                let j = choose|j: int| 0 <= j < d.len() && d[j] == prev[i];
                assert(rows[j] == d[j]);
            } else {
                assert(out[i] == rows.last());
                assert(rows[rows.len() - 1] == rows.last());
            }
        }
        assert forall|i: int|
            0 <= i < rows.len() && !listed(exclude, (#[trigger] rows[i]).machine_id@) implies out.contains(
            rows[i],
        ) by {
            if i < rows.len() - 1 {
                assert(d[i] == rows[i]);
                let j = choose|j: int| 0 <= j < prev.len() && prev[j] == d[i];
                assert(out[j] == prev[j]);
            } else {
                assert(rows[i] == rows.last());
                assert(out[out.len() - 1] == rows.last());
            }
        }
        if exclude.len() == 0 {
            assert(!listed(exclude, rows.last().machine_id@));
            assert(d.push(rows.last()) =~= rows);
        }
    } else {
        reveal(Seq::filter);
    }
}

fn is_listed(ids: &[String], id: &str) -> (r: bool)
    ensures
        r == listed(ids@.map_values(|s: String| s@), id@),
{
    let ghost v = ids@.map_values(|s: String| s@);
    let mut j: usize = 0;
    while j < ids.len()
        invariant
            j <= ids.len(),
            v == ids@.map_values(|s: String| s@),
            forall|k: int| 0 <= k < j ==> v[k] != id@,
        decreases ids.len() - j,
    {
        if str_eq(ids[j].as_str(), id) {
            assert(v[j as int] == id@);
            return true;
        }
        j = j + 1;
    }
    false
}

/// A user's own observations for a pull, leaving out those recorded by the
/// machines the client asked to exclude (its own, typically).
pub fn without_machines(rows: Vec<ObservationRow>, exclude: &[String]) -> (r: Vec<ObservationRow>)
    ensures
        r@ == spec_without_machines(rows@, exclude@.map_values(|s: String| s@)),
{
    let ghost ex = exclude@.map_values(|s: String| s@);
    let ghost rs = rows@;
    let mut out: Vec<ObservationRow> = Vec::new();
    proof {
        assert(rs.take(0) =~= Seq::<ObservationRow>::empty());
    }
    for row in it: rows.into_iter()
        invariant
            ex == exclude@.map_values(|s: String| s@),
            it.seq() == rs,
            out@ == spec_without_machines(rs.take(it.index() as int), ex),
    {
        proof {
            assert(rs.take(it.index() + 1).drop_last() =~= rs.take(it.index() as int));
            assert(rs.take(it.index() + 1).last() == row);
        }
        if !is_listed(exclude, row.machine_id.as_str()) {
            out.push(row);
        }
    }
    proof {
        assert(rs.take(rs.len() as int) =~= rs);
    }
    out
}

} // verus!

