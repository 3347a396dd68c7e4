//! The score cache: an associative store from session identifier to the most
//! recent score, with per-entry time-to-live, and a batch executor that
//! consults and populates it.

use vstd::prelude::*;
use vstd::string::StringExecFns;
use crate::rules::RuleDefinition;
use crate::scorer::BehaviorScorer;
use crate::scorer::ScoreModel;
use crate::scorer::SessionScore;
use crate::scorer::eval_model;
use crate::scorer::score_error_seq;
use crate::scorer::score_model;
use crate::security::valid_session_id_chars;
use crate::security::valid_transcript_bytes;
use vstd::utf8::encode_utf8;

verus! {

/// The observable content of one cache entry: the stored score, its
/// evaluation timestamp, and the instant it was stored, in milliseconds.
#[verifier::ext_equal]
pub ghost struct CacheEntryModel {
    pub score: ScoreModel,
    pub score_timestamp_millis: i64,
    pub stored_at_ms: u64,
}

struct CacheEntry {
    session_id: String,
    score: SessionScore,
    stored_at_ms: u64,
}

/// A cache entry is valid while strictly less than the time-to-live has
/// elapsed since it was stored; a clock reading older than the store instant
/// counts as no elapsed time.
pub open spec fn entry_live(stored_at_ms: u64, now_ms: u64, ttl_ms: u64) -> bool {
    (if now_ms >= stored_at_ms {
        now_ms - stored_at_ms
    } else {
        0int
    }) < ttl_ms
}

/// What a lookup yields on a cache state: the stored score, if the key is
/// present and its entry is still live.
pub open spec fn cache_lookup(
    m: Map<Seq<char>, CacheEntryModel>,
    ttl_ms: u64,
    k: Seq<char>,
    now_ms: u64,
) -> Option<ScoreModel> {
    if m.contains_key(k) && entry_live(m[k].stored_at_ms, now_ms, ttl_ms) {
        Some(m[k].score)
    } else {
        None
    }
}

/// The view of an optional score.
pub open spec fn view_opt_score(o: Option<SessionScore>) -> Option<ScoreModel> {
    match o {
        Some(s) => Some(score_model(s)),
        None => None,
    }
}

/// The configured time-to-live in milliseconds for a TTL given in seconds,
/// saturating at the integer limit.
pub open spec fn ttl_ms_of(ttl_seconds: u64) -> u64 {
    if ttl_seconds <= u64::MAX / 1000 {
        (ttl_seconds * 1000) as u64
    } else {
        u64::MAX
    }
}

spec fn entry_model(e: CacheEntry) -> CacheEntryModel {
    CacheEntryModel {
        score: score_model(e.score),
        score_timestamp_millis: e.score.timestamp_millis,
        stored_at_ms: e.stored_at_ms,
    }
}

spec fn entries_map(s: Seq<CacheEntry>) -> Map<Seq<char>, CacheEntryModel>
    decreases s.len(),
{
    if s.len() == 0 {
        Map::empty()
    } else {
        entries_map(s.drop_last()).insert(s.last().session_id@, entry_model(s.last()))
    }
}

spec fn unique_keys(s: Seq<CacheEntry>) -> bool {
    forall|i: int, j: int|
        0 <= i < j < s.len() ==> s[i].session_id@ != s[j].session_id@
}

proof fn lemma_entries_map_absent(s: Seq<CacheEntry>, k: Seq<char>)
    requires
        forall|i: int| 0 <= i < s.len() ==> (#[trigger] s[i].session_id@) != k,
    ensures
        !entries_map(s).contains_key(k),
    decreases s.len(),
{
    if s.len() > 0 {
        lemma_entries_map_absent(s.drop_last(), k);
    }
}

proof fn lemma_entries_map_index(s: Seq<CacheEntry>, i: int)
    requires
        unique_keys(s),
        0 <= i < s.len(),
    ensures
        entries_map(s).contains_key(s[i].session_id@),
        entries_map(s)[s[i].session_id@] == entry_model(s[i]),
    decreases s.len(),
{
    if i < s.len() - 1 {
        assert(unique_keys(s.drop_last()));
        lemma_entries_map_index(s.drop_last(), i);
    }
}

proof fn lemma_entries_map_update(s: Seq<CacheEntry>, i: int, e: CacheEntry)
    requires
        unique_keys(s),
        0 <= i < s.len(),
        e.session_id@ == s[i].session_id@,
    ensures
        unique_keys(s.update(i, e)),
        entries_map(s.update(i, e)) == entries_map(s).insert(e.session_id@, entry_model(e)),
    decreases s.len(),
{
    let k = e.session_id@;
    if i == s.len() - 1 {
        assert(s.update(i, e).drop_last() =~= s.drop_last());
        assert(entries_map(s.update(i, e)) =~= entries_map(s).insert(k, entry_model(e)));
    } else {
        assert(unique_keys(s.drop_last()));
        lemma_entries_map_update(s.drop_last(), i, e);
        assert(s.update(i, e).drop_last() =~= s.drop_last().update(i, e));
        assert(s.update(i, e).last() == s.last());
        assert(s.last().session_id@ != k);
        assert(entries_map(s.update(i, e)) =~= entries_map(s).insert(k, entry_model(e)));
    }
}

/// A concurrent-reader score cache with per-entry expiry.  Its model is a map
/// from session identifier to the stored score and store instant; time enters
/// through explicit clock readings, so every caller's reasoning holds for
/// whatever instants the clock supplies.
pub struct ScoreCache {
    entries: Vec<CacheEntry>,
    ttl_ms: u64,
}

impl View for ScoreCache {
    type V = Map<Seq<char>, CacheEntryModel>;

    closed spec fn view(&self) -> Map<Seq<char>, CacheEntryModel> {
        entries_map(self.entries@)
    }
}

impl ScoreCache {
    #[verifier::type_invariant]
    spec fn wf(self) -> bool {
        unique_keys(self.entries@)
    }

    /// The configured time-to-live, in milliseconds.
    pub closed spec fn ttl_spec(&self) -> u64 {
        self.ttl_ms
    }

    /// An empty cache whose entries live for `ttl_seconds`.
    pub fn new(ttl_seconds: u64) -> (r: Self)
        ensures
            r@ == Map::<Seq<char>, CacheEntryModel>::empty(),
            r.ttl_spec() == ttl_ms_of(ttl_seconds),
    {
        let ttl_ms = if ttl_seconds <= u64::MAX / 1000 {
            ttl_seconds * 1000
        } else {
            u64::MAX
        };
        ScoreCache { entries: Vec::new(), ttl_ms }
    }

    /// The position of the entry for a key, if one exists.
    fn find_entry(&self, key: &String) -> (r: Option<usize>)
        ensures
            match r {
                Some(i) => i < self.entries@.len() && self.entries@[i as int].session_id@ == key@,
                None => forall|j: int|
                    0 <= j < self.entries@.len() ==> (#[trigger] self.entries@[j].session_id@)
                        != key@,
            },
    {
        let mut i: usize = 0;
        while i < self.entries.len()
            invariant
                i <= self.entries@.len(),
                forall|j: int| 0 <= j < i ==> (#[trigger] self.entries@[j].session_id@) != key@,
            decreases self.entries@.len() - i,
        {
            if self.entries[i].session_id == *key {
                return Some(i);
            }
            i += 1;
        }
        None
    }

    /// The cached score for the identifier, provided it was stored less than
    /// the time-to-live before the given clock reading; an expired or absent
    /// entry yields nothing, and the state is unchanged.
    pub fn get(&self, session_id: &str, now_ms: u64) -> (r: Option<SessionScore>)
        ensures
            view_opt_score(r) == cache_lookup(self@, self.ttl_spec(), session_id@, now_ms),
            r matches Some(s) ==> self@.contains_key(session_id@) && s.timestamp_millis == self@[
                session_id@
            ].score_timestamp_millis,
    {
        proof {
            use_type_invariant(self);
        }
        let key = String::from_str(session_id);
        match self.find_entry(&key) {
            Some(i) => {
                proof {
                    lemma_entries_map_index(self.entries@, i as int);
                }
                let e = &self.entries[i];
                let elapsed = if now_ms >= e.stored_at_ms {
                    now_ms - e.stored_at_ms
                } else {
                    0
                };
                if elapsed < self.ttl_ms {
                    Some(e.score.duplicate())
                } else {
                    None
                }
            },
            None => {
                proof {
                    lemma_entries_map_absent(self.entries@, session_id@);
                }
                None
            },
        }
    }

    /// Stores a score for the identifier, overwriting any previous entry and
    /// stamping it with the given clock reading.
    pub fn set(&mut self, session_id: &str, score: SessionScore, now_ms: u64)
        ensures
            final(self)@ == old(self)@.insert(
                session_id@,
                CacheEntryModel {
                    score: score_model(score),
                    score_timestamp_millis: score.timestamp_millis,
                    stored_at_ms: now_ms,
                },
            ),
            final(self).ttl_spec() == old(self).ttl_spec(),
    {
        proof {
            use_type_invariant(&*self);
        }
        let key = String::from_str(session_id);
        let found = self.find_entry(&key);
        let entry = CacheEntry { session_id: key, score, stored_at_ms: now_ms };
        let mut entries: Vec<CacheEntry> = Vec::new();
        std::mem::swap(&mut entries, &mut self.entries);
        match found {
            Some(i) => {
                proof {
                    lemma_entries_map_update(entries@, i as int, entry);
                }
                entries[i] = entry;
            },
            None => {
                proof {
                    lemma_entries_map_absent(entries@, session_id@);
                    assert(entries@.push(entry).drop_last() =~= entries@);
                }
                entries.push(entry);
            },
        }
        self.entries = entries;
    }

    /// Drops every entry that has outlived the time-to-live at the given
    /// clock reading; live entries are kept unchanged.
    pub fn cleanup(&mut self, now_ms: u64)
        ensures
            forall|k: Seq<char>|
                #[trigger] final(self)@.contains_key(k) <==> (old(self)@.contains_key(k)
                    && entry_live(old(self)@[k].stored_at_ms, now_ms, old(self).ttl_spec())),
            forall|k: Seq<char>|
                final(self)@.contains_key(k) ==> #[trigger] final(self)@[k] == old(self)@[k],
            final(self).ttl_spec() == old(self).ttl_spec(),
    {
        proof {
            use_type_invariant(&*self);
        }
        let ghost s0 = self.entries@;
        let ghost m0 = entries_map(s0);
        let mut kept: Vec<CacheEntry> = Vec::new();
        let mut i: usize = 0;
        while i < self.entries.len()
            invariant
                unique_keys(s0),
                s0 == self.entries@,
                i <= s0.len(),
                unique_keys(kept@),
                forall|k: Seq<char>|
                    #[trigger] entries_map(kept@).contains_key(k) <==> (entries_map(
                        s0.take(i as int),
                    ).contains_key(k) && entry_live(
                        entries_map(s0.take(i as int))[k].stored_at_ms,
                        now_ms,
                        self.ttl_ms,
                    )),
                forall|k: Seq<char>|
                    entries_map(kept@).contains_key(k) ==> #[trigger] entries_map(kept@)[k]
                        == entries_map(s0.take(i as int))[k],
            decreases s0.len() - i,
        {
            proof {
                let ghost ki = s0[i as int].session_id@;
                assert(s0.take(i + 1).drop_last() =~= s0.take(i as int));
                assert(s0.take(i + 1).last() == s0[i as int]);
                assert forall|j: int|
                    0 <= j < i implies (#[trigger] s0.take(i as int)[j].session_id@) != ki by {
                    assert(s0[j].session_id@ != s0[i as int].session_id@);
                }
                lemma_entries_map_absent(s0.take(i as int), ki);
                assert forall|j: int|
                    0 <= j < kept@.len() implies (#[trigger] kept@[j].session_id@) != ki by {
                    if kept@[j].session_id@ == ki {
                        lemma_entries_map_index(kept@, j);
                    }
                }
                lemma_entries_map_absent(kept@, ki);
            }
            let e = &self.entries[i];
            let elapsed = if now_ms >= e.stored_at_ms {
                now_ms - e.stored_at_ms
            } else {
                0
            };
            if elapsed < self.ttl_ms {
                let copy = CacheEntry {
                    session_id: e.session_id.clone(),
                    score: e.score.duplicate(),
                    stored_at_ms: e.stored_at_ms,
                };
                proof {
                    assert(kept@.push(copy).drop_last() =~= kept@);
                    assert(entry_model(copy) =~= entry_model(s0[i as int]));
                }
                kept.push(copy);
            }
            i += 1;
        }
        proof {
            assert(s0.take(s0.len() as int) =~= s0);
        }
        self.entries = kept;
    }
}

/// Cache correctness: after a score is stored under a key, a lookup with that
/// key yields exactly that score at every clock reading within the
/// time-to-live of the store instant, and nothing at every reading past it.
pub proof fn lemma_set_then_get(
    m: Map<Seq<char>, CacheEntryModel>,
    ttl_ms: u64,
    k: Seq<char>,
    score: ScoreModel,
    score_ts: i64,
    stored_ms: u64,
    now_ms: u64,
)
    ensures
        ({
            let stored = CacheEntryModel {
                score,
                score_timestamp_millis: score_ts,
                stored_at_ms: stored_ms,
            };
            &&& cache_lookup(m.insert(k, stored), ttl_ms, k, now_ms) == (if entry_live(
                stored_ms,
                now_ms,
                ttl_ms,
            ) {
                Some(score)
            } else {
                None::<ScoreModel>
            })
            &&& m.insert(k, stored)[k].score_timestamp_millis == score_ts
        }),
{
}

/// The part of a cache state a batch run determines: each entry's score
/// model and store instant.  The evaluation timestamp a fresh score carries
/// comes from the clock inside the engine, so it stays outside this view.
pub open spec fn cache_snapshot(m: Map<Seq<char>, CacheEntryModel>) -> Map<
    Seq<char>,
    (ScoreModel, u64),
> {
    Map::new(|k: Seq<char>| m.contains_key(k), |k: Seq<char>| (m[k].score, m[k].stored_at_ms))
}

/// What a lookup yields on a snapshot: the stored score, if the key is
/// present and its entry is still live.
pub open spec fn snapshot_lookup(
    m: Map<Seq<char>, (ScoreModel, u64)>,
    ttl_ms: u64,
    k: Seq<char>,
    now_ms: u64,
) -> Option<ScoreModel> {
    if m.contains_key(k) && entry_live(m[k].1, now_ms, ttl_ms) {
        Some(m[k].0)
    } else {
        None
    }
}

/// Valid inputs for one scoring call, over the characters of the identifier
/// and the transcript.
pub open spec fn session_inputs_valid(sid: Seq<char>, t: Seq<char>) -> bool {
    valid_session_id_chars(sid) && valid_transcript_bytes(encode_utf8(t))
}

/// The model of one scoring result.
pub open spec fn result_model(r: Result<SessionScore, String>) -> Result<ScoreModel, Seq<char>> {
    match r {
        Ok(s) => Ok(score_model(s)),
        Err(e) => Err(e@),
    }
}

/// The models of a list of scoring results.
pub open spec fn results_models(rs: Seq<Result<SessionScore, String>>) -> Seq<
    Result<ScoreModel, Seq<char>>,
> {
    Seq::new(rs.len(), |i: int| result_model(rs[i]))
}

/// One step of the batch: consult the cache; on a miss, evaluate, and store
/// the score if the evaluation succeeded.
pub open spec fn batch_step(
    rules: Seq<RuleDefinition>,
    ttl_ms: u64,
    now_ms: u64,
    acc: (Seq<Result<ScoreModel, Seq<char>>>, Map<Seq<char>, (ScoreModel, u64)>),
    session: (String, String),
) -> (Seq<Result<ScoreModel, Seq<char>>>, Map<Seq<char>, (ScoreModel, u64)>) {
    let sid = session.0@;
    let t = session.1@;
    match snapshot_lookup(acc.1, ttl_ms, sid, now_ms) {
        Some(sm) => (acc.0.push(Ok(sm)), acc.1),
        None => {
            if session_inputs_valid(sid, t) {
                let em = eval_model(rules, sid, t);
                (acc.0.push(Ok(em)), acc.1.insert(sid, (em, now_ms)))
            } else {
                (acc.0.push(Err(score_error_seq(sid, encode_utf8(t)))), acc.1)
            }
        },
    }
}

/// The results and final cache state of scoring a list of sessions in order.
pub open spec fn batch_fold(
    rules: Seq<RuleDefinition>,
    ttl_ms: u64,
    now_ms: u64,
    sessions: Seq<(String, String)>,
    m0: Map<Seq<char>, (ScoreModel, u64)>,
) -> (Seq<Result<ScoreModel, Seq<char>>>, Map<Seq<char>, (ScoreModel, u64)>)
    decreases sessions.len(),
{
    if sessions.len() == 0 {
        (Seq::empty(), m0)
    } else {
        batch_step(
            rules,
            ttl_ms,
            now_ms,
            batch_fold(rules, ttl_ms, now_ms, sessions.drop_last(), m0),
            sessions.last(),
        )
    }
}

/// Scores a list of `(session identifier, transcript)` pairs, consulting the
/// cache first and storing each fresh successful score.  Exactly one result
/// is produced per input, in input order; one failing input does not affect
/// the others.
pub fn score_sessions_batch(
    scorer: &BehaviorScorer,
    sessions: Vec<(String, String)>,
    cache: &mut ScoreCache,
    now_ms: u64,
) -> (r: Vec<Result<SessionScore, String>>)
    ensures
        r@.len() == sessions@.len(),
        ({
            let (rs, m) = batch_fold(
                scorer.rules_spec(),
                old(cache).ttl_spec(),
                now_ms,
                sessions@,
                cache_snapshot(old(cache)@),
            );
            &&& results_models(r@) == rs
            &&& cache_snapshot(final(cache)@) == m
            &&& final(cache).ttl_spec() == old(cache).ttl_spec()
        }),
{
    let ghost ttl = cache.ttl_spec();
    let ghost m0 = cache_snapshot(cache@);
    let ghost rules = scorer.rules_spec();
    let mut results: Vec<Result<SessionScore, String>> = Vec::new();
    let mut i: usize = 0;
    while i < sessions.len()
        invariant
            rules == scorer.rules_spec(),
            i <= sessions@.len(),
            results@.len() == i,
            cache.ttl_spec() == ttl,
            ({
                let (rs, m) = batch_fold(rules, ttl, now_ms, sessions@.take(i as int), m0);
                results_models(results@) == rs && cache_snapshot(cache@) == m
            }),
        decreases sessions@.len() - i,
    {
        let pair = &sessions[i];
        let cached = cache.get(pair.0.as_str(), now_ms);
        match cached {
            Some(s) => results.push(Ok(s)),
            None => {
                match scorer.score_session(pair.0.as_str(), pair.1.as_str()) {
                    Ok(score) => {
                        cache.set(pair.0.as_str(), score.duplicate(), now_ms);
                        results.push(Ok(score));
                    },
                    Err(e) => results.push(Err(e)),
                }
            },
        }
        proof {
            assert(sessions@.take(i + 1).drop_last() =~= sessions@.take(i as int));
            assert(sessions@.take(i + 1).last() == sessions@[i as int]);
            let (rs1, m1) = batch_fold(rules, ttl, now_ms, sessions@.take(i + 1), m0);
            assert(results_models(results@) =~= rs1);
            assert(cache_snapshot(cache@) =~= m1);
        }
        i += 1;
    }
    proof {
        assert(sessions@.take(sessions@.len() as int) =~= sessions@);
    }
    results
}

} // verus!
