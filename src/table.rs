//! The command table: normalised phrase to shell action, plus the reserved
//! mode-toggle phrase.

use vstd::prelude::*;
use crate::fuzzy::{any_qualifies, best_scored_match, is_best_match, lemma_best_match_exists, lemma_best_match_unique, score_all, scores_against};
use crate::text::{normalize, normalized, toggle_phrase, toggle_phrase_spec, is_strict_prefix_of, starts_with};

verus! {

/// The configured commands, as (trigger phrase, shell action) pairs.
pub struct CommandConfig {
    pub commands: Vec<(String, String)>,
}

/// Why a configuration cannot become a command table.
#[derive(Debug, PartialEq, Eq, Structural, Clone, Copy)]
pub enum TableError {
    /// A trigger phrase normalises to the reserved toggle phrase.
    ReservedPhrase,
    /// One normalised phrase is bound to two different actions.
    ConflictingActions,
}

/// Trigger phrase `i` of the configuration normalises to the toggle phrase.
pub open spec fn reserved_at(pairs: Seq<(String, String)>, i: int) -> bool {
    normalized(pairs[i].0@) == toggle_phrase_spec()
}

/// Entries `i < j` of the configuration share a phrase but not an action.
pub open spec fn conflict_at(pairs: Seq<(String, String)>, i: int, j: int) -> bool {
    &&& 0 <= i < j < pairs.len()
    &&& normalized(pairs[i].0@) == normalized(pairs[j].0@)
    &&& pairs[i].1@ != pairs[j].1@
}

pub open spec fn any_reserved(pairs: Seq<(String, String)>) -> bool {
    exists|i: int| 0 <= i < pairs.len() && #[trigger] reserved_at(pairs, i)
}

pub open spec fn any_conflict(pairs: Seq<(String, String)>) -> bool {
    exists|i: int, j: int| #[trigger] conflict_at(pairs, i, j)
}

/// The shape of a table: one action per command phrase, the toggle phrase
/// last and nowhere else, and no phrase twice.
pub open spec fn table_shape(ps: Seq<Seq<char>>, acts: Seq<Seq<char>>) -> bool {
    &&& ps.len() == acts.len() + 1
    &&& ps.last() == toggle_phrase_spec()
    &&& forall|i: int| 0 <= i < acts.len() ==> #[trigger] ps[i] != toggle_phrase_spec()
    &&& forall|i: int, j: int| 0 <= i < j < ps.len() ==> #[trigger] ps[i] != #[trigger] ps[j]
}

/// Some command of a table with phrases `ps` and actions `acts` binds
/// phrase `k` to action `v`.
pub open spec fn binds(ps: Seq<Seq<char>>, acts: Seq<Seq<char>>, k: Seq<char>, v: Seq<char>) -> bool {
    exists|j: int| 0 <= j < acts.len() && ps[j] == k && #[trigger] acts[j] == v
}

/// Some entry of the configuration binds phrase `k`, once normalised, to
/// action `v`.
pub open spec fn configured(pairs: Seq<(String, String)>, k: Seq<char>, v: Seq<char>) -> bool {
    exists|a: int| 0 <= a < pairs.len() && normalized(pairs[a].0@) == k && #[trigger] pairs[a].1@ == v
}

/// Finds the index of `t` among `ps`.
pub fn find_phrase(ps: &Vec<String>, t: &String) -> (r: Option<usize>)
    ensures
        match r {
            Some(j) => j < ps.len() && ps@[j as int]@ == t@ && forall|k: int| 0 <= k < j ==> ps@[k]@ != t@,
            None => forall|j: int| 0 <= j < ps.len() ==> ps@[j]@ != t@,
        },
{
    let mut j: usize = 0;
    while j < ps.len()
        invariant
            j <= ps.len(),
            forall|k: int| 0 <= k < j ==> ps@[k]@ != t@,
        decreases ps.len() - j,
    {
        if ps[j] == *t {
            return Some(j);
        }
        j += 1;
    }
    None
}

/// Normalises the trigger phrase of each pair.
fn normalized_keys(pairs: &Vec<(String, String)>) -> (keys: Vec<String>)
    ensures
        keys@.len() == pairs@.len(),
        forall|k: int| 0 <= k < pairs@.len() ==> #[trigger] keys@[k]@ == normalized(pairs@[k].0@),
{
    let mut keys: Vec<String> = Vec::new();
    let mut i: usize = 0;
    while i < pairs.len()
        invariant
            i <= pairs.len(),
            keys@.len() == i,
            forall|k: int| 0 <= k < i ==> #[trigger] keys@[k]@ == normalized(pairs@[k].0@),
        decreases pairs.len() - i,
    {
        let k = normalize(pairs[i].0.as_str());
        keys.push(k);
        i += 1;
    }
    keys
}

/// The action of each pair.
fn action_values(pairs: &Vec<(String, String)>) -> (vals: Vec<String>)
    ensures
        vals@.len() == pairs@.len(),
        forall|k: int| 0 <= k < pairs@.len() ==> #[trigger] vals@[k]@ == pairs@[k].1@,
{
    let mut vals: Vec<String> = Vec::new();
    let mut i: usize = 0;
    while i < pairs.len()
        invariant
            i <= pairs.len(),
            vals@.len() == i,
            forall|k: int| 0 <= k < i ==> #[trigger] vals@[k]@ == pairs@[k].1@,
        decreases pairs.len() - i,
    {
        vals.push(pairs[i].1.clone());
        i += 1;
    }
    vals
}

/// Some entry of `ps`, `acts` pairs phrase `k` with action `v`.
pub open spec fn listed(ps: Seq<String>, acts: Seq<String>, k: Seq<char>, v: Seq<char>) -> bool {
    exists|j: int| 0 <= j < ps.len() && j < acts.len() && ps[j]@ == k && #[trigger] acts[j]@ == v
}

/// One of the first `n` keys and values pairs `k` with `v`.
pub open spec fn given(keys: Seq<String>, vals: Seq<String>, n: int, k: Seq<char>, v: Seq<char>) -> bool {
    exists|a: int| 0 <= a < n && keys[a]@ == k && #[trigger] vals[a]@ == v
}

/// Keeps the first entry of each key; later entries with the same key carry
/// the same value, so nothing is lost.
fn unique_entries(keys: &Vec<String>, vals: &Vec<String>) -> (r: (Vec<String>, Vec<String>))
    requires
        keys@.len() == vals@.len(),
        forall|x: int, y: int|
            0 <= x < y < keys@.len() && #[trigger] keys@[x]@ == #[trigger] keys@[y]@ ==> vals@[x]@ == vals@[y]@,
    ensures
        r.0@.len() == r.1@.len(),
        forall|x: int, y: int| 0 <= x < y < r.0@.len() ==> #[trigger] r.0@[x]@ != #[trigger] r.0@[y]@,
        forall|a: int| #![trigger keys@[a]] 0 <= a < keys@.len() ==> listed(r.0@, r.1@, keys@[a]@, vals@[a]@),
        forall|j: int| #![trigger r.0@[j]] 0 <= j < r.0@.len() ==> given(keys@, vals@, keys@.len() as int, r.0@[j]@, r.1@[j]@),
{
    let mut ps: Vec<String> = Vec::new();
    let mut acts: Vec<String> = Vec::new();
    let mut i: usize = 0;
    while i < keys.len()
        invariant
            i <= keys@.len(),
            keys@.len() == vals@.len(),
            forall|x: int, y: int|
                0 <= x < y < keys@.len() && #[trigger] keys@[x]@ == #[trigger] keys@[y]@ ==> vals@[x]@ == vals@[y]@,
            ps@.len() == acts@.len(),
            forall|x: int, y: int| 0 <= x < y < ps@.len() ==> #[trigger] ps@[x]@ != #[trigger] ps@[y]@,
            forall|a: int| #![trigger keys@[a]] 0 <= a < i ==> listed(ps@, acts@, keys@[a]@, vals@[a]@),
            forall|j: int| #![trigger ps@[j]] 0 <= j < ps@.len() ==> given(keys@, vals@, i as int, ps@[j]@, acts@[j]@),
        decreases keys.len() - i,
    {
        match find_phrase(&ps, &keys[i]) {
            Some(j) => {
                let ghost pj = ps@[j as int];
                assert(given(keys@, vals@, i as int, ps@[j as int]@, acts@[j as int]@));
                let ghost a = choose|a: int| 0 <= a < i && keys@[a]@ == ps@[j as int]@ && #[trigger] vals@[a]@ == acts@[j as int]@;
                assert(keys@[a]@ == keys@[i as int]@);
                assert(vals@[a]@ == vals@[i as int]@);
                assert(listed(ps@, acts@, keys@[i as int]@, vals@[i as int]@));
                assert forall|a2: int| #![trigger keys@[a2]] 0 <= a2 < i + 1 implies listed(ps@, acts@, keys@[a2]@, vals@[a2]@) by {
                }
                assert forall|j2: int| #![trigger ps@[j2]] 0 <= j2 < ps@.len() implies given(keys@, vals@, i + 1, ps@[j2]@, acts@[j2]@) by {
                    assert(given(keys@, vals@, i as int, ps@[j2]@, acts@[j2]@));
                    let a2 = choose|a2: int| 0 <= a2 < i && keys@[a2]@ == ps@[j2]@ && #[trigger] vals@[a2]@ == acts@[j2]@;
                    assert(vals@[a2]@ == acts@[j2]@);
                }
            },
            None => {
                let ghost old_p = ps@;
                let ghost old_a = acts@;
                ps.push(keys[i].clone());
                acts.push(vals[i].clone());
                let ghost last = old_p.len() as int;
                assert forall|x: int, y: int| 0 <= x < y < ps@.len() implies #[trigger] ps@[x]@ != #[trigger] ps@[y]@ by {
                    if y < last {
                        assert(old_p[x]@ != old_p[y]@);
                    } else {
                        assert(old_p[x]@ != keys@[i as int]@);
                    }
                }
                assert forall|a2: int| #![trigger keys@[a2]] 0 <= a2 < i + 1 implies listed(ps@, acts@, keys@[a2]@, vals@[a2]@) by {
                    if a2 < i {
                        assert(listed(old_p, old_a, keys@[a2]@, vals@[a2]@));
                        let j2 = choose|j2: int| 0 <= j2 < old_p.len() && j2 < old_a.len() && old_p[j2]@ == keys@[a2]@ && #[trigger] old_a[j2]@ == vals@[a2]@;
                        assert(ps@[j2] == old_p[j2] && acts@[j2] == old_a[j2]);
                        assert(acts@[j2]@ == vals@[a2]@);
                    } else {
                        assert(acts@[last]@ == vals@[a2]@);
                    }
                }
                assert forall|j2: int| #![trigger ps@[j2]] 0 <= j2 < ps@.len() implies given(keys@, vals@, i + 1, ps@[j2]@, acts@[j2]@) by {
                    if j2 < last {
                        assert(ps@[j2] == old_p[j2] && acts@[j2] == old_a[j2]);
                        let ghost pj2 = old_p[j2];
                        assert(given(keys@, vals@, i as int, old_p[j2]@, old_a[j2]@));
                        let a2 = choose|a2: int| 0 <= a2 < i && keys@[a2]@ == old_p[j2]@ && #[trigger] vals@[a2]@ == old_a[j2]@;
                        assert(vals@[a2]@ == acts@[j2]@);
                    } else {
                        assert(vals@[i as int]@ == acts@[j2]@);
                    }
                }
            },
        }
        i += 1;
    }
    (ps, acts)
}

/// Whether two of the keys are equal while their values differ.
fn has_clash(keys: &Vec<String>, vals: &Vec<String>) -> (r: bool)
    requires
        keys@.len() == vals@.len(),
    ensures
        r == exists|a: int, b: int|
            0 <= a < b < keys@.len() && #[trigger] keys@[a]@ == #[trigger] keys@[b]@ && vals@[a]@ != vals@[b]@,
{
    let mut b: usize = 0;
    while b < keys.len()
        invariant
            b <= keys@.len(),
            keys@.len() == vals@.len(),
            forall|x: int, y: int|
                0 <= x < y < b ==> #[trigger] keys@[x]@ == #[trigger] keys@[y]@ ==> vals@[x]@ == vals@[y]@,
        decreases keys.len() - b,
    {
        let mut a: usize = 0;
        while a < b
            invariant
                a <= b < keys@.len(),
                keys@.len() == vals@.len(),
                forall|x: int, y: int|
                    0 <= x < y < b ==> #[trigger] keys@[x]@ == #[trigger] keys@[y]@ ==> vals@[x]@ == vals@[y]@,
                forall|x: int| 0 <= x < a ==> #[trigger] keys@[x]@ == keys@[b as int]@ ==> vals@[x]@ == vals@[b as int]@,
            decreases b - a,
        {
            if keys[a] == keys[b] && !(vals[a] == vals[b]) {
                return true;
            }
            a += 1;
        }
        b += 1;
    }
    false
}

/// Normalised phrases mapped to actions. Built once, never changed.
pub struct CommandTable {
    phrases: Vec<String>,
    actions: Vec<String>,
}

impl CommandTable {
    /// The known phrases: the command phrases in table order, then the
    /// toggle phrase.
    pub closed spec fn phrase_view(&self) -> Seq<Seq<char>> {
        self.phrases@.map_values(|p: String| p@)
    }

    /// The action of each command phrase, by index.
    pub closed spec fn action_view(&self) -> Seq<Seq<char>> {
        self.actions@.map_values(|a: String| a@)
    }

    pub open spec fn wf(&self) -> bool {
        &&& table_shape(self.phrase_view(), self.action_view())
        &&& self.phrase_view().len() <= usize::MAX
    }

    /// Index of the toggle phrase among the known phrases.
    pub open spec fn toggle_index(&self) -> int {
        self.phrase_view().len() - 1
    }

    /// Builds the table from a configuration, normalising each phrase. The
    /// commands keep the order of their first entries in the configuration;
    /// a later entry with the same phrase and action is dropped. The toggle
    /// phrase comes last.
    pub fn from_config(config: &CommandConfig) -> (r: Result<CommandTable, TableError>)
        ensures
            r == Err::<CommandTable, TableError>(TableError::ReservedPhrase) <==> any_reserved(config.commands@),
            r == Err::<CommandTable, TableError>(TableError::ConflictingActions) <==> (!any_reserved(config.commands@) && any_conflict(config.commands@)),
            r matches Ok(t) ==> {
                &&& t.wf()
                &&& forall|a: int| #![trigger config.commands@[a]] 0 <= a < config.commands@.len() ==> binds(
                    t.phrase_view(),
                    t.action_view(),
                    normalized(config.commands@[a].0@),
                    config.commands@[a].1@,
                )
                &&& forall|j: int| #![trigger t.action_view()[j]] 0 <= j < t.action_view().len() ==> configured(
                    config.commands@,
                    t.phrase_view()[j],
                    t.action_view()[j],
                )
            },
    {
        let pairs = &config.commands;
        let ghost cs = pairs@;
        let toggle = toggle_phrase();
        let keys = normalized_keys(pairs);
        if let Some(k) = find_phrase(&keys, &toggle) {
            assert(reserved_at(cs, k as int));
            return Err(TableError::ReservedPhrase);
        }
        assert forall|k: int| 0 <= k < cs.len() implies !#[trigger] reserved_at(cs, k) by {
            assert(keys@[k]@ != toggle@);
        }
        let vals = action_values(pairs);
        if has_clash(&keys, &vals) {
            let ghost (a, b) = choose|a: int, b: int|
                0 <= a < b < keys@.len() && #[trigger] keys@[a]@ == #[trigger] keys@[b]@ && vals@[a]@ != vals@[b]@;
            assert(conflict_at(cs, a, b));
            return Err(TableError::ConflictingActions);
        }
        assert forall|a: int, b: int| !#[trigger] conflict_at(cs, a, b) by {
            if conflict_at(cs, a, b) {
                assert(keys@[a]@ == keys@[b]@);
            }
        }
        let (mut phrases, actions) = unique_entries(&keys, &vals);
        let ghost ups = phrases@;
        let ghost uas = actions@;
        assert forall|x: int| 0 <= x < ups.len() implies #[trigger] ups[x]@ != toggle_phrase_spec() by {
            assert(given(keys@, vals@, keys@.len() as int, ups[x]@, uas[x]@));
            let a = choose|a: int| 0 <= a < keys@.len() && keys@[a]@ == ups[x]@ && #[trigger] vals@[a]@ == uas[x]@;
            assert(!reserved_at(cs, a));
        }
        phrases.push(toggle);
        // the number of phrases fits a usize, as the table's `wf` states
        let count: usize = phrases.len();
        let t = CommandTable { phrases, actions };
        let ghost pv = t.phrase_view();
        let ghost av = t.action_view();
        assert(pv.len() == count as int);
        assert(pv.last() == toggle_phrase_spec());
        assert forall|i: int| 0 <= i < av.len() implies #[trigger] pv[i] != toggle_phrase_spec() by {
            assert(pv[i] == ups[i]@);
        }
        assert forall|x: int, y: int| 0 <= x < y < pv.len() implies #[trigger] pv[x] != #[trigger] pv[y] by {
            if y < ups.len() {
                assert(ups[x]@ != ups[y]@);
            } else {
                assert(ups[x]@ != toggle_phrase_spec());
            }
        }
        assert forall|a: int| #![trigger cs[a]] 0 <= a < cs.len() implies binds(pv, av, normalized(cs[a].0@), cs[a].1@) by {
            let ghost ka = keys@[a];
            assert(listed(ups, uas, keys@[a]@, vals@[a]@));
            let j = choose|j: int| 0 <= j < ups.len() && j < uas.len() && ups[j]@ == keys@[a]@ && #[trigger] uas[j]@ == vals@[a]@;
            assert(av[j] == cs[a].1@);
        }
        assert forall|j: int| #![trigger av[j]] 0 <= j < av.len() implies configured(cs, pv[j], av[j]) by {
            let ghost uj = ups[j];
            assert(given(keys@, vals@, keys@.len() as int, ups[j]@, uas[j]@));
            let a = choose|a: int| 0 <= a < keys@.len() && keys@[a]@ == ups[j]@ && #[trigger] vals@[a]@ == uas[j]@;
            assert(cs[a].1@ == av[j]);
        }
        Ok(t)
    }
}

/// How a hypothesis resolves against the table, by the rules in priority
/// order: exact phrase, fuzzy match, prefix of a phrase, nothing.
#[derive(Debug, PartialEq, Eq, Structural, Clone, Copy)]
pub enum Resolution {
    /// The toggle phrase.
    Toggle,
    /// The command phrase with this index.
    Command(usize),
    /// A strict prefix of a known phrase: wait for more speech.
    Prefix,
    /// Nothing to do with any known phrase.
    Unmatched,
}

/// `t` first occurs among the phrases at index `i`.
pub open spec fn first_exact(ps: Seq<Seq<char>>, t: Seq<char>, i: int) -> bool {
    &&& 0 <= i < ps.len()
    &&& ps[i] == t
    &&& forall|k: int| 0 <= k < i ==> ps[k] != t
}

/// `t` is a strict prefix of some phrase.
pub open spec fn prefix_of_some(ps: Seq<Seq<char>>, t: Seq<char>) -> bool {
    exists|i: int| 0 <= i < ps.len() && #[trigger] is_strict_prefix_of(t, ps[i])
}

/// The resolution that phrase `i` stands for.
pub open spec fn index_resolution(ps: Seq<Seq<char>>, i: int) -> Resolution {
    if i == ps.len() - 1 {
        Resolution::Toggle
    } else {
        Resolution::Command(i as usize)
    }
}

/// The resolution of `t` against phrases `ps`, given its fuzzy scores.
pub open spec fn resolution(ps: Seq<Seq<char>>, t: Seq<char>, scores: Seq<u64>) -> Resolution {
    if exists|i: int| #[trigger] first_exact(ps, t, i) {
        index_resolution(ps, choose|i: int| #[trigger] first_exact(ps, t, i))
    } else if any_qualifies(scores) {
        index_resolution(ps, choose|i: int| #[trigger] is_best_match(scores, i))
    } else if prefix_of_some(ps, t) {
        Resolution::Prefix
    } else {
        Resolution::Unmatched
    }
}

/// The resolution of a partial hypothesis: a partial that is no known phrase
/// but can still grow into one is held, before any fuzzy match is tried.
pub open spec fn partial_resolution(ps: Seq<Seq<char>>, t: Seq<char>, scores: Seq<u64>) -> Resolution {
    if !(exists|i: int| #[trigger] first_exact(ps, t, i)) && prefix_of_some(ps, t) {
        Resolution::Prefix
    } else {
        resolution(ps, t, scores)
    }
}

pub proof fn lemma_first_exact_unique(ps: Seq<Seq<char>>, t: Seq<char>, i: int, j: int)
    requires
        first_exact(ps, t, i),
        first_exact(ps, t, j),
    ensures
        i == j,
{
}

impl CommandTable {
    /// The resolution of `t` against this table.
    pub open spec fn resolution_of(&self, t: Seq<char>) -> Resolution {
        resolution(self.phrase_view(), t, scores_against(t, self.phrase_view()))
    }

    /// The resolution of the partial hypothesis `t` against this table.
    pub open spec fn partial_resolution_of(&self, t: Seq<char>) -> Resolution {
        partial_resolution(self.phrase_view(), t, scores_against(t, self.phrase_view()))
    }

    /// A command resolution names a command of the table.
    pub proof fn lemma_resolution_in_range(&self, t: Seq<char>)
        requires
            self.wf(),
        ensures
            self.resolution_of(t) matches Resolution::Command(i) ==> i < self.action_view().len(),
    {
        let ps = self.phrase_view();
        if exists|i: int| #[trigger] first_exact(ps, t, i) {
            let c = choose|i: int| #[trigger] first_exact(ps, t, i);
        } else if any_qualifies(scores_against(t, ps)) {
            lemma_best_match_exists(scores_against(t, ps));
        }
    }

    /// The known phrases, toggle phrase last: the recognition grammar.
    pub fn phrases(&self) -> (r: Vec<String>)
        ensures
            r@.map_values(|p: String| p@) == self.phrase_view(),
    {
        let mut r: Vec<String> = Vec::new();
        let mut i: usize = 0;
        while i < self.phrases.len()
            invariant
                i <= self.phrases@.len(),
                r@.len() == i,
                forall|k: int| 0 <= k < i ==> #[trigger] r@[k]@ == self.phrases@[k]@,
            decreases self.phrases.len() - i,
        {
            r.push(self.phrases[i].clone());
            i += 1;
        }
        assert(r@.map_values(|p: String| p@) =~= self.phrase_view());
        r
    }

    /// The action of the command phrase with index `i`.
    pub fn action(&self, i: usize) -> (r: &String)
        requires
            self.wf(),
            i < self.action_view().len(),
        ensures
            r@ == self.action_view()[i as int],
    {
        &self.actions[i]
    }

    /// The action of the command phrase `text`, if it is one.
    pub fn lookup_exact(&self, text: &String) -> (r: Option<&String>)
        requires
            self.wf(),
        ensures
            match r {
                Some(a) => exists|i: int|
                    0 <= i < self.action_view().len() && self.phrase_view()[i] == text@
                        && #[trigger] self.action_view()[i] == a@,
                None => forall|i: int|
                    0 <= i < self.action_view().len() ==> #[trigger] self.phrase_view()[i] != text@,
            },
    {
        match find_phrase(&self.phrases, text) {
            Some(j) => {
                if j < self.actions.len() {
                    assert(self.action_view()[j as int] == self.actions@[j as int]@);
                    Some(&self.actions[j])
                } else {
                    None
                }
            },
            None => None,
        }
    }

    /// Whether `text` is a strict prefix of some known phrase.
    pub fn has_prefix(&self, text: &String) -> (r: bool)
        ensures
            r == prefix_of_some(self.phrase_view(), text@),
    {
        let n = text.as_str().unicode_len();
        let mut i: usize = 0;
        while i < self.phrases.len()
            invariant
                i <= self.phrases@.len(),
                n == text@.len(),
                forall|k: int| 0 <= k < i ==> !#[trigger] is_strict_prefix_of(text@, self.phrase_view()[k]),
            decreases self.phrases.len() - i,
        {
            let p = self.phrases[i].as_str();
            if n < p.unicode_len() && starts_with(p, text.as_str()) {
                assert(is_strict_prefix_of(text@, self.phrase_view()[i as int]));
                return true;
            }
            i += 1;
        }
        false
    }

    /// Resolves `text` given its fuzzy scores against the known phrases.
    pub fn classify_scored(&self, text: &String, scores: &Vec<u64>) -> (r: Resolution)
        requires
            self.wf(),
            scores@.len() == self.phrase_view().len(),
        ensures
            r == resolution(self.phrase_view(), text@, scores@),
    {
        let ghost ps = self.phrase_view();
        match find_phrase(&self.phrases, text) {
            Some(j) => {
                assert(first_exact(ps, text@, j as int));
                let ghost c = choose|i: int| #[trigger] first_exact(ps, text@, i);
                proof {
                    lemma_first_exact_unique(ps, text@, j as int, c);
                }
                if j == self.actions.len() {
                    return Resolution::Toggle;
                } else {
                    return Resolution::Command(j);
                }
            },
            None => {
                assert(!exists|i: int| #[trigger] first_exact(ps, text@, i));
            },
        }
        match best_scored_match(scores) {
            Some(b) => {
                let ghost c = choose|i: int| #[trigger] is_best_match(scores@, i);
                proof {
                    lemma_best_match_unique(scores@, b as int, c);
                }
                if b == self.actions.len() {
                    Resolution::Toggle
                } else {
                    Resolution::Command(b)
                }
            },
            None => {
                if self.has_prefix(text) {
                    Resolution::Prefix
                } else {
                    Resolution::Unmatched
                }
            },
        }
    }

    /// Resolves `text` against the known phrases.
    pub fn classify(&self, text: &String) -> (r: Resolution)
        requires
            self.wf(),
        ensures
            r == self.resolution_of(text@),
    {
        let scores = score_all(text.as_str(), &self.phrases);
        self.classify_scored(text, &scores)
    }

    /// Resolves the partial hypothesis `text` against the known phrases.
    pub fn classify_partial(&self, text: &String) -> (r: Resolution)
        requires
            self.wf(),
        ensures
            r == self.partial_resolution_of(text@),
    {
        match find_phrase(&self.phrases, text) {
            Some(j) => {
                assert(first_exact(self.phrase_view(), text@, j as int));
                self.classify(text)
            },
            None => {
                assert(!exists|i: int| #[trigger] first_exact(self.phrase_view(), text@, i));
                if self.has_prefix(text) {
                    Resolution::Prefix
                } else {
                    self.classify(text)
                }
            },
        }
    }
}

} // verus!
