//! The per-request session state: a string-keyed string map together with
//! the status that tracks what the request handler did to it.

use vstd::prelude::*;

use crate::strutil::str_eq;

verus! {

/// The map denoted by an association list of string pairs, later bindings
/// winning.
pub open spec fn pairs_map(s: Seq<(String, String)>) -> Map<Seq<char>, Seq<char>>
    decreases s.len(),
{
    if s.len() == 0 {
        Map::empty()
    } else {
        pairs_map(s.drop_last()).insert(s.last().0@, s.last().1@)
    }
}

/// No two pairs share a key.
pub open spec fn pair_keys_unique(s: Seq<(String, String)>) -> bool {
    forall|i: int, j: int| 0 <= i < j < s.len() ==> (#[trigger] s[i]).0@ != (#[trigger] s[j]).0@
}

/// No two pairs share a key, over character-sequence views.
pub open spec fn pair_keys_unique_views(s: Seq<(Seq<char>, Seq<char>)>) -> bool {
    forall|i: int, j: int| 0 <= i < j < s.len() ==> (#[trigger] s[i]).0 != (#[trigger] s[j]).0
}

/// Key uniqueness of a pair list and of its views coincide.
pub proof fn lemma_unique_views(s: Seq<(String, String)>)
    ensures
        pair_keys_unique(s) == pair_keys_unique_views(crate::session::json::pair_views(s)),
{
    let v = crate::session::json::pair_views(s);
    if pair_keys_unique(s) {
        assert forall|i: int, j: int| 0 <= i < j < v.len() implies (#[trigger] v[i]).0 != (
        #[trigger] v[j]).0 by {
            assert(v[i].0 == s[i].0@);
            assert(v[j].0 == s[j].0@);
        }
    }
    if pair_keys_unique_views(v) {
        assert forall|i: int, j: int| 0 <= i < j < s.len() implies (#[trigger] s[i]).0@ != (
        #[trigger] s[j]).0@ by {
            assert(v[i].0 == s[i].0@);
            assert(v[j].0 == s[j].0@);
        }
    }
}

pub proof fn lemma_pairs_map_contains(s: Seq<(String, String)>, k: Seq<char>)
    ensures
        pairs_map(s).contains_key(k) <==> exists|i: int| 0 <= i < s.len() && (#[trigger] s[i]).0@
            == k,
    decreases s.len(),
{
    if s.len() > 0 {
        lemma_pairs_map_contains(s.drop_last(), k);
        if s.last().0@ == k {
            assert((s[s.len() - 1]).0@ == k);
        } else {
            let dl = s.drop_last();
            if pairs_map(s).contains_key(k) {
                let i = choose|i: int| 0 <= i < dl.len() && (#[trigger] dl[i]).0@ == k;
                assert((s[i]).0@ == k);
            }
            if exists|i: int| 0 <= i < s.len() && (#[trigger] s[i]).0@ == k {
                let i = choose|i: int| 0 <= i < s.len() && (#[trigger] s[i]).0@ == k;
                assert(i < s.len() - 1);
                assert((dl[i]).0@ == k);
            }
        }
    }
}

pub proof fn lemma_pairs_map_index(s: Seq<(String, String)>, i: int)
    requires
        pair_keys_unique(s),
        0 <= i < s.len(),
    ensures
        pairs_map(s).contains_key(s[i].0@),
        pairs_map(s)[s[i].0@] == s[i].1@,
    decreases s.len(),
{
    if i == s.len() - 1 {
    } else {
        assert(s.drop_last()[i] == s[i]);
        lemma_pairs_map_index(s.drop_last(), i);
        assert(s[i].0@ != s.last().0@);
    }
}

pub proof fn lemma_pairs_map_remove(s: Seq<(String, String)>, i: int)
    requires
        pair_keys_unique(s),
        0 <= i < s.len(),
    ensures
        pair_keys_unique(s.remove(i)),
        pairs_map(s.remove(i)) == pairs_map(s).remove(s[i].0@),
    decreases s.len(),
{
    assert(pair_keys_unique(s.remove(i)));
    if i == s.len() - 1 {
        assert(s.remove(i) =~= s.drop_last());
        lemma_pairs_map_contains(s.drop_last(), s.last().0@);
        assert(!pairs_map(s.drop_last()).contains_key(s.last().0@));
        assert(pairs_map(s).remove(s[i].0@) =~= pairs_map(s.drop_last()));
    } else {
        assert(s.remove(i).drop_last() =~= s.drop_last().remove(i));
        assert(s.remove(i).last() == s.last());
        lemma_pairs_map_remove(s.drop_last(), i);
        assert(s.drop_last()[i] == s[i]);
        assert(s[i].0@ != s.last().0@);
        assert(pairs_map(s.remove(i)) =~= pairs_map(s).remove(s[i].0@));
    }
}

pub proof fn lemma_pairs_map_update(s: Seq<(String, String)>, i: int, p: (String, String))
    requires
        pair_keys_unique(s),
        0 <= i < s.len(),
        p.0@ == s[i].0@,
    ensures
        pair_keys_unique(s.update(i, p)),
        pairs_map(s.update(i, p)) == pairs_map(s).insert(p.0@, p.1@),
    decreases s.len(),
{
    assert(pair_keys_unique(s.update(i, p)));
    if i == s.len() - 1 {
        assert(s.update(i, p).drop_last() =~= s.drop_last());
        assert(s.update(i, p).last() == p);
        assert(pairs_map(s.update(i, p)) =~= pairs_map(s).insert(p.0@, p.1@));
    } else {
        assert(s.update(i, p).drop_last() =~= s.drop_last().update(i, p));
        assert(s.update(i, p).last() == s.last());
        assert(s.drop_last()[i] == s[i]);
        lemma_pairs_map_update(s.drop_last(), i, p);
        assert(s[i].0@ != s.last().0@);
        assert(pairs_map(s.update(i, p)) =~= pairs_map(s).insert(p.0@, p.1@));
    }
}

pub proof fn lemma_pairs_map_push(s: Seq<(String, String)>, p: (String, String))
    requires
        pair_keys_unique(s),
        forall|i: int| 0 <= i < s.len() ==> (#[trigger] s[i]).0@ != p.0@,
    ensures
        pair_keys_unique(s.push(p)),
        pairs_map(s.push(p)) == pairs_map(s).insert(p.0@, p.1@),
{
    assert(s.push(p).drop_last() =~= s);
    assert(s.push(p).last() == p);
    assert(forall|i: int| 0 <= i < s.len() ==> (#[trigger] s.push(p)[i]) == s[i]);
}

/// The map denoted by a list of character-sequence pairs, later bindings
/// winning: the same map `pairs_map` denotes, one view step removed.
pub open spec fn views_map(ps: Seq<(Seq<char>, Seq<char>)>) -> Map<Seq<char>, Seq<char>>
    decreases ps.len(),
{
    if ps.len() == 0 {
        Map::empty()
    } else {
        views_map(ps.drop_last()).insert(ps.last().0, ps.last().1)
    }
}

/// A pair list and its view-level counterpart denote the same map: what a
/// state's pair sequence says is exactly what its map says, so per-key
/// values can be read off either form.
pub proof fn lemma_views_map(s: Seq<(String, String)>)
    ensures
        pairs_map(s) == views_map(crate::session::json::pair_views(s)),
    decreases s.len(),
{
    let v = crate::session::json::pair_views(s);
    if s.len() == 0 {
        assert(pairs_map(s) =~= views_map(v));
    } else {
        lemma_views_map(s.drop_last());
        assert(v.drop_last() =~= crate::session::json::pair_views(s.drop_last()));
        assert(v.last().0 == s.last().0@ && v.last().1 == s.last().1@);
        assert(pairs_map(s) =~= views_map(v));
    }
}

/// The server-stored session payload for one session key: a map of string
/// keys to string values, kept as an association list with distinct keys.
#[derive(Debug)]
pub struct SessionState {
    entries: Vec<(String, String)>,
}

impl View for SessionState {
    type V = Map<Seq<char>, Seq<char>>;

    closed spec fn view(&self) -> Map<Seq<char>, Seq<char>> {
        pairs_map(self.entries@)
    }
}

impl SessionState {
    /// Entry keys are pairwise distinct.
    pub closed spec fn wf(&self) -> bool {
        pair_keys_unique(self.entries@)
    }

    /// The pairs in insertion order, as specifications see them.
    pub closed spec fn pairs(&self) -> Seq<(Seq<char>, Seq<char>)> {
        crate::session::json::pair_views(self.entries@)
    }

    /// The pair sequence denotes the state's map: the two views agree.
    pub proof fn lemma_pairs_denote_map(&self)
        ensures
            self@ == views_map(self.pairs()),
    {
        lemma_views_map(self.entries@);
    }

    /// An empty state.
    pub fn new() -> (r: SessionState)
        ensures
            r.wf(),
            r@ == Map::<Seq<char>, Seq<char>>::empty(),
            r.pairs() == Seq::<(Seq<char>, Seq<char>)>::empty(),
    {
        let r = SessionState { entries: Vec::new() };
        proof {
            assert(r.pairs() =~= Seq::<(Seq<char>, Seq<char>)>::empty());
        }
        r
    }

    fn find_index(&self, key: &str) -> (r: Option<usize>)
        ensures
            match r {
                Some(i) => i < self.entries@.len() && self.entries@[i as int].0@ == key@,
                None => forall|i: int|
                    0 <= i < self.entries@.len() ==> (#[trigger] self.entries@[i]).0@ != key@,
            },
    {
        let n = self.entries.len();
        let mut i: usize = 0;
        while i < n
            invariant
                n == self.entries@.len(),
                i <= n,
                forall|j: int| 0 <= j < i ==> (#[trigger] self.entries@[j]).0@ != key@,
            decreases n - i,
        {
            if str_eq(self.entries[i].0.as_str(), key) {
                return Some(i);
            }
            i = i + 1;
        }
        None
    }

    /// The value stored under `key`, if any.
    pub fn get(&self, key: &str) -> (r: Option<String>)
        requires
            self.wf(),
        ensures
            match r {
                Some(v) => self@.contains_key(key@) && self@[key@] == v@,
                None => !self@.contains_key(key@),
            },
    {
        proof {
            lemma_pairs_map_contains(self.entries@, key@);
        }
        match self.find_index(key) {
            Some(i) => {
                proof {
                    lemma_pairs_map_index(self.entries@, i as int);
                }
                Some(self.entries[i].1.clone())
            },
            None => None,
        }
    }

    /// Stores `value` under `key`, replacing any previous value.
    pub fn insert(&mut self, key: String, value: String)
        requires
            old(self).wf(),
        ensures
            final(self).wf(),
            final(self)@ == old(self)@.insert(key@, value@),
    {
        proof {
            lemma_pairs_map_contains(self.entries@, key@);
        }
        match self.find_index(key.as_str()) {
            Some(i) => {
                proof {
                    lemma_pairs_map_update(self.entries@, i as int, (key, value));
                }
                self.entries[i] = (key, value);
            },
            None => {
                proof {
                    lemma_pairs_map_push(self.entries@, (key, value));
                }
                self.entries.push((key, value));
            },
        }
    }

    /// Removes `key`, returning the value that was stored under it.
    pub fn remove(&mut self, key: &str) -> (r: Option<String>)
        requires
            old(self).wf(),
        ensures
            final(self).wf(),
            final(self)@ == old(self)@.remove(key@),
            match r {
                Some(v) => old(self)@.contains_key(key@) && old(self)@[key@] == v@,
                None => !old(self)@.contains_key(key@),
            },
    {
        proof {
            lemma_pairs_map_contains(self.entries@, key@);
        }
        match self.find_index(key) {
            Some(i) => {
                proof {
                    lemma_pairs_map_index(self.entries@, i as int);
                    lemma_pairs_map_remove(self.entries@, i as int);
                }
                let p = self.entries.remove(i);
                Some(p.1)
            },
            None => {
                proof {
                    assert(self@.remove(key@) =~= self@);
                }
                None
            },
        }
    }

    /// Removes every entry.
    pub fn clear(&mut self)
        ensures
            final(self).wf(),
            final(self)@ == Map::<Seq<char>, Seq<char>>::empty(),
            final(self).pairs() == Seq::<(Seq<char>, Seq<char>)>::empty(),
    {
        self.entries.clear();
        proof {
            assert(self.pairs() =~= Seq::<(Seq<char>, Seq<char>)>::empty());
        }
    }

    /// Whether the state holds no entries.
    pub fn is_empty(&self) -> (r: bool)
        requires
            self.wf(),
        ensures
            r == (self@.dom() == Set::<Seq<char>>::empty()),
    {
        let r = self.entries.is_empty();
        proof {
            lemma_pairs_map_len(self.entries@);
            if self.entries@.len() == 0 {
                assert(self@.dom() =~= Set::<Seq<char>>::empty());
            } else {
                lemma_pairs_map_index(self.entries@, 0);
                assert(self@.dom().contains(self.entries@[0].0@));
            }
        }
        r
    }

    /// The entries, in insertion order.
    pub fn entries(&self) -> (r: &Vec<(String, String)>)
        ensures
            crate::session::json::pair_views(r@) == self.pairs(),
    {
        &self.entries
    }

    /// Builds a state from decoded pairs; pairs with a repeated key are
    /// refused (such an encoding is never produced by this library).
    pub fn from_pairs(pairs: Vec<(String, String)>) -> (r: Option<SessionState>)
        ensures
            match r {
                Some(st) => st.wf() && st.pairs() == crate::session::json::pair_views(pairs@)
                    && pair_keys_unique_views(crate::session::json::pair_views(pairs@)),
                None => !pair_keys_unique_views(crate::session::json::pair_views(pairs@)),
            },
    {
        let n = pairs.len();
        let mut i: usize = 0;
        while i < n
            invariant
                n == pairs@.len(),
                i <= n,
                forall|a: int, b: int| 0 <= a < b < n && a < i ==> pairs@[a].0@ != pairs@[b].0@,
            decreases n - i,
        {
            let mut j: usize = i + 1;
            while j < n
                invariant
                    n == pairs@.len(),
                    i < n,
                    i < j <= n,
                    forall|b: int| i < b < j ==> pairs@[i as int].0@ != pairs@[b].0@,
                decreases n - j,
            {
                if str_eq(pairs[i].0.as_str(), pairs[j].0.as_str()) {
                    proof {
                        assert(!pair_keys_unique(pairs@));
                        lemma_unique_views(pairs@);
                    }
                    return None;
                }
                j = j + 1;
            }
            i = i + 1;
        }
        proof {
            assert(pair_keys_unique(pairs@));
            lemma_unique_views(pairs@);
        }
        let st = SessionState { entries: pairs };
        Some(st)
    }
}

pub proof fn lemma_pairs_map_len(s: Seq<(String, String)>)
    requires
        pair_keys_unique(s),
    ensures
        pairs_map(s).dom().finite(),
        pairs_map(s).dom().len() == s.len(),
    decreases s.len(),
{
    if s.len() > 0 {
        lemma_pairs_map_len(s.drop_last());
        lemma_pairs_map_contains(s.drop_last(), s.last().0@);
        assert(!pairs_map(s.drop_last()).contains_key(s.last().0@));
    }
}

/// What the request handler did to the session: starts `Unchanged`; a
/// mutation makes it `Changed`; an explicit purge or key renewal overrides
/// everything that came before.
#[derive(Debug, Clone, Copy, PartialEq, Eq, Structural)]
pub enum SessionStatus {
    /// The handler did not touch the session.
    Unchanged,
    /// The handler mutated the session state.
    Changed,
    /// The handler asked for the session to be destroyed.
    Purged,
    /// The handler asked for a fresh session key carrying the same state.
    Renewed,
}

/// The per-request view of a session: its state and the status tracking
/// what the handler did. The last relevant operation decides the status.
#[derive(Debug)]
pub struct Session {
    state: SessionState,
    status: SessionStatus,
}

impl Session {
    pub closed spec fn wf(&self) -> bool {
        self.state.wf()
    }

    /// The current state map.
    pub closed spec fn state_map(&self) -> Map<Seq<char>, Seq<char>> {
        self.state@
    }

    /// The pairs of the current state, in insertion order.
    pub closed spec fn state_pairs(&self) -> Seq<(Seq<char>, Seq<char>)> {
        self.state.pairs()
    }

    /// The current status.
    pub closed spec fn spec_status(&self) -> SessionStatus {
        self.status
    }

    /// The session's pair sequence denotes its state map.
    pub proof fn lemma_pairs_denote_map(&self)
        ensures
            self.state_map() == views_map(self.state_pairs()),
    {
        self.state.lemma_pairs_denote_map();
    }

    /// Installs `state` as the session for the current request; the status
    /// starts `Unchanged`.
    pub fn new(state: SessionState) -> (r: Session)
        requires
            state.wf(),
        ensures
            r.wf(),
            r.state_map() == state@,
            r.state_pairs() == state.pairs(),
            r.spec_status() == SessionStatus::Unchanged,
    {
        Session { state, status: SessionStatus::Unchanged }
    }

    /// The value stored under `key`, if any.
    pub fn get(&self, key: &str) -> (r: Option<String>)
        requires
            self.wf(),
        ensures
            match r {
                Some(v) => self.state_map().contains_key(key@) && self.state_map()[key@] == v@,
                None => !self.state_map().contains_key(key@),
            },
    {
        self.state.get(key)
    }

    /// Stores `value` under `key`; the session becomes `Changed`.
    pub fn insert(&mut self, key: String, value: String)
        requires
            old(self).wf(),
        ensures
            final(self).wf(),
            final(self).state_map() == old(self).state_map().insert(key@, value@),
            final(self).spec_status() == SessionStatus::Changed,
    {
        self.state.insert(key, value);
        self.status = SessionStatus::Changed;
    }

    /// Removes `key`; the session becomes `Changed`.
    pub fn remove(&mut self, key: &str) -> (r: Option<String>)
        requires
            old(self).wf(),
        ensures
            final(self).wf(),
            final(self).state_map() == old(self).state_map().remove(key@),
            final(self).spec_status() == SessionStatus::Changed,
            match r {
                Some(v) => old(self).state_map().contains_key(key@) && old(self).state_map()[key@]
                    == v@,
                None => !old(self).state_map().contains_key(key@),
            },
    {
        let r = self.state.remove(key);
        self.status = SessionStatus::Changed;
        r
    }

    /// Destroys the session: the state is emptied and the backend entry and
    /// cookie will be removed when the request completes.
    pub fn purge(&mut self)
        ensures
            final(self).wf(),
            final(self).state_map() == Map::<Seq<char>, Seq<char>>::empty(),
            final(self).spec_status() == SessionStatus::Purged,
    {
        self.state.clear();
        self.status = SessionStatus::Purged;
    }

    /// Rotates the session key: the state is kept, but it will be stored
    /// under a fresh key and the old key will stop resolving — the defence
    /// against session fixation.
    pub fn renew(&mut self)
        requires
            old(self).wf(),
        ensures
            final(self).wf(),
            final(self).state_map() == old(self).state_map(),
            final(self).spec_status() == SessionStatus::Renewed,
    {
        self.status = SessionStatus::Renewed;
    }

    /// The current status.
    pub fn status(&self) -> (r: SessionStatus)
        ensures
            r == self.spec_status(),
    {
        self.status
    }

    /// Consumes the session, yielding the status and the final state, as
    /// the middleware wants them after the handler has run.
    pub fn into_parts(self) -> (r: (SessionStatus, SessionState))
        ensures
            r.0 == self.spec_status(),
            r.1@ == self.state_map(),
            r.1.wf() == self.wf(),
            r.1.pairs() == self.state_pairs(),
    {
        (self.status, self.state)
    }

    /// A borrow of the state, for reading several fields at once.
    pub fn state(&self) -> (r: &SessionState)
        ensures
            r@ == self.state_map(),
            r.wf() == self.wf(),
    {
        &self.state
    }
}

} // verus!
