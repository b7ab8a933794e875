//! Connections: each gets a fresh number and starts as a spectator; a spectator
//! may become a player under a name that no other player holds.

use std::collections::HashMap;

use vstd::prelude::*;

verus! {

broadcast use vstd::std_specs::hash::group_hash_axioms;

/// The number of a connection.
#[derive(Clone, Copy, PartialEq, Eq, Hash, Debug, Structural)]
pub struct SessionId(u64);

impl View for SessionId {
    type V = u64;

    closed spec fn view(&self) -> u64 {
        self.0
    }
}

/// What a connection is: a named player, or a spectator.
#[derive(Clone, Debug)]
pub enum Session {
    Player { username: String },
    Spectator,
}

/// A session as plain values: the player's name, or nothing for a spectator.
pub open spec fn role(s: Session) -> Option<Seq<char>> {
    match s {
        Session::Player { username } => Some(username@),
        Session::Spectator => None,
    }
}

/// Why a spectator could not become a player.
#[derive(Clone, Copy, PartialEq, Eq, Debug, Structural)]
pub enum SessionError {
    /// Some player already holds the name.
    UsernameTaken,
    /// No connection has that number.
    NotFound,
}

impl SessionError {
    /// The text that a client is sent for this error.
    pub fn message(&self) -> (s: &'static str)
        ensures
            s@ == self.text(),
    {
        match self {
            SessionError::UsernameTaken => "username already connected",
            SessionError::NotFound => "session not found",
        }
    }

    /// The text of the error.
    pub open spec fn text(&self) -> Seq<char> {
        match self {
            SessionError::UsernameTaken => "username already connected"@,
            SessionError::NotFound => "session not found"@,
        }
    }
}

/// Some player of `t` is called `name`.
pub open spec fn name_in_use(t: Map<u64, Option<Seq<char>>>, name: Seq<char>) -> bool {
    exists|k: u64| t.contains_key(k) && t[k] == Some(name)
}

/// The connections, by number, and the number the next one gets.
pub struct SessionManager {
    sessions: HashMap<u64, Session>,
    next_id: u64,
}

impl Default for SessionManager {
    /// The same as `SessionManager::new`.
    fn default() -> (m: SessionManager)
        ensures
            m.wf(),
            m.table() == Map::<u64, Option<Seq<char>>>::empty(),
            m.counter() == 0,
    {
        SessionManager::new()
    }
}

impl SessionManager {
    /// Every connection, by number, as plain values.
    pub closed spec fn table(&self) -> Map<u64, Option<Seq<char>>> {
        self.sessions@.map_values(|s: Session| role(s))
    }

    /// The number the next connection gets.
    pub closed spec fn counter(&self) -> u64 {
        self.next_id
    }

    /// Every number in use is below the counter, and no two players share a name.
    pub open spec fn wf(&self) -> bool {
        &&& forall|k: u64| #[trigger] self.table().contains_key(k) ==> k < self.counter()
        &&& forall|a: u64, b: u64|
            #[trigger] self.table().contains_key(a) && #[trigger] self.table().contains_key(b) && a
                != b && self.table()[a] is Some ==> self.table()[a] != self.table()[b]
    }

    /// No connections; the first one gets number 0.
    pub fn new() -> (m: SessionManager)
        ensures
            m.wf(),
            m.table() == Map::<u64, Option<Seq<char>>>::empty(),
            m.counter() == 0,
    {
        let m = SessionManager { sessions: HashMap::new(), next_id: 0 };
        assert(m.table() =~= Map::<u64, Option<Seq<char>>>::empty());
        m
    }

    /// Whether another connection can get a number.
    pub fn has_room(&self) -> (r: bool)
        ensures
            r == (self.counter() < u64::MAX),
    {
        self.next_id < u64::MAX
    }

    /// A new connection, under the next number, as a spectator.
    pub fn connect(&mut self) -> (id: SessionId)
        requires
            old(self).wf(),
            old(self).counter() < u64::MAX,
        ensures
            final(self).wf(),
            id@ == old(self).counter(),
            final(self).counter() == old(self).counter() + 1,
            !old(self).table().contains_key(id@),
            final(self).table() == old(self).table().insert(id@, None),
    {
        let id = SessionId(self.next_id);
        self.next_id = self.next_id + 1;
        self.sessions.insert(id.0, Session::Spectator);
        proof {
            assert(self.table() =~= old(self).table().insert(id@, None));
        }
        id
    }

    /// Whether some player is called `username`.
    fn name_taken(&self, username: &String) -> (r: bool)
        ensures
            r == name_in_use(self.table(), username@),
    {
        let ghost t = self.table();
        for entry in it: self.sessions.iter()
            invariant
                t == self.table(),
                forall|j: int|
                    0 <= j < it.index() ==> role(*(#[trigger] it.seq()[j]).1) != Some(username@),
        {
            match entry.1 {
                Session::Player { username: u } => {
                    if *u == *username {
                        proof {
                            assert(self.sessions@.contains_key(*entry.0));
                            assert(t.contains_key(*entry.0) && t[*entry.0] == Some(username@));
                        }
                        return true;
                    }
                },
                Session::Spectator => {},
            }
        }
        proof {
            if name_in_use(t, username@) {
                let k = choose|k: u64| t.contains_key(k) && t[k] == Some(username@);
                let s = vstd::std_specs::iter::IteratorSpec::remaining(&vstd::std_specs::hash::spec_hash_map_iter(&self.sessions));
                assert(s.contains((&k, &self.sessions@[k])));
                let j = choose|j: int| 0 <= j < s.len() && s[j] == (&k, &self.sessions@[k]);
                assert(role(*s[j].1) == Some(username@));
            }
        }
        false
    }

    /// Makes the connection `id` a player called `username`. The name is refused
    /// while any player (this connection included) holds it; an unknown number
    /// is refused next.
    pub fn promote(&mut self, id: SessionId, username: String) -> (r: Result<(), SessionError>)
        requires
            old(self).wf(),
        ensures
            final(self).wf(),
            final(self).counter() == old(self).counter(),
            name_in_use(old(self).table(), username@) ==> r == Err::<(), SessionError>(
                SessionError::UsernameTaken,
            ) && final(self).table() == old(self).table(),
            !name_in_use(old(self).table(), username@) && !old(self).table().contains_key(id@)
                ==> r == Err::<(), SessionError>(SessionError::NotFound) && final(self).table()
                == old(self).table(),
            !name_in_use(old(self).table(), username@) && old(self).table().contains_key(id@) ==> r
                == Ok::<(), SessionError>(()) && final(self).table() == old(self).table().insert(
                id@,
                Some(username@),
            ),
    {
        if self.name_taken(&username) {
            return Err(SessionError::UsernameTaken);
        }
        if self.sessions.contains_key(&id.0) {
            let ghost name = username@;
            self.sessions.insert(id.0, Session::Player { username });
            proof {
                assert(self.table() =~= old(self).table().insert(id@, Some(name)));
                assert forall|k: u64| #[trigger] self.table().contains_key(k) implies k < self.counter() by {
                    if k != id@ {
                        assert(old(self).table().contains_key(k));
                    }
                }
                assert forall|a: u64, b: u64|
                    #[trigger] self.table().contains_key(a) && #[trigger] self.table().contains_key(b)
                        && a != b && self.table()[a] is Some implies self.table()[a] != self.table()[b] by {
                    if a == id@ {
                        assert(self.table()[b] == old(self).table()[b]);
                    } else if b == id@ {
                        assert(self.table()[a] == old(self).table()[a]);
                    }
                }
            }
            Ok(())
        } else {
            Err(SessionError::NotFound)
        }
    }

    /// Ends the connection `id` and hands back what it was, if it existed.
    pub fn disconnect(&mut self, id: SessionId) -> (r: Option<Session>)
        requires
            old(self).wf(),
        ensures
            final(self).wf(),
            final(self).counter() == old(self).counter(),
            final(self).table() == old(self).table().remove(id@),
            match r {
                Some(s) => old(self).table().contains_key(id@) && role(s) == old(self).table()[id@],
                None => !old(self).table().contains_key(id@),
            },
    {
        let r = self.sessions.remove(&id.0);
        proof {
            assert(self.table() =~= old(self).table().remove(id@));
        }
        r
    }

    /// What the connection `id` is, if it exists.
    pub fn get(&self, id: SessionId) -> (r: Option<&Session>)
        ensures
            match r {
                Some(s) => self.table().contains_key(id@) && role(*s) == self.table()[id@],
                None => !self.table().contains_key(id@),
            },
    {
        self.sessions.get(&id.0)
    }

    /// Every player, with its connection's number, each once, in no stated order.
    pub fn player_sessions(&self) -> (v: Vec<(SessionId, String)>)
        ensures
            forall|i: int|
                0 <= i < v@.len() ==> self.table().contains_key((#[trigger] v@[i]).0@)
                    && self.table()[v@[i].0@] == Some(v@[i].1@),
            forall|k: u64|
                #[trigger] self.table().contains_key(k) && self.table()[k] is Some ==> exists|i: int|
                    0 <= i < v@.len() && (#[trigger] v@[i]).0@ == k,
            forall|i: int, j: int| 0 <= i < j < v@.len() ==> (#[trigger] v@[i]).0@ != (#[trigger] v@[j]).0@,
    {
        let ghost t = self.table();
        let ghost m = self.sessions@;
        let ghost s = vstd::std_specs::iter::IteratorSpec::remaining(
            &vstd::std_specs::hash::spec_hash_map_iter(&self.sessions),
        );
        let ghost mut idx: Seq<int> = Seq::empty();
        let mut v: Vec<(SessionId, String)> = Vec::new();
        for entry in it: self.sessions.iter()
            invariant
                t == self.table(),
                m == self.sessions@,
                s == it.seq(),
                s.no_duplicates(),
                s.len() == m.dom().len(),
                forall|j: int| 0 <= j < s.len() ==> m.contains_key(*(#[trigger] s[j]).0) && m[*s[j].0] == *s[j].1,
                idx.len() == v@.len(),
                forall|i: int| 0 <= i < v@.len() ==> 0 <= #[trigger] idx[i] < it.index(),
                forall|i: int, i2: int| 0 <= i < i2 < v@.len() ==> #[trigger] idx[i] < #[trigger] idx[i2],
                forall|i: int|
                    0 <= i < v@.len() ==> (#[trigger] v@[i]).0@ == *s[idx[i]].0 && role(*s[idx[i]].1)
                        == Some(v@[i].1@),
                forall|j: int|
                    0 <= j < it.index() && (*(#[trigger] s[j]).1) is Player ==> exists|i: int|
                        0 <= i < v@.len() && idx[i] == j,
        {
            let ghost j = it.index();
            let ghost idx0 = idx;
            let ghost n0 = v@.len();
            assert(entry == s[j]);
            match entry.1 {
                Session::Player { username } => {
                    let ghost before = v@.len();
                    v.push((SessionId(*entry.0), username.clone()));
                    proof {
                        idx = idx.push(j);
                        assert(idx[before as int] == j);
                    }
                },
                Session::Spectator => {},
            }
            proof {
                assert forall|j2: int| 0 <= j2 < j + 1 && (*(#[trigger] s[j2]).1) is Player implies exists|i: int|
                    0 <= i < v@.len() && idx[i] == j2 by {
                    if j2 < j {
                        let i = choose|i: int| 0 <= i < n0 && idx0[i] == j2;
                        assert(idx[i] == j2);
                    } else {
                        assert(idx[n0 as int] == j2);
                    }
                }
            }
        }
        proof {
            assert forall|i: int| 0 <= i < v@.len() implies t.contains_key((#[trigger] v@[i]).0@) && t[v@[i].0@]
                == Some(v@[i].1@) by {
                assert(m.contains_key(*s[idx[i]].0));
            }
            assert forall|k: u64| #[trigger] t.contains_key(k) && t[k] is Some implies exists|i: int|
                0 <= i < v@.len() && (#[trigger] v@[i]).0@ == k by {
                assert(s.contains((&k, &m[k])));
                let j = choose|j: int| 0 <= j < s.len() && s[j] == (&k, &m[k]);
                assert(*s[j].1 is Player);
                let i = choose|i: int| 0 <= i < v@.len() && idx[i] == j;
                assert(v@[i].0@ == k);
            }
            assert forall|i: int, i2: int| 0 <= i < i2 < v@.len() implies (#[trigger] v@[i]).0@
                != (#[trigger] v@[i2]).0@ by {
                let a = idx[i];
                let b = idx[i2];
                if *s[a].0 == *s[b].0 {
                    assert(s[a] == s[b]);
                }
            }
        }
        v
    }

    /// The number of every connection, each once, in no stated order.
    pub fn all_sessions(&self) -> (v: Vec<SessionId>)
        ensures
            forall|i: int| 0 <= i < v@.len() ==> self.table().contains_key((#[trigger] v@[i])@),
            forall|k: u64| #[trigger] self.table().contains_key(k) ==> exists|i: int|
                0 <= i < v@.len() && (#[trigger] v@[i])@ == k,
            v@.len() == self.table().dom().len(),
    {
        let ghost m = self.sessions@;
        let ghost s = vstd::std_specs::iter::IteratorSpec::remaining(
            &vstd::std_specs::hash::spec_hash_map_iter(&self.sessions),
        );
        let mut v: Vec<SessionId> = Vec::new();
        for entry in it: self.sessions.iter()
            invariant
                m == self.sessions@,
                s == it.seq(),
                s.len() == m.dom().len(),
                forall|j: int| 0 <= j < s.len() ==> m.contains_key(*(#[trigger] s[j]).0),
                v@.len() == it.index(),
                forall|i: int| 0 <= i < v@.len() ==> (#[trigger] v@[i])@ == *s[i].0,
        {
            v.push(SessionId(*entry.0));
        }
        proof {
            assert(self.table().dom() =~= m.dom());
            assert forall|k: u64| #[trigger] self.table().contains_key(k) implies exists|i: int|
                0 <= i < v@.len() && (#[trigger] v@[i])@ == k by {
                assert(s.contains((&k, &m[k])));
                let j = choose|j: int| 0 <= j < s.len() && s[j] == (&k, &m[k]);
                assert(v@[j]@ == k);
            }
        }
        v
    }
}

} // verus!
