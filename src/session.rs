//! The directory of live sessions, keyed by their unique id.

use vstd::prelude::*;

use crate::errors::ConnectionError;

verus! {

broadcast use vstd::array::group_array_axioms;

/// A player's unique id.
#[derive(Debug, Clone, Copy, Hash)]
pub struct UUID {
    pub data: [u8; 16],
}

impl PartialEq for UUID {
    fn eq(&self, other: &UUID) -> (r: bool) {
        let mut i: usize = 0;
        while i < 16
            invariant
                i <= 16,
                forall|j: int| 0 <= j < i ==> self.data[j] == other.data[j],
            decreases 16 - i,
        {
            if self.data[i] != other.data[i] {
                return false;
            }
            i = i + 1;
        }
        proof {
            assert(self.data =~= other.data);
        }
        true
    }
}

impl vstd::std_specs::cmp::PartialEqSpecImpl for UUID {
    open spec fn obeys_eq_spec() -> bool {
        true
    }

    open spec fn eq_spec(&self, other: &UUID) -> bool {
        self == other
    }
}

impl Eq for UUID {
}

/// One authenticated client: its identity and the handle of its connection.
#[derive(Debug)]
pub struct Player<C> {
    /// The connection of the player.
    pub connection: C,
    /// The username of the player.
    pub username: String,
    /// The unique id of the player.
    pub uuid: UUID,
}

/// A session's identity: its username and unique id.
pub struct Identity {
    pub username: Seq<char>,
    pub uuid: UUID,
}

impl<C> Player<C> {
    pub open spec fn identity(&self) -> Identity {
        Identity { username: self.username@, uuid: self.uuid }
    }

    pub fn new(connection: C, username: &str, uuid: UUID) -> (r: Player<C>)
        ensures
            r.connection == connection,
            r.username@ == username@,
            r.uuid == uuid,
    {
        Player { connection, username: username.to_owned(), uuid }
    }
}

impl<C: Clone> Player<C> {
    /// A copy of the player, with a clone of its connection handle.
    pub fn duplicate(&self) -> (r: Player<C>)
        ensures
            r.identity() == self.identity(),
    {
        Player { connection: self.connection.clone(), username: self.username.clone(), uuid: self.uuid }
    }
}

/// What inserting a session whose unique id is already live does.
#[derive(Debug, Clone, Copy, PartialEq, Eq, Structural)]
pub enum DuplicatePolicy {
    /// The new session is refused with `DuplicateIdentity`.
    Reject,
    /// The live session is evicted and handed back; the new one takes its place.
    Replace,
}

/// No two identities share a unique id.
pub open spec fn ids_unique(s: Seq<Identity>) -> bool {
    forall|i: int, j: int| 0 <= i < j < s.len() ==> s[i].uuid != s[j].uuid
}

/// The live sessions in the order they were inserted.
pub struct SessionDirectory<C> {
    sessions: Vec<Player<C>>,
    policy: DuplicatePolicy,
}

impl<C> View for SessionDirectory<C> {
    type V = Seq<Identity>;

    closed spec fn view(&self) -> Seq<Identity> {
        self.sessions@.map_values(|p: Player<C>| p.identity())
    }
}

impl<C> SessionDirectory<C> {
    pub closed spec fn wf(&self) -> bool {
        ids_unique(self@)
    }

    pub closed spec fn spec_policy(&self) -> DuplicatePolicy {
        self.policy
    }

    /// An empty directory that handles duplicate ids by `policy`.
    pub fn new(policy: DuplicatePolicy) -> (r: SessionDirectory<C>)
        ensures
            r.wf(),
            r@ == Seq::<Identity>::empty(),
            r.spec_policy() == policy,
    {
        let r = SessionDirectory { sessions: Vec::new(), policy };
        proof {
            assert(r@ =~= Seq::<Identity>::empty());
        }
        r
    }

    pub fn policy(&self) -> (r: DuplicatePolicy)
        ensures
            r == self.spec_policy(),
    {
        self.policy
    }

    /// The number of live sessions.
    pub fn len(&self) -> (r: usize)
        ensures
            r == self@.len(),
    {
        self.sessions.len()
    }

    fn position_of_id(&self, id: UUID) -> (r: Option<usize>)
        ensures
            match r {
                Some(i) => i < self@.len() && self@[i as int].uuid == id && forall|j: int|
                    0 <= j < i ==> self@[j].uuid != id,
                None => forall|j: int| 0 <= j < self@.len() ==> self@[j].uuid != id,
            },
    {
        let mut i: usize = 0;
        while i < self.sessions.len()
            invariant
                i <= self@.len(),
                self@.len() == self.sessions@.len(),
                forall|j: int| 0 <= j < i ==> self@[j].uuid != id,
            decreases self.sessions@.len() - i,
        {
            if self.sessions[i].uuid == id {
                return Some(i);
            }
            i = i + 1;
        }
        None
    }

    fn position_of_name(&self, name: &str) -> (r: Option<usize>)
        ensures
            match r {
                Some(i) => i < self@.len() && self@[i as int].username == name@ && forall|j: int|
                    0 <= j < i ==> self@[j].username != name@,
                None => forall|j: int| 0 <= j < self@.len() ==> self@[j].username != name@,
            },
    {
        let target = name.to_owned();
        let mut i: usize = 0;
        while i < self.sessions.len()
            invariant
                i <= self@.len(),
                self@.len() == self.sessions@.len(),
                target@ == name@,
                forall|j: int| 0 <= j < i ==> self@[j].username != name@,
            decreases self.sessions@.len() - i,
        {
            if self.sessions[i].username == target {
                return Some(i);
            }
            i = i + 1;
        }
        None
    }

    /// Adds a session. When its unique id is already live, the directory's
    /// policy decides: `Reject` refuses it with `DuplicateIdentity` and
    /// changes nothing; `Replace` removes the live session, hands it back,
    /// and appends the new one.
    pub fn insert(&mut self, player: Player<C>) -> (r: Result<Option<Player<C>>, ConnectionError>)
        requires
            old(self).wf(),
        ensures
            final(self).wf(),
            final(self).spec_policy() == old(self).spec_policy(),
            (forall|j: int| 0 <= j < old(self)@.len() ==> old(self)@[j].uuid != player.uuid) ==> {
                &&& r matches Ok(None)
                &&& final(self)@ == old(self)@.push(player.identity())
            },
            forall|i: int|
                0 <= i < old(self)@.len() && old(self)@[i].uuid == player.uuid ==> {
                    match old(self).spec_policy() {
                        DuplicatePolicy::Reject => r == Err::<Option<Player<C>>, ConnectionError>(
                            ConnectionError::DuplicateIdentity,
                        ) && final(self)@ == old(self)@,
                        DuplicatePolicy::Replace => r matches Ok(Some(p)) && p.identity() == old(
                            self,
                        )@[i] && final(self)@ == old(self)@.remove(i).push(player.identity()),
                    }
                },
    {
        match self.position_of_id(player.uuid) {
            None => {
                let ghost before = self@;
                self.sessions.push(player);
                proof {
                    assert(self@ =~= before.push(player.identity()));
                }
                Ok(None)
            },
            Some(i) => {
                match self.policy {
                    DuplicatePolicy::Reject => Err(ConnectionError::DuplicateIdentity),
                    DuplicatePolicy::Replace => {
                        let ghost before = self@;
                        let evicted = self.sessions.remove(i);
                        let ghost mid = self@;
                        proof {
                            assert(mid =~= before.remove(i as int));
                            lemma_remove_then_absent(before, player.uuid, i as int);
                        }
                        self.sessions.push(player);
                        proof {
                            assert(self@ =~= mid.push(player.identity()));
                            assert forall|a: int, b: int| 0 <= a < b < self@.len() implies self@[a].uuid
                                != self@[b].uuid by {
                                if b == self@.len() - 1 {
                                    assert(self@[a] == mid[a]);
                                } else {
                                    assert(self@[a] == mid[a] && self@[b] == mid[b]);
                                }
                            }
                            assert forall|k: int|
                                0 <= k < before.len() && before[k].uuid == player.uuid implies k
                                == i by {}
                        }
                        Ok(Some(evicted))
                    },
                }
            },
        }
    }

    /// Removes the session with unique id `id` and hands it back.
    pub fn remove(&mut self, id: UUID) -> (r: Option<Player<C>>)
        requires
            old(self).wf(),
        ensures
            final(self).wf(),
            final(self).spec_policy() == old(self).spec_policy(),
            match r {
                Some(p) => exists|i: int|
                    0 <= i < old(self)@.len() && old(self)@[i].uuid == id && p.identity() == old(
                        self,
                    )@[i] && final(self)@ == old(self)@.remove(i),
                None => final(self)@ == old(self)@ && forall|j: int|
                    0 <= j < old(self)@.len() ==> old(self)@[j].uuid != id,
            },
    {
        match self.position_of_id(id) {
            None => None,
            Some(i) => {
                let ghost before = self@;
                let p = self.sessions.remove(i);
                proof {
                    assert(self@ =~= before.remove(i as int));
                    lemma_remove_keeps_unique(before, i as int);
                }
                Some(p)
            },
        }
    }
}

impl<C: Clone> SessionDirectory<C> {
    /// The session with unique id `id`, if one is live.
    pub fn find_by_id(&self, id: UUID) -> (r: Option<Player<C>>)
        ensures
            match r {
                Some(p) => p.uuid == id && exists|i: int|
                    0 <= i < self@.len() && self@[i] == p.identity(),
                None => forall|j: int| 0 <= j < self@.len() ==> self@[j].uuid != id,
            },
    {
        match self.position_of_id(id) {
            Some(i) => Some(self.sessions[i].duplicate()),
            None => None,
        }
    }

    /// The first live session, in insertion order, with username `name`.
    pub fn find_by_name(&self, name: &str) -> (r: Option<Player<C>>)
        ensures
            match r {
                Some(p) => exists|i: int|
                    0 <= i < self@.len() && self@[i] == p.identity() && p.username@ == name@
                        && forall|j: int| 0 <= j < i ==> self@[j].username != name@,
                None => forall|j: int| 0 <= j < self@.len() ==> self@[j].username != name@,
            },
    {
        match self.position_of_name(name) {
            Some(i) => Some(self.sessions[i].duplicate()),
            None => None,
        }
    }

    /// A copy of the live sessions in insertion order. Later changes to the
    /// directory do not reach it.
    pub fn snapshot(&self) -> (r: Vec<Player<C>>)
        ensures
            r@.len() == self@.len(),
            forall|i: int| 0 <= i < r@.len() ==> r@[i].identity() == self@[i],
    {
        let mut out: Vec<Player<C>> = Vec::new();
        let mut i: usize = 0;
        while i < self.sessions.len()
            invariant
                i <= self.sessions@.len(),
                self@.len() == self.sessions@.len(),
                out@.len() == i,
                forall|k: int| 0 <= k < i ==> out@[k].identity() == self@[k],
            decreases self.sessions@.len() - i,
        {
            out.push(self.sessions[i].duplicate());
            i = i + 1;
        }
        out
    }
}

/// Removing an entry keeps the ids unique.
proof fn lemma_remove_keeps_unique(s: Seq<Identity>, i: int)
    requires
        ids_unique(s),
        0 <= i < s.len(),
    ensures
        ids_unique(s.remove(i)),
{
    let t = s.remove(i);
    assert forall|a: int, b: int| 0 <= a < b < t.len() implies t[a].uuid != t[b].uuid by {
        let a2 = if a < i { a } else { a + 1 };
        let b2 = if b < i { b } else { b + 1 };
        assert(t[a] == s[a2] && t[b] == s[b2]);
    }
}

/// Once the session with unique id `id` is removed from a directory with
/// unique ids, no session with that id is left.
pub proof fn lemma_remove_then_absent(s: Seq<Identity>, id: UUID, i: int)
    requires
        ids_unique(s),
        0 <= i < s.len(),
        s[i].uuid == id,
    ensures
        ids_unique(s.remove(i)),
        forall|j: int| 0 <= j < s.remove(i).len() ==> s.remove(i)[j].uuid != id,
{
    lemma_remove_keeps_unique(s, i);
    let t = s.remove(i);
    assert forall|j: int| 0 <= j < t.len() implies t[j].uuid != id by {
        let j2 = if j < i { j } else { j + 1 };
        assert(t[j] == s[j2]);
    }
}

} // verus!
