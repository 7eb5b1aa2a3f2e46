//! The session registry: one push handle per connected client, each under
//! an identifier that no other live session carries.

use crate::ident::{distinct, fresh_id, is_fresh_choice};
use vstd::prelude::*;

verus! {

/// A connected client: its identifier and the handle through which
/// messages are pushed to it.
pub struct Session<H> {
    pub id: usize,
    pub outbound: H,
}

/// The live sessions, in the order in which they connected.
pub struct SessionRegistry<H> {
    sessions: Vec<Session<H>>,
}

/// The identifiers of `entries`, in order.
pub open spec fn session_ids<H>(entries: Seq<Session<H>>) -> Seq<usize> {
    entries.map_values(|s: Session<H>| s.id)
}

/// `entries` without the session `id`; the others keep their order.
pub open spec fn without_session<H>(entries: Seq<Session<H>>, id: usize) -> Seq<Session<H>> {
    if session_ids(entries).contains(id) {
        entries.remove(session_ids(entries).index_of(id))
    } else {
        entries
    }
}

impl<H> SessionRegistry<H> {
    /// The live sessions, oldest first.
    pub closed spec fn entries(&self) -> Seq<Session<H>> {
        self.sessions@
    }

    /// The identifiers of the live sessions, oldest first.
    pub open spec fn ids(&self) -> Seq<usize> {
        session_ids(self.entries())
    }

    /// A session with this identifier is live.
    pub open spec fn is_live(&self, id: usize) -> bool {
        self.ids().contains(id)
    }

    /// No two live sessions share an identifier.
    pub open spec fn wf(&self) -> bool {
        distinct(self.ids())
    }

    /// A registry without sessions.
    pub fn new() -> (r: Self)
        ensures
            r.wf(),
            r.entries() == Seq::<Session<H>>::empty(),
    {
        SessionRegistry { sessions: Vec::new() }
    }

    /// How many sessions are live.
    pub fn len(&self) -> (n: usize)
        ensures
            n == self.entries().len(),
    {
        self.sessions.len()
    }

    /// The live sessions, oldest first: the recipients of every broadcast.
    pub fn sessions(&self) -> (all: &Vec<Session<H>>)
        ensures
            all@ == self.entries(),
    {
        &self.sessions
    }

    /// Whether a session with this identifier is live.
    pub fn contains(&self, id: usize) -> (b: bool)
        ensures
            b == self.is_live(id),
    {
        self.find(id).is_some()
    }

    /// The identifiers of the live sessions, oldest first.
    pub fn live_ids(&self) -> (ids: Vec<usize>)
        ensures
            ids@ == self.ids(),
    {
        let mut ids: Vec<usize> = Vec::new();
        let mut i: usize = 0;
        while i < self.sessions.len()
            invariant
                i <= self.sessions.len(),
                ids@ == session_ids(self.sessions@.take(i as int)),
            decreases self.sessions.len() - i,
        {
            ids.push(self.sessions[i].id);
            i += 1;
            assert(session_ids(self.sessions@.take(i as int)) =~= session_ids(
                self.sessions@.take(i - 1),
            ).push(self.sessions@[i - 1].id));
        }
        assert(self.sessions@.take(i as int) =~= self.sessions@);
        ids
    }

    /// Where the session with this identifier stands, if it is live.
    fn find(&self, id: usize) -> (at: Option<usize>)
        ensures
            match at {
                Some(i) => i < self.entries().len() && self.entries()[i as int].id == id
                    && self.is_live(id),
                None => !self.is_live(id),
            },
    {
        let mut i: usize = 0;
        while i < self.sessions.len()
            invariant
                i <= self.sessions.len(),
                forall|k: int| 0 <= k < i ==> self.sessions@[k].id != id,
            decreases self.sessions.len() - i,
        {
            if self.sessions[i].id == id {
                assert(self.ids()[i as int] == id);
                return Some(i);
            }
            i += 1;
        }
        assert forall|k: int| 0 <= k < self.ids().len() implies self.ids()[k] != id by {
            assert(self.ids()[k] == self.sessions@[k].id);
        }
        None
    }

    /// Registers a client under a fresh identifier and returns it. The
    /// identifier is `candidate` unless a live session carries it already;
    /// then it is the least identifier that is free.
    pub fn register(&mut self, candidate: usize, outbound: H) -> (id: usize)
        requires
            old(self).wf(),
        ensures
            final(self).wf(),
            !old(self).is_live(id),
            is_fresh_choice(old(self).ids(), candidate, id),
            final(self).entries() == old(self).entries().push(Session { id, outbound }),
    {
        let taken = self.live_ids();
        let id = fresh_id(&taken, candidate);
        self.sessions.push(Session { id, outbound });
        proof {
            let before = old(self).ids();
            assert(self.ids() =~= before.push(id));
            assert forall|i: int, j: int| 0 <= i < j < self.ids().len() implies self.ids()[i]
                != self.ids()[j] by {
                if j == before.len() {
                    assert(before.contains(before[i]));
                }
            }
        }
        id
    }

    /// Removes the session with this identifier. Nothing happens if no
    /// such session is live.
    pub fn unregister(&mut self, id: usize)
        requires
            old(self).wf(),
        ensures
            final(self).wf(),
            !final(self).is_live(id),
            final(self).entries() == without_session(old(self).entries(), id),
    {
        match self.find(id) {
            Some(i) => {
                let _ = self.sessions.remove(i);
                proof {
                    lemma_remove_session(old(self).entries(), i as int);
                }
            },
            None => {},
        }
    }
}

/// Removing the session at `at` from a registry without duplicates removes
/// its identifier for good, and `at` is where `index_of` finds it.
pub proof fn lemma_remove_session<H>(entries: Seq<Session<H>>, at: int)
    requires
        0 <= at < entries.len(),
        distinct(session_ids(entries)),
    ensures
        session_ids(entries).index_of(entries[at].id) == at,
        session_ids(entries.remove(at)) == session_ids(entries).remove(at),
        distinct(session_ids(entries.remove(at))),
        !session_ids(entries.remove(at)).contains(entries[at].id),
{
    let ids = session_ids(entries);
    let id = entries[at].id;
    assert(ids[at] == id);
    let found = ids.index_of(id);
    assert(0 <= found < ids.len() && ids[found] == id);
    if found < at {
        assert(ids[found] != ids[at]);
    } else if at < found {
        assert(ids[at] != ids[found]);
    }
    let rest = session_ids(entries.remove(at));
    assert(rest =~= ids.remove(at));
    assert forall|i: int, j: int| 0 <= i < j < rest.len() implies rest[i] != rest[j] by {
        let a = if i < at { i } else { i + 1 };
        let b = if j < at { j } else { j + 1 };
        assert(rest[i] == ids[a] && rest[j] == ids[b]);
    }
    assert forall|i: int| 0 <= i < rest.len() implies rest[i] != id by {
        let a = if i < at { i } else { i + 1 };
        assert(rest[i] == ids[a]);
        if a < at {
            assert(ids[a] != ids[at]);
        } else {
            assert(ids[at] != ids[a]);
        }
    }
}

} // verus!
