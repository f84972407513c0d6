//! The table of sessions.

use vstd::prelude::*;

use crate::ids::{
    id_number, id_number_of_id_text, id_text, ids_differ, session_id, session_number, SessionId,
};
use crate::session::{PtyError, PtySession, SessionMetadata, SessionView};

verus! {

/// How many sessions there may be at a time.
pub const DEFAULT_MAX_SESSIONS: usize = 32;

/// Whether the session at position `i` has this id.
spec fn has_id(sessions: Seq<PtySession>, i: int, id: Seq<char>) -> bool {
    0 <= i < sessions.len() && sessions[i]@.id == id
}

/// The sessions of a list by their ids.
spec fn by_id(sessions: Seq<PtySession>) -> Map<Seq<char>, SessionView> {
    Map::new(
        |id: Seq<char>| exists|i: int| has_id(sessions, i, id),
        |id: Seq<char>| sessions[choose|i: int| has_id(sessions, i, id)]@,
    )
}

/// No two sessions of a list have the same id.
spec fn distinct_ids(sessions: Seq<PtySession>) -> bool {
    forall|i: int, j: int|
        0 <= i < sessions.len() && 0 <= j < sessions.len() && i != j ==> (#[trigger] sessions[i])@.id
            != (#[trigger] sessions[j])@.id
}

/// Whether entries stand in the order of the numbers of their ids.
pub open spec fn in_order(listing: Seq<SessionMetadata>) -> bool {
    forall|i: int, j: int|
        0 <= i <= j < listing.len() ==> id_number((#[trigger] listing[i])@.id) <= id_number(
            (#[trigger] listing[j])@.id,
        )
}

/// Whether `listing` tells about every session of the table once, in the order of their numbers.
pub open spec fn is_listing(
    listing: Seq<SessionMetadata>,
    table: Map<Seq<char>, SessionView>,
) -> bool {
    &&& listing.len() == table.len()
    &&& in_order(listing)
    &&& forall|i: int|
        0 <= i < listing.len() ==> {
            &&& table.contains_key((#[trigger] listing[i])@.id)
            &&& listing[i]@ == table[listing[i]@.id].metadata()
        }
    &&& forall|id: Seq<char>| #[trigger]
        table.contains_key(id) ==> exists|i: int|
            0 <= i < listing.len() && (#[trigger] listing[i])@.id == id
}

/// Whether the ids of a table are those of these session numbers, which ascend.
pub open spec fn has_numbers(table: Map<Seq<char>, SessionView>, numbers: Seq<nat>) -> bool {
    &&& forall|i: int, j: int|
        0 <= i < j < numbers.len() ==> #[trigger] numbers[i] < #[trigger] numbers[j]
    &&& forall|i: int|
        0 <= i < numbers.len() ==> table.contains_key(id_text(#[trigger] numbers[i]))
    &&& forall|id: Seq<char>| #[trigger]
        table.contains_key(id) ==> exists|i: int|
            0 <= i < numbers.len() && id_text(#[trigger] numbers[i]) == id
}

/// Whether an entry tells about one of the first `n` sessions of a list.
#[verifier::opaque]
spec fn entry_of_first(entry: SessionMetadata, sessions: Seq<PtySession>, n: int) -> bool {
    exists|k: int| 0 <= k < n && entry@ == (#[trigger] sessions[k])@.metadata()
}

/// Whether a listing tells about a session.
#[verifier::opaque]
spec fn told_in(session: PtySession, listing: Seq<SessionMetadata>) -> bool {
    exists|j: int| 0 <= j < listing.len() && (#[trigger] listing[j])@ == session@.metadata()
}

/// Whether `listing` tells about each of the first `n` sessions of a list, and about no others.
spec fn lists_first(listing: Seq<SessionMetadata>, sessions: Seq<PtySession>, n: int) -> bool {
    &&& listing.len() == n
    &&& forall|j: int|
        0 <= j < listing.len() ==> #[trigger] entry_of_first(listing[j], sessions, n)
    &&& forall|k: int| 0 <= k < n ==> #[trigger] told_in(sessions[k], listing)
}

/// Finds where an entry with this number goes: after all those whose numbers are no greater.
fn insertion_point(listing: &Vec<SessionMetadata>, number: u64) -> (at: usize)
    requires
        in_order(listing@),
    ensures
        at <= listing@.len(),
        forall|j: int| 0 <= j < at ==> id_number((#[trigger] listing@[j])@.id) <= number,
        forall|j: int| at <= j < listing@.len() ==> number < id_number((#[trigger] listing@[j])@.id),
{
    let mut at: usize = listing.len();
    while at > 0 && number < session_number(listing[at - 1].id.as_str())
        invariant
            at <= listing@.len(),
            forall|j: int|
                at <= j < listing@.len() ==> number < id_number((#[trigger] listing@[j])@.id),
        decreases at,
    {
        at -= 1;
    }
    at
}

/// The sessions, by id, and the number that the next of them is given.
pub struct SessionManager {
    sessions: Vec<PtySession>,
    next_id: u64,
    max_sessions: usize,
}

impl View for SessionManager {
    type V = Map<Seq<char>, SessionView>;

    closed spec fn view(&self) -> Map<Seq<char>, SessionView> {
        by_id(self.sessions@)
    }
}

impl SessionManager {
    /// Every session is sound and stands in the table once, and there are no more of them than
    /// there may be.
    pub closed spec fn wf(&self) -> bool {
        &&& distinct_ids(self.sessions@)
        &&& forall|i: int| 0 <= i < self.sessions@.len() ==> (#[trigger] self.sessions@[i]).wf()
        &&& self.sessions@.len() <= self.max_sessions
    }

    /// The number that the next session is given.
    pub closed spec fn next_number(&self) -> u64 {
        self.next_id
    }

    /// How many sessions there may be at a time.
    pub closed spec fn capacity(&self) -> usize {
        self.max_sessions
    }

    /// Makes an empty table.
    pub fn new() -> (manager: SessionManager)
        ensures
            manager.wf(),
            manager@ == Map::<Seq<char>, SessionView>::empty(),
            manager.next_number() == 1,
            manager.capacity() == DEFAULT_MAX_SESSIONS,
            manager.capacity() == 32,
    {
        let manager = SessionManager {
            sessions: Vec::new(),
            next_id: 1,
            max_sessions: DEFAULT_MAX_SESSIONS,
        };
        assert(manager@ =~= Map::<Seq<char>, SessionView>::empty());
        manager
    }

    /// Tells whether there are numbers left for new ids.
    pub fn has_ids_left(&self) -> (left: bool)
        ensures
            left == (self.next_number() < u64::MAX),
    {
        self.next_id < u64::MAX
    }

    /// Gives out an id that was not given out before.
    pub fn generate_id(&mut self) -> (id: SessionId)
        requires
            old(self).wf(),
            old(self).next_number() < u64::MAX,
        ensures
            final(self).wf(),
            id@ == id_text(old(self).next_number() as nat),
            final(self).next_number() == old(self).next_number() + 1,
            final(self).capacity() == old(self).capacity(),
            final(self)@ == old(self)@,
    {
        let id = session_id(self.next_id);
        self.next_id += 1;
        id
    }

    fn find(&self, id: &str) -> (found: Option<usize>)
        ensures
            match found {
                Some(i) => has_id(self.sessions@, i as int, id@),
                None => forall|i: int| !has_id(self.sessions@, i, id@),
            },
    {
        let wanted = id.to_owned();
        let mut i: usize = 0;
        while i < self.sessions.len()
            invariant
                wanted@ == id@,
                i <= self.sessions@.len(),
                forall|j: int| 0 <= j < i ==> !has_id(self.sessions@, j, id@),
            decreases self.sessions@.len() - i,
        {
            if *self.sessions[i].id() == wanted {
                return Some(i);
            }
            i += 1;
        }
        None
    }

    /// Adds a session, unless there are as many as there may be. A session that has the same id is
    /// replaced.
    pub fn insert(&mut self, session: PtySession) -> (result: Result<SessionId, PtyError>)
        requires
            old(self).wf(),
            session.wf(),
        ensures
            final(self).wf(),
            final(self).next_number() == old(self).next_number(),
            final(self).capacity() == old(self).capacity(),
            if old(self)@.len() >= old(self).capacity() {
                &&& result == Err::<SessionId, PtyError>(
                    PtyError::MaxSessions(old(self).capacity()),
                )
                &&& final(self)@ == old(self)@
            } else {
                &&& result matches Ok(id) && id@ == session@.id
                &&& final(self)@ == old(self)@.insert(session@.id, session@)
            },
    {
        proof {
            lemma_count(self.sessions@);
        }
        if self.sessions.len() >= self.max_sessions {
            return Err(PtyError::MaxSessions(self.max_sessions));
        }
        let id = session.id().clone();
        match self.find(id.as_str()) {
            Some(i) => {
                proof {
                    lemma_replaced(self.sessions@, i as int);
                }
                self.sessions.set(i, session);
            },
            None => {
                proof {
                    lemma_added(self.sessions@, session);
                }
                self.sessions.push(session);
            },
        }
        Ok(id)
    }

    /// Looks up a session.
    pub fn get(&self, id: &str) -> (result: Result<&PtySession, PtyError>)
        requires
            self.wf(),
        ensures
            match result {
                Ok(session) => {
                    &&& self@.contains_key(id@)
                    &&& session@ == self@[id@]
                    &&& session@.id == id@
                    &&& session.wf()
                },
                Err(error) => {
                    &&& !self@.contains_key(id@)
                    &&& error matches PtyError::NotFound(text) && text@ == id@
                },
            },
    {
        match self.find(id) {
            Some(i) => {
                proof {
                    lemma_by_id(self.sessions@, i as int);
                }
                Ok(&self.sessions[i])
            },
            None => Err(PtyError::NotFound(id.to_owned())),
        }
    }

    /// Looks up a session to change it.
    pub fn get_mut(&mut self, id: &str) -> (result: Result<&mut PtySession, PtyError>)
        requires
            old(self).wf(),
        ensures
            match result {
                Ok(session) => {
                    &&& old(self)@.contains_key(id@)
                    &&& session@ == old(self)@[id@]
                    &&& session@.id == id@
                    &&& session.wf()
                    &&& final(session).wf() && final(session)@.id == id@ ==> {
                        &&& final(self).wf()
                        &&& final(self)@ == old(self)@.insert(id@, final(session)@)
                        &&& final(self).next_number() == old(self).next_number()
                        &&& final(self).capacity() == old(self).capacity()
                    }
                },
                Err(error) => {
                    &&& !old(self)@.contains_key(id@)
                    &&& error matches PtyError::NotFound(text) && text@ == id@
                    &&& *final(self) == *old(self)
                },
            },
    {
        match self.find(id) {
            Some(i) => {
                proof {
                    lemma_by_id(self.sessions@, i as int);
                    lemma_replaced(self.sessions@, i as int);
                }
                Ok(&mut self.sessions[i])
            },
            None => Err(PtyError::NotFound(id.to_owned())),
        }
    }

    /// Takes a session out.
    pub fn remove(&mut self, id: &str) -> (result: Result<PtySession, PtyError>)
        requires
            old(self).wf(),
        ensures
            final(self).wf(),
            final(self).next_number() == old(self).next_number(),
            final(self).capacity() == old(self).capacity(),
            match result {
                Ok(session) => {
                    &&& old(self)@.contains_key(id@)
                    &&& session@ == old(self)@[id@]
                    &&& session@.id == id@
                    &&& session.wf()
                    &&& final(self)@ == old(self)@.remove(id@)
                },
                Err(error) => {
                    &&& !old(self)@.contains_key(id@)
                    &&& error matches PtyError::NotFound(text) && text@ == id@
                    &&& final(self)@ == old(self)@
                },
            },
    {
        match self.find(id) {
            Some(i) => {
                proof {
                    lemma_by_id(self.sessions@, i as int);
                    lemma_removed(self.sessions@, i as int);
                }
                Ok(self.sessions.remove(i))
            },
            None => Err(PtyError::NotFound(id.to_owned())),
        }
    }

    /// Lists the sessions in the order of their numbers.
    pub fn list(&self) -> (listing: Vec<SessionMetadata>)
        requires
            self.wf(),
        ensures
            is_listing(listing@, self@),
    {
        let mut listing: Vec<SessionMetadata> = Vec::new();
        let mut i: usize = 0;
        while i < self.sessions.len()
            invariant
                self.wf(),
                i <= self.sessions@.len(),
                lists_first(listing@, self.sessions@, i as int),
                in_order(listing@),
            decreases self.sessions@.len() - i,
        {
            let metadata = self.sessions[i].metadata();
            let at = insertion_point(&listing, session_number(metadata.id.as_str()));
            proof {
                lemma_listed(listing@, self.sessions@, i as int, metadata, at as int);
            }
            listing.insert(at, metadata);
            i += 1;
        }
        proof {
            lemma_listing(listing@, self.sessions@);
        }
        listing
    }

    /// Tells how many sessions there are.
    pub fn count(&self) -> (count: usize)
        requires
            self.wf(),
        ensures
            count == self@.len(),
    {
        proof {
            lemma_count(self.sessions@);
        }
        self.sessions.len()
    }
}

impl Default for SessionManager {
    fn default() -> (manager: SessionManager)
        ensures
            manager.wf(),
            manager@ == Map::<Seq<char>, SessionView>::empty(),
            manager.next_number() == 1,
            manager.capacity() == DEFAULT_MAX_SESSIONS,
            manager.capacity() == 32,
    {
        SessionManager::new()
    }
}

/// Where ids are distinct, the session at each position is the one that its id leads to.
proof fn lemma_by_id(sessions: Seq<PtySession>, i: int)
    requires
        distinct_ids(sessions),
        0 <= i < sessions.len(),
    ensures
        by_id(sessions).contains_key(sessions[i]@.id),
        by_id(sessions)[sessions[i]@.id] == sessions[i]@,
{
    let id = sessions[i]@.id;
    assert(has_id(sessions, i, id));
    let k = choose|k: int| has_id(sessions, k, id);
    assert(has_id(sessions, k, id));
    assert(k == i);
}

/// A table is its list of sessions by id, each of them once.
proof fn lemma_by_id_is(sessions: Seq<PtySession>, table: Map<Seq<char>, SessionView>)
    requires
        distinct_ids(sessions),
        forall|i: int|
            0 <= i < sessions.len() ==> table.contains_key((#[trigger] sessions[i])@.id)
                && table[sessions[i]@.id] == sessions[i]@,
        forall|id: Seq<char>| #[trigger]
            table.contains_key(id) ==> exists|i: int| has_id(sessions, i, id),
    ensures
        by_id(sessions) == table,
{
    assert forall|id: Seq<char>| by_id(sessions).contains_key(id) == table.contains_key(id)
        && (table.contains_key(id) ==> by_id(sessions)[id] == table[id]) by {
        if by_id(sessions).contains_key(id) {
            let i = choose|i: int| has_id(sessions, i, id);
            lemma_by_id(sessions, i);
        }
    }
    assert(by_id(sessions) =~= table);
}

/// Replacing a session by one of the same id replaces it in the table.
proof fn lemma_replaced(sessions: Seq<PtySession>, i: int)
    requires
        distinct_ids(sessions),
        0 <= i < sessions.len(),
    ensures
        forall|s: PtySession|
            #![trigger sessions.update(i, s)]
            s@.id == sessions[i]@.id ==> {
                &&& distinct_ids(sessions.update(i, s))
                &&& by_id(sessions.update(i, s)) == by_id(sessions).insert(s@.id, s@)
            },
{
    assert forall|s: PtySession| s@.id == sessions[i]@.id implies {
        &&& distinct_ids(sessions.update(i, s))
        &&& by_id(#[trigger] sessions.update(i, s)) == by_id(sessions).insert(s@.id, s@)
    } by {
        let replaced = sessions.update(i, s);
        let table = by_id(sessions).insert(s@.id, s@);
        assert forall|j: int| 0 <= j < replaced.len() implies table.contains_key(
            (#[trigger] replaced[j])@.id,
        ) && table[replaced[j]@.id] == replaced[j]@ by {
            lemma_by_id(sessions, j);
            if j != i {
                assert(sessions[j]@.id != sessions[i]@.id);
            }
        }
        assert forall|id: Seq<char>| #[trigger] table.contains_key(id) implies exists|j: int|
            has_id(replaced, j, id) by {
            if id == s@.id {
                assert(has_id(replaced, i, id));
            } else {
                let j = choose|j: int| has_id(sessions, j, id);
                assert(has_id(replaced, j, id));
            }
        }
        assert(distinct_ids(replaced)) by {
            assert forall|j: int, k: int|
                0 <= j < replaced.len() && 0 <= k < replaced.len() && j != k implies (
            #[trigger] replaced[j])@.id != (#[trigger] replaced[k])@.id by {
                assert(sessions[j]@.id != sessions[k]@.id);
            }
        }
        lemma_by_id_is(replaced, table);
    }
}

/// Putting the entry of the next session in its place keeps the listing complete and in order.
proof fn lemma_listed(
    listing: Seq<SessionMetadata>,
    sessions: Seq<PtySession>,
    n: int,
    entry: SessionMetadata,
    at: int,
)
    requires
        0 <= n < sessions.len(),
        lists_first(listing, sessions, n),
        in_order(listing),
        entry@ == sessions[n]@.metadata(),
        0 <= at <= listing.len(),
        forall|j: int|
            0 <= j < at ==> id_number((#[trigger] listing[j])@.id) <= id_number(entry@.id),
        forall|j: int|
            at <= j < listing.len() ==> id_number(entry@.id) < id_number((#[trigger] listing[j])@.id),
    ensures
        lists_first(listing.insert(at, entry), sessions, n + 1),
        in_order(listing.insert(at, entry)),
{
    let longer = listing.insert(at, entry);
    assert forall|j: int| 0 <= j < longer.len() implies #[trigger] entry_of_first(
        longer[j],
        sessions,
        n + 1,
    ) by {
        reveal(entry_of_first);
        if j == at {
            assert(longer[j]@ == sessions[n]@.metadata());
        } else {
            let before = if j < at {
                j
            } else {
                j - 1
            };
            assert(longer[j] == listing[before]);
            assert(entry_of_first(listing[before], sessions, n));
        }
    }
    assert forall|k: int| 0 <= k < n + 1 implies #[trigger] told_in(sessions[k], longer) by {
        reveal(told_in);
        if k == n {
            assert(longer[at]@ == sessions[k]@.metadata());
        } else {
            assert(told_in(sessions[k], listing));
            let before = choose|j: int|
                0 <= j < listing.len() && (#[trigger] listing[j])@ == sessions[k]@.metadata();
            let j = if before < at {
                before
            } else {
                before + 1
            };
            assert(longer[j] == listing[before]);
        }
    }
    assert forall|i: int, j: int| 0 <= i <= j < longer.len() implies id_number(
        (#[trigger] longer[i])@.id,
    ) <= id_number((#[trigger] longer[j])@.id) by {
        let a = if i < at {
            i
        } else {
            i - 1
        };
        let b = if j < at {
            j
        } else {
            j - 1
        };
        if i != at {
            assert(longer[i] == listing[a]);
        }
        if j != at {
            assert(longer[j] == listing[b]);
        }
    }
}

/// An ordered account of all the sessions of a list is a listing of the table.
proof fn lemma_listing(listing: Seq<SessionMetadata>, sessions: Seq<PtySession>)
    requires
        distinct_ids(sessions),
        lists_first(listing, sessions, sessions.len() as int),
        in_order(listing),
    ensures
        is_listing(listing, by_id(sessions)),
{
    let table = by_id(sessions);
    lemma_count(sessions);
    assert forall|i: int| 0 <= i < listing.len() implies {
        &&& table.contains_key((#[trigger] listing[i])@.id)
        &&& listing[i]@ == table[listing[i]@.id].metadata()
    } by {
        reveal(entry_of_first);
        assert(entry_of_first(listing[i], sessions, sessions.len() as int));
        let k = choose|k: int|
            0 <= k < sessions.len() && listing[i]@ == (#[trigger] sessions[k])@.metadata();
        lemma_by_id(sessions, k);
    }
    assert forall|id: Seq<char>| #[trigger] table.contains_key(id) implies exists|i: int|
        0 <= i < listing.len() && (#[trigger] listing[i])@.id == id by {
        let k = choose|k: int| has_id(sessions, k, id);
        reveal(told_in);
        assert(told_in(sessions[k], listing));
        let i = choose|i: int|
            0 <= i < listing.len() && (#[trigger] listing[i])@ == sessions[k]@.metadata();
        assert(listing[i]@.id == id);
    }
}

/// A session with an id that no other has is added to the table.
proof fn lemma_added(sessions: Seq<PtySession>, s: PtySession)
    requires
        distinct_ids(sessions),
        forall|i: int| !has_id(sessions, i, s@.id),
    ensures
        distinct_ids(sessions.push(s)),
        by_id(sessions.push(s)) == by_id(sessions).insert(s@.id, s@),
{
    let added = sessions.push(s);
    let table = by_id(sessions).insert(s@.id, s@);
    assert forall|j: int| 0 <= j < sessions.len() implies (#[trigger] sessions[j])@.id != s@.id by {
        assert(!has_id(sessions, j, s@.id));
    }
    assert forall|j: int| 0 <= j < added.len() implies table.contains_key((#[trigger] added[j])@.id)
        && table[added[j]@.id] == added[j]@ by {
        if j < sessions.len() {
            lemma_by_id(sessions, j);
            assert(sessions[j]@.id != s@.id);
        }
    }
    assert forall|id: Seq<char>| #[trigger] table.contains_key(id) implies exists|j: int|
        has_id(added, j, id) by {
        if id == s@.id {
            assert(has_id(added, sessions.len() as int, id));
        } else {
            let j = choose|j: int| has_id(sessions, j, id);
            assert(has_id(added, j, id));
        }
    }
    lemma_by_id_is(added, table);
}

/// Taking a session out of the list takes its id out of the table.
proof fn lemma_removed(sessions: Seq<PtySession>, i: int)
    requires
        distinct_ids(sessions),
        0 <= i < sessions.len(),
    ensures
        distinct_ids(sessions.remove(i)),
        by_id(sessions.remove(i)) == by_id(sessions).remove(sessions[i]@.id),
{
    let rest = sessions.remove(i);
    let table = by_id(sessions).remove(sessions[i]@.id);
    assert forall|j: int| 0 <= j < rest.len() implies table.contains_key((#[trigger] rest[j])@.id)
        && table[rest[j]@.id] == rest[j]@ by {
        let k = if j < i {
            j
        } else {
            j + 1
        };
        lemma_by_id(sessions, k);
        assert(sessions[k]@.id != sessions[i]@.id);
    }
    assert forall|id: Seq<char>| #[trigger] table.contains_key(id) implies exists|j: int|
        has_id(rest, j, id) by {
        let k = choose|k: int| has_id(sessions, k, id);
        let j = if k < i {
            k
        } else {
            k - 1
        };
        assert(has_id(rest, j, id));
    }
    lemma_by_id_is(rest, table);
}

/// The table has as many entries as the list has sessions.
proof fn lemma_count(sessions: Seq<PtySession>)
    requires
        distinct_ids(sessions),
    ensures
        by_id(sessions).dom().finite(),
        by_id(sessions).len() == sessions.len(),
{
    let ids = sessions.map_values(|s: PtySession| s@.id);
    assert(ids.no_duplicates()) by {
        assert forall|i: int, j: int| 0 <= i < ids.len() && 0 <= j < ids.len() && i != j implies ids[i]
            != ids[j] by {
            assert(sessions[i]@.id != sessions[j]@.id);
        }
    }
    ids.unique_seq_to_set();
    assert forall|id: Seq<char>| by_id(sessions).dom().contains(id) == ids.to_set().contains(id) by {
        if by_id(sessions).dom().contains(id) {
            let i = choose|i: int| has_id(sessions, i, id);
            assert(ids[i] == id);
        }
        if ids.to_set().contains(id) {
            let i = choose|i: int| 0 <= i < ids.len() && ids[i] == id;
            assert(has_id(sessions, i, id));
        }
    }
    assert(by_id(sessions).dom() =~= ids.to_set());
}

/// There are never more sessions than there may be.
pub proof fn within_capacity(manager: SessionManager)
    requires
        manager.wf(),
    ensures
        manager@.dom().finite(),
        manager@.len() <= manager.capacity(),
{
    lemma_count(manager.sessions@);
}

/// Every session stands in the table under its own id.
pub proof fn stands_under_own_id(manager: SessionManager, id: Seq<char>)
    requires
        manager.wf(),
        manager@.contains_key(id),
    ensures
        manager@[id].id == id,
{
    let i = choose|i: int| has_id(manager.sessions@, i, id);
    lemma_by_id(manager.sessions@, i);
}

/// Taking out a session that was added brings back the table as it was before.
pub proof fn remove_undoes_insert(table: Map<Seq<char>, SessionView>, session: SessionView)
    requires
        !table.contains_key(session.id),
    ensures
        table.insert(session.id, session).remove(session.id) == table,
{
    assert(table.insert(session.id, session).remove(session.id) =~= table);
}

/// No id stands in a listing twice.
pub proof fn listed_once(
    listing: Seq<SessionMetadata>,
    table: Map<Seq<char>, SessionView>,
    i: int,
    j: int,
)
    requires
        is_listing(listing, table),
        table.dom().finite(),
        0 <= i < j < listing.len(),
    ensures
        listing[i]@.id != listing[j]@.id,
{
    let ids = listing.map_values(|m: SessionMetadata| m@.id);
    assert forall|id: Seq<char>| ids.to_set().contains(id) == table.dom().contains(id) by {
        if ids.to_set().contains(id) {
            let k = choose|k: int| 0 <= k < ids.len() && ids[k] == id;
            assert(listing[k]@.id == id);
        }
        if table.dom().contains(id) {
            assert(table.contains_key(id));
            let k = choose|k: int| 0 <= k < listing.len() && (#[trigger] listing[k])@.id == id;
            assert(ids[k] == id);
        }
    }
    assert(ids.to_set() =~= table.dom());
    ids.lemma_no_dup_set_cardinality();
    assert(ids[i] != ids[j]);
}

/// Sessions that were given their ids by the server are listed in the order in which the ids were
/// given out, whatever the number of digits.
pub proof fn listed_in_order_of_creation(
    listing: Seq<SessionMetadata>,
    table: Map<Seq<char>, SessionView>,
    i: int,
    j: int,
    m: u64,
    n: u64,
)
    requires
        is_listing(listing, table),
        table.dom().finite(),
        0 <= i < j < listing.len(),
        listing[i]@.id == id_text(m as nat),
        listing[j]@.id == id_text(n as nat),
    ensures
        m < n,
{
    listed_once(listing, table, i, j);
    id_number_of_id_text(m);
    id_number_of_id_text(n);
}

/// Where all sessions of a table have different numbers, only one listing of it is possible.
pub proof fn listing_is_determined(
    a: Seq<SessionMetadata>,
    b: Seq<SessionMetadata>,
    table: Map<Seq<char>, SessionView>,
)
    requires
        table.dom().finite(),
        is_listing(a, table),
        is_listing(b, table),
        forall|p: Seq<char>, q: Seq<char>|
            #![trigger table.contains_key(p), table.contains_key(q)]
            table.contains_key(p) && table.contains_key(q) && p != q ==> id_number(p) != id_number(q),
    ensures
        a.len() == b.len(),
        forall|i: int| 0 <= i < a.len() ==> (#[trigger] a[i])@ == b[i]@,
    decreases a.len(),
{
    if a.len() > 0 {
        let last = a.len() - 1;
        let id = a[last]@.id;
        assert(table.contains_key(id));
        let k = choose|k: int| 0 <= k < b.len() && (#[trigger] b[k])@.id == id;
        let other = b[last]@.id;
        assert(table.contains_key(other));
        let l = choose|l: int| 0 <= l < a.len() && (#[trigger] a[l])@.id == other;
        assert(id_number(a[l]@.id) <= id_number(a[last]@.id));
        assert(id_number(b[k]@.id) <= id_number(b[last]@.id));
        assert(id == other);
        let rest = table.remove(id);
        lemma_shorter_listing(a, table);
        lemma_shorter_listing(b, table);
        listing_is_determined(a.drop_last(), b.drop_last(), rest);
        assert forall|i: int| 0 <= i < a.len() implies (#[trigger] a[i])@ == b[i]@ by {
            if i < last {
                assert(a.drop_last()[i]@ == b.drop_last()[i]@);
            }
        }
    }
}

/// Where the ids of a table are those of some session numbers, it is listed in the order of these
/// numbers.
pub proof fn listed_by_number(
    listing: Seq<SessionMetadata>,
    table: Map<Seq<char>, SessionView>,
    numbers: Seq<nat>,
)
    requires
        table.dom().finite(),
        is_listing(listing, table),
        has_numbers(table, numbers),
        forall|i: int| 0 <= i < numbers.len() ==> #[trigger] numbers[i] <= u64::MAX,
    ensures
        listing.len() == numbers.len(),
        forall|i: int| 0 <= i < listing.len() ==> (#[trigger] listing[i])@.id == id_text(numbers[i]),
    decreases numbers.len(),
{
    if numbers.len() == 0 {
        if listing.len() > 0 {
            assert(table.contains_key(listing[0]@.id));
        }
    } else {
        let top = numbers.last();
        let id = id_text(top);
        assert(id_text(numbers[numbers.len() - 1]) == id);
        assert(table.contains_key(id));
        let k = choose|k: int| 0 <= k < listing.len() && (#[trigger] listing[k])@.id == id;
        let last = listing.len() - 1;
        assert(table.contains_key(listing[last]@.id));
        let j = choose|j: int|
            0 <= j < numbers.len() && id_text(#[trigger] numbers[j]) == listing[last]@.id;
        id_number_of_id_text(top as u64);
        id_number_of_id_text(numbers[j] as u64);
        assert(id_number(listing[k]@.id) <= id_number(listing[last]@.id));
        assert(numbers[j] >= top);
        assert(listing[last]@.id == id);
        let fewer = numbers.drop_last();
        let rest = table.remove(id);
        lemma_shorter_listing(listing, table);
        assert forall|i: int| 0 <= i < fewer.len() implies rest.contains_key(
            id_text(#[trigger] fewer[i]),
        ) by {
            assert(table.contains_key(id_text(numbers[i])));
            ids_differ(numbers[i], top);
        }
        assert forall|p: Seq<char>| #[trigger] rest.contains_key(p) implies exists|i: int|
            0 <= i < fewer.len() && id_text(#[trigger] fewer[i]) == p by {
            assert(table.contains_key(p));
            let i = choose|i: int| 0 <= i < numbers.len() && id_text(#[trigger] numbers[i]) == p;
            assert(fewer[i] == numbers[i]);
        }
        listed_by_number(listing.drop_last(), rest, fewer);
        assert forall|i: int| 0 <= i < listing.len() implies (#[trigger] listing[i])@.id == id_text(
            numbers[i],
        ) by {
            if i < last {
                assert(listing.drop_last()[i]@.id == id_text(fewer[i]));
            }
        }
    }
}

/// Without its last entry a listing tells about the table without that session.
proof fn lemma_shorter_listing(listing: Seq<SessionMetadata>, table: Map<Seq<char>, SessionView>)
    requires
        table.dom().finite(),
        is_listing(listing, table),
        listing.len() > 0,
    ensures
        is_listing(listing.drop_last(), table.remove(listing.last()@.id)),
{
    let shorter = listing.drop_last();
    let id = listing.last()@.id;
    let rest = table.remove(id);
    let last = listing.len() - 1;
    assert(table.contains_key(listing[last]@.id));
    assert forall|i: int| 0 <= i < shorter.len() implies {
        &&& rest.contains_key((#[trigger] shorter[i])@.id)
        &&& shorter[i]@ == rest[shorter[i]@.id].metadata()
    } by {
        listed_once(listing, table, i, last);
        assert(table.contains_key(listing[i]@.id));
    }
    assert forall|p: Seq<char>| #[trigger] rest.contains_key(p) implies exists|i: int|
        0 <= i < shorter.len() && (#[trigger] shorter[i])@.id == p by {
        assert(table.contains_key(p));
        let i = choose|i: int| 0 <= i < listing.len() && (#[trigger] listing[i])@.id == p;
        assert(shorter[i]@.id == p);
    }
    assert forall|i: int, j: int| 0 <= i <= j < shorter.len() implies id_number(
        (#[trigger] shorter[i])@.id,
    ) <= id_number((#[trigger] shorter[j])@.id) by {
        assert(shorter[i] == listing[i] && shorter[j] == listing[j]);
    }
}

/// Every session of a table is in each listing of it once, as it is; and nothing else is.
pub proof fn a_listing_tells_of_each_session(
    listing: Seq<SessionMetadata>,
    table: Map<Seq<char>, SessionView>,
    id: Seq<char>,
) -> (i: int)
    requires
        is_listing(listing, table),
        table.contains_key(id),
    ensures
        listing.len() == table.len(),
        0 <= i < listing.len(),
        listing[i].id@ == id,
        listing[i].command@ == table[id].command,
        listing[i].status == table[id].status,
        listing[i].cols == table[id].cols,
        listing[i].rows == table[id].rows,
{
    choose|i: int| 0 <= i < listing.len() && (#[trigger] listing[i])@.id == id
}

/// No entry of a listing tells of a session that is not in the table.
pub proof fn a_listing_tells_of_no_others(
    listing: Seq<SessionMetadata>,
    table: Map<Seq<char>, SessionView>,
    i: int,
)
    requires
        is_listing(listing, table),
        0 <= i < listing.len(),
    ensures
        table.contains_key(listing[i].id@),
{
    assert(table.contains_key(listing[i]@.id));
}

/// In a listing the numbers of the ids do not go down.
pub proof fn a_listing_ascends(
    listing: Seq<SessionMetadata>,
    table: Map<Seq<char>, SessionView>,
    i: int,
    j: int,
)
    requires
        is_listing(listing, table),
        0 <= i <= j < listing.len(),
    ensures
        id_number(listing[i].id@) <= id_number(listing[j].id@),
{
    assert(id_number(listing[i]@.id) <= id_number(listing[j]@.id));
}

} // verus!
