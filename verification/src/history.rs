//! What a server remembers over a history of calls.

use vstd::prelude::*;

use crate::ids::{id_text, ids_differ};
use crate::manager::{has_numbers, is_listing, listed_by_number, SessionManager};
use crate::session::{after_call, fresh_session, SessionCall, SessionMetadata, SessionView};

verus! {

/// Something that happens at a server.
pub enum ServerCall {
    /// A session is launched; its pseudo-terminal can be opened or not.
    Launch { command: Seq<char>, cols: u16, rows: u16, opened: bool, now: u64 },
    /// The session with this id is killed.
    Kill { id: Seq<char> },
    /// Anything else happens to the session with this id.
    Session { id: Seq<char>, call: SessionCall },
    /// The sessions are listed.
    List,
}

/// The sessions at a server, and the number that the next of them is given.
pub struct ServerView {
    pub table: Map<Seq<char>, SessionView>,
    pub next: nat,
}

/// What a server with this table of sessions is.
pub open spec fn server(manager: SessionManager) -> ServerView {
    ServerView { table: manager@, next: manager.next_number() as nat }
}

/// A server at which nothing has happened.
pub open spec fn fresh_server() -> ServerView {
    ServerView { table: Map::empty(), next: 1 }
}

/// A server for at most `capacity` sessions after something happened at it.
pub open spec fn after_server_call(
    server: ServerView,
    capacity: nat,
    call: ServerCall,
) -> ServerView {
    match call {
        ServerCall::Launch { command, cols, rows, opened, now } => {
            let id = id_text(server.next);
            ServerView {
                table: if opened && server.table.len() < capacity {
                    server.table.insert(id, fresh_session(id, command, cols, rows, now))
                } else {
                    server.table
                },
                next: server.next + 1,
            }
        },
        ServerCall::Kill { id } => ServerView { table: server.table.remove(id), ..server },
        ServerCall::Session { id, call } => if server.table.contains_key(id) {
            ServerView {
                table: server.table.insert(id, after_call(server.table[id], call)),
                ..server
            }
        } else {
            server
        },
        ServerCall::List => server,
    }
}

/// A server for at most `capacity` sessions after all of this happened at it, in order.
pub open spec fn after_history(capacity: nat, history: Seq<ServerCall>) -> ServerView
    decreases history.len(),
{
    if history.len() == 0 {
        fresh_server()
    } else {
        after_server_call(after_history(capacity, history.drop_last()), capacity, history.last())
    }
}

/// How often it was tried to launch a session.
pub open spec fn launches(history: Seq<ServerCall>) -> nat
    decreases history.len(),
{
    if history.len() == 0 {
        0
    } else if history.last() is Launch {
        launches(history.drop_last()) + 1
    } else {
        launches(history.drop_last())
    }
}

/// The numbers without the one whose id this is, if it is among them.
pub open spec fn without(numbers: Seq<nat>, id: Seq<char>) -> Seq<nat> {
    if exists|i: int| 0 <= i < numbers.len() && id_text(#[trigger] numbers[i]) == id {
        numbers.remove(
            choose|i: int| 0 <= i < numbers.len() && id_text(#[trigger] numbers[i]) == id,
        )
    } else {
        numbers
    }
}

/// The numbers of the sessions that were launched with success and not killed since, in the order
/// in which they were launched. A launch succeeds where the pseudo-terminal can be opened and there
/// are fewer sessions than there may be; it is given the number of launches tried so far.
pub open spec fn alive(capacity: nat, history: Seq<ServerCall>) -> Seq<nat>
    decreases history.len(),
{
    if history.len() == 0 {
        Seq::empty()
    } else {
        let before = alive(capacity, history.drop_last());
        match history.last() {
            ServerCall::Launch { opened, .. } => if opened && before.len() < capacity {
                before.push(launches(history))
            } else {
                before
            },
            ServerCall::Kill { id } => without(before, id),
            _ => before,
        }
    }
}

/// The table holds the sessions that are alive and no others, and no number is given twice.
proof fn lemma_history(capacity: nat, history: Seq<ServerCall>)
    ensures
        after_history(capacity, history).next == launches(history) + 1,
        after_history(capacity, history).table.dom().finite(),
        after_history(capacity, history).table.len() == alive(capacity, history).len(),
        has_numbers(after_history(capacity, history).table, alive(capacity, history)),
        forall|i: int|
            0 <= i < alive(capacity, history).len() ==> 1 <= #[trigger] alive(capacity, history)[i]
                <= launches(history),
    decreases history.len(),
{
    if history.len() > 0 {
        let past = history.drop_last();
        lemma_history(capacity, past);
        let server = after_history(capacity, past);
        let numbers = alive(capacity, past);
        let now = after_history(capacity, history);
        let live = alive(capacity, history);
        match history.last() {
            ServerCall::Launch { opened, .. } => if opened && numbers.len() < capacity {
                let id = id_text(server.next);
                lemma_unused(server.table, numbers, server.next);
                assert forall|i: int| 0 <= i < live.len() implies now.table.contains_key(
                    id_text(#[trigger] live[i]),
                ) by {
                    if i < numbers.len() {
                        assert(live[i] == numbers[i]);
                    }
                }
                assert forall|p: Seq<char>| #[trigger] now.table.contains_key(p) implies exists|
                    i: int,
                |
                    0 <= i < live.len() && id_text(#[trigger] live[i]) == p by {
                    if p == id {
                        assert(live[numbers.len() as int] == server.next);
                    } else {
                        assert(server.table.contains_key(p));
                        let i = choose|i: int|
                            0 <= i < numbers.len() && id_text(#[trigger] numbers[i]) == p;
                        assert(live[i] == numbers[i]);
                    }
                }
            },
            ServerCall::Kill { id } => {
                lemma_killed(server.table, numbers, id);
            },
            ServerCall::Session { id, call } => {
                if server.table.contains_key(id) {
                    assert(now.table.dom() =~= server.table.dom());
                    assert forall|p: Seq<char>| #[trigger]
                        now.table.contains_key(p) == server.table.contains_key(p) by {}
                }
            },
            ServerCall::List => {},
        }
    }
}

/// A number that is above all those of a table has an id that is not in it.
proof fn lemma_unused(table: Map<Seq<char>, SessionView>, numbers: Seq<nat>, next: nat)
    requires
        has_numbers(table, numbers),
        forall|i: int| 0 <= i < numbers.len() ==> #[trigger] numbers[i] < next,
    ensures
        !table.contains_key(id_text(next)),
{
    if table.contains_key(id_text(next)) {
        let i = choose|i: int|
            0 <= i < numbers.len() && id_text(#[trigger] numbers[i]) == id_text(next);
        ids_differ(numbers[i], next);
    }
}

/// Killing takes one number out, if the id is that of a session.
proof fn lemma_killed(table: Map<Seq<char>, SessionView>, numbers: Seq<nat>, id: Seq<char>)
    requires
        table.dom().finite(),
        table.len() == numbers.len(),
        has_numbers(table, numbers),
    ensures
        table.remove(id).dom().finite(),
        table.remove(id).len() == without(numbers, id).len(),
        has_numbers(table.remove(id), without(numbers, id)),
        forall|i: int|
            0 <= i < without(numbers, id).len() ==> numbers.contains(
                #[trigger] without(numbers, id)[i],
            ),
{
    let rest = table.remove(id);
    let fewer = without(numbers, id);
    if table.contains_key(id) {
        let k = choose|k: int| 0 <= k < numbers.len() && id_text(#[trigger] numbers[k]) == id;
        assert(fewer == numbers.remove(k));
        assert forall|i: int| 0 <= i < fewer.len() implies rest.contains_key(
            id_text(#[trigger] fewer[i]),
        ) && numbers.contains(fewer[i]) by {
            let j = if i < k {
                i
            } else {
                i + 1
            };
            assert(fewer[i] == numbers[j]);
            ids_differ(numbers[j], numbers[k]);
        }
        assert forall|p: Seq<char>| #[trigger] rest.contains_key(p) implies exists|i: int|
            0 <= i < fewer.len() && id_text(#[trigger] fewer[i]) == p by {
            assert(table.contains_key(p));
            let j = choose|j: int| 0 <= j < numbers.len() && id_text(#[trigger] numbers[j]) == p;
            let i = if j < k {
                j
            } else {
                j - 1
            };
            assert(fewer[i] == numbers[j]);
        }
    } else {
        assert(rest =~= table);
        assert forall|i: int| 0 <= i < numbers.len() implies id_text(#[trigger] numbers[i]) != id by {
            assert(table.contains_key(id_text(numbers[i])));
        }
        assert(fewer == numbers);
    }
}

/// Whatever happened at a server, the sessions listed are those that were launched with success and
/// not killed since, in the order in which they were launched.
pub proof fn the_living_are_listed(
    capacity: nat,
    history: Seq<ServerCall>,
    listing: Seq<SessionMetadata>,
)
    requires
        is_listing(listing, after_history(capacity, history).table),
        launches(history) <= u64::MAX,
    ensures
        listing.len() == alive(capacity, history).len(),
        forall|i: int|
            0 <= i < listing.len() ==> (#[trigger] listing[i])@.id == id_text(
                alive(capacity, history)[i],
            ),
{
    lemma_history(capacity, history);
    listed_by_number(listing, after_history(capacity, history).table, alive(capacity, history));
}

/// A launch is given an id that no session has, so it replaces none.
pub proof fn a_launch_replaces_nothing(capacity: nat, history: Seq<ServerCall>)
    ensures
        !after_history(capacity, history).table.contains_key(
            id_text(after_history(capacity, history).next),
        ),
{
    lemma_history(capacity, history);
    lemma_unused(
        after_history(capacity, history).table,
        alive(capacity, history),
        after_history(capacity, history).next,
    );
}

/// A session persists until it is killed, and nothing that happens to other sessions changes it.
pub proof fn sessions_persist(
    capacity: nat,
    history: Seq<ServerCall>,
    call: ServerCall,
    id: Seq<char>,
)
    requires
        after_history(capacity, history).table.contains_key(id),
        !(call matches ServerCall::Kill { id: killed } && killed == id),
    ensures
        after_history(capacity, history.push(call)).table.contains_key(id),
        !(call matches ServerCall::Session { id: other, .. } && other == id) ==> after_history(
            capacity,
            history.push(call),
        ).table[id] == after_history(capacity, history).table[id],
{
    a_launch_replaces_nothing(capacity, history);
    assert(history.push(call).drop_last() =~= history);
}

} // verus!
