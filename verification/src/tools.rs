//! The tools that the server offers, as far as they decide and answer.

use vstd::prelude::*;
use vstd::string::StringExecFns;
use vstd::utf8::encode_utf8;

use crate::display::newest;
use crate::history::{after_server_call, server, ServerCall};
use crate::ids::{decimal, id_text, SessionId};
use crate::keys::{process_special_keys, translate};
use crate::manager::{is_listing, SessionManager};
use crate::session::{
    error_text, fresh_session, MetadataView, PtyError, PtySession, SessionCall, SessionMetadata,
    SessionStatus, SessionView,
};
use crate::terminal::{
    cursor_cell, screen_contents, scrolled_rows, texts, usable_size, TermOp,
};
use crate::wait::{elapsed_ms, reported_ms, WaitStep};

verus! {

/// The width of a terminal where nothing is said.
pub const DEFAULT_COLS: u16 = 80;

/// The height of a terminal where nothing is said.
pub const DEFAULT_ROWS: u16 = 24;

/// How many rows of scrollback are read where nothing is said.
pub const DEFAULT_LINES: usize = 100;

/// What a tool answers.
#[derive(Debug)]
pub enum Reply {
    /// It failed, and this is said about it.
    Error(String),
    /// A text.
    Text(String),
    /// A session was launched.
    Launched { session_id: SessionId, command: String, cols: u16, rows: u16 },
    /// The sessions that there are.
    Sessions(Vec<SessionMetadata>),
    /// So many bytes were sent.
    Sent { bytes_sent: usize },
    /// Where the cursor is.
    Cursor { row: u16, col: u16 },
    /// Rows that scrolled off the top.
    Lines(Vec<String>),
    /// A session has this size now.
    Resized { cols: u16, rows: u16 },
    /// A wait for text ended like this, after so many milliseconds.
    Waited { status: String, elapsed_ms: u64 },
    /// A wait for silence ended like this, after so many milliseconds; the session had been silent
    /// for so many nanoseconds.
    WaitedForIdle { status: String, idle_nanos: u64, elapsed_ms: u64 },
    /// A session was killed.
    Killed { session_id: SessionId },
}

impl Reply {
    /// Whether the reply is a failure of which this is said.
    pub open spec fn fails_with(self, text: Seq<char>) -> bool {
        self matches Reply::Error(said) && said@ == text
    }
}

/// What is said where no session has the id.
pub open spec fn not_found_text(session_id: Seq<char>) -> Seq<char> {
    "session not found: "@ + session_id
}

/// What a session is to be launched with.
pub struct LaunchParams {
    /// The command, by default the user's shell.
    pub command: Option<String>,
    /// Its arguments.
    pub args: Option<Vec<String>>,
    /// The directory that it starts in.
    pub cwd: Option<String>,
    /// The width of the terminal.
    pub cols: Option<u16>,
    /// The height of the terminal.
    pub rows: Option<u16>,
}

/// What a session is launched with.
pub struct LaunchPlan {
    pub command: String,
    pub args: Vec<String>,
    pub cwd: Option<String>,
    pub cols: u16,
    pub rows: u16,
}

/// Fills in what was left open about a launch, where `shell` is the user's shell if it is known.
pub fn plan_launch(params: LaunchParams, shell: Option<String>) -> (plan: LaunchPlan)
    ensures
        plan.command@ == match params.command {
            Some(command) => command@,
            None => match shell {
                Some(shell) => shell@,
                None => "/bin/sh"@,
            },
        },
        plan.args@ == match params.args {
            Some(args) => args@,
            None => Seq::empty(),
        },
        plan.cwd == params.cwd,
        plan.cols == match params.cols {
            Some(cols) => cols,
            None => DEFAULT_COLS,
        },
        plan.rows == match params.rows {
            Some(rows) => rows,
            None => DEFAULT_ROWS,
        },
        params.cols is None ==> plan.cols == 80,
        params.rows is None ==> plan.rows == 24,
{
    let command = match params.command {
        Some(command) => command,
        None => match shell {
            Some(shell) => shell,
            None => "/bin/sh".to_owned(),
        },
    };
    let args = match params.args {
        Some(args) => args,
        None => Vec::new(),
    };
    let cols: u16 = match params.cols {
        Some(cols) => cols,
        None => DEFAULT_COLS,
    };
    let rows: u16 = match params.rows {
        Some(rows) => rows,
        None => DEFAULT_ROWS,
    };
    LaunchPlan { command, args, cwd: params.cwd, cols, rows }
}

/// Chooses the directory that a program starts in: the one that was asked for, or else the current
/// one, if it is known.
pub fn start_directory<T>(asked: Option<T>, current: Option<T>) -> (chosen: Option<T>)
    ensures
        chosen == if asked is Some {
            asked
        } else {
            current
        },
{
    match asked {
        Some(directory) => Some(directory),
        None => current,
    }
}

/// Gives out an id and enters a launched session into the table under it, where `opened` says
/// whether the pseudo-terminal could be opened and the program started, and if not, why.
pub fn pty_launch(
    manager: &mut SessionManager,
    plan: &LaunchPlan,
    opened: Result<(), String>,
    now: u64,
) -> (reply: Reply)
    requires
        old(manager).wf(),
        old(manager).next_number() < u64::MAX,
        opened is Ok ==> usable_size(plan.rows, plan.cols),
    ensures
        final(manager).wf(),
        final(manager).next_number() == old(manager).next_number() + 1,
        final(manager).capacity() == old(manager).capacity(),
        match opened {
            Err(reason) => {
                &&& reply.fails_with("launch failed: "@ + ("pty spawn error: "@ + reason@))
                &&& final(manager)@ == old(manager)@
            },
            Ok(_) => if old(manager)@.len() >= old(manager).capacity() {
                &&& reply.fails_with(
                    "insert failed: "@ + error_text(PtyError::MaxSessions(old(manager).capacity())),
                )
                &&& reply.fails_with(
                    "insert failed: "@ + ("max sessions reached: "@ + decimal(
                        old(manager).capacity() as nat,
                    )),
                )
                &&& final(manager)@ == old(manager)@
            } else {
                let id = id_text(old(manager).next_number() as nat);
                &&& reply matches Reply::Launched { session_id, command, cols, rows }
                &&& session_id@ == id
                &&& command@ == plan.command@
                &&& cols == plan.cols
                &&& rows == plan.rows
                &&& final(manager)@ == old(manager)@.insert(
                    id,
                    fresh_session(id, plan.command@, plan.cols, plan.rows, now),
                )
                &&& final(manager)@ == old(manager)@.insert(
                    id,
                    (SessionView {
                        id,
                        command: plan.command@,
                        status: SessionStatus::Running,
                        cols: plan.cols,
                        rows: plan.rows,
                        log: seq![
                            TermOp::Open { rows: plan.rows, cols: plan.cols, limit: 5000 },
                        ],
                        last_output: now,
                    }),
                )
                &&& final(manager)@[id].screen().len() == 0
                &&& final(manager)@[id].history().len() == 0
                &&& final(manager)@[id].cursor() == (0u16, 0u16)
            },
        },
        server(*final(manager)) == after_server_call(
            server(*old(manager)),
            old(manager).capacity() as nat,
            ServerCall::Launch {
                command: plan.command@,
                cols: plan.cols,
                rows: plan.rows,
                opened: opened is Ok,
                now,
            },
        ),
{
    let id = manager.generate_id();
    let session = match PtySession::spawn(
        id,
        plan.command.as_str(),
        plan.cols,
        plan.rows,
        opened,
        now,
    ) {
        Ok(session) => session,
        Err(error) => {
            return Reply::Error("launch failed: ".to_owned().concat(error.message().as_str()));
        },
    };
    match manager.insert(session) {
        Ok(session_id) => Reply::Launched {
            session_id,
            command: plan.command.clone(),
            cols: plan.cols,
            rows: plan.rows,
        },
        Err(error) => Reply::Error("insert failed: ".to_owned().concat(error.message().as_str())),
    }
}

/// Lists the sessions.
pub fn pty_list(manager: &SessionManager) -> (reply: Reply)
    requires
        manager.wf(),
    ensures
        reply matches Reply::Sessions(listing) && is_listing(listing@, manager@),
{
    Reply::Sessions(manager.list())
}

/// Turns keys into the bytes that are to be written to the terminal of a session, or answers why
/// there is nothing to write.
pub fn pty_send_keys(manager: &SessionManager, session_id: &str, keys: &str) -> (result: Result<
    Vec<u8>,
    Reply,
>)
    requires
        manager.wf(),
    ensures
        if !manager@.contains_key(session_id@) {
            result matches Err(reply) && reply.fails_with(not_found_text(session_id@))
        } else if manager@[session_id@].status is Exited {
            &&& result matches Err(reply)
            &&& reply.fails_with("send_keys failed: "@ + error_text(PtyError::Exited))
            &&& reply.fails_with("send_keys failed: "@ + "session already exited"@)
        } else {
            result matches Ok(data) && data@ == translate(encode_utf8(keys@))
        },
{
    let data = process_special_keys(keys);
    let session = match manager.get(session_id) {
        Ok(session) => session,
        Err(error) => return Err(Reply::Error(error.message())),
    };
    match session.write_bytes(data.as_slice()) {
        Ok(_) => {},
        Err(error) => {
            return Err(
                Reply::Error("send_keys failed: ".to_owned().concat(error.message().as_str())),
            );
        },
    }
    Ok(data)
}

/// Answers that input was sent, where `written` says whether it could be written, and if not, why.
pub fn keys_sent(data: &[u8], written: Result<(), String>) -> (reply: Reply)
    ensures
        match written {
            Ok(_) => reply matches Reply::Sent { bytes_sent } && bytes_sent == data@.len(),
            Err(reason) => reply.fails_with("send_keys failed: "@ + ("io error: "@ + reason@)),
        },
{
    match written {
        Ok(_) => Reply::Sent { bytes_sent: data.len() },
        Err(reason) => {
            let error = PtyError::Io(reason);
            Reply::Error("send_keys failed: ".to_owned().concat(error.message().as_str()))
        },
    }
}

/// Answers what is on the screen of a session.
pub fn pty_get_screen(manager: &SessionManager, session_id: &str) -> (reply: Reply)
    requires
        manager.wf(),
    ensures
        if manager@.contains_key(session_id@) {
            &&& reply matches Reply::Text(text)
            &&& text@ == manager@[session_id@].screen()
            &&& text@ == screen_contents(manager@[session_id@].log, 0)
        } else {
            reply.fails_with(not_found_text(session_id@))
        },
{
    match manager.get(session_id) {
        Ok(session) => Reply::Text(session.get_screen()),
        Err(error) => Reply::Error(error.message()),
    }
}

/// Answers where the cursor of a session is.
pub fn pty_get_cursor(manager: &SessionManager, session_id: &str) -> (reply: Reply)
    requires
        manager.wf(),
    ensures
        if manager@.contains_key(session_id@) {
            &&& reply matches Reply::Cursor { row, col }
            &&& (row, col) == manager@[session_id@].cursor()
            &&& (row, col) == cursor_cell(manager@[session_id@].log)
            &&& row < manager@[session_id@].rows
            &&& col <= manager@[session_id@].cols
        } else {
            reply.fails_with(not_found_text(session_id@))
        },
{
    match manager.get(session_id) {
        Ok(session) => {
            let (row, col) = session.cursor_position();
            Reply::Cursor { row, col }
        },
        Err(error) => Reply::Error(error.message()),
    }
}

/// Answers the newest of the rows that scrolled off the top of a session.
pub fn pty_get_scrollback(
    manager: &mut SessionManager,
    session_id: &str,
    lines: Option<usize>,
) -> (reply: Reply)
    requires
        old(manager).wf(),
    ensures
        final(manager).wf(),
        final(manager)@ == old(manager)@,
        final(manager).next_number() == old(manager).next_number(),
        final(manager).capacity() == old(manager).capacity(),
        if old(manager)@.contains_key(session_id@) {
            let scrolled = scrolled_rows(old(manager)@[session_id@].log);
            let most: nat = match lines {
                Some(lines) => lines as nat,
                None => 100,
            };
            &&& reply matches Reply::Lines(rows)
            &&& texts(rows@) == newest(
                old(manager)@[session_id@].history(),
                match lines {
                    Some(lines) => lines as nat,
                    None => DEFAULT_LINES as nat,
                },
            )
            &&& rows@.len() == if scrolled.len() <= most {
                scrolled.len()
            } else {
                most
            }
            &&& forall|i: int|
                0 <= i < rows@.len() ==> (#[trigger] rows@[i])@ == scrolled[scrolled.len()
                    - rows@.len() + i]
        } else {
            reply.fails_with(not_found_text(session_id@))
        },
{
    let max_lines: usize = match lines {
        Some(lines) => lines,
        None => DEFAULT_LINES,
    };
    proof {
        let table = manager@;
        if table.contains_key(session_id@) {
            assert(table.insert(session_id@, table[session_id@]) =~= table);
        }
    }
    match manager.get_mut(session_id) {
        Ok(session) => Reply::Lines(session.get_scrollback(max_lines)),
        Err(error) => Reply::Error(error.message()),
    }
}

/// Gives a session a new size, where `resized` says whether its pseudo-terminal could be resized,
/// and if not, why.
pub fn pty_resize(
    manager: &mut SessionManager,
    session_id: &str,
    cols: u16,
    rows: u16,
    resized: Result<(), String>,
) -> (reply: Reply)
    requires
        old(manager).wf(),
        old(manager)@.contains_key(session_id@) && resized is Ok ==> usable_size(rows, cols),
    ensures
        final(manager).wf(),
        final(manager).next_number() == old(manager).next_number(),
        final(manager).capacity() == old(manager).capacity(),
        if !old(manager)@.contains_key(session_id@) {
            &&& reply.fails_with(not_found_text(session_id@))
            &&& final(manager)@ == old(manager)@
        } else {
            match resized {
                Ok(_) => {
                    &&& reply == (Reply::Resized { cols, rows })
                    &&& final(manager)@ == old(manager)@.insert(
                        session_id@,
                        old(manager)@[session_id@].resized(cols, rows),
                    )
                    &&& final(manager)@ == old(manager)@.insert(
                        session_id@,
                        (SessionView {
                            cols,
                            rows,
                            log: old(manager)@[session_id@].log.push(TermOp::Resize { rows, cols }),
                            ..old(manager)@[session_id@]
                        }),
                    )
                },
                Err(reason) => {
                    &&& reply.fails_with("resize failed: "@ + ("pty spawn error: "@ + reason@))
                    &&& final(manager)@ == old(manager)@
                },
            }
        },
        server(*final(manager)) == after_server_call(
            server(*old(manager)),
            old(manager).capacity() as nat,
            ServerCall::Session {
                id: session_id@,
                call: SessionCall::Resize { cols, rows, accepted: resized is Ok },
            },
        ),
{
    proof {
        let table = manager@;
        if table.contains_key(session_id@) {
            assert(table.insert(session_id@, table[session_id@]) =~= table);
        }
    }
    match manager.get_mut(session_id) {
        Ok(session) => match session.resize(cols, rows, resized) {
            Ok(_) => Reply::Resized { cols, rows },
            Err(error) => Reply::Error(
                "resize failed: ".to_owned().concat(error.message().as_str()),
            ),
        },
        Err(error) => Reply::Error(error.message()),
    }
}

/// Answers how a wait for text ended, so many nanoseconds after it began, if its last step ends it.
pub fn wait_for_reply(step: WaitStep, elapsed_nanos: u128) -> (reply: Option<Reply>)
    ensures
        match step {
            WaitStep::Sleep { .. } => reply is None,
            _ => {
                &&& reply matches Some(Reply::Waited { status, elapsed_ms })
                &&& status@ == if step is Done {
                    "matched"@
                } else {
                    "timeout"@
                }
                &&& elapsed_ms == reported_ms(elapsed_nanos)
            },
        },
{
    let status = match step {
        WaitStep::Done => "matched".to_owned(),
        WaitStep::TimedOut => "timeout".to_owned(),
        WaitStep::Sleep { .. } => return None,
    };
    Some(Reply::Waited { status, elapsed_ms: elapsed_ms(elapsed_nanos) })
}

/// Answers how a wait for silence ended, so many nanoseconds after it began, if its last step ends
/// it. The session had been silent for `idle_nanos` then.
pub fn wait_for_idle_reply(step: WaitStep, idle_nanos: u64, elapsed_nanos: u128) -> (reply: Option<
    Reply,
>)
    ensures
        match step {
            WaitStep::Sleep { .. } => reply is None,
            _ => {
                &&& reply matches Some(Reply::WaitedForIdle { status, idle_nanos: idle, elapsed_ms })
                &&& status@ == if step is Done {
                    "idle"@
                } else {
                    "timeout"@
                }
                &&& idle == idle_nanos
                &&& elapsed_ms == reported_ms(elapsed_nanos)
            },
        },
{
    let status = match step {
        WaitStep::Done => "idle".to_owned(),
        WaitStep::TimedOut => "timeout".to_owned(),
        WaitStep::Sleep { .. } => return None,
    };
    Some(Reply::WaitedForIdle { status, idle_nanos, elapsed_ms: elapsed_ms(elapsed_nanos) })
}

/// Takes a session out of the table.
pub fn pty_kill(manager: &mut SessionManager, session_id: &str) -> (reply: Reply)
    requires
        old(manager).wf(),
    ensures
        final(manager).wf(),
        final(manager).next_number() == old(manager).next_number(),
        final(manager).capacity() == old(manager).capacity(),
        final(manager)@ == old(manager)@.remove(session_id@),
        if old(manager)@.contains_key(session_id@) {
            reply matches Reply::Killed { session_id: id } && id@ == session_id@
        } else {
            reply.fails_with(not_found_text(session_id@))
        },
        server(*final(manager)) == after_server_call(
            server(*old(manager)),
            old(manager).capacity() as nat,
            ServerCall::Kill { id: session_id@ },
        ),
{
    match manager.remove(session_id) {
        Ok(_) => Reply::Killed { session_id: session_id.to_owned() },
        Err(error) => {
            assert(manager@.remove(session_id@) =~= manager@);
            Reply::Error(error.message())
        },
    }
}

/// A session that was killed is not found any more, and the others are as they were.
pub proof fn killed_is_gone(table: Map<Seq<char>, SessionView>, id: Seq<char>, other: Seq<char>)
    ensures
        !table.remove(id).contains_key(id),
        other != id ==> table.remove(id).contains_key(other) == table.contains_key(other),
        other != id && table.contains_key(other) ==> table.remove(id)[other] == table[other],
{
}

/// A session that was launched is listed as running, with its command and its size.
pub proof fn launched_is_listed(
    table: Map<Seq<char>, SessionView>,
    id: Seq<char>,
    command: Seq<char>,
    cols: u16,
    rows: u16,
    now: u64,
    listing: Seq<SessionMetadata>,
) -> (i: int)
    requires
        is_listing(listing, table.insert(id, fresh_session(id, command, cols, rows, now))),
    ensures
        0 <= i < listing.len(),
        listing[i]@ == (MetadataView { id, command, status: SessionStatus::Running, cols, rows }),
{
    let launched = table.insert(id, fresh_session(id, command, cols, rows, now));
    assert(launched.contains_key(id));
    choose|i: int| 0 <= i < listing.len() && (#[trigger] listing[i])@.id == id
}

/// A failure is an error of which just that text is said.
pub proof fn a_failure_says_its_text(said: String, text: Seq<char>)
    ensures
        Reply::Error(said).fails_with(text) <==> said@ == text,
        !Reply::Text(said).fails_with(text),
{
}

/// Where no session has an id, that is said of it.
pub proof fn unknown_ids_are_told(session_id: Seq<char>)
    ensures
        not_found_text(session_id) == "session not found: "@ + session_id,
{
}

} // verus!
