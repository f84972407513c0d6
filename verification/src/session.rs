//! One session: the program that runs in it, as far as it is known here, and its terminal.
//!
//! Opening the pseudo-terminal, reading from it, writing to it and waiting for the program are
//! left to the owner of the file handles, who reports what came of it.

use vstd::prelude::*;
use vstd::string::StringExecFns;

use crate::display::{
    every_byte_is_fed, newest, ordinary_output_is_fed_whole, shown, sound_display, Display,
};
use crate::ids::{decimal, decimal_string, SessionId};
use crate::terminal::{
    cursor_cell, fed_bytes, log_limit, log_size, screen_contents, scrolled_rows, texts, usable_size,
    TermOp,
};

verus! {

/// How many rows that scrolled off the top a session keeps.
pub const SCROLLBACK_ROWS: usize = 5000;

/// What can go wrong with a session.
#[derive(Debug)]
pub enum PtyError {
    /// No session has this id.
    NotFound(String),
    /// There are as many sessions as there may be.
    MaxSessions(usize),
    /// The program in the session has exited.
    Exited,
    /// The pseudo-terminal could not be opened or resized.
    Spawn(String),
    /// Reading or writing failed.
    Io(String),
}

/// What is said of an error to a user.
pub open spec fn error_text(error: PtyError) -> Seq<char> {
    match error {
        PtyError::NotFound(id) => "session not found: "@ + id@,
        PtyError::MaxSessions(max) => "max sessions reached: "@ + decimal(max as nat),
        PtyError::Exited => "session already exited"@,
        PtyError::Spawn(reason) => "pty spawn error: "@ + reason@,
        PtyError::Io(reason) => "io error: "@ + reason@,
    }
}

impl PtyError {
    /// Writes what is said of the error to a user.
    pub fn message(&self) -> (text: String)
        ensures
            text@ == error_text(*self),
            self matches PtyError::NotFound(id) ==> text@ == "session not found: "@ + id@,
            self matches PtyError::MaxSessions(max) ==> text@ == "max sessions reached: "@ + decimal(
                max as nat,
            ),
            self is Exited ==> text@ == "session already exited"@,
            self matches PtyError::Spawn(reason) ==> text@ == "pty spawn error: "@ + reason@,
            self matches PtyError::Io(reason) ==> text@ == "io error: "@ + reason@,
    {
        match self {
            PtyError::NotFound(id) => "session not found: ".to_owned().concat(id.as_str()),
            PtyError::MaxSessions(max) => {
                let digits = decimal_string(*max as u64);
                "max sessions reached: ".to_owned().concat(digits.as_str())
            },
            PtyError::Exited => "session already exited".to_owned(),
            PtyError::Spawn(reason) => "pty spawn error: ".to_owned().concat(reason.as_str()),
            PtyError::Io(reason) => "io error: ".to_owned().concat(reason.as_str()),
        }
    }
}

/// Whether the program in a session still runs.
#[derive(Debug, Clone, Copy, PartialEq, Eq, Structural)]
pub enum SessionStatus {
    /// It runs.
    Running,
    /// It exited with this code.
    Exited(i32),
}

/// What is told about a session when sessions are listed.
#[derive(Debug, Clone)]
pub struct SessionMetadata {
    pub id: SessionId,
    pub command: String,
    pub status: SessionStatus,
    pub cols: u16,
    pub rows: u16,
}

/// The content of a `SessionMetadata`.
pub struct MetadataView {
    pub id: Seq<char>,
    pub command: Seq<char>,
    pub status: SessionStatus,
    pub cols: u16,
    pub rows: u16,
}

impl View for SessionMetadata {
    type V = MetadataView;

    open spec fn view(&self) -> MetadataView {
        MetadataView {
            id: self.id@,
            command: self.command@,
            status: self.status,
            cols: self.cols,
            rows: self.rows,
        }
    }
}

/// What a session is: everything that its methods read or change.
#[verifier::ext_equal]
pub struct SessionView {
    pub id: Seq<char>,
    pub command: Seq<char>,
    pub status: SessionStatus,
    pub cols: u16,
    pub rows: u16,
    /// What was done to the terminal.
    pub log: Seq<TermOp>,
    /// When output last came, in nanoseconds on the owner's clock.
    pub last_output: u64,
}

impl SessionView {
    /// What is told about the session when sessions are listed.
    pub open spec fn metadata(self) -> MetadataView {
        MetadataView {
            id: self.id,
            command: self.command,
            status: self.status,
            cols: self.cols,
            rows: self.rows,
        }
    }

    /// The text on the screen.
    pub open spec fn screen(self) -> Seq<char> {
        screen_contents(self.log, 0)
    }

    /// The rows that scrolled off the top of the screen, oldest first.
    pub open spec fn history(self) -> Seq<Seq<char>> {
        scrolled_rows(self.log)
    }

    /// The row and the column of the cursor.
    pub open spec fn cursor(self) -> (u16, u16) {
        cursor_cell(self.log)
    }

    /// For how many nanoseconds no output has come at the time `now`.
    pub open spec fn idle_at(self, now: u64) -> int {
        if now >= self.last_output {
            now - self.last_output
        } else {
            0
        }
    }

    /// The session after the program wrote `bytes` at the time `now`.
    pub open spec fn fed(self, bytes: Seq<u8>, now: u64) -> SessionView {
        SessionView {
            log: shown(self.log, bytes),
            last_output: now,
            ..self
        }
    }

    /// The session after its program ended.
    pub open spec fn exited(self, outcome: WaitOutcome) -> SessionView {
        SessionView { status: SessionStatus::Exited(reported_code(outcome) as i32), ..self }
    }

    /// The session after it was resized.
    pub open spec fn resized(self, cols: u16, rows: u16) -> SessionView {
        SessionView { log: self.log.push(TermOp::Resize { rows, cols }), cols, rows, ..self }
    }
}

/// A session that was just opened.
pub open spec fn fresh_session(
    id: Seq<char>,
    command: Seq<char>,
    cols: u16,
    rows: u16,
    now: u64,
) -> SessionView {
    SessionView {
        id,
        command,
        status: SessionStatus::Running,
        cols,
        rows,
        log: seq![TermOp::Open { rows, cols, limit: SCROLLBACK_ROWS as nat }],
        last_output: now,
    }
}

/// What came of one attempt to read what a program wrote.
pub enum ReadEvent {
    /// These bytes were read. None at all means that the program closed the terminal.
    Bytes(Vec<u8>),
    /// A signal came in between.
    Interrupted,
    /// The terminal cannot be read any more.
    Failed,
}

/// What the reader of a session does next.
#[derive(Debug, Clone, Copy, PartialEq, Eq, Structural)]
pub enum ReaderAction {
    /// It reads on.
    Continue,
    /// It stops, and waits for the program.
    Stop,
}

/// What came of waiting for a program.
#[derive(Debug, Clone, Copy, PartialEq, Eq, Structural)]
pub enum WaitOutcome {
    /// The program ended, with success or not, and with this code.
    Ended { success: bool, code: u32 },
    /// It could not be waited for.
    Failed,
}

/// What the reader of a session does after `event`.
pub open spec fn action_after(event: ReadEvent) -> ReaderAction {
    match event {
        ReadEvent::Bytes(bytes) => if bytes@.len() == 0 {
            ReaderAction::Stop
        } else {
            ReaderAction::Continue
        },
        ReadEvent::Interrupted => ReaderAction::Continue,
        ReadEvent::Failed => ReaderAction::Stop,
    }
}

/// The session after its reader met `event` at the time `now`.
pub open spec fn session_after(session: SessionView, event: ReadEvent, now: u64) -> SessionView {
    match event {
        ReadEvent::Bytes(bytes) => if bytes@.len() == 0 {
            session
        } else {
            session.fed(bytes@, now)
        },
        _ => session,
    }
}

/// The exit code that is reported: zero for success, the code of the program as a signed number
/// for failure, and minus one where it could not be waited for.
pub open spec fn reported_code(outcome: WaitOutcome) -> int {
    match outcome {
        WaitOutcome::Ended { success, code } => if success {
            0
        } else if code <= i32::MAX {
            code as int
        } else {
            code - 0x1_0000_0000
        },
        WaitOutcome::Failed => -1,
    }
}

/// Decides what the reader of a session does after `event`.
pub fn reader_action(event: &ReadEvent) -> (action: ReaderAction)
    ensures
        action == action_after(*event),
        action == ReaderAction::Stop <==> (*event is Failed || (*event matches ReadEvent::Bytes(
            bytes,
        ) && bytes@.len() == 0)),
{
    match event {
        ReadEvent::Bytes(bytes) => if bytes.len() == 0 {
            ReaderAction::Stop
        } else {
            ReaderAction::Continue
        },
        ReadEvent::Interrupted => ReaderAction::Continue,
        ReadEvent::Failed => ReaderAction::Stop,
    }
}

/// Computes the exit code that is reported.
pub fn exit_code(outcome: WaitOutcome) -> (code: i32)
    ensures
        code == reported_code(outcome),
        match outcome {
            WaitOutcome::Ended { success: true, .. } => code == 0,
            WaitOutcome::Ended { success: false, code: given } => code == if given <= i32::MAX {
                given as int
            } else {
                given - 0x1_0000_0000
            },
            WaitOutcome::Failed => code == -1,
        },
{
    match outcome {
        WaitOutcome::Ended { success, code } => if success {
            0
        } else {
            assert(code > 0x7fff_ffff ==> (code as i32) == code - 0x1_0000_0000) by (bit_vector);
            code as i32
        },
        WaitOutcome::Failed => -1,
    }
}

/// The state of a session that its output changes.
struct SharedState {
    display: Display,
    status: SessionStatus,
    last_output: u64,
}

impl SharedState {
    fn new(cols: u16, rows: u16, scrollback: usize, now: u64) -> (state: SharedState)
        requires
            usable_size(rows, cols),
            scrollback < usize::MAX / 2,
        ensures
            state.display.wf(),
            state.display.log() == seq![TermOp::Open { rows, cols, limit: scrollback as nat }],
            state.status == SessionStatus::Running,
            state.last_output == now,
            screen_contents(state.display.log(), 0).len() == 0,
            scrolled_rows(state.display.log()).len() == 0,
            cursor_cell(state.display.log()) == (0u16, 0u16),
    {
        SharedState {
            display: Display::open(rows, cols, scrollback),
            status: SessionStatus::Running,
            last_output: now,
        }
    }
}

/// A session.
pub struct PtySession {
    id: SessionId,
    command: String,
    state: SharedState,
    cols: u16,
    rows: u16,
}

impl View for PtySession {
    type V = SessionView;

    closed spec fn view(&self) -> SessionView {
        SessionView {
            id: self.id@,
            command: self.command@,
            status: self.state.status,
            cols: self.cols,
            rows: self.rows,
            log: self.state.display.log(),
            last_output: self.state.last_output,
        }
    }
}

impl PtySession {
    /// The terminal has the size that the session reports, and keeps as many rows as it should.
    pub closed spec fn wf(&self) -> bool {
        let log = self.state.display.log();
        &&& self.state.display.wf()
        &&& log_size(log) == (self.rows, self.cols)
        &&& log_limit(log) == SCROLLBACK_ROWS
    }

    /// Starts the session of a program, where `opened` says whether its pseudo-terminal could be
    /// opened and the program started in it, and if not, why.
    pub fn spawn(
        id: SessionId,
        command: &str,
        cols: u16,
        rows: u16,
        opened: Result<(), String>,
        now: u64,
    ) -> (result: Result<PtySession, PtyError>)
        requires
            opened is Ok ==> usable_size(rows, cols),
        ensures
            match opened {
                Ok(_) => {
                    &&& result matches Ok(session)
                    &&& session.wf()
                    &&& session@ == fresh_session(id@, command@, cols, rows, now)
                    &&& session@.id == id@
                    &&& session@.command == command@
                    &&& session@.status == SessionStatus::Running
                    &&& session@.cols == cols
                    &&& session@.rows == rows
                    &&& session@.log == seq![TermOp::Open { rows, cols, limit: 5000 }]
                    &&& session@.last_output == now
                    &&& session@.screen().len() == 0
                    &&& session@.history().len() == 0
                    &&& session@.cursor() == (0u16, 0u16)
                },
                Err(reason) => result matches Err(PtyError::Spawn(text)) && text@ == reason@,
            },
    {
        match opened {
            Ok(_) => Ok(
                PtySession {
                    id,
                    command: command.to_owned(),
                    state: SharedState::new(cols, rows, SCROLLBACK_ROWS, now),
                    cols,
                    rows,
                },
            ),
            Err(reason) => Err(PtyError::Spawn(reason)),
        }
    }

    /// Tells the id of the session.
    pub fn id(&self) -> (id: &SessionId)
        ensures
            id@ == self@.id,
    {
        &self.id
    }

    /// Tells what is listed about the session.
    pub fn metadata(&self) -> (metadata: SessionMetadata)
        ensures
            metadata@ == self@.metadata(),
            metadata.id@ == self@.id,
            metadata.command@ == self@.command,
            metadata.status == self@.status,
            metadata.cols == self@.cols,
            metadata.rows == self@.rows,
    {
        SessionMetadata {
            id: self.id.clone(),
            command: self.command.clone(),
            status: self.state.status,
            cols: self.cols,
            rows: self.rows,
        }
    }

    /// Tells whether the program still runs.
    pub fn status(&self) -> (status: SessionStatus)
        ensures
            status == self@.status,
    {
        self.state.status
    }

    /// Lets input through to be written to the terminal, unless the program has exited.
    pub fn write_bytes<'a>(&self, data: &'a [u8]) -> (result: Result<&'a [u8], PtyError>)
        ensures
            match self@.status {
                SessionStatus::Running => result matches Ok(bytes) && bytes@ == data@,
                SessionStatus::Exited(_) => result == Err::<&[u8], PtyError>(PtyError::Exited),
            },
    {
        match self.state.status {
            SessionStatus::Exited(_) => Err(PtyError::Exited),
            SessionStatus::Running => Ok(data),
        }
    }

    /// Reads the text on the screen.
    pub fn get_screen(&self) -> (text: String)
        requires
            self.wf(),
        ensures
            text@ == self@.screen(),
            text@ == screen_contents(self@.log, 0),
    {
        self.state.display.contents()
    }

    /// Reads where the cursor is.
    pub fn cursor_position(&self) -> (cell: (u16, u16))
        requires
            self.wf(),
        ensures
            cell == self@.cursor(),
            cell == cursor_cell(self@.log),
            cell.0 < self@.rows,
            cell.1 <= self@.cols,
    {
        self.state.display.cursor_position()
    }

    /// Reads the text on the screen for a caller that polls it.
    pub fn snapshot_screen(&self) -> (text: String)
        requires
            self.wf(),
        ensures
            text@ == self@.screen(),
            text@ == screen_contents(self@.log, 0),
    {
        self.state.display.contents()
    }

    /// Reads the newest `max_lines` of the rows that scrolled off the top, oldest first.
    pub fn get_scrollback(&mut self, max_lines: usize) -> (lines: Vec<String>)
        requires
            old(self).wf(),
        ensures
            final(self).wf(),
            final(self)@ == old(self)@,
            texts(lines@) == newest(old(self)@.history(), max_lines as nat),
            lines@.len() <= SCROLLBACK_ROWS,
            lines@.len() == if scrolled_rows(old(self)@.log).len() <= max_lines {
                scrolled_rows(old(self)@.log).len()
            } else {
                max_lines as nat
            },
            forall|i: int|
                0 <= i < lines@.len() ==> (#[trigger] lines@[i])@ == scrolled_rows(
                    old(self)@.log,
                )[scrolled_rows(old(self)@.log).len() - lines@.len() + i],
    {
        self.state.display.scrollback(max_lines)
    }

    /// Takes over a new size, where `resized` says whether the pseudo-terminal could be resized,
    /// and if not, why.
    pub fn resize(
        &mut self,
        cols: u16,
        rows: u16,
        resized: Result<(), String>,
    ) -> (result: Result<(), PtyError>)
        requires
            old(self).wf(),
            resized is Ok ==> usable_size(rows, cols),
        ensures
            final(self).wf(),
            match resized {
                Ok(_) => {
                    &&& result is Ok
                    &&& final(self)@ == old(self)@.resized(cols, rows)
                    &&& final(self)@ == (SessionView {
                        cols,
                        rows,
                        log: old(self)@.log.push(TermOp::Resize { rows, cols }),
                        ..old(self)@
                    })
                },
                Err(reason) => {
                    &&& result matches Err(PtyError::Spawn(text)) && text@ == reason@
                    &&& final(self)@ == old(self)@
                },
            },
    {
        match resized {
            Err(reason) => Err(PtyError::Spawn(reason)),
            Ok(_) => {
                self.state.display.set_size(rows, cols);
                self.cols = cols;
                self.rows = rows;
                Ok(())
            },
        }
    }

    /// Takes over what the reader of the session met at the time `now`, and tells what the reader
    /// does next.
    pub fn on_read(&mut self, event: &ReadEvent, now: u64) -> (action: ReaderAction)
        requires
            old(self).wf(),
        ensures
            final(self).wf(),
            final(self)@ == session_after(old(self)@, *event, now),
            action == action_after(*event),
            action == ReaderAction::Stop <==> (*event is Failed || (*event matches ReadEvent::Bytes(
                bytes,
            ) && bytes@.len() == 0)),
            event matches ReadEvent::Bytes(bytes) ==> bytes@.len() > 0 ==> {
                &&& fed_bytes(final(self)@.log) == fed_bytes(old(self)@.log) + bytes@
                &&& old(self)@.log.is_prefix_of(final(self)@.log)
                &&& (forall|i: int| 0 <= i < bytes@.len() ==> #[trigger] bytes@[i] != 0x8f)
                    ==> final(self)@.log == old(self)@.log.push(TermOp::Feed { bytes: bytes@ })
                &&& final(self)@ == (SessionView {
                    log: final(self)@.log,
                    last_output: now,
                    ..old(self)@
                })
            },
            !(event matches ReadEvent::Bytes(bytes) && bytes@.len() > 0) ==> final(self)@ == old(
                self,
            )@,
    {
        proof {
            sound_display(self.state.display);
        }
        let action = reader_action(event);
        if let ReadEvent::Bytes(bytes) = event {
            if bytes.len() > 0 {
                proof {
                    every_byte_is_fed(self@.log, bytes@);
                    if forall|i: int| 0 <= i < bytes@.len() ==> #[trigger] bytes@[i] != 0x8f {
                        ordinary_output_is_fed_whole(self@.log, bytes@);
                    }
                }
                self.state.display.show(bytes.as_slice());
                self.state.last_output = now;
            }
        }
        action
    }

    /// Takes over that the program ended.
    pub fn on_exit(&mut self, outcome: WaitOutcome)
        requires
            old(self).wf(),
        ensures
            final(self).wf(),
            final(self)@ == old(self)@.exited(outcome),
            final(self)@.status matches SessionStatus::Exited(code) && code == reported_code(outcome),
            final(self)@ == (SessionView { status: final(self)@.status, ..old(self)@ }),
            outcome matches WaitOutcome::Ended { success: true, .. } ==> final(self)@.status
                == SessionStatus::Exited(0),
            outcome matches WaitOutcome::Ended { success: false, code } ==> code <= i32::MAX
                ==> final(self)@.status == SessionStatus::Exited(code as i32),
            outcome is Failed ==> (final(self)@.status matches SessionStatus::Exited(code) && code
                == -1),
    {
        self.state.status = SessionStatus::Exited(exit_code(outcome));
    }

    /// Tells for how many nanoseconds no output has come.
    pub fn idle_nanos(&self, now: u64) -> (idle: u64)
        ensures
            idle == self@.idle_at(now),
            now >= self@.last_output ==> idle == now - self@.last_output,
            now < self@.last_output ==> idle == 0,
    {
        if now >= self.state.last_output {
            now - self.state.last_output
        } else {
            0
        }
    }
}

/// Something that happens to a session.
pub enum SessionCall {
    /// Something is read from it or written to it.
    Use,
    /// It is given a new size, which its pseudo-terminal accepts or not.
    Resize { cols: u16, rows: u16, accepted: bool },
    /// Its reader meets an event.
    Read { event: ReadEvent, now: u64 },
    /// Its program ends.
    Exit { outcome: WaitOutcome },
}

/// A session after something happened to it.
pub open spec fn after_call(session: SessionView, call: SessionCall) -> SessionView {
    match call {
        SessionCall::Use => session,
        SessionCall::Resize { cols, rows, accepted } => if accepted {
            session.resized(cols, rows)
        } else {
            session
        },
        SessionCall::Read { event, now } => session_after(session, event, now),
        SessionCall::Exit { outcome } => session.exited(outcome),
    }
}

/// A session after all of this happened to it, in order.
pub open spec fn after_calls(session: SessionView, calls: Seq<SessionCall>) -> SessionView
    decreases calls.len(),
{
    if calls.len() == 0 {
        session
    } else {
        after_call(after_calls(session, calls.drop_last()), calls.last())
    }
}

/// The columns and rows that were accepted last, or those at the start where none were.
pub open spec fn last_size(cols: u16, rows: u16, calls: Seq<SessionCall>) -> (u16, u16)
    decreases calls.len(),
{
    if calls.len() == 0 {
        (cols, rows)
    } else {
        match calls.last() {
            SessionCall::Resize { cols: c, rows: r, accepted: true } => (c, r),
            _ => last_size(cols, rows, calls.drop_last()),
        }
    }
}

/// How the program ended last, if it did.
pub open spec fn last_status(calls: Seq<SessionCall>) -> SessionStatus
    decreases calls.len(),
{
    if calls.len() == 0 {
        SessionStatus::Running
    } else {
        match calls.last() {
            SessionCall::Exit { outcome } => SessionStatus::Exited(reported_code(outcome) as i32),
            _ => last_status(calls.drop_last()),
        }
    }
}

/// Whatever happens to a session, it is listed with the id and the command that it was spawned
/// with, with the size that was accepted last, and as running until its program ends.
pub proof fn metadata_over_calls(
    id: Seq<char>,
    command: Seq<char>,
    cols: u16,
    rows: u16,
    now: u64,
    calls: Seq<SessionCall>,
)
    ensures
        after_calls(fresh_session(id, command, cols, rows, now), calls).metadata() == (MetadataView {
            id,
            command,
            status: last_status(calls),
            cols: last_size(cols, rows, calls).0,
            rows: last_size(cols, rows, calls).1,
        }),
    decreases calls.len(),
{
    if calls.len() > 0 {
        metadata_over_calls(id, command, cols, rows, now, calls.drop_last());
    }
}

/// A session whose program exited stays so, whatever is read from it and however it is resized.
pub proof fn exit_is_final(session: SessionView, event: ReadEvent, now: u64, cols: u16, rows: u16)
    requires
        session.status is Exited,
    ensures
        session_after(session, event, now).status == session.status,
        session.resized(cols, rows).status == session.status,
{
}

/// Output ends the silence of a session, which then grows with the time.
pub proof fn output_ends_silence(session: SessionView, bytes: Seq<u8>, now: u64, later: u64)
    requires
        now <= later,
    ensures
        session.fed(bytes, now).idle_at(now) == 0,
        session.fed(bytes, now).idle_at(later) == later - now,
{
}

/// A session reports the size that it was last given.
pub proof fn resize_is_reported(session: SessionView, cols: u16, rows: u16)
    ensures
        session.resized(cols, rows).metadata() == (MetadataView { cols, rows, ..session.metadata() }),
        log_size(session.resized(cols, rows).log) == (rows, cols),
{
}

/// The screen of a session has the size that the session reports, and keeps as many rows as it
/// should.
pub proof fn screen_has_the_reported_size(session: PtySession)
    requires
        session.wf(),
    ensures
        session@.log.len() > 0,
        log_size(session@.log) == (session@.rows, session@.cols),
        usable_size(session@.rows, session@.cols),
        log_limit(session@.log) == SCROLLBACK_ROWS,
{
    sound_display(session.state.display);
}

/// All that the program in a session writes is fed to its terminal, each byte once and in order.
pub proof fn output_is_fed_in_full(session: PtySession, bytes: Seq<u8>, now: u64)
    requires
        session.wf(),
    ensures
        fed_bytes(session@.fed(bytes, now).log) == fed_bytes(session@.log) + bytes,
{
    sound_display(session.state.display);
    every_byte_is_fed(session@.log, bytes);
}

/// Where the screen of a session was put back last, the session reads as it did at the time that it
/// was put back to.
pub proof fn put_back_is_unseen(session: PtySession, to: Seq<TermOp>)
    requires
        session.wf(),
        session@.log.last() == (TermOp::PutBack { to }),
    ensures
        session@.screen() == screen_contents(to, 0),
        session@.cursor() == cursor_cell(to),
        session@.history() == scrolled_rows(to),
{
    sound_display(session.state.display);
}

/// A session that was just opened runs the command that was asked for, in a blank terminal of the
/// size that was asked for, to which nothing was done but to open it.
pub proof fn fresh_session_is_as_asked(
    id: Seq<char>,
    command: Seq<char>,
    cols: u16,
    rows: u16,
    now: u64,
)
    ensures
        fresh_session(id, command, cols, rows, now).id == id,
        fresh_session(id, command, cols, rows, now).command == command,
        fresh_session(id, command, cols, rows, now).status == SessionStatus::Running,
        fresh_session(id, command, cols, rows, now).cols == cols,
        fresh_session(id, command, cols, rows, now).rows == rows,
        fresh_session(id, command, cols, rows, now).log == seq![
            TermOp::Open { rows, cols, limit: 5000 },
        ],
{
}

/// A session from which nothing was read since it was opened has been silent since then, whatever
/// else happened to it.
pub proof fn silent_since_opened(
    id: Seq<char>,
    command: Seq<char>,
    cols: u16,
    rows: u16,
    now: u64,
    calls: Seq<SessionCall>,
    later: u64,
)
    requires
        now <= later,
        forall|i: int| 0 <= i < calls.len() ==> chunk_of(#[trigger] calls[i]).len() == 0,
    ensures
        after_calls(fresh_session(id, command, cols, rows, now), calls).idle_at(later) == later - now,
    decreases calls.len(),
{
    if calls.len() > 0 {
        assert(chunk_of(calls[calls.len() - 1]).len() == 0);
        assert forall|i: int| 0 <= i < calls.drop_last().len() implies chunk_of(
            #[trigger] calls.drop_last()[i],
        ).len() == 0 by {
            assert(calls.drop_last()[i] == calls[i]);
        }
        silent_since_opened(id, command, cols, rows, now, calls.drop_last(), later);
    }
}

/// The output that a call reads from the program.
pub open spec fn chunk_of(call: SessionCall) -> Seq<u8> {
    match call {
        SessionCall::Read { event: ReadEvent::Bytes(bytes), .. } => bytes@,
        _ => Seq::empty(),
    }
}

/// All output that a run of calls reads from the program.
pub open spec fn chunks_of(calls: Seq<SessionCall>) -> Seq<u8>
    decreases calls.len(),
{
    if calls.len() == 0 {
        Seq::empty()
    } else {
        chunks_of(calls.drop_last()) + chunk_of(calls.last())
    }
}

/// A chunk that is read is fed to the terminal in full after all that was fed before, the silence
/// begins anew, and nothing else about the session changes.
pub proof fn a_chunk_is_fed_in_full(session: SessionView, bytes: Vec<u8>, now: u64)
    requires
        session.log.len() > 0,
        bytes@.len() > 0,
    ensures
        fed_bytes(session_after(session, ReadEvent::Bytes(bytes), now).log) == fed_bytes(session.log)
            + bytes@,
        session.log.is_prefix_of(session_after(session, ReadEvent::Bytes(bytes), now).log),
        session_after(session, ReadEvent::Bytes(bytes), now).last_output == now,
        session_after(session, ReadEvent::Bytes(bytes), now).id == session.id,
        session_after(session, ReadEvent::Bytes(bytes), now).command == session.command,
        session_after(session, ReadEvent::Bytes(bytes), now).status == session.status,
        session_after(session, ReadEvent::Bytes(bytes), now).cols == session.cols,
        session_after(session, ReadEvent::Bytes(bytes), now).rows == session.rows,
        (forall|i: int| 0 <= i < bytes@.len() ==> #[trigger] bytes@[i] != 0x8f) ==> session_after(
            session,
            ReadEvent::Bytes(bytes),
            now,
        ).log == session.log.push(TermOp::Feed { bytes: bytes@ }),
{
    every_byte_is_fed(session.log, bytes@);
    if forall|i: int| 0 <= i < bytes@.len() ==> #[trigger] bytes@[i] != 0x8f {
        ordinary_output_is_fed_whole(session.log, bytes@);
    }
}

/// Where nothing is read, the reader changes nothing about the session.
pub proof fn without_output_nothing_changes(session: SessionView, bytes: Vec<u8>, now: u64)
    requires
        bytes@.len() == 0,
    ensures
        session_after(session, ReadEvent::Bytes(bytes), now) == session,
        session_after(session, ReadEvent::Interrupted, now) == session,
        session_after(session, ReadEvent::Failed, now) == session,
{
}

/// The reader goes on after output and after a signal, and stops at the end of the output and where
/// it cannot read.
pub proof fn the_reader_stops_at_the_end(bytes: Vec<u8>)
    ensures
        action_after(ReadEvent::Bytes(bytes)) == ReaderAction::Stop <==> bytes@.len() == 0,
        action_after(ReadEvent::Bytes(bytes)) == ReaderAction::Continue <==> bytes@.len() > 0,
        action_after(ReadEvent::Interrupted) == ReaderAction::Continue,
        action_after(ReadEvent::Failed) == ReaderAction::Stop,
{
}

/// Over any run of calls the terminal is fed all chunks that were read, in order, and nothing else.
pub proof fn all_chunks_are_fed(session: SessionView, calls: Seq<SessionCall>)
    requires
        session.log.len() > 0,
    ensures
        after_calls(session, calls).log.len() > 0,
        fed_bytes(after_calls(session, calls).log) == fed_bytes(session.log) + chunks_of(calls),
    decreases calls.len(),
{
    if calls.len() == 0 {
        assert(fed_bytes(session.log) + Seq::<u8>::empty() =~= fed_bytes(session.log));
    } else {
        let past = calls.drop_last();
        all_chunks_are_fed(session, past);
        let before = after_calls(session, past);
        match calls.last() {
            SessionCall::Read { event: ReadEvent::Bytes(bytes), now } => {
                if bytes@.len() > 0 {
                    a_chunk_is_fed_in_full(before, bytes, now);
                }
            },
            SessionCall::Resize { cols, rows, .. } => {
                assert(before.log.push(TermOp::Resize { rows, cols }).drop_last() =~= before.log);
            },
            _ => {},
        }
        assert(fed_bytes(session.log) + chunks_of(past) + chunk_of(calls.last()) =~= fed_bytes(
            session.log,
        ) + chunks_of(calls));
    }
}

/// A resize does one thing to the terminal: it is given the size that was asked for. The session
/// takes over that size, and nothing else about it changes.
pub proof fn a_resize_does_one_thing(session: SessionView, cols: u16, rows: u16)
    ensures
        session.resized(cols, rows).log == session.log.push(TermOp::Resize { rows, cols }),
        session.resized(cols, rows).cols == cols,
        session.resized(cols, rows).rows == rows,
        session.resized(cols, rows).id == session.id,
        session.resized(cols, rows).command == session.command,
        session.resized(cols, rows).status == session.status,
        session.resized(cols, rows).last_output == session.last_output,
{
}

/// A program that failed is reported with its code where that is an `i32`, so its code is reported
/// as zero only where it is; success is reported as zero, and a program that could not be waited for
/// as minus one.
pub proof fn exit_codes_are_kept(code: u32)
    ensures
        reported_code(WaitOutcome::Ended { success: true, code }) == 0,
        code <= i32::MAX ==> reported_code(WaitOutcome::Ended { success: false, code }) == code,
        code > i32::MAX ==> reported_code(WaitOutcome::Ended { success: false, code }) == code
            - 0x1_0000_0000,
        reported_code(WaitOutcome::Ended { success: false, code }) == 0 <==> code == 0,
        reported_code(WaitOutcome::Failed) == -1,
{
}

/// An exit is kept as the status, and nothing else about the session changes.
pub proof fn an_exit_is_kept(session: SessionView, outcome: WaitOutcome)
    ensures
        session.exited(outcome).status == SessionStatus::Exited(reported_code(outcome) as i32),
        session.exited(outcome).id == session.id,
        session.exited(outcome).command == session.command,
        session.exited(outcome).cols == session.cols,
        session.exited(outcome).rows == session.rows,
        session.exited(outcome).log == session.log,
        session.exited(outcome).last_output == session.last_output,
{
}

/// What is read from a session is what its terminal shows.
pub proof fn a_session_reads_as_its_terminal(session: SessionView)
    ensures
        session.screen() == screen_contents(session.log, 0),
        session.cursor() == cursor_cell(session.log),
        session.history() == scrolled_rows(session.log),
{
}

/// What is listed about a session is its own id, command, status and size.
pub proof fn a_session_is_listed_as_it_is(session: SessionView)
    ensures
        session.metadata().id == session.id,
        session.metadata().command == session.command,
        session.metadata().status == session.status,
        session.metadata().cols == session.cols,
        session.metadata().rows == session.rows,
{
}

/// What is listed is what the listed fields hold.
pub proof fn an_entry_holds_its_fields(entry: SessionMetadata)
    ensures
        entry@.id == entry.id@,
        entry@.command == entry.command@,
        entry@.status == entry.status,
        entry@.cols == entry.cols,
        entry@.rows == entry.rows,
{
}

/// The silence of a session is the time since its last output, and none before that.
pub proof fn silence_is_measured(session: SessionView, now: u64)
    ensures
        now >= session.last_output ==> session.idle_at(now) == now - session.last_output,
        now <= session.last_output ==> session.idle_at(now) == 0,
{
}

/// What is said of each error to a user.
pub proof fn errors_are_told(text: String, max: usize)
    ensures
        error_text(PtyError::NotFound(text)) == "session not found: "@ + text@,
        error_text(PtyError::MaxSessions(max)) == "max sessions reached: "@ + decimal(max as nat),
        error_text(PtyError::Exited) == "session already exited"@,
        error_text(PtyError::Spawn(text)) == "pty spawn error: "@ + text@,
        error_text(PtyError::Io(text)) == "io error: "@ + text@,
{
}

} // verus!
