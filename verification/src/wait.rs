//! Waiting for a session: for text on its screen, or for silence.
//!
//! The caller reads the clock, sleeps, and asks again; what to do next is decided here.

use vstd::prelude::*;
use vstd::string::StringExecFns;

use crate::manager::SessionManager;
use crate::session::PtyError;
use crate::terminal::screen_contents;

verus! {

/// How long a wait for text may take where nothing is said, in milliseconds.
pub const DEFAULT_TIMEOUT_MS: u64 = 30_000;

/// How long a wait for text sleeps between two looks at the screen, in milliseconds.
pub const SCREEN_POLL_MS: u64 = 50;

/// How long a wait for silence sleeps between two looks at the clock, in milliseconds.
pub const IDLE_POLL_MS: u64 = 100;

/// What the `regex` crate says against a pattern, if it does not take it. The size up to which it
/// compiles patterns is counted in bytes of a program whose layout follows the word size.
pub uninterp spec fn regex_refusal(pattern: Seq<char>, word_bits: u32) -> Option<Seq<char>>;

/// Whether a pattern that the `regex` crate takes matches somewhere in a text.
pub uninterp spec fn regex_matches(pattern: Seq<char>, text: Seq<char>) -> bool;

/// `regex::Regex::new`. Tells what is said against the pattern, and nothing where it compiles.
#[verifier::external_body]
fn refusal(pattern: &str) -> (reason: Option<String>)
    ensures
        match reason {
            Some(text) => regex_refusal(pattern@, usize::BITS) == Some(text@),
            None => regex_refusal(pattern@, usize::BITS) is None,
        },
{
    match regex::Regex::new(pattern) {
        Ok(_) => None,
        Err(error) => Some(error.to_string()),
    }
}

/// `regex::Regex::is_match`, for a pattern that compiles.
#[verifier::external_body]
fn is_match(pattern: &str, text: &str) -> (found: bool)
    requires
        regex_refusal(pattern@, usize::BITS) is None,
    ensures
        found == regex_matches(pattern@, text@),
{
    regex::Regex::new(pattern).unwrap().is_match(text)
}

/// What a wait does next.
#[derive(Debug, Clone, Copy, PartialEq, Eq, Structural)]
pub enum WaitStep {
    /// What was waited for has come.
    Done,
    /// The time is up.
    TimedOut,
    /// It sleeps and looks again.
    Sleep { millis: u64 },
}

/// What a wait does next: it ends as soon as what it waits for has come, then when its time is up,
/// and else it sleeps.
pub open spec fn step_after(done: bool, elapsed: u128, timeout: u128, poll_ms: u64) -> WaitStep {
    if done {
        WaitStep::Done
    } else if elapsed >= timeout {
        WaitStep::TimedOut
    } else {
        WaitStep::Sleep { millis: poll_ms }
    }
}

fn decide(done: bool, elapsed: u128, timeout: u128, poll_ms: u64) -> (step: WaitStep)
    ensures
        step == step_after(done, elapsed, timeout, poll_ms),
        step == if done {
            WaitStep::Done
        } else if elapsed >= timeout {
            WaitStep::TimedOut
        } else {
            WaitStep::Sleep { millis: poll_ms }
        },
{
    if done {
        WaitStep::Done
    } else if elapsed >= timeout {
        WaitStep::TimedOut
    } else {
        WaitStep::Sleep { millis: poll_ms }
    }
}

/// The time that is reported for a wait: whole milliseconds, as a `u64`.
pub open spec fn reported_ms(elapsed_nanos: u128) -> int {
    (elapsed_nanos as int / 1_000_000) % 0x1_0000_0000_0000_0000
}

/// Computes the time that is reported for a wait of so many nanoseconds.
pub fn elapsed_ms(elapsed_nanos: u128) -> (millis: u64)
    ensures
        millis == reported_ms(elapsed_nanos),
        elapsed_nanos < 0x1_0000_0000_0000_0000 * 1_000_000 ==> millis * 1_000_000 <= elapsed_nanos < (millis + 1)
            * 1_000_000,
{
    let millis: u128 = elapsed_nanos / 1_000_000;
    (millis % 0x1_0000_0000_0000_0000) as u64
}

/// What is said of a pattern that was refused for this reason.
pub open spec fn refusal_text(reason: Seq<char>) -> Seq<char> {
    "invalid regex: "@ + reason
}

/// Writes what is said of a pattern that was refused for this reason.
pub fn refusal_message(reason: &str) -> (text: String)
    ensures
        text@ == refusal_text(reason@),
        text@ == "invalid regex: "@ + reason@,
{
    "invalid regex: ".to_owned().concat(reason)
}

/// For how many nanoseconds a wait for text may take.
pub open spec fn timeout_of(timeout_ms: Option<u64>) -> int {
    match timeout_ms {
        Some(ms) => ms * 1_000_000,
        None => DEFAULT_TIMEOUT_MS * 1_000_000,
    }
}

/// Computes for how many nanoseconds a wait for text may take.
pub fn timeout_nanos(timeout_ms: Option<u64>) -> (nanos: u128)
    ensures
        nanos == timeout_of(timeout_ms),
        timeout_ms matches Some(ms) ==> nanos == ms * 1_000_000,
        timeout_ms is None ==> nanos == 30_000_000_000,
{
    match timeout_ms {
        Some(ms) => ms as u128 * 1_000_000,
        None => DEFAULT_TIMEOUT_MS as u128 * 1_000_000,
    }
}

/// A wait for text that matches a pattern.
pub struct WaitFor {
    pattern: String,
    timeout: u128,
}

impl WaitFor {
    /// The pattern compiles.
    #[verifier::type_invariant]
    spec fn compiles(&self) -> bool {
        regex_refusal(self.pattern@, usize::BITS) is None
    }

    /// The pattern that is waited for.
    pub closed spec fn pattern(&self) -> Seq<char> {
        self.pattern@
    }

    /// For how many nanoseconds it is waited at most.
    pub closed spec fn timeout(&self) -> u128 {
        self.timeout
    }

    /// Prepares a wait, unless the pattern is refused.
    pub fn new(pattern: &str, timeout_ms: Option<u64>) -> (result: Result<WaitFor, String>)
        ensures
            match regex_refusal(pattern@, usize::BITS) {
                Some(reason) => {
                    &&& result matches Err(text)
                    &&& text@ == refusal_text(reason)
                    &&& text@ == "invalid regex: "@ + reason
                },
                None => {
                    &&& result matches Ok(wait)
                    &&& wait.pattern() == pattern@
                    &&& wait.timeout() == timeout_of(timeout_ms)
                    &&& timeout_ms matches Some(ms) ==> wait.timeout() == ms * 1_000_000
                    &&& timeout_ms is None ==> wait.timeout() == 30_000_000_000
                },
            },
    {
        match refusal(pattern) {
            Some(reason) => Err(refusal_message(reason.as_str())),
            None => Ok(
                WaitFor { pattern: pattern.to_owned(), timeout: timeout_nanos(timeout_ms) },
            ),
        }
    }

    /// Looks whether the pattern matches on the screen of a session.
    pub fn look(&self, manager: &SessionManager, session_id: &str) -> (result: Result<
        bool,
        PtyError,
    >)
        requires
            manager.wf(),
        ensures
            match result {
                Ok(found) => {
                    &&& manager@.contains_key(session_id@)
                    &&& found == regex_matches(self.pattern(), manager@[session_id@].screen())
                    &&& found == regex_matches(
                        self.pattern(),
                        screen_contents(manager@[session_id@].log, 0),
                    )
                },
                Err(error) => {
                    &&& !manager@.contains_key(session_id@)
                    &&& error matches PtyError::NotFound(id) && id@ == session_id@
                },
            },
    {
        proof {
            use_type_invariant(self);
        }
        match manager.get(session_id) {
            Ok(session) => {
                let screen = session.snapshot_screen();
                Ok(is_match(self.pattern.as_str(), screen.as_str()))
            },
            Err(error) => Err(error),
        }
    }

    /// Decides what to do after a look that found the text or not, so many nanoseconds after the
    /// wait began.
    pub fn decide(&self, found: bool, elapsed_nanos: u128) -> (step: WaitStep)
        ensures
            step == step_after(found, elapsed_nanos, self.timeout(), SCREEN_POLL_MS),
            step == if found {
                WaitStep::Done
            } else if elapsed_nanos >= self.timeout() {
                WaitStep::TimedOut
            } else {
                WaitStep::Sleep { millis: 50 }
            },
    {
        decide(found, elapsed_nanos, self.timeout, SCREEN_POLL_MS)
    }
}

/// A wait for silence.
pub struct WaitForIdle {
    timeout: u128,
}

impl WaitForIdle {
    /// For how many nanoseconds it is waited at most.
    pub closed spec fn timeout(&self) -> u128 {
        self.timeout
    }

    /// Prepares a wait of at most so many nanoseconds.
    pub fn new(timeout_nanos: u128) -> (wait: WaitForIdle)
        ensures
            wait.timeout() == timeout_nanos,
    {
        WaitForIdle { timeout: timeout_nanos }
    }

    /// Tells for how many nanoseconds a session has been silent at the time `now`.
    pub fn look(&self, manager: &SessionManager, session_id: &str, now: u64) -> (result: Result<
        u64,
        PtyError,
    >)
        requires
            manager.wf(),
        ensures
            match result {
                Ok(idle) => {
                    &&& manager@.contains_key(session_id@)
                    &&& idle == manager@[session_id@].idle_at(now)
                    &&& now >= manager@[session_id@].last_output ==> idle == now
                        - manager@[session_id@].last_output
                    &&& now < manager@[session_id@].last_output ==> idle == 0
                },
                Err(error) => {
                    &&& !manager@.contains_key(session_id@)
                    &&& error matches PtyError::NotFound(id) && id@ == session_id@
                },
            },
    {
        match manager.get(session_id) {
            Ok(session) => Ok(session.idle_nanos(now)),
            Err(error) => Err(error),
        }
    }

    /// Decides what to do where the session has been silent for long enough or not, so many
    /// nanoseconds after the wait began.
    pub fn decide(&self, silent: bool, elapsed_nanos: u128) -> (step: WaitStep)
        ensures
            step == step_after(silent, elapsed_nanos, self.timeout(), IDLE_POLL_MS),
            step == if silent {
                WaitStep::Done
            } else if elapsed_nanos >= self.timeout() {
                WaitStep::TimedOut
            } else {
                WaitStep::Sleep { millis: 100 }
            },
    {
        decide(silent, elapsed_nanos, self.timeout, IDLE_POLL_MS)
    }
}

/// A wait whose time is up does not go on, and one that has found what it waits for says so even
/// then.
pub proof fn wait_ends(done: bool, elapsed: u128, timeout: u128, poll_ms: u64)
    ensures
        elapsed >= timeout ==> !(step_after(done, elapsed, timeout, poll_ms) is Sleep),
        done <==> step_after(done, elapsed, timeout, poll_ms) is Done,
        step_after(done, elapsed, timeout, poll_ms) is TimedOut ==> elapsed >= timeout,
{
}

/// A wait sleeps just where it has not found what it waits for and its time is not up, and then for
/// as long as it was told to.
pub proof fn a_wait_sleeps_until_it_ends(done: bool, elapsed: u128, timeout: u128, poll_ms: u64)
    ensures
        done ==> step_after(done, elapsed, timeout, poll_ms) == WaitStep::Done,
        !done && elapsed >= timeout ==> step_after(done, elapsed, timeout, poll_ms)
            == WaitStep::TimedOut,
        !done && elapsed < timeout ==> step_after(done, elapsed, timeout, poll_ms) == (
            WaitStep::Sleep { millis: poll_ms }),
{
}

/// The time that is reported is the number of whole milliseconds, as long as that is a `u64`.
pub proof fn whole_milliseconds_are_reported(elapsed_nanos: u128)
    ensures
        elapsed_nanos < 0x1_0000_0000_0000_0000 * 1_000_000 ==> reported_ms(elapsed_nanos) * 1_000_000
            <= elapsed_nanos < (reported_ms(elapsed_nanos) + 1) * 1_000_000,
{
}

/// A wait for text may take as many milliseconds as were asked for, or thirty seconds.
pub proof fn timeouts_are_in_milliseconds(ms: u64)
    ensures
        timeout_of(Some(ms)) == ms * 1_000_000,
        timeout_of(None) == 30_000_000_000,
{
}

/// A refused pattern is told with the reason.
pub proof fn refusals_are_told(reason: Seq<char>)
    ensures
        refusal_text(reason) == "invalid regex: "@ + reason,
{
}

} // verus!
