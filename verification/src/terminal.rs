//! The terminal behind a session: what it was fed, and what can be read back from it.
//!
//! The `vt100` crate interprets the output of the program that runs in a session. A terminal is
//! described here by the log of what was done to it; the crate's readings of it are named as
//! functions of that log.

use vstd::prelude::*;

verus! {

/// Something that was done to a terminal.
pub enum TermOp {
    /// It was opened with this size, to keep at most `limit` rows that scrolled off the top.
    Open { rows: u16, cols: u16, limit: nat },
    /// It interpreted these bytes, all of them in one call.
    Feed { bytes: Seq<u8> },
    /// It was given this size.
    Resize { rows: u16, cols: u16 },
    /// Its screen was put back to that of a terminal with the log `to`.
    PutBack { to: Seq<TermOp> },
}

/// The sizes that a terminal can be given: there is a cell for the cursor, and the tab stop after
/// the last column is a `u16` too.
pub open spec fn usable_size(rows: u16, cols: u16) -> bool {
    1 <= rows && 1 <= cols <= 65527
}

/// Tells whether a terminal can be given this size.
pub fn is_usable_size(rows: u16, cols: u16) -> (usable: bool)
    ensures
        usable == usable_size(rows, cols),
        usable <==> 1 <= rows && 1 <= cols && cols <= 65527,
{
    1 <= rows && 1 <= cols && cols <= 65527
}

/// The size, as rows and columns, that a terminal with this log has.
pub open spec fn log_size(log: Seq<TermOp>) -> (u16, u16)
    decreases log,
{
    if log.len() == 0 {
        (0, 0)
    } else {
        match log.last() {
            TermOp::Open { rows, cols, .. } => (rows, cols),
            TermOp::Feed { .. } => log_size(log.drop_last()),
            TermOp::Resize { rows, cols } => (rows, cols),
            TermOp::PutBack { to } => log_size(to),
        }
    }
}

/// How many rows that scrolled off the top a terminal with this log keeps at most.
pub open spec fn log_limit(log: Seq<TermOp>) -> nat
    decreases log,
{
    if log.len() == 0 {
        0
    } else {
        match log.last() {
            TermOp::Open { limit, .. } => limit,
            TermOp::PutBack { to } => log_limit(to),
            _ => log_limit(log.drop_last()),
        }
    }
}

/// All bytes that a terminal with this log was fed.
pub open spec fn fed_bytes(log: Seq<TermOp>) -> Seq<u8>
    decreases log.len(),
{
    if log.len() == 0 {
        Seq::empty()
    } else {
        match log.last() {
            TermOp::Feed { bytes } => fed_bytes(log.drop_last()) + bytes,
            _ => fed_bytes(log.drop_last()),
        }
    }
}

/// Whether the emoji variation selector, U+FE0F, stands in `s` at `i`. It asks for the character
/// before it to be shown as an emoji, which makes some characters wide.
pub open spec fn selector_at(s: Seq<u8>, i: int) -> bool {
    0 <= i && i + 3 <= s.len() && s[i] == 0xef && s[i + 1] == 0xb8 && s[i + 2] == 0x8f
}

/// Whether `bytes`, coming after those that were fed before, completes a selector.
pub open spec fn completes_selector(fed: Seq<u8>, bytes: Seq<u8>) -> bool {
    exists|i: int| #[trigger] selector_at(fed + bytes, i) && i + 3 > fed.len()
}

/// Whether the cursor is on a cell of the grid, and not past the last column of its row.
pub open spec fn cursor_on_grid(log: Seq<TermOp>) -> bool {
    cursor_cell(log).1 < log_size(log).1
}

/// Whether half of a wide character stands in the last column of some row, without the other half.
pub open spec fn has_half(log: Seq<TermOp>) -> bool {
    exists|row: u16| row < log_size(log).0 && #[trigger] half_at(log, row)
}

/// Whether half of a wide character stands in the last column of this row.
pub open spec fn half_at(log: Seq<TermOp>, row: u16) -> bool {
    wide_cell(log, row, (log_size(log).1 - 1) as u16)
}

/// The log of a copy of a terminal that was given two columns and fed a selector there.
pub open spec fn selector_tried(log: Seq<TermOp>) -> Seq<TermOp> {
    seq![
        TermOp::Open { rows: log_size(log).0, cols: 2, limit: 0 },
        TermOp::PutBack { to: log },
        TermOp::Resize { rows: log_size(log).0, cols: 2 },
        TermOp::Feed { bytes: seq![0xefu8, 0xb8] },
        TermOp::Feed { bytes: seq![0x8fu8] },
    ]
}

/// Whether a selector makes the character at the cursor wide, in the only column of a terminal,
/// where there was room for it.
pub open spec fn widens(log: Seq<TermOp>) -> bool {
    wide_cell(selector_tried(log), cursor_cell(log).0, 0)
}

/// The bytes that a terminal can be fed in one call: those that complete no selector, or the last
/// byte of a selector alone.
///
/// The `vt100` crate fails on a selector in two places. Where a character in the last column
/// becomes wide and the row wraps by scrolling, it leaves half of that character behind, and fails
/// when the half is overwritten; so nothing can be fed before the half is gone. Where a character
/// becomes wide in the only column, it fails at once.
pub open spec fn can_be_fed(log: Seq<TermOp>, bytes: Seq<u8>) -> bool {
    &&& !has_half(log)
    &&& completes_selector(fed_bytes(log), bytes) ==> {
        &&& bytes.len() == 1
        &&& cursor_on_grid(log) || log_size(log).1 >= 2 || !widens(log)
    }
}

/// Where the last that was done to a terminal was to put its screen back, it reads as it did then.
pub open spec fn reads_as_put_back(log: Seq<TermOp>) -> bool {
    log.last() matches TermOp::PutBack { to } ==> {
        &&& screen_contents(log, 0) == screen_contents(to, 0)
        &&& cursor_cell(log) == cursor_cell(to)
        &&& scrolled_rows(log) == scrolled_rows(to)
        &&& drawn_rows(log) == drawn_rows(to)
    }
}

/// A terminal, interpreted by `vt100::Parser`.
#[verifier::external_body]
pub struct Terminal {
    parser: vt100::Parser,
}

/// The screen of a terminal, by itself.
#[verifier::external_type_specification]
#[verifier::external_body]
pub struct ExScreen(vt100::Screen);

/// What was done to the terminal since it was opened, in order. Looking back through the rows
/// that scrolled off is not part of it: the crate keeps that position apart from what it holds.
pub uninterp spec fn terminal_log(terminal: Terminal) -> Seq<TermOp>;

/// How many rows the terminal is scrolled back by.
pub uninterp spec fn scroll_offset(terminal: Terminal) -> nat;

/// The text of the rows that scrolled off the top of the screen in use, oldest first, as far as
/// the terminal still keeps them.
pub uninterp spec fn scrolled_rows(log: Seq<TermOp>) -> Seq<Seq<char>>;

/// The text of the rows on the screen in use, from the top.
pub uninterp spec fn drawn_rows(log: Seq<TermOp>) -> Seq<Seq<char>>;

/// The plain text of the screen in use, scrolled back by `offset` rows.
pub uninterp spec fn screen_contents(log: Seq<TermOp>, offset: nat) -> Seq<char>;

/// The row and the column of the cursor.
pub uninterp spec fn cursor_cell(log: Seq<TermOp>) -> (u16, u16);

/// Whether a wide character stands in this row and column of the screen in use.
pub uninterp spec fn wide_cell(log: Seq<TermOp>, row: u16, col: u16) -> bool;

/// The log of the terminal that a screen was taken from.
pub uninterp spec fn screen_log(screen: vt100::Screen) -> Seq<TermOp>;

/// The rows in view on a screen of `height` rows that is scrolled back by `offset` rows: the first
/// of them is `offset` rows above the top of the screen.
pub open spec fn rows_in_view(
    scrolled: Seq<Seq<char>>,
    drawn: Seq<Seq<char>>,
    height: u16,
    offset: nat,
) -> Seq<Seq<char>> {
    (scrolled.skip(scrolled.len() - offset) + drawn).take(height as int)
}

/// The texts that a list of strings holds.
pub open spec fn texts(strings: Seq<String>) -> Seq<Seq<char>> {
    strings.map_values(|s: String| s@)
}

impl Terminal {
    /// `vt100::Parser::new`. The new terminal is blank, with the cursor in its top left corner,
    /// and nothing has scrolled off it. Sizes that are not usable make the crate fail, at once or
    /// later.
    #[verifier::external_body]
    pub(crate) fn open(rows: u16, cols: u16, limit: usize) -> (terminal: Terminal)
        requires
            usable_size(rows, cols),
        ensures
            terminal_log(terminal) == seq![TermOp::Open { rows, cols, limit: limit as nat }],
            scroll_offset(terminal) == 0,
            scrolled_rows(terminal_log(terminal)).len() == 0,
            screen_contents(terminal_log(terminal), 0).len() == 0,
            cursor_cell(terminal_log(terminal)) == (0u16, 0u16),
            forall|row: u16, col: u16| !#[trigger] wide_cell(terminal_log(terminal), row, col),
    {
        Terminal { parser: vt100::Parser::new(rows, cols, limit) }
    }

    /// `vt100::Parser::process`, on a terminal that is not scrolled back. The bytes are added to
    /// the log, and the terminal is still not scrolled back. What they do to the screen is what the
    /// readings of the new log name; but no half of a wide character is left in the last column,
    /// unless they complete a selector past the last of several columns.
    #[verifier::external_body]
    pub(crate) fn feed(&mut self, bytes: &[u8])
        requires
            usable_size(log_size(terminal_log(*old(self))).0, log_size(terminal_log(*old(self))).1),
            scroll_offset(*old(self)) == 0,
            can_be_fed(terminal_log(*old(self)), bytes@),
        ensures
            terminal_log(*final(self)) == terminal_log(*old(self)).push(
                TermOp::Feed { bytes: bytes@ },
            ),
            scroll_offset(*final(self)) == 0,
            !completes_selector(fed_bytes(terminal_log(*old(self))), bytes@) || cursor_on_grid(
                terminal_log(*old(self)),
            ) || log_size(terminal_log(*old(self))).1 < 2 ==> !has_half(terminal_log(*final(self))),
    {
        self.parser.process(bytes);
    }

    /// `vt100::Screen::set_size`, on a terminal that is not scrolled back. The new size is added to
    /// the log, and the terminal is still not scrolled back. A wide character that the new last
    /// column would cut in half is cleared.
    #[verifier::external_body]
    pub(crate) fn set_size(&mut self, rows: u16, cols: u16)
        requires
            usable_size(log_size(terminal_log(*old(self))).0, log_size(terminal_log(*old(self))).1),
            usable_size(rows, cols),
            scroll_offset(*old(self)) == 0,
            !has_half(terminal_log(*old(self))),
        ensures
            terminal_log(*final(self)) == terminal_log(*old(self)).push(
                TermOp::Resize { rows, cols },
            ),
            scroll_offset(*final(self)) == 0,
            !has_half(terminal_log(*final(self))),
    {
        self.parser.screen_mut().set_size(rows, cols);
    }

    /// `vt100::Screen::clone`, of a terminal that is not scrolled back: takes its screen, to be put
    /// back later or into another terminal.
    #[verifier::external_body]
    pub(crate) fn screen(&self) -> (screen: vt100::Screen)
        requires
            scroll_offset(*self) == 0,
        ensures
            screen_log(screen) == terminal_log(*self),
    {
        self.parser.screen().clone()
    }

    /// `vt100::Parser::screen_mut`: puts a screen that was taken before in the place of the present
    /// one. That is added to the log, and all readings are what they were when the screen was taken.
    #[verifier::external_body]
    pub(crate) fn put_back(&mut self, screen: vt100::Screen)
        ensures
            terminal_log(*final(self)) == terminal_log(*old(self)).push(
                TermOp::PutBack { to: screen_log(screen) },
            ),
            scroll_offset(*final(self)) == 0,
            scrolled_rows(terminal_log(*final(self))) == scrolled_rows(screen_log(screen)),
            drawn_rows(terminal_log(*final(self))) == drawn_rows(screen_log(screen)),
            screen_contents(terminal_log(*final(self)), 0) == screen_contents(
                screen_log(screen),
                0,
            ),
            cursor_cell(terminal_log(*final(self))) == cursor_cell(screen_log(screen)),
            forall|row: u16, col: u16| #[trigger]
                wide_cell(terminal_log(*final(self)), row, col) == wide_cell(
                    screen_log(screen),
                    row,
                    col,
                ),
    {
        *self.parser.screen_mut() = screen;
    }

    /// `vt100::Screen::cell` with `vt100::Cell::is_wide`, on a terminal that is not scrolled back.
    /// Whether a wide character stands in a cell of the screen.
    #[verifier::external_body]
    pub(crate) fn is_wide(&self, row: u16, col: u16) -> (wide: bool)
        requires
            scroll_offset(*self) == 0,
            row < log_size(terminal_log(*self)).0,
            col < log_size(terminal_log(*self)).1,
        ensures
            wide == wide_cell(terminal_log(*self), row, col),
    {
        self.parser.screen().cell(row, col).unwrap().is_wide()
    }

    /// `vt100::Screen::set_scrollback`. The terminal is scrolled back by `rows` rows, or by as
    /// many as it keeps where that is fewer. Nothing else about it changes.
    #[verifier::external_body]
    pub(crate) fn set_scrollback(&mut self, rows: usize)
        ensures
            terminal_log(*final(self)) == terminal_log(*old(self)),
            scroll_offset(*final(self)) == if rows <= scrolled_rows(terminal_log(*old(self))).len() {
                rows as nat
            } else {
                scrolled_rows(terminal_log(*old(self))).len()
            },
    {
        self.parser.screen_mut().set_scrollback(rows);
    }

    /// `vt100::Screen::scrollback`. How many rows the terminal is scrolled back by, which is
    /// never more than the number of rows that it was opened to keep.
    #[verifier::external_body]
    pub(crate) fn scrollback(&self) -> (rows: usize)
        ensures
            rows == scroll_offset(*self),
            rows <= log_limit(terminal_log(*self)),
    {
        self.parser.screen().scrollback()
    }

    /// `vt100::Screen::contents`. The plain text of the rows in view.
    #[verifier::external_body]
    pub(crate) fn contents(&self) -> (text: String)
        ensures
            text@ == screen_contents(terminal_log(*self), scroll_offset(*self)),
    {
        self.parser.screen().contents()
    }

    /// `vt100::Screen::rows`, over the whole width. The text of each row in view, without a
    /// newline, one for each row of the screen.
    #[verifier::external_body]
    pub(crate) fn rows(&self, cols: u16) -> (rows: Vec<String>)
        requires
            cols == log_size(terminal_log(*self)).1,
        ensures
            rows@.len() == log_size(terminal_log(*self)).0,
            rows@.len() == drawn_rows(terminal_log(*self)).len(),
            texts(rows@) == rows_in_view(
                scrolled_rows(terminal_log(*self)),
                drawn_rows(terminal_log(*self)),
                log_size(terminal_log(*self)).0,
                scroll_offset(*self),
            ),
    {
        self.parser.screen().rows(0, cols).collect()
    }

    /// `vt100::Screen::cursor_position`. The row and the column of the cursor, counted from zero.
    /// The row is on the screen; the column is too, or it is the one after the last.
    #[verifier::external_body]
    pub(crate) fn cursor_position(&self) -> (cell: (u16, u16))
        ensures
            cell == cursor_cell(terminal_log(*self)),
            cell.0 < log_size(terminal_log(*self)).0,
            cell.1 <= log_size(terminal_log(*self)).1,
    {
        self.parser.screen().cursor_position()
    }
}

/// The texts of a list of strings are what the strings hold, one for each and in order.
pub proof fn texts_are_what_strings_hold(strings: Seq<String>, i: int)
    requires
        0 <= i < strings.len(),
    ensures
        texts(strings).len() == strings.len(),
        texts(strings)[i] == strings[i]@,
{
}

/// A terminal has the size that it was given last, which being fed does not change.
pub proof fn size_is_what_was_given(log: Seq<TermOp>, bytes: Seq<u8>, rows: u16, cols: u16)
    ensures
        log_size(log.push(TermOp::Resize { rows, cols })) == (rows, cols),
        log_size(log.push(TermOp::Feed { bytes })) == log_size(log),
        log_size(seq![TermOp::Open { rows, cols, limit: 5000 }]) == (rows, cols),
{
    assert(log.push(TermOp::Feed { bytes }).drop_last() =~= log);
}

/// What a terminal was fed is what it was fed in each call, in order, and nothing else.
pub proof fn fed_is_what_was_fed(log: Seq<TermOp>, bytes: Seq<u8>, rows: u16, cols: u16)
    ensures
        fed_bytes(log.push(TermOp::Feed { bytes })) == fed_bytes(log) + bytes,
        fed_bytes(log.push(TermOp::Resize { rows, cols })) == fed_bytes(log),
        fed_bytes(seq![TermOp::Open { rows, cols, limit: 5000 }]) == Seq::<u8>::empty(),
{
    assert(log.push(TermOp::Feed { bytes }).drop_last() =~= log);
    assert(log.push(TermOp::Resize { rows, cols }).drop_last() =~= log);
    assert(seq![TermOp::Open { rows, cols, limit: 5000 }].drop_last() =~= Seq::<TermOp>::empty());
    assert(fed_bytes(Seq::<TermOp>::empty()) == Seq::<u8>::empty());
}

} // verus!
