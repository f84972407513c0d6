//! What a program shows: its output, interpreted by a terminal, and the ways to read it back.

use vstd::prelude::*;
use vstd::slice::slice_subrange;

use crate::terminal::{
    completes_selector, cursor_cell, cursor_on_grid, drawn_rows, fed_bytes, half_at, has_half,
    log_limit, log_size, reads_as_put_back, rows_in_view, screen_contents, scroll_offset,
    scrolled_rows, selector_at, selector_tried, terminal_log, texts, usable_size, wide_cell, widens,
    TermOp, Terminal,
};

verus! {

/// Whether byte `i` of `s`, which comes after the bytes `fed`, is the last of a selector.
pub open spec fn ends_selector(fed: Seq<u8>, s: Seq<u8>, i: int) -> bool {
    selector_at(fed + s, fed.len() + i - 2)
}

/// The first position in `s` at or after `from` where a selector ends, or its length if there is
/// none.
pub open spec fn next_end(fed: Seq<u8>, s: Seq<u8>, from: int) -> int
    decreases s.len() - from,
{
    if from >= s.len() {
        s.len() as int
    } else if ends_selector(fed, s, from) {
        from
    } else {
        next_end(fed, s, from + 1)
    }
}

/// The last byte of a selector, being fed.
pub open spec fn last_byte() -> TermOp {
    TermOp::Feed { bytes: seq![0x8fu8] }
}

/// The log of a terminal after it was fed the last byte of a selector.
///
/// Where that leaves half of a wide character behind, the screen is put back to what it was before
/// the byte. So it is where the character becomes wide in the only column, which has no room for it:
/// there the terminal takes the byte with a second column for the time being.
pub open spec fn after_selector(log: Seq<TermOp>) -> Seq<TermOp> {
    if cursor_on_grid(log) || log_size(log).1 < 2 && !widens(log) {
        log.push(last_byte())
    } else if log_size(log).1 < 2 {
        log.push(TermOp::Resize { rows: log_size(log).0, cols: 2 }).push(last_byte()).push(
            TermOp::PutBack { to: log },
        )
    } else if has_half(log.push(last_byte())) {
        log.push(last_byte()).push(TermOp::PutBack { to: log })
    } else {
        log.push(last_byte())
    }
}

/// The log of a terminal after it was shown `s`: it is fed the bytes up to the last byte of the
/// first selector in one piece, then that byte, and so on.
pub open spec fn shown(log: Seq<TermOp>, s: Seq<u8>) -> Seq<TermOp>
    decreases s.len(),
{
    let end = next_end(fed_bytes(log), s, 0);
    let before = if end > 0 {
        log.push(TermOp::Feed { bytes: s.take(end) })
    } else {
        log
    };
    if end < 0 || end >= s.len() {
        before
    } else {
        shown(after_selector(before), s.skip(end + 1))
    }
}

/// How many bytes at the end of `s` may be the start of a selector.
pub open spec fn begun(s: Seq<u8>) -> int {
    if s.len() >= 2 && s[s.len() - 2] == 0xef && s[s.len() - 1] == 0xb8 {
        2
    } else if s.len() >= 1 && s[s.len() - 1] == 0xef {
        1
    } else {
        0
    }
}

/// The last `max` of `rows`, or all of them where they are no more than that.
pub open spec fn newest(rows: Seq<Seq<char>>, max: nat) -> Seq<Seq<char>> {
    if rows.len() <= max {
        rows
    } else {
        rows.skip(rows.len() - max)
    }
}

/// A terminal, its size, and how much of a selector it was fed last.
pub struct Display {
    terminal: Terminal,
    rows: u16,
    cols: u16,
    begun: u8,
}

proof fn lemma_next_end(fed: Seq<u8>, s: Seq<u8>, from: int)
    requires
        0 <= from <= s.len(),
    ensures
        from <= next_end(fed, s, from) <= s.len(),
        next_end(fed, s, from) < s.len() ==> ends_selector(fed, s, next_end(fed, s, from)),
        forall|j: int| from <= j < next_end(fed, s, from) ==> !#[trigger] ends_selector(fed, s, j),
    decreases s.len() - from,
{
    if from < s.len() && !ends_selector(fed, s, from) {
        lemma_next_end(fed, s, from + 1);
    }
}

/// A selector ends where it was begun and its last byte comes.
proof fn lemma_ends(fed: Seq<u8>, s: Seq<u8>, i: int)
    requires
        0 <= i < s.len(),
    ensures
        ends_selector(fed, s, i) <==> begun(fed + s.take(i)) == 2 && s[i] == 0x8f,
        begun(fed + s.take(i + 1)) == if s[i] == 0xef {
            1int
        } else if begun(fed + s.take(i)) == 1 && s[i] == 0xb8 {
            2
        } else {
            0
        },
{
    let all = fed + s;
    let before = fed + s.take(i);
    let after = fed + s.take(i + 1);
    let n = fed.len() + i;
    assert(all[n] == s[i]);
    assert(after[n] == s[i]);
    assert forall|k: int| 0 <= k < n implies all[k] == before[k] && after[k] == before[k] by {}
    if n >= 1 {
        assert(all[n - 1] == before[n - 1] && after[n - 1] == before[n - 1]);
    }
    if n >= 2 {
        assert(all[n - 2] == before[n - 2]);
    }
}

/// A piece in which no selector ends completes none.
proof fn lemma_piece(fed: Seq<u8>, s: Seq<u8>, end: int)
    requires
        0 <= end <= s.len(),
        forall|j: int| 0 <= j < end ==> !#[trigger] ends_selector(fed, s, j),
    ensures
        !completes_selector(fed, s.take(end)),
{
    assert forall|i: int| #[trigger] selector_at(fed + s.take(end), i) implies i + 3 <= fed.len() by {
        if i + 3 > fed.len() {
            let j = i + 2 - fed.len();
            assert(forall|k: int| i <= k < i + 3 ==> (fed + s)[k] == (fed + s.take(end))[k]);
            assert(ends_selector(fed, s, j));
        }
    }
}

/// Being fed adds to the bytes that were fed, and the log of a terminal stays that of its size and
/// limit.
proof fn lemma_fed(log: Seq<TermOp>, bytes: Seq<u8>)
    requires
        log.len() > 0,
    ensures
        fed_bytes(log.push(TermOp::Feed { bytes })) == fed_bytes(log) + bytes,
        log_size(log.push(TermOp::Feed { bytes })) == log_size(log),
        log_limit(log.push(TermOp::Feed { bytes })) == log_limit(log),
{
    assert(log.push(TermOp::Feed { bytes }).drop_last() =~= log);
}

/// The last byte of a selector is fed, and the terminal keeps its size and limit.
proof fn lemma_after_selector(log: Seq<TermOp>)
    requires
        log.len() > 0,
    ensures
        after_selector(log).len() > 0,
        fed_bytes(after_selector(log)) == fed_bytes(log) + seq![0x8fu8],
        log_size(after_selector(log)) == log_size(log),
        log_limit(after_selector(log)) == log_limit(log),
        begun(fed_bytes(after_selector(log))) == 0,
{
    let back = TermOp::PutBack { to: log };
    let wide = TermOp::Resize { rows: log_size(log).0, cols: 2 };
    lemma_fed(log, seq![0x8fu8]);
    assert(log.push(last_byte()).push(back).drop_last() =~= log.push(last_byte()));
    assert(log.push(wide).drop_last() =~= log);
    lemma_fed(log.push(wide), seq![0x8fu8]);
    assert(log.push(wide).push(last_byte()).push(back).drop_last() =~= log.push(wide).push(
        last_byte(),
    ));
}

/// Terminals of the same size with the same wide characters have the same halves of them.
proof fn lemma_same_halves(a: Seq<TermOp>, b: Seq<TermOp>)
    requires
        log_size(a) == log_size(b),
        forall|row: u16, col: u16| #[trigger] wide_cell(a, row, col) == wide_cell(b, row, col),
    ensures
        has_half(a) == has_half(b),
{
    assert forall|row: u16| half_at(a, row) == half_at(b, row) by {
        assert(wide_cell(a, row, (log_size(a).1 - 1) as u16) == wide_cell(
            b,
            row,
            (log_size(a).1 - 1) as u16,
        ));
    }
    if has_half(a) {
        let row = choose|row: u16| row < log_size(a).0 && #[trigger] half_at(a, row);
        assert(half_at(b, row));
    }
    if has_half(b) {
        let row = choose|row: u16| row < log_size(b).0 && #[trigger] half_at(b, row);
        assert(half_at(a, row));
    }
}

impl Display {
    /// What was done to the terminal.
    pub closed spec fn log(&self) -> Seq<TermOp> {
        terminal_log(self.terminal)
    }

    /// The terminal has the size that is known of it and is not scrolled back, no half of a wide
    /// character stands in its last column, it is known how much of a selector it was fed last, and
    /// where its screen was put back it reads as before.
    pub closed spec fn wf(&self) -> bool {
        let log = terminal_log(self.terminal);
        &&& log.len() > 0
        &&& log_size(log) == (self.rows, self.cols)
        &&& usable_size(self.rows, self.cols)
        &&& log_limit(log) < usize::MAX / 2
        &&& scroll_offset(self.terminal) == 0
        &&& !has_half(log)
        &&& self.begun == begun(fed_bytes(log))
        &&& reads_as_put_back(log)
    }

    /// Opens a display that keeps at most `limit` of the rows that scroll off its top.
    pub fn open(rows: u16, cols: u16, limit: usize) -> (display: Display)
        requires
            usable_size(rows, cols),
            limit < usize::MAX / 2,
        ensures
            display.wf(),
            display.log() == seq![TermOp::Open { rows, cols, limit: limit as nat }],
            screen_contents(display.log(), 0).len() == 0,
            scrolled_rows(display.log()).len() == 0,
            cursor_cell(display.log()) == (0u16, 0u16),
    {
        let terminal = Terminal::open(rows, cols, limit);
        proof {
            let log = terminal_log(terminal);
            assert(log.drop_last() =~= Seq::<TermOp>::empty());
            assert(fed_bytes(log.drop_last()) == Seq::<u8>::empty());
        }
        Display { terminal, rows, cols, begun: 0 }
    }

    /// Shows output that came: all of it is fed to the terminal, in order.
    pub fn show(&mut self, bytes: &[u8])
        requires
            old(self).wf(),
        ensures
            final(self).wf(),
            final(self).log() == shown(old(self).log(), bytes@),
            log_size(final(self).log()) == log_size(old(self).log()),
            log_limit(final(self).log()) == log_limit(old(self).log()),
    {
        let mut at: usize = 0;
        assert(bytes@.skip(0) =~= bytes@);
        while at < bytes.len()
            invariant
                at <= bytes@.len(),
                self.wf(),
                log_size(self.log()) == log_size(old(self).log()),
                log_limit(self.log()) == log_limit(old(self).log()),
                shown(self.log(), bytes@.skip(at as int)) == shown(old(self).log(), bytes@),
            decreases bytes@.len() - at,
        {
            let ghost rest = bytes@.skip(at as int);
            let ghost start = self.log();
            let ghost fed = fed_bytes(start);
            let mut begun_now: u8 = self.begun;
            let mut end: usize = at;
            assert(fed + rest.take(0) =~= fed);
            while end < bytes.len() && !(begun_now == 2 && bytes[end] == 0x8f)
                invariant
                    at <= end <= bytes@.len(),
                    rest == bytes@.skip(at as int),
                    begun_now == begun(fed + rest.take(end - at)),
                    next_end(fed, rest, 0) == next_end(fed, rest, end - at),
                decreases bytes@.len() - end,
            {
                proof {
                    lemma_ends(fed, rest, end - at);
                }
                begun_now = if bytes[end] == 0xef {
                    1
                } else if begun_now == 1 && bytes[end] == 0xb8 {
                    2
                } else {
                    0
                };
                end += 1;
            }
            proof {
                if end < bytes@.len() {
                    lemma_ends(fed, rest, end - at);
                }
                assert(next_end(fed, rest, 0) == end - at);
                lemma_next_end(fed, rest, 0);
                lemma_piece(fed, rest, end - at);
                lemma_fed(start, rest.take(end - at));
            }
            if end > at {
                let piece = slice_subrange(bytes, at, end);
                assert(piece@ =~= rest.take(end - at));
                self.terminal.feed(piece);
                self.begun = begun_now;
            }
            if end < bytes.len() {
                assert(rest.skip(end - at + 1) =~= bytes@.skip(end + 1));
                self.end_selector();
                at = end + 1;
            } else {
                at = end;
            }
        }
    }

    /// Feeds the last byte of a selector to the terminal.
    fn end_selector(&mut self)
        requires
            old(self).wf(),
            old(self).begun == 2,
        ensures
            final(self).wf(),
            final(self).log() == after_selector(old(self).log()),
            log_size(final(self).log()) == log_size(old(self).log()),
            log_limit(final(self).log()) == log_limit(old(self).log()),
    {
        let ghost log = self.log();
        proof {
            lemma_after_selector(log);
            lemma_fed(log, seq![0x8fu8]);
        }
        let last: [u8; 1] = [0x8f];
        assert(last@ =~= seq![0x8fu8]);
        let (_, col) = self.terminal.cursor_position();
        if col < self.cols || self.cols < 2 && !self.selector_widens() {
            self.terminal.feed(&last);
        } else {
            let screen = self.terminal.screen();
            if self.cols < 2 {
                self.terminal.set_size(self.rows, 2);
                proof {
                    let wide = TermOp::Resize { rows: self.rows, cols: 2 };
                    assert(log.push(wide).drop_last() =~= log);
                    lemma_fed(log.push(wide), seq![0x8fu8]);
                }
                self.terminal.feed(&last);
                self.terminal.put_back(screen);
                proof {
                    lemma_same_halves(self.log(), log);
                }
            } else {
                self.terminal.feed(&last);
                if self.finds_half() {
                    self.terminal.put_back(screen);
                    proof {
                        lemma_same_halves(self.log(), log);
                    }
                }
            }
        }
        self.begun = 0;
    }

    /// Tells whether a selector makes the character at the cursor wide, in the only column, by trying
    /// it out on a copy with two columns.
    fn selector_widens(&self) -> (wide: bool)
        requires
            self.wf(),
        ensures
            wide == widens(self.log()),
    {
        let ghost log = self.log();
        let (row, _) = self.terminal.cursor_position();
        let mut copy = Terminal::open(self.rows, 2, 0);
        let ghost opened = terminal_log(copy);
        copy.put_back(self.terminal.screen());
        let ghost same = terminal_log(copy);
        proof {
            lemma_same_halves(same, log);
        }
        copy.set_size(self.rows, 2);
        let ghost wider = terminal_log(copy);
        let start: [u8; 2] = [0xef, 0xb8];
        let last: [u8; 1] = [0x8f];
        proof {
            assert(opened.drop_last() =~= Seq::<TermOp>::empty());
            assert(same.drop_last() =~= opened);
            assert(wider.drop_last() =~= same);
            assert(fed_bytes(Seq::<TermOp>::empty()) == Seq::<u8>::empty());
            assert(fed_bytes(opened) == Seq::<u8>::empty());
            assert(fed_bytes(same) == Seq::<u8>::empty());
            assert(fed_bytes(wider) == Seq::<u8>::empty());
            assert(start@ =~= seq![0xefu8, 0xb8]);
            assert(last@ =~= seq![0x8fu8]);
            lemma_fed(wider, seq![0xefu8, 0xb8]);
            lemma_fed(wider.push(TermOp::Feed { bytes: seq![0xefu8, 0xb8] }), seq![0x8fu8]);
        }
        copy.feed(&start);
        copy.feed(&last);
        assert(terminal_log(copy) =~= selector_tried(log));
        copy.is_wide(row, 0)
    }

    /// Tells whether half of a wide character stands in the last column.
    fn finds_half(&self) -> (found: bool)
        requires
            log_size(self.log()) == (self.rows, self.cols),
            self.cols > 0,
            scroll_offset(self.terminal) == 0,
        ensures
            found == has_half(self.log()),
    {
        let mut row: u16 = 0;
        while row < self.rows
            invariant
                row <= self.rows,
                log_size(self.log()) == (self.rows, self.cols),
                self.cols > 0,
                scroll_offset(self.terminal) == 0,
                forall|r: u16| r < row ==> !#[trigger] half_at(self.log(), r),
            decreases self.rows - row,
        {
            if self.terminal.is_wide(row, self.cols - 1) {
                assert(half_at(self.log(), row));
                return true;
            }
            row += 1;
        }
        false
    }

    /// Reads the text on the screen.
    pub fn contents(&self) -> (text: String)
        requires
            self.wf(),
        ensures
            text@ == screen_contents(self.log(), 0),
    {
        self.terminal.contents()
    }

    /// Reads the row and the column of the cursor.
    pub fn cursor_position(&self) -> (cell: (u16, u16))
        requires
            self.wf(),
        ensures
            cell == cursor_cell(self.log()),
            cell.0 < log_size(self.log()).0,
            cell.1 <= log_size(self.log()).1,
    {
        self.terminal.cursor_position()
    }

    /// Gives the display a new size.
    pub fn set_size(&mut self, rows: u16, cols: u16)
        requires
            old(self).wf(),
            usable_size(rows, cols),
        ensures
            final(self).wf(),
            final(self).log() == old(self).log().push(TermOp::Resize { rows, cols }),
            log_size(final(self).log()) == (rows, cols),
            log_limit(final(self).log()) == log_limit(old(self).log()),
    {
        self.terminal.set_size(rows, cols);
        self.rows = rows;
        self.cols = cols;
        assert(self.log().drop_last() =~= old(self).log());
    }

    /// Reads the newest `max_lines` of the rows that scrolled off the top, oldest first.
    ///
    /// The rows are paged into view a screen at a time, from the oldest on, and the top rows of
    /// each page that are not on the screen itself are kept.
    pub fn scrollback(&mut self, max_lines: usize) -> (lines: Vec<String>)
        requires
            old(self).wf(),
        ensures
            final(self).wf(),
            final(self).log() == old(self).log(),
            texts(lines@) == newest(scrolled_rows(old(self).log()), max_lines as nat),
            lines@.len() <= log_limit(old(self).log()),
            lines@.len() == if scrolled_rows(old(self).log()).len() <= max_lines {
                scrolled_rows(old(self).log()).len()
            } else {
                max_lines as nat
            },
            forall|i: int|
                0 <= i < lines@.len() ==> (#[trigger] lines@[i])@ == scrolled_rows(
                    old(self).log(),
                )[scrolled_rows(old(self).log()).len() - lines@.len() + i],
    {
        let ghost log = self.log();
        let ghost scrolled = scrolled_rows(log);
        let original = self.terminal.scrollback();
        let rows: usize = self.rows as usize;

        // The terminal goes back no further than it can.
        self.terminal.set_scrollback(usize::MAX / 2);
        let depth: usize = self.terminal.scrollback();
        assert(depth == scrolled.len());

        let mut history: Vec<String> = Vec::new();
        let mut offset: usize = depth;
        while offset > 0
            invariant
                rows == self.rows,
                rows > 0,
                offset <= depth,
                depth == scrolled.len(),
                self.log() == log,
                self.rows == old(self).rows,
                self.cols == old(self).cols,
                self.begun == old(self).begun,
                scrolled == scrolled_rows(log),
                log_size(log) == (self.rows, self.cols),
                texts(history@) == scrolled.take(depth - offset),
            decreases offset,
        {
            self.terminal.set_scrollback(offset);
            let page = self.terminal.rows(self.cols);
            let take_n: usize = if rows < offset { rows } else { offset };
            let ghost view = rows_in_view(scrolled, drawn_rows(log), self.rows, offset as nat);
            assert forall|i: int| 0 <= i < take_n implies texts(page@)[i] == scrolled[depth - offset
                + i] by {
                assert(view[i] == scrolled.skip(depth - offset)[i]);
            }
            let mut i: usize = 0;
            while i < take_n
                invariant
                    i <= take_n <= offset <= depth,
                    take_n <= page@.len(),
                    depth == scrolled.len(),
                    forall|j: int|
                        0 <= j < take_n ==> #[trigger] texts(page@)[j] == scrolled[depth - offset + j],
                    texts(history@) == scrolled.take(depth - offset + i),
                decreases take_n - i,
            {
                let ghost before = history@;
                history.push(page[i].clone());
                assert(texts(page@)[i as int] == page@[i as int]@);
                assert(texts(history@) =~= texts(before).push(scrolled[depth - offset + i]));
                i += 1;
            }
            offset -= take_n;
        }

        self.terminal.set_scrollback(original);
        assert(scrolled.take(depth as int) =~= scrolled);
        assert(texts(history@).len() == history@.len());

        if history.len() > max_lines {
            let ghost all = history@;
            let drop: usize = history.len() - max_lines;
            history = history.split_off(drop);
            assert(texts(history@) =~= texts(all).skip(drop as int));
        }
        assert forall|i: int| 0 <= i < history@.len() implies (#[trigger] history@[i])@
            == scrolled[scrolled.len() - history@.len() + i] by {
            assert(texts(history@)[i] == history@[i]@);
        }
        history
    }
}

/// What is read of the rows that scrolled off is the end of them, as much of it as was asked for.
pub proof fn newest_is_the_end(rows: Seq<Seq<char>>, max: nat)
    ensures
        newest(rows, max).is_suffix_of(rows),
        newest(rows, max).len() == if rows.len() <= max {
            rows.len()
        } else {
            max
        },
{
    assert(rows.skip(0) =~= rows);
}

/// Every byte of the output is fed to the terminal once, in order, whatever else is done to it.
pub proof fn every_byte_is_fed(log: Seq<TermOp>, s: Seq<u8>)
    requires
        log.len() > 0,
    ensures
        fed_bytes(shown(log, s)) == fed_bytes(log) + s,
        log_size(shown(log, s)) == log_size(log),
        log.is_prefix_of(shown(log, s)),
    decreases s.len(),
{
    let fed = fed_bytes(log);
    lemma_shown_goes_on(log, s);
    lemma_next_end(fed, s, 0);
    let end = next_end(fed, s, 0);
    lemma_fed(log, s.take(end));
    let before = if end > 0 {
        log.push(TermOp::Feed { bytes: s.take(end) })
    } else {
        log
    };
    assert(fed_bytes(before) =~= fed + s.take(end));
    if end < s.len() {
        lemma_ends(fed, s, end);
        lemma_after_selector(before);
        every_byte_is_fed(after_selector(before), s.skip(end + 1));
        assert(fed + s.take(end) + seq![0x8fu8] + s.skip(end + 1) =~= fed + s);
    } else {
        assert(s.take(end) =~= s);
    }
}

/// Output in which no selector ends is fed in one piece, and nothing else is done to the terminal.
pub proof fn plain_output_is_fed_whole(log: Seq<TermOp>, s: Seq<u8>)
    requires
        s.len() > 0,
        !completes_selector(fed_bytes(log), s),
    ensures
        shown(log, s) == log.push(TermOp::Feed { bytes: s }),
{
    let fed = fed_bytes(log);
    lemma_next_end(fed, s, 0);
    assert(s.take(s.len() as int) =~= s);
}

/// Only where a screen is put back is anything but output done to the terminal: else the log goes on
/// with pieces of the output alone.
pub proof fn only_fed_unless_put_back(log: Seq<TermOp>, s: Seq<u8>)
    requires
        forall|i: int|
            log.len() <= i < shown(log, s).len() ==> !(#[trigger] shown(log, s)[i] is PutBack),
    ensures
        log.is_prefix_of(shown(log, s)),
        forall|i: int| log.len() <= i < shown(log, s).len() ==> #[trigger] shown(log, s)[i] is Feed,
    decreases s.len(),
{
    lemma_shown_goes_on(log, s);
    let fed = fed_bytes(log);
    let end = next_end(fed, s, 0);
    lemma_next_end(fed, s, 0);
    let before = if end > 0 {
        log.push(TermOp::Feed { bytes: s.take(end) })
    } else {
        log
    };
    if end < s.len() {
        let next = after_selector(before);
        let rest = s.skip(end + 1);
        lemma_shown_goes_on(next, rest);
        assert(next.last() == shown(log, s)[next.len() - 1]);
        assert(next == before.push(last_byte()));
        only_fed_unless_put_back(next, rest);
        assert forall|i: int| log.len() <= i < shown(log, s).len() implies #[trigger] shown(
            log,
            s,
        )[i] is Feed by {
            if i < next.len() {
                assert(shown(log, s)[i] == next[i]);
            }
        }
    }
}

/// Being shown output adds to the log of a terminal.
proof fn lemma_shown_goes_on(log: Seq<TermOp>, s: Seq<u8>)
    ensures
        log.is_prefix_of(shown(log, s)),
    decreases s.len(),
{
    let fed = fed_bytes(log);
    let end = next_end(fed, s, 0);
    lemma_next_end(fed, s, 0);
    let before = if end > 0 {
        log.push(TermOp::Feed { bytes: s.take(end) })
    } else {
        log
    };
    assert(log.is_prefix_of(before));
    if end < s.len() {
        assert(before.is_prefix_of(after_selector(before)));
        lemma_shown_goes_on(after_selector(before), s.skip(end + 1));
    }
}

/// A sound display has a log, of a usable size, and reads as before where its screen was put back.
pub proof fn sound_display(display: Display)
    requires
        display.wf(),
    ensures
        display.log().len() > 0,
        usable_size(log_size(display.log()).0, log_size(display.log()).1),
        reads_as_put_back(display.log()),
{
}

/// Output without the byte in which a selector ends is fed in one piece, and nothing else is done to
/// the terminal.
pub proof fn ordinary_output_is_fed_whole(log: Seq<TermOp>, s: Seq<u8>)
    requires
        s.len() > 0,
        forall|i: int| 0 <= i < s.len() ==> #[trigger] s[i] != 0x8f,
    ensures
        shown(log, s) == log.push(TermOp::Feed { bytes: s }),
{
    let fed = fed_bytes(log);
    assert forall|i: int| #[trigger] selector_at(fed + s, i) implies i + 3 <= fed.len() by {
        if i + 3 > fed.len() {
            assert((fed + s)[i + 2] == s[i + 2 - fed.len()]);
        }
    }
    plain_output_is_fed_whole(log, s);
}

/// Output that is not there changes nothing.
pub proof fn no_output_changes_nothing(log: Seq<TermOp>)
    ensures
        shown(log, Seq::<u8>::empty()) == log,
{
}

/// A screen is put back only to what it was right before the last byte of a selector, only where the
/// cursor was past the last column then: where there are several columns, only where the byte left a
/// wide character in the last of them, and where there is one, only where it makes the character
/// wide.
pub proof fn put_back_only_past_the_last_column(log: Seq<TermOp>, s: Seq<u8>, i: int) -> (k: int)
    requires
        log.len() <= i < shown(log, s).len(),
        shown(log, s)[i] is PutBack,
    ensures
        log.len() <= k < i,
        shown(log, s)[i] == (TermOp::PutBack { to: shown(log, s).take(k) }),
        shown(log, s)[i - 1] == (TermOp::Feed { bytes: seq![0x8fu8] }),
        cursor_cell(shown(log, s).take(k)).1 >= log_size(shown(log, s).take(k)).1,
        log_size(shown(log, s).take(k)).1 >= 2 ==> {
            &&& k == i - 1
            &&& exists|row: u16|
                row < log_size(shown(log, s).take(i)).0 && #[trigger] wide_cell(
                    shown(log, s).take(i),
                    row,
                    (log_size(shown(log, s).take(i)).1 - 1) as u16,
                )
        },
        log_size(shown(log, s).take(k)).1 < 2 ==> {
            &&& k == i - 2
            &&& shown(log, s)[k] == (TermOp::Resize {
                rows: log_size(shown(log, s).take(k)).0,
                cols: 2,
            })
            &&& wide_cell(
                selector_tried(shown(log, s).take(k)),
                cursor_cell(shown(log, s).take(k)).0,
                0,
            )
        },
    decreases s.len(),
{
    let fed = fed_bytes(log);
    let end = next_end(fed, s, 0);
    lemma_next_end(fed, s, 0);
    let before = if end > 0 {
        log.push(TermOp::Feed { bytes: s.take(end) })
    } else {
        log
    };
    let all = shown(log, s);
    if end >= s.len() {
        i
    } else {
        let next = after_selector(before);
        let rest = s.skip(end + 1);
        lemma_shown_goes_on(next, rest);
        assert(next.is_prefix_of(all));
        if i < next.len() {
            assert(all[i] == next[i]);
            assert(i == next.len() - 1);
            assert(all[i - 1] == next[i - 1]);
            assert(next[i - 1] == last_byte());
            assert(all[before.len() as int] == next[before.len() as int]);
            assert(all.take(before.len() as int) =~= before);
            if log_size(before).1 >= 2 {
                assert(all.take(i) =~= before.push(last_byte()));
                let fed_log = before.push(last_byte());
                let row = choose|row: u16|
                    row < log_size(fed_log).0 && #[trigger] half_at(fed_log, row);
                assert(wide_cell(fed_log, row, (log_size(fed_log).1 - 1) as u16));
            }
            before.len() as int
        } else {
            put_back_only_past_the_last_column(next, rest, i)
        }
    }
}

/// The terminal is fed, or its screen is put back; it is resized by output only for a selector past
/// the only column, right before its screen is put back to what it was.
pub proof fn output_resizes_only_to_put_back(log: Seq<TermOp>, s: Seq<u8>, i: int)
    requires
        log.len() <= i < shown(log, s).len(),
    ensures
        !(shown(log, s)[i] is Open),
        shown(log, s)[i] is Resize ==> {
            &&& i + 2 < shown(log, s).len()
            &&& shown(log, s)[i + 2] == (TermOp::PutBack { to: shown(log, s).take(i) })
        },
    decreases s.len(),
{
    let fed = fed_bytes(log);
    let end = next_end(fed, s, 0);
    lemma_next_end(fed, s, 0);
    let before = if end > 0 {
        log.push(TermOp::Feed { bytes: s.take(end) })
    } else {
        log
    };
    let all = shown(log, s);
    if end < s.len() {
        let next = after_selector(before);
        let rest = s.skip(end + 1);
        lemma_shown_goes_on(next, rest);
        assert(next.is_prefix_of(all));
        if i < next.len() {
            assert(all[i] == next[i]);
            if next[i] is Resize {
                assert(i == before.len());
                assert(all[i + 2] == next[i + 2]);
                assert(all.take(i) =~= before);
            }
        } else {
            output_resizes_only_to_put_back(next, rest, i);
        }
    }
}

} // verus!
