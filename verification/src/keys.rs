//! Special keys: how the text that a user gives becomes the bytes that a terminal expects.

use vstd::prelude::*;
use vstd::utf8::encode_utf8;

verus! {

/// Whether `s` begins with the ASCII text `text`.
pub open spec fn starts(s: Seq<u8>, text: Seq<char>) -> bool {
    &&& text.len() <= s.len()
    &&& forall|i: int| 0 <= i < text.len() ==> #[trigger] s[i] == text[i] as u8
}

/// Whether `b` is an ASCII letter.
pub open spec fn is_letter(b: u8) -> bool {
    0x41 <= b <= 0x5a || 0x61 <= b <= 0x7a
}

/// The control character of a letter, the same for a capital letter and a small one.
pub open spec fn control(letter: u8) -> u8 {
    if letter >= 0x61 {
        (letter - 0x60) as u8
    } else {
        (letter - 0x40) as u8
    }
}

/// The value of an ASCII hexadecimal digit.
pub open spec fn hex_value(b: u8) -> Option<u8> {
    if 0x30 <= b <= 0x39 {
        Some((b - 0x30) as u8)
    } else if 0x41 <= b <= 0x46 {
        Some((b - 0x37) as u8)
    } else if 0x61 <= b <= 0x66 {
        Some((b - 0x57) as u8)
    } else {
        None
    }
}

/// The named key that `s` begins with: the length of its name in brackets, and what it sends.
pub open spec fn named_key(s: Seq<u8>) -> Option<(nat, Seq<u8>)> {
    if starts(s, "[ENTER]"@) {
        Some((7nat, seq![0x0du8]))
    } else if starts(s, "[TAB]"@) {
        Some((5nat, seq![0x09u8]))
    } else if starts(s, "[SHIFT+TAB]"@) {
        Some((11nat, seq![0x1bu8, 0x5b, 0x5a]))
    } else if starts(s, "[ESCAPE]"@) {
        Some((8nat, seq![0x1bu8]))
    } else if starts(s, "[BACKSPACE]"@) {
        Some((11nat, seq![0x7fu8]))
    } else if starts(s, "[DELETE]"@) {
        Some((8nat, seq![0x1bu8, 0x5b, 0x33, 0x7e]))
    } else if starts(s, "[UP]"@) {
        Some((4nat, seq![0x1bu8, 0x5b, 0x41]))
    } else if starts(s, "[DOWN]"@) {
        Some((6nat, seq![0x1bu8, 0x5b, 0x42]))
    } else if starts(s, "[RIGHT]"@) {
        Some((7nat, seq![0x1bu8, 0x5b, 0x43]))
    } else if starts(s, "[LEFT]"@) {
        Some((6nat, seq![0x1bu8, 0x5b, 0x44]))
    } else if starts(s, "[HOME]"@) {
        Some((6nat, seq![0x1bu8, 0x5b, 0x48]))
    } else if starts(s, "[END]"@) {
        Some((5nat, seq![0x1bu8, 0x5b, 0x46]))
    } else if starts(s, "[PGUP]"@) {
        Some((6nat, seq![0x1bu8, 0x5b, 0x35, 0x7e]))
    } else if starts(s, "[PGDN]"@) {
        Some((6nat, seq![0x1bu8, 0x5b, 0x36, 0x7e]))
    } else if starts(s, "[F1]"@) {
        Some((4nat, seq![0x1bu8, 0x4f, 0x50]))
    } else if starts(s, "[F2]"@) {
        Some((4nat, seq![0x1bu8, 0x4f, 0x51]))
    } else if starts(s, "[F3]"@) {
        Some((4nat, seq![0x1bu8, 0x4f, 0x52]))
    } else if starts(s, "[F4]"@) {
        Some((4nat, seq![0x1bu8, 0x4f, 0x53]))
    } else if starts(s, "[F5]"@) {
        Some((4nat, seq![0x1bu8, 0x5b, 0x31, 0x35, 0x7e]))
    } else if starts(s, "[F6]"@) {
        Some((4nat, seq![0x1bu8, 0x5b, 0x31, 0x37, 0x7e]))
    } else if starts(s, "[F7]"@) {
        Some((4nat, seq![0x1bu8, 0x5b, 0x31, 0x38, 0x7e]))
    } else if starts(s, "[F8]"@) {
        Some((4nat, seq![0x1bu8, 0x5b, 0x31, 0x39, 0x7e]))
    } else if starts(s, "[F9]"@) {
        Some((4nat, seq![0x1bu8, 0x5b, 0x32, 0x30, 0x7e]))
    } else if starts(s, "[F10]"@) {
        Some((5nat, seq![0x1bu8, 0x5b, 0x32, 0x31, 0x7e]))
    } else if starts(s, "[F11]"@) {
        Some((5nat, seq![0x1bu8, 0x5b, 0x32, 0x33, 0x7e]))
    } else if starts(s, "[F12]"@) {
        Some((5nat, seq![0x1bu8, 0x5b, 0x32, 0x34, 0x7e]))
    } else if starts(s, "[PASTE_START]"@) {
        Some((13nat, seq![0x1bu8, 0x5b, 0x32, 0x30, 0x30, 0x7e]))
    } else if starts(s, "[PASTE_END]"@) {
        Some((11nat, seq![0x1bu8, 0x5b, 0x32, 0x30, 0x31, 0x7e]))
    } else {
        None
    }
}

/// The placeholder that `s` begins with: its length, and what it stands for.
///
/// A placeholder is `^` and a letter, a letter in `[CTRL+` and `]`, one of the escapes `\n`, `\r`
/// and `\t`, `\x` and two hexadecimal digits, or a named key.
pub open spec fn placeholder(s: Seq<u8>) -> Option<(nat, Seq<u8>)> {
    if s.len() >= 2 && s[0] == 0x5e && is_letter(s[1]) {
        Some((2, seq![control(s[1])]))
    } else if s.len() >= 2 && s[0] == 0x5c && s[1] == 0x6e {
        Some((2, seq![0x0au8]))
    } else if s.len() >= 2 && s[0] == 0x5c && s[1] == 0x72 {
        Some((2, seq![0x0du8]))
    } else if s.len() >= 2 && s[0] == 0x5c && s[1] == 0x74 {
        Some((2, seq![0x09u8]))
    } else if s.len() >= 4 && s[0] == 0x5c && s[1] == 0x78 && hex_value(s[2]) is Some && hex_value(
        s[3],
    ) is Some {
        Some((4, seq![(hex_value(s[2])->0 * 16 + hex_value(s[3])->0) as u8]))
    } else if starts(s, "[CTRL+"@) && s.len() >= 8 && is_letter(s[6]) && s[7] == 0x5d {
        Some((8, seq![control(s[6])]))
    } else {
        named_key(s)
    }
}

/// The bytes that `s` stands for: every placeholder is replaced, from left to right, and anything
/// else stays as it is.
pub open spec fn translate(s: Seq<u8>) -> Seq<u8>
    decreases s.len(),
{
    if s.len() == 0 {
        Seq::empty()
    } else {
        match placeholder(s) {
            Some((length, bytes)) => if 0 < length <= s.len() {
                bytes + translate(s.skip(length as int))
            } else {
                Seq::empty()
            },
            None => seq![s[0]] + translate(s.skip(1)),
        }
    }
}

/// Tells whether what stands in `bytes` at `at` begins with an ASCII text.
fn starts_with(bytes: &[u8], at: usize, text: &str) -> (result: bool)
    requires
        at <= bytes@.len(),
        text.is_ascii(),
    ensures
        result == starts(bytes@.skip(at as int), text@),
{
    let wanted = text.as_bytes();
    let total: usize = bytes.len();
    assert(wanted@ =~= Seq::new(text@.len(), |i: int| text@[i] as u8));
    if total - at < wanted.len() {
        return false;
    }
    let mut i: usize = 0;
    while i < wanted.len()
        invariant
            i <= wanted@.len(),
            at + wanted@.len() <= total,
            total == bytes@.len(),
            wanted@ == Seq::new(text@.len(), |i: int| text@[i] as u8),
            forall|j: int| 0 <= j < i ==> bytes@.skip(at as int)[j] == text@[j] as u8,
        decreases wanted@.len() - i,
    {
        if bytes[at + i] != wanted[i] {
            assert(bytes@.skip(at as int)[i as int] != text@[i as int] as u8);
            return false;
        }
        i += 1;
    }
    true
}

/// Finds the named key that stands in `bytes` at `at`.
fn read_named_key(bytes: &[u8], at: usize) -> (key: Option<(usize, Vec<u8>)>)
    requires
        at <= bytes@.len(),
    ensures
        match key {
            Some((length, sent)) => named_key(bytes@.skip(at as int)) == Some((length as nat, sent@)),
            None => named_key(bytes@.skip(at as int)) is None,
        },
        key matches Some((length, _)) ==> 0 < length <= bytes@.len() - at,
{
    proof {
        reveal_strlit("[ENTER]");
        reveal_strlit("[TAB]");
        reveal_strlit("[SHIFT+TAB]");
        reveal_strlit("[ESCAPE]");
        reveal_strlit("[BACKSPACE]");
        reveal_strlit("[DELETE]");
        reveal_strlit("[UP]");
        reveal_strlit("[DOWN]");
        reveal_strlit("[RIGHT]");
        reveal_strlit("[LEFT]");
        reveal_strlit("[HOME]");
        reveal_strlit("[END]");
        reveal_strlit("[PGUP]");
        reveal_strlit("[PGDN]");
        reveal_strlit("[F1]");
        reveal_strlit("[F2]");
        reveal_strlit("[F3]");
        reveal_strlit("[F4]");
        reveal_strlit("[F5]");
        reveal_strlit("[F6]");
        reveal_strlit("[F7]");
        reveal_strlit("[F8]");
        reveal_strlit("[F9]");
        reveal_strlit("[F10]");
        reveal_strlit("[F11]");
        reveal_strlit("[F12]");
        reveal_strlit("[PASTE_START]");
        reveal_strlit("[PASTE_END]");
    }
    if starts_with(bytes, at, "[ENTER]") {
        return Some((7, vec![0x0d]));
    }
    if starts_with(bytes, at, "[TAB]") {
        return Some((5, vec![0x09]));
    }
    if starts_with(bytes, at, "[SHIFT+TAB]") {
        return Some((11, vec![0x1b, 0x5b, 0x5a]));
    }
    if starts_with(bytes, at, "[ESCAPE]") {
        return Some((8, vec![0x1b]));
    }
    if starts_with(bytes, at, "[BACKSPACE]") {
        return Some((11, vec![0x7f]));
    }
    if starts_with(bytes, at, "[DELETE]") {
        return Some((8, vec![0x1b, 0x5b, 0x33, 0x7e]));
    }
    if starts_with(bytes, at, "[UP]") {
        return Some((4, vec![0x1b, 0x5b, 0x41]));
    }
    if starts_with(bytes, at, "[DOWN]") {
        return Some((6, vec![0x1b, 0x5b, 0x42]));
    }
    if starts_with(bytes, at, "[RIGHT]") {
        return Some((7, vec![0x1b, 0x5b, 0x43]));
    }
    if starts_with(bytes, at, "[LEFT]") {
        return Some((6, vec![0x1b, 0x5b, 0x44]));
    }
    if starts_with(bytes, at, "[HOME]") {
        return Some((6, vec![0x1b, 0x5b, 0x48]));
    }
    if starts_with(bytes, at, "[END]") {
        return Some((5, vec![0x1b, 0x5b, 0x46]));
    }
    if starts_with(bytes, at, "[PGUP]") {
        return Some((6, vec![0x1b, 0x5b, 0x35, 0x7e]));
    }
    if starts_with(bytes, at, "[PGDN]") {
        return Some((6, vec![0x1b, 0x5b, 0x36, 0x7e]));
    }
    if starts_with(bytes, at, "[F1]") {
        return Some((4, vec![0x1b, 0x4f, 0x50]));
    }
    if starts_with(bytes, at, "[F2]") {
        return Some((4, vec![0x1b, 0x4f, 0x51]));
    }
    if starts_with(bytes, at, "[F3]") {
        return Some((4, vec![0x1b, 0x4f, 0x52]));
    }
    if starts_with(bytes, at, "[F4]") {
        return Some((4, vec![0x1b, 0x4f, 0x53]));
    }
    if starts_with(bytes, at, "[F5]") {
        return Some((4, vec![0x1b, 0x5b, 0x31, 0x35, 0x7e]));
    }
    if starts_with(bytes, at, "[F6]") {
        return Some((4, vec![0x1b, 0x5b, 0x31, 0x37, 0x7e]));
    }
    if starts_with(bytes, at, "[F7]") {
        return Some((4, vec![0x1b, 0x5b, 0x31, 0x38, 0x7e]));
    }
    if starts_with(bytes, at, "[F8]") {
        return Some((4, vec![0x1b, 0x5b, 0x31, 0x39, 0x7e]));
    }
    if starts_with(bytes, at, "[F9]") {
        return Some((4, vec![0x1b, 0x5b, 0x32, 0x30, 0x7e]));
    }
    if starts_with(bytes, at, "[F10]") {
        return Some((5, vec![0x1b, 0x5b, 0x32, 0x31, 0x7e]));
    }
    if starts_with(bytes, at, "[F11]") {
        return Some((5, vec![0x1b, 0x5b, 0x32, 0x33, 0x7e]));
    }
    if starts_with(bytes, at, "[F12]") {
        return Some((5, vec![0x1b, 0x5b, 0x32, 0x34, 0x7e]));
    }
    if starts_with(bytes, at, "[PASTE_START]") {
        return Some((13, vec![0x1b, 0x5b, 0x32, 0x30, 0x30, 0x7e]));
    }
    if starts_with(bytes, at, "[PASTE_END]") {
        return Some((11, vec![0x1b, 0x5b, 0x32, 0x30, 0x31, 0x7e]));
    }
    None
}

fn read_hex_digit(b: u8) -> (value: Option<u8>)
    ensures
        value == hex_value(b),
        value matches Some(v) ==> v < 16,
{
    if 0x30 <= b && b <= 0x39 {
        Some(b - 0x30)
    } else if 0x41 <= b && b <= 0x46 {
        Some(b - 0x37)
    } else if 0x61 <= b && b <= 0x66 {
        Some(b - 0x57)
    } else {
        None
    }
}

/// Finds the control character of a byte that is a letter.
fn read_control(b: u8) -> (value: Option<u8>)
    ensures
        value == if is_letter(b) {
            Some(control(b))
        } else {
            None
        },
{
    if 0x61 <= b && b <= 0x7a {
        Some(b - 0x60)
    } else if 0x41 <= b && b <= 0x5a {
        Some(b - 0x40)
    } else {
        None
    }
}

/// Finds the placeholder that stands in `bytes` at `at`.
fn read_placeholder(bytes: &[u8], at: usize) -> (found: Option<(usize, Vec<u8>)>)
    requires
        at < bytes@.len(),
    ensures
        match found {
            Some((length, sent)) => placeholder(bytes@.skip(at as int)) == Some(
                (length as nat, sent@),
            ),
            None => placeholder(bytes@.skip(at as int)) is None,
        },
        found matches Some((length, _)) ==> 0 < length <= bytes@.len() - at,
{
    let ghost s = bytes@.skip(at as int);
    proof {
        reveal_strlit("[CTRL+");
    }
    let left: usize = bytes.len() - at;
    let first = bytes[at];
    if left >= 2 && first == 0x5e {
        assert(s[1] == bytes@[at + 1]);
        if let Some(c) = read_control(bytes[at + 1]) {
            return Some((2, vec![c]));
        }
    }
    if left >= 2 && first == 0x5c {
        let second = bytes[at + 1];
        assert(s[1] == second);
        if second == 0x6e {
            return Some((2, vec![0x0a]));
        }
        if second == 0x72 {
            return Some((2, vec![0x0d]));
        }
        if second == 0x74 {
            return Some((2, vec![0x09]));
        }
        if left >= 4 && second == 0x78 {
            assert(s[2] == bytes@[at + 2] && s[3] == bytes@[at + 3]);
            if let (Some(high), Some(low)) = (
                read_hex_digit(bytes[at + 2]),
                read_hex_digit(bytes[at + 3]),
            ) {
                return Some((4, vec![high * 16 + low]));
            }
        }
    }
    if starts_with(bytes, at, "[CTRL+") && left >= 8 && bytes[at + 7] == 0x5d {
        assert(s[6] == bytes@[at + 6] && s[7] == bytes@[at + 7]);
        if let Some(c) = read_control(bytes[at + 6]) {
            return Some((8, vec![c]));
        }
    }
    read_named_key(bytes, at)
}

/// Turns the text that a user gives into the bytes that a terminal expects.
pub fn process_special_keys(keys: &str) -> (sent: Vec<u8>)
    ensures
        sent@ == translate(encode_utf8(keys@)),
{
    let bytes = keys.as_bytes();
    let mut sent: Vec<u8> = Vec::new();
    let mut at: usize = 0;
    assert(bytes@.skip(0) =~= bytes@);
    while at < bytes.len()
        invariant
            at <= bytes@.len(),
            sent@ + translate(bytes@.skip(at as int)) == translate(bytes@),
        decreases bytes@.len() - at,
    {
        let ghost before = sent@;
        let ghost s = bytes@.skip(at as int);
        match read_placeholder(bytes, at) {
            Some((length, mut piece)) => {
                assert(s.skip(length as int) =~= bytes@.skip(at + length));
                let ghost added = piece@;
                sent.append(&mut piece);
                at += length;
                assert(sent@ + translate(bytes@.skip(at as int)) =~= before + translate(s));
            },
            None => {
                assert(s.skip(1) =~= bytes@.skip(at + 1));
                sent.push(bytes[at]);
                at += 1;
                assert(sent@ + translate(bytes@.skip(at as int)) =~= before + translate(s));
            },
        }
    }
    assert(bytes@.skip(at as int) =~= Seq::<u8>::empty());
    assert(sent@ =~= translate(bytes@));
    sent
}

/// Text without `^`, `\\` and `[` is sent as it is, whatever comes after it.
pub proof fn plain_text_passes(plain: Seq<u8>, rest: Seq<u8>)
    requires
        forall|i: int|
            0 <= i < plain.len() ==> #[trigger] plain[i] != 0x5e && plain[i] != 0x5c && plain[i] != 0x5b,
    ensures
        translate(plain + rest) == plain + translate(rest),
    decreases plain.len(),
{
    let s = plain + rest;
    if plain.len() == 0 {
        assert(s =~= rest);
        assert(plain + translate(rest) =~= translate(rest));
    } else {
        assert(s[0] == plain[0]);
        lemma_placeholder(s);
        assert(s.skip(1) =~= plain.skip(1) + rest);
        plain_text_passes(plain.skip(1), rest);
        assert(seq![plain[0]] + (plain.skip(1) + translate(rest)) =~= plain + translate(rest));
    }
}

/// Every placeholder begins with `^`, `\\` or `[`, and is no longer than the text that begins with
/// it.
proof fn lemma_placeholder(s: Seq<u8>)
    ensures
        placeholder(s) matches Some((length, _)) ==> {
            &&& 0 < length <= s.len()
            &&& s[0] == 0x5e || s[0] == 0x5c || s[0] == 0x5b
        },
{
    lemma_names();
}

/// A placeholder is no longer than the text that begins with it.
pub proof fn placeholder_fits(s: Seq<u8>)
    ensures
        placeholder(s) matches Some((length, _)) ==> 0 < length <= s.len(),
{
    lemma_placeholder(s);
}

/// A letter in `[CTRL+` and `]` sends the same as `^` and that letter: its control character.
pub proof fn bracketed_control_is_caret(letter: u8, rest: Seq<u8>)
    requires
        is_letter(letter),
    ensures
        translate(seq![0x5b, 0x43, 0x54, 0x52, 0x4c, 0x2b, letter, 0x5d] + rest) == translate(
            seq![0x5e, letter] + rest,
        ),
        translate(seq![0x5e, letter] + rest) == seq![control(letter)] + translate(rest),
{
    reveal_strlit("[CTRL+");
    let bracketed = seq![0x5bu8, 0x43, 0x54, 0x52, 0x4c, 0x2b, letter, 0x5d] + rest;
    let caret = seq![0x5eu8, letter] + rest;
    assert(bracketed.skip(8) =~= rest);
    assert(caret.skip(2) =~= rest);
    assert(starts(bracketed, "[CTRL+"@));
    assert(bracketed[0] == 0x5b && bracketed[6] == letter && bracketed[7] == 0x5d);
    assert(caret[0] == 0x5e && caret[1] == letter);
}

/// A control character is the same for a small letter and its capital.
pub proof fn control_ignores_case(small: u8)
    requires
        0x61 <= small <= 0x7a,
    ensures
        control(small) == control((small - 0x20) as u8),
        1 <= control(small) <= 26,
{
}

/// The names of the keys, letter by letter.
proof fn lemma_names()
    ensures
        "[CTRL+"@ == seq!['[', 'C', 'T', 'R', 'L', '+'],
        "[ENTER]"@ == seq!['[', 'E', 'N', 'T', 'E', 'R', ']'],
        "[TAB]"@ == seq!['[', 'T', 'A', 'B', ']'],
        "[SHIFT+TAB]"@ == seq!['[', 'S', 'H', 'I', 'F', 'T', '+', 'T', 'A', 'B', ']'],
        "[ESCAPE]"@ == seq!['[', 'E', 'S', 'C', 'A', 'P', 'E', ']'],
        "[BACKSPACE]"@ == seq!['[', 'B', 'A', 'C', 'K', 'S', 'P', 'A', 'C', 'E', ']'],
        "[DELETE]"@ == seq!['[', 'D', 'E', 'L', 'E', 'T', 'E', ']'],
        "[UP]"@ == seq!['[', 'U', 'P', ']'],
        "[DOWN]"@ == seq!['[', 'D', 'O', 'W', 'N', ']'],
        "[RIGHT]"@ == seq!['[', 'R', 'I', 'G', 'H', 'T', ']'],
        "[LEFT]"@ == seq!['[', 'L', 'E', 'F', 'T', ']'],
        "[HOME]"@ == seq!['[', 'H', 'O', 'M', 'E', ']'],
        "[END]"@ == seq!['[', 'E', 'N', 'D', ']'],
        "[PGUP]"@ == seq!['[', 'P', 'G', 'U', 'P', ']'],
        "[PGDN]"@ == seq!['[', 'P', 'G', 'D', 'N', ']'],
        "[F1]"@ == seq!['[', 'F', '1', ']'],
        "[F2]"@ == seq!['[', 'F', '2', ']'],
        "[F3]"@ == seq!['[', 'F', '3', ']'],
        "[F4]"@ == seq!['[', 'F', '4', ']'],
        "[F5]"@ == seq!['[', 'F', '5', ']'],
        "[F6]"@ == seq!['[', 'F', '6', ']'],
        "[F7]"@ == seq!['[', 'F', '7', ']'],
        "[F8]"@ == seq!['[', 'F', '8', ']'],
        "[F9]"@ == seq!['[', 'F', '9', ']'],
        "[F10]"@ == seq!['[', 'F', '1', '0', ']'],
        "[F11]"@ == seq!['[', 'F', '1', '1', ']'],
        "[F12]"@ == seq!['[', 'F', '1', '2', ']'],
        "[PASTE_START]"@ == seq!['[', 'P', 'A', 'S', 'T', 'E', '_', 'S', 'T', 'A', 'R', 'T', ']'],
        "[PASTE_END]"@ == seq!['[', 'P', 'A', 'S', 'T', 'E', '_', 'E', 'N', 'D', ']'],
{
    reveal_strlit("[CTRL+");
    reveal_strlit("[ENTER]");
    reveal_strlit("[TAB]");
    reveal_strlit("[SHIFT+TAB]");
    reveal_strlit("[ESCAPE]");
    reveal_strlit("[BACKSPACE]");
    reveal_strlit("[DELETE]");
    reveal_strlit("[UP]");
    reveal_strlit("[DOWN]");
    reveal_strlit("[RIGHT]");
    reveal_strlit("[LEFT]");
    reveal_strlit("[HOME]");
    reveal_strlit("[END]");
    reveal_strlit("[PGUP]");
    reveal_strlit("[PGDN]");
    reveal_strlit("[F1]");
    reveal_strlit("[F2]");
    reveal_strlit("[F3]");
    reveal_strlit("[F4]");
    reveal_strlit("[F5]");
    reveal_strlit("[F6]");
    reveal_strlit("[F7]");
    reveal_strlit("[F8]");
    reveal_strlit("[F9]");
    reveal_strlit("[F10]");
    reveal_strlit("[F11]");
    reveal_strlit("[F12]");
    reveal_strlit("[PASTE_START]");
    reveal_strlit("[PASTE_END]");
    assert("[CTRL+"@ =~= seq!['[', 'C', 'T', 'R', 'L', '+']);
    assert("[ENTER]"@ =~= seq!['[', 'E', 'N', 'T', 'E', 'R', ']']);
    assert("[TAB]"@ =~= seq!['[', 'T', 'A', 'B', ']']);
    assert("[SHIFT+TAB]"@ =~= seq!['[', 'S', 'H', 'I', 'F', 'T', '+', 'T', 'A', 'B', ']']);
    assert("[ESCAPE]"@ =~= seq!['[', 'E', 'S', 'C', 'A', 'P', 'E', ']']);
    assert("[BACKSPACE]"@ =~= seq!['[', 'B', 'A', 'C', 'K', 'S', 'P', 'A', 'C', 'E', ']']);
    assert("[DELETE]"@ =~= seq!['[', 'D', 'E', 'L', 'E', 'T', 'E', ']']);
    assert("[UP]"@ =~= seq!['[', 'U', 'P', ']']);
    assert("[DOWN]"@ =~= seq!['[', 'D', 'O', 'W', 'N', ']']);
    assert("[RIGHT]"@ =~= seq!['[', 'R', 'I', 'G', 'H', 'T', ']']);
    assert("[LEFT]"@ =~= seq!['[', 'L', 'E', 'F', 'T', ']']);
    assert("[HOME]"@ =~= seq!['[', 'H', 'O', 'M', 'E', ']']);
    assert("[END]"@ =~= seq!['[', 'E', 'N', 'D', ']']);
    assert("[PGUP]"@ =~= seq!['[', 'P', 'G', 'U', 'P', ']']);
    assert("[PGDN]"@ =~= seq!['[', 'P', 'G', 'D', 'N', ']']);
    assert("[F1]"@ =~= seq!['[', 'F', '1', ']']);
    assert("[F2]"@ =~= seq!['[', 'F', '2', ']']);
    assert("[F3]"@ =~= seq!['[', 'F', '3', ']']);
    assert("[F4]"@ =~= seq!['[', 'F', '4', ']']);
    assert("[F5]"@ =~= seq!['[', 'F', '5', ']']);
    assert("[F6]"@ =~= seq!['[', 'F', '6', ']']);
    assert("[F7]"@ =~= seq!['[', 'F', '7', ']']);
    assert("[F8]"@ =~= seq!['[', 'F', '8', ']']);
    assert("[F9]"@ =~= seq!['[', 'F', '9', ']']);
    assert("[F10]"@ =~= seq!['[', 'F', '1', '0', ']']);
    assert("[F11]"@ =~= seq!['[', 'F', '1', '1', ']']);
    assert("[F12]"@ =~= seq!['[', 'F', '1', '2', ']']);
    assert("[PASTE_START]"@ =~= seq!['[', 'P', 'A', 'S', 'T', 'E', '_', 'S', 'T', 'A', 'R', 'T', ']']);
    assert("[PASTE_END]"@ =~= seq!['[', 'P', 'A', 'S', 'T', 'E', '_', 'E', 'N', 'D', ']']);
}

proof fn lemma_enter(rest: Seq<u8>)
    ensures
        translate(seq![0x5bu8, 0x45, 0x4e, 0x54, 0x45, 0x52, 0x5d] + rest) == seq![0x0du8] + translate(rest),
{
    lemma_names();
    let name = seq![0x5bu8, 0x45, 0x4e, 0x54, 0x45, 0x52, 0x5d];
    let s = name + rest;
    assert forall|i: int| 0 <= i < 7 implies s[i] == name[i] by {}
    assert(s[0] == 0x5b && s[1] == 0x45 && s[2] == 0x4e && s[3] == 0x54 && s[4] == 0x45 && s[5] == 0x52 && s[6] == 0x5d);
    assert(starts(s, "[ENTER]"@));
    assert(s.skip(7) =~= rest);
}

proof fn lemma_tab(rest: Seq<u8>)
    ensures
        translate(seq![0x5bu8, 0x54, 0x41, 0x42, 0x5d] + rest) == seq![0x09u8] + translate(rest),
{
    lemma_names();
    let name = seq![0x5bu8, 0x54, 0x41, 0x42, 0x5d];
    let s = name + rest;
    assert forall|i: int| 0 <= i < 5 implies s[i] == name[i] by {}
    assert(s[0] == 0x5b && s[1] == 0x54 && s[2] == 0x41 && s[3] == 0x42 && s[4] == 0x5d);
    assert(starts(s, "[TAB]"@));
    assert(s.skip(5) =~= rest);
}

proof fn lemma_shift_tab(rest: Seq<u8>)
    ensures
        translate(seq![0x5bu8, 0x53, 0x48, 0x49, 0x46, 0x54, 0x2b, 0x54, 0x41, 0x42, 0x5d] + rest) == seq![0x1bu8, 0x5b, 0x5a] + translate(rest),
{
    lemma_names();
    let name = seq![0x5bu8, 0x53, 0x48, 0x49, 0x46, 0x54, 0x2b, 0x54, 0x41, 0x42, 0x5d];
    let s = name + rest;
    assert forall|i: int| 0 <= i < 11 implies s[i] == name[i] by {}
    assert(s[0] == 0x5b && s[1] == 0x53 && s[2] == 0x48 && s[3] == 0x49 && s[4] == 0x46 && s[5] == 0x54 && s[6] == 0x2b && s[7] == 0x54 && s[8] == 0x41 && s[9] == 0x42 && s[10] == 0x5d);
    assert(starts(s, "[SHIFT+TAB]"@));
    assert(s.skip(11) =~= rest);
}

proof fn lemma_escape(rest: Seq<u8>)
    ensures
        translate(seq![0x5bu8, 0x45, 0x53, 0x43, 0x41, 0x50, 0x45, 0x5d] + rest) == seq![0x1bu8] + translate(rest),
{
    lemma_names();
    let name = seq![0x5bu8, 0x45, 0x53, 0x43, 0x41, 0x50, 0x45, 0x5d];
    let s = name + rest;
    assert forall|i: int| 0 <= i < 8 implies s[i] == name[i] by {}
    assert(s[0] == 0x5b && s[1] == 0x45 && s[2] == 0x53 && s[3] == 0x43 && s[4] == 0x41 && s[5] == 0x50 && s[6] == 0x45 && s[7] == 0x5d);
    assert(starts(s, "[ESCAPE]"@));
    assert(s.skip(8) =~= rest);
}

proof fn lemma_backspace(rest: Seq<u8>)
    ensures
        translate(seq![0x5bu8, 0x42, 0x41, 0x43, 0x4b, 0x53, 0x50, 0x41, 0x43, 0x45, 0x5d] + rest) == seq![0x7fu8] + translate(rest),
{
    lemma_names();
    let name = seq![0x5bu8, 0x42, 0x41, 0x43, 0x4b, 0x53, 0x50, 0x41, 0x43, 0x45, 0x5d];
    let s = name + rest;
    assert forall|i: int| 0 <= i < 11 implies s[i] == name[i] by {}
    assert(s[0] == 0x5b && s[1] == 0x42 && s[2] == 0x41 && s[3] == 0x43 && s[4] == 0x4b && s[5] == 0x53 && s[6] == 0x50 && s[7] == 0x41 && s[8] == 0x43 && s[9] == 0x45 && s[10] == 0x5d);
    assert(starts(s, "[BACKSPACE]"@));
    assert(s.skip(11) =~= rest);
}

proof fn lemma_delete(rest: Seq<u8>)
    ensures
        translate(seq![0x5bu8, 0x44, 0x45, 0x4c, 0x45, 0x54, 0x45, 0x5d] + rest) == seq![0x1bu8, 0x5b, 0x33, 0x7e] + translate(rest),
{
    lemma_names();
    let name = seq![0x5bu8, 0x44, 0x45, 0x4c, 0x45, 0x54, 0x45, 0x5d];
    let s = name + rest;
    assert forall|i: int| 0 <= i < 8 implies s[i] == name[i] by {}
    assert(s[0] == 0x5b && s[1] == 0x44 && s[2] == 0x45 && s[3] == 0x4c && s[4] == 0x45 && s[5] == 0x54 && s[6] == 0x45 && s[7] == 0x5d);
    assert(starts(s, "[DELETE]"@));
    assert(s.skip(8) =~= rest);
}

proof fn lemma_up(rest: Seq<u8>)
    ensures
        translate(seq![0x5bu8, 0x55, 0x50, 0x5d] + rest) == seq![0x1bu8, 0x5b, 0x41] + translate(rest),
{
    lemma_names();
    let name = seq![0x5bu8, 0x55, 0x50, 0x5d];
    let s = name + rest;
    assert forall|i: int| 0 <= i < 4 implies s[i] == name[i] by {}
    assert(s[0] == 0x5b && s[1] == 0x55 && s[2] == 0x50 && s[3] == 0x5d);
    assert(starts(s, "[UP]"@));
    assert(s.skip(4) =~= rest);
}

proof fn lemma_down(rest: Seq<u8>)
    ensures
        translate(seq![0x5bu8, 0x44, 0x4f, 0x57, 0x4e, 0x5d] + rest) == seq![0x1bu8, 0x5b, 0x42] + translate(rest),
{
    lemma_names();
    let name = seq![0x5bu8, 0x44, 0x4f, 0x57, 0x4e, 0x5d];
    let s = name + rest;
    assert forall|i: int| 0 <= i < 6 implies s[i] == name[i] by {}
    assert(s[0] == 0x5b && s[1] == 0x44 && s[2] == 0x4f && s[3] == 0x57 && s[4] == 0x4e && s[5] == 0x5d);
    assert(starts(s, "[DOWN]"@));
    assert(s.skip(6) =~= rest);
}

proof fn lemma_right(rest: Seq<u8>)
    ensures
        translate(seq![0x5bu8, 0x52, 0x49, 0x47, 0x48, 0x54, 0x5d] + rest) == seq![0x1bu8, 0x5b, 0x43] + translate(rest),
{
    lemma_names();
    let name = seq![0x5bu8, 0x52, 0x49, 0x47, 0x48, 0x54, 0x5d];
    let s = name + rest;
    assert forall|i: int| 0 <= i < 7 implies s[i] == name[i] by {}
    assert(s[0] == 0x5b && s[1] == 0x52 && s[2] == 0x49 && s[3] == 0x47 && s[4] == 0x48 && s[5] == 0x54 && s[6] == 0x5d);
    assert(starts(s, "[RIGHT]"@));
    assert(s.skip(7) =~= rest);
}

proof fn lemma_left(rest: Seq<u8>)
    ensures
        translate(seq![0x5bu8, 0x4c, 0x45, 0x46, 0x54, 0x5d] + rest) == seq![0x1bu8, 0x5b, 0x44] + translate(rest),
{
    lemma_names();
    let name = seq![0x5bu8, 0x4c, 0x45, 0x46, 0x54, 0x5d];
    let s = name + rest;
    assert forall|i: int| 0 <= i < 6 implies s[i] == name[i] by {}
    assert(s[0] == 0x5b && s[1] == 0x4c && s[2] == 0x45 && s[3] == 0x46 && s[4] == 0x54 && s[5] == 0x5d);
    assert(starts(s, "[LEFT]"@));
    assert(s.skip(6) =~= rest);
}

proof fn lemma_home(rest: Seq<u8>)
    ensures
        translate(seq![0x5bu8, 0x48, 0x4f, 0x4d, 0x45, 0x5d] + rest) == seq![0x1bu8, 0x5b, 0x48] + translate(rest),
{
    lemma_names();
    let name = seq![0x5bu8, 0x48, 0x4f, 0x4d, 0x45, 0x5d];
    let s = name + rest;
    assert forall|i: int| 0 <= i < 6 implies s[i] == name[i] by {}
    assert(s[0] == 0x5b && s[1] == 0x48 && s[2] == 0x4f && s[3] == 0x4d && s[4] == 0x45 && s[5] == 0x5d);
    assert(starts(s, "[HOME]"@));
    assert(s.skip(6) =~= rest);
}

proof fn lemma_end(rest: Seq<u8>)
    ensures
        translate(seq![0x5bu8, 0x45, 0x4e, 0x44, 0x5d] + rest) == seq![0x1bu8, 0x5b, 0x46] + translate(rest),
{
    lemma_names();
    let name = seq![0x5bu8, 0x45, 0x4e, 0x44, 0x5d];
    let s = name + rest;
    assert forall|i: int| 0 <= i < 5 implies s[i] == name[i] by {}
    assert(s[0] == 0x5b && s[1] == 0x45 && s[2] == 0x4e && s[3] == 0x44 && s[4] == 0x5d);
    assert(starts(s, "[END]"@));
    assert(s.skip(5) =~= rest);
}

proof fn lemma_pgup(rest: Seq<u8>)
    ensures
        translate(seq![0x5bu8, 0x50, 0x47, 0x55, 0x50, 0x5d] + rest) == seq![0x1bu8, 0x5b, 0x35, 0x7e] + translate(rest),
{
    lemma_names();
    let name = seq![0x5bu8, 0x50, 0x47, 0x55, 0x50, 0x5d];
    let s = name + rest;
    assert forall|i: int| 0 <= i < 6 implies s[i] == name[i] by {}
    assert(s[0] == 0x5b && s[1] == 0x50 && s[2] == 0x47 && s[3] == 0x55 && s[4] == 0x50 && s[5] == 0x5d);
    assert(starts(s, "[PGUP]"@));
    assert(s.skip(6) =~= rest);
}

proof fn lemma_pgdn(rest: Seq<u8>)
    ensures
        translate(seq![0x5bu8, 0x50, 0x47, 0x44, 0x4e, 0x5d] + rest) == seq![0x1bu8, 0x5b, 0x36, 0x7e] + translate(rest),
{
    lemma_names();
    let name = seq![0x5bu8, 0x50, 0x47, 0x44, 0x4e, 0x5d];
    let s = name + rest;
    assert forall|i: int| 0 <= i < 6 implies s[i] == name[i] by {}
    assert(s[0] == 0x5b && s[1] == 0x50 && s[2] == 0x47 && s[3] == 0x44 && s[4] == 0x4e && s[5] == 0x5d);
    assert(starts(s, "[PGDN]"@));
    assert(s.skip(6) =~= rest);
}

proof fn lemma_f1(rest: Seq<u8>)
    ensures
        translate(seq![0x5bu8, 0x46, 0x31, 0x5d] + rest) == seq![0x1bu8, 0x4f, 0x50] + translate(rest),
{
    lemma_names();
    let name = seq![0x5bu8, 0x46, 0x31, 0x5d];
    let s = name + rest;
    assert forall|i: int| 0 <= i < 4 implies s[i] == name[i] by {}
    assert(s[0] == 0x5b && s[1] == 0x46 && s[2] == 0x31 && s[3] == 0x5d);
    assert(starts(s, "[F1]"@));
    assert(s.skip(4) =~= rest);
}

proof fn lemma_f2(rest: Seq<u8>)
    ensures
        translate(seq![0x5bu8, 0x46, 0x32, 0x5d] + rest) == seq![0x1bu8, 0x4f, 0x51] + translate(rest),
{
    lemma_names();
    let name = seq![0x5bu8, 0x46, 0x32, 0x5d];
    let s = name + rest;
    assert forall|i: int| 0 <= i < 4 implies s[i] == name[i] by {}
    assert(s[0] == 0x5b && s[1] == 0x46 && s[2] == 0x32 && s[3] == 0x5d);
    assert(starts(s, "[F2]"@));
    assert(s.skip(4) =~= rest);
}

proof fn lemma_f3(rest: Seq<u8>)
    ensures
        translate(seq![0x5bu8, 0x46, 0x33, 0x5d] + rest) == seq![0x1bu8, 0x4f, 0x52] + translate(rest),
{
    lemma_names();
    let name = seq![0x5bu8, 0x46, 0x33, 0x5d];
    let s = name + rest;
    assert forall|i: int| 0 <= i < 4 implies s[i] == name[i] by {}
    assert(s[0] == 0x5b && s[1] == 0x46 && s[2] == 0x33 && s[3] == 0x5d);
    assert(starts(s, "[F3]"@));
    assert(s.skip(4) =~= rest);
}

proof fn lemma_f4(rest: Seq<u8>)
    ensures
        translate(seq![0x5bu8, 0x46, 0x34, 0x5d] + rest) == seq![0x1bu8, 0x4f, 0x53] + translate(rest),
{
    lemma_names();
    let name = seq![0x5bu8, 0x46, 0x34, 0x5d];
    let s = name + rest;
    assert forall|i: int| 0 <= i < 4 implies s[i] == name[i] by {}
    assert(s[0] == 0x5b && s[1] == 0x46 && s[2] == 0x34 && s[3] == 0x5d);
    assert(starts(s, "[F4]"@));
    assert(s.skip(4) =~= rest);
}

proof fn lemma_f5(rest: Seq<u8>)
    ensures
        translate(seq![0x5bu8, 0x46, 0x35, 0x5d] + rest) == seq![0x1bu8, 0x5b, 0x31, 0x35, 0x7e] + translate(rest),
{
    lemma_names();
    let name = seq![0x5bu8, 0x46, 0x35, 0x5d];
    let s = name + rest;
    assert forall|i: int| 0 <= i < 4 implies s[i] == name[i] by {}
    assert(s[0] == 0x5b && s[1] == 0x46 && s[2] == 0x35 && s[3] == 0x5d);
    assert(starts(s, "[F5]"@));
    assert(s.skip(4) =~= rest);
}

proof fn lemma_f6(rest: Seq<u8>)
    ensures
        translate(seq![0x5bu8, 0x46, 0x36, 0x5d] + rest) == seq![0x1bu8, 0x5b, 0x31, 0x37, 0x7e] + translate(rest),
{
    lemma_names();
    let name = seq![0x5bu8, 0x46, 0x36, 0x5d];
    let s = name + rest;
    assert forall|i: int| 0 <= i < 4 implies s[i] == name[i] by {}
    assert(s[0] == 0x5b && s[1] == 0x46 && s[2] == 0x36 && s[3] == 0x5d);
    assert(starts(s, "[F6]"@));
    assert(s.skip(4) =~= rest);
}

proof fn lemma_f7(rest: Seq<u8>)
    ensures
        translate(seq![0x5bu8, 0x46, 0x37, 0x5d] + rest) == seq![0x1bu8, 0x5b, 0x31, 0x38, 0x7e] + translate(rest),
{
    lemma_names();
    let name = seq![0x5bu8, 0x46, 0x37, 0x5d];
    let s = name + rest;
    assert forall|i: int| 0 <= i < 4 implies s[i] == name[i] by {}
    assert(s[0] == 0x5b && s[1] == 0x46 && s[2] == 0x37 && s[3] == 0x5d);
    assert(starts(s, "[F7]"@));
    assert(s.skip(4) =~= rest);
}

proof fn lemma_f8(rest: Seq<u8>)
    ensures
        translate(seq![0x5bu8, 0x46, 0x38, 0x5d] + rest) == seq![0x1bu8, 0x5b, 0x31, 0x39, 0x7e] + translate(rest),
{
    lemma_names();
    let name = seq![0x5bu8, 0x46, 0x38, 0x5d];
    let s = name + rest;
    assert forall|i: int| 0 <= i < 4 implies s[i] == name[i] by {}
    assert(s[0] == 0x5b && s[1] == 0x46 && s[2] == 0x38 && s[3] == 0x5d);
    assert(starts(s, "[F8]"@));
    assert(s.skip(4) =~= rest);
}

proof fn lemma_f9(rest: Seq<u8>)
    ensures
        translate(seq![0x5bu8, 0x46, 0x39, 0x5d] + rest) == seq![0x1bu8, 0x5b, 0x32, 0x30, 0x7e] + translate(rest),
{
    lemma_names();
    let name = seq![0x5bu8, 0x46, 0x39, 0x5d];
    let s = name + rest;
    assert forall|i: int| 0 <= i < 4 implies s[i] == name[i] by {}
    assert(s[0] == 0x5b && s[1] == 0x46 && s[2] == 0x39 && s[3] == 0x5d);
    assert(starts(s, "[F9]"@));
    assert(s.skip(4) =~= rest);
}

proof fn lemma_f10(rest: Seq<u8>)
    ensures
        translate(seq![0x5bu8, 0x46, 0x31, 0x30, 0x5d] + rest) == seq![0x1bu8, 0x5b, 0x32, 0x31, 0x7e] + translate(rest),
{
    lemma_names();
    let name = seq![0x5bu8, 0x46, 0x31, 0x30, 0x5d];
    let s = name + rest;
    assert forall|i: int| 0 <= i < 5 implies s[i] == name[i] by {}
    assert(s[0] == 0x5b && s[1] == 0x46 && s[2] == 0x31 && s[3] == 0x30 && s[4] == 0x5d);
    assert(starts(s, "[F10]"@));
    assert(s.skip(5) =~= rest);
}

proof fn lemma_f11(rest: Seq<u8>)
    ensures
        translate(seq![0x5bu8, 0x46, 0x31, 0x31, 0x5d] + rest) == seq![0x1bu8, 0x5b, 0x32, 0x33, 0x7e] + translate(rest),
{
    lemma_names();
    let name = seq![0x5bu8, 0x46, 0x31, 0x31, 0x5d];
    let s = name + rest;
    assert forall|i: int| 0 <= i < 5 implies s[i] == name[i] by {}
    assert(s[0] == 0x5b && s[1] == 0x46 && s[2] == 0x31 && s[3] == 0x31 && s[4] == 0x5d);
    assert(starts(s, "[F11]"@));
    assert(s.skip(5) =~= rest);
}

proof fn lemma_f12(rest: Seq<u8>)
    ensures
        translate(seq![0x5bu8, 0x46, 0x31, 0x32, 0x5d] + rest) == seq![0x1bu8, 0x5b, 0x32, 0x34, 0x7e] + translate(rest),
{
    lemma_names();
    let name = seq![0x5bu8, 0x46, 0x31, 0x32, 0x5d];
    let s = name + rest;
    assert forall|i: int| 0 <= i < 5 implies s[i] == name[i] by {}
    assert(s[0] == 0x5b && s[1] == 0x46 && s[2] == 0x31 && s[3] == 0x32 && s[4] == 0x5d);
    assert(starts(s, "[F12]"@));
    assert(s.skip(5) =~= rest);
}

proof fn lemma_paste_start(rest: Seq<u8>)
    ensures
        translate(seq![0x5bu8, 0x50, 0x41, 0x53, 0x54, 0x45, 0x5f, 0x53, 0x54, 0x41, 0x52, 0x54, 0x5d] + rest) == seq![0x1bu8, 0x5b, 0x32, 0x30, 0x30, 0x7e] + translate(rest),
{
    lemma_names();
    let name = seq![0x5bu8, 0x50, 0x41, 0x53, 0x54, 0x45, 0x5f, 0x53, 0x54, 0x41, 0x52, 0x54, 0x5d];
    let s = name + rest;
    assert forall|i: int| 0 <= i < 13 implies s[i] == name[i] by {}
    assert(s[0] == 0x5b && s[1] == 0x50 && s[2] == 0x41 && s[3] == 0x53 && s[4] == 0x54 && s[5] == 0x45 && s[6] == 0x5f && s[7] == 0x53 && s[8] == 0x54 && s[9] == 0x41 && s[10] == 0x52 && s[11] == 0x54 && s[12] == 0x5d);
    assert(starts(s, "[PASTE_START]"@));
    assert(s.skip(13) =~= rest);
}

proof fn lemma_paste_end(rest: Seq<u8>)
    ensures
        translate(seq![0x5bu8, 0x50, 0x41, 0x53, 0x54, 0x45, 0x5f, 0x45, 0x4e, 0x44, 0x5d] + rest) == seq![0x1bu8, 0x5b, 0x32, 0x30, 0x31, 0x7e] + translate(rest),
{
    lemma_names();
    let name = seq![0x5bu8, 0x50, 0x41, 0x53, 0x54, 0x45, 0x5f, 0x45, 0x4e, 0x44, 0x5d];
    let s = name + rest;
    assert forall|i: int| 0 <= i < 11 implies s[i] == name[i] by {}
    assert(s[0] == 0x5b && s[1] == 0x50 && s[2] == 0x41 && s[3] == 0x53 && s[4] == 0x54 && s[5] == 0x45 && s[6] == 0x5f && s[7] == 0x45 && s[8] == 0x4e && s[9] == 0x44 && s[10] == 0x5d);
    assert(starts(s, "[PASTE_END]"@));
    assert(s.skip(11) =~= rest);
}

/// Wherever they stand, the keys `[ENTER]`, `[TAB]`, `[SHIFT+TAB]`, `[ESCAPE]`, `[BACKSPACE]` and `[DELETE]` send their
/// bytes, and what comes after them is translated by itself.
pub proof fn editing_keys_are_sent(rest: Seq<u8>)
    ensures
        // [ENTER]
        translate(seq![0x5bu8, 0x45, 0x4e, 0x54, 0x45, 0x52, 0x5d] + rest) == seq![0x0du8] + translate(rest),
        // [TAB]
        translate(seq![0x5bu8, 0x54, 0x41, 0x42, 0x5d] + rest) == seq![0x09u8] + translate(rest),
        // [SHIFT+TAB]
        translate(seq![0x5bu8, 0x53, 0x48, 0x49, 0x46, 0x54, 0x2b, 0x54, 0x41, 0x42, 0x5d] + rest) == seq![0x1bu8, 0x5b, 0x5a] + translate(rest),
        // [ESCAPE]
        translate(seq![0x5bu8, 0x45, 0x53, 0x43, 0x41, 0x50, 0x45, 0x5d] + rest) == seq![0x1bu8] + translate(rest),
        // [BACKSPACE]
        translate(seq![0x5bu8, 0x42, 0x41, 0x43, 0x4b, 0x53, 0x50, 0x41, 0x43, 0x45, 0x5d] + rest) == seq![0x7fu8] + translate(rest),
        // [DELETE]
        translate(seq![0x5bu8, 0x44, 0x45, 0x4c, 0x45, 0x54, 0x45, 0x5d] + rest) == seq![0x1bu8, 0x5b, 0x33, 0x7e] + translate(rest),
{
    lemma_enter(rest);
    lemma_tab(rest);
    lemma_shift_tab(rest);
    lemma_escape(rest);
    lemma_backspace(rest);
    lemma_delete(rest);
}

/// Wherever they stand, the keys `[UP]`, `[DOWN]`, `[RIGHT]`, `[LEFT]`, `[HOME]`, `[END]`, `[PGUP]` and `[PGDN]` send their
/// bytes, and what comes after them is translated by itself.
pub proof fn moving_keys_are_sent(rest: Seq<u8>)
    ensures
        // [UP]
        translate(seq![0x5bu8, 0x55, 0x50, 0x5d] + rest) == seq![0x1bu8, 0x5b, 0x41] + translate(rest),
        // [DOWN]
        translate(seq![0x5bu8, 0x44, 0x4f, 0x57, 0x4e, 0x5d] + rest) == seq![0x1bu8, 0x5b, 0x42] + translate(rest),
        // [RIGHT]
        translate(seq![0x5bu8, 0x52, 0x49, 0x47, 0x48, 0x54, 0x5d] + rest) == seq![0x1bu8, 0x5b, 0x43] + translate(rest),
        // [LEFT]
        translate(seq![0x5bu8, 0x4c, 0x45, 0x46, 0x54, 0x5d] + rest) == seq![0x1bu8, 0x5b, 0x44] + translate(rest),
        // [HOME]
        translate(seq![0x5bu8, 0x48, 0x4f, 0x4d, 0x45, 0x5d] + rest) == seq![0x1bu8, 0x5b, 0x48] + translate(rest),
        // [END]
        translate(seq![0x5bu8, 0x45, 0x4e, 0x44, 0x5d] + rest) == seq![0x1bu8, 0x5b, 0x46] + translate(rest),
        // [PGUP]
        translate(seq![0x5bu8, 0x50, 0x47, 0x55, 0x50, 0x5d] + rest) == seq![0x1bu8, 0x5b, 0x35, 0x7e] + translate(rest),
        // [PGDN]
        translate(seq![0x5bu8, 0x50, 0x47, 0x44, 0x4e, 0x5d] + rest) == seq![0x1bu8, 0x5b, 0x36, 0x7e] + translate(rest),
{
    lemma_up(rest);
    lemma_down(rest);
    lemma_right(rest);
    lemma_left(rest);
    lemma_home(rest);
    lemma_end(rest);
    lemma_pgup(rest);
    lemma_pgdn(rest);
}

/// Wherever they stand, the keys `[F1]` to `[F12]` send their
/// bytes, and what comes after them is translated by itself.
pub proof fn function_keys_are_sent(rest: Seq<u8>)
    ensures
        // [F1]
        translate(seq![0x5bu8, 0x46, 0x31, 0x5d] + rest) == seq![0x1bu8, 0x4f, 0x50] + translate(rest),
        // [F2]
        translate(seq![0x5bu8, 0x46, 0x32, 0x5d] + rest) == seq![0x1bu8, 0x4f, 0x51] + translate(rest),
        // [F3]
        translate(seq![0x5bu8, 0x46, 0x33, 0x5d] + rest) == seq![0x1bu8, 0x4f, 0x52] + translate(rest),
        // [F4]
        translate(seq![0x5bu8, 0x46, 0x34, 0x5d] + rest) == seq![0x1bu8, 0x4f, 0x53] + translate(rest),
        // [F5]
        translate(seq![0x5bu8, 0x46, 0x35, 0x5d] + rest) == seq![0x1bu8, 0x5b, 0x31, 0x35, 0x7e] + translate(rest),
        // [F6]
        translate(seq![0x5bu8, 0x46, 0x36, 0x5d] + rest) == seq![0x1bu8, 0x5b, 0x31, 0x37, 0x7e] + translate(rest),
        // [F7]
        translate(seq![0x5bu8, 0x46, 0x37, 0x5d] + rest) == seq![0x1bu8, 0x5b, 0x31, 0x38, 0x7e] + translate(rest),
        // [F8]
        translate(seq![0x5bu8, 0x46, 0x38, 0x5d] + rest) == seq![0x1bu8, 0x5b, 0x31, 0x39, 0x7e] + translate(rest),
        // [F9]
        translate(seq![0x5bu8, 0x46, 0x39, 0x5d] + rest) == seq![0x1bu8, 0x5b, 0x32, 0x30, 0x7e] + translate(rest),
        // [F10]
        translate(seq![0x5bu8, 0x46, 0x31, 0x30, 0x5d] + rest) == seq![0x1bu8, 0x5b, 0x32, 0x31, 0x7e] + translate(rest),
        // [F11]
        translate(seq![0x5bu8, 0x46, 0x31, 0x31, 0x5d] + rest) == seq![0x1bu8, 0x5b, 0x32, 0x33, 0x7e] + translate(rest),
        // [F12]
        translate(seq![0x5bu8, 0x46, 0x31, 0x32, 0x5d] + rest) == seq![0x1bu8, 0x5b, 0x32, 0x34, 0x7e] + translate(rest),
{
    lemma_f1(rest);
    lemma_f2(rest);
    lemma_f3(rest);
    lemma_f4(rest);
    lemma_f5(rest);
    lemma_f6(rest);
    lemma_f7(rest);
    lemma_f8(rest);
    lemma_f9(rest);
    lemma_f10(rest);
    lemma_f11(rest);
    lemma_f12(rest);
}

/// Wherever they stand, the keys `[PASTE_START]` and `[PASTE_END]` send their
/// bytes, and what comes after them is translated by itself.
pub proof fn paste_marks_are_sent(rest: Seq<u8>)
    ensures
        // [PASTE_START]
        translate(seq![0x5bu8, 0x50, 0x41, 0x53, 0x54, 0x45, 0x5f, 0x53, 0x54, 0x41, 0x52, 0x54, 0x5d] + rest) == seq![0x1bu8, 0x5b, 0x32, 0x30, 0x30, 0x7e] + translate(rest),
        // [PASTE_END]
        translate(seq![0x5bu8, 0x50, 0x41, 0x53, 0x54, 0x45, 0x5f, 0x45, 0x4e, 0x44, 0x5d] + rest) == seq![0x1bu8, 0x5b, 0x32, 0x30, 0x31, 0x7e] + translate(rest),
{
    lemma_paste_start(rest);
    lemma_paste_end(rest);
}

/// Text that begins with a name begins with the bytes that spell it.
proof fn lemma_begun(s: Seq<u8>, name: Seq<char>, bytes: Seq<u8>)
    requires
        name.len() == bytes.len(),
        forall|i: int| 0 <= i < name.len() ==> name[i] as u8 == #[trigger] bytes[i],
    ensures
        starts(s, name) ==> s.len() >= bytes.len() && s.take(bytes.len() as int) == bytes,
{
    if starts(s, name) {
        assert(s.take(bytes.len() as int) =~= bytes);
    }
}

/// Nothing sends nothing.
pub proof fn nothing_sends_nothing()
    ensures
        translate(Seq::<u8>::empty()) == Seq::<u8>::empty(),
{
}

/// Wherever they stand, the escapes `\\n`, `\\r` and `\\t` send a line feed, a carriage return and a
/// tab, and what comes after them is translated by itself.
pub proof fn escapes_are_sent(rest: Seq<u8>)
    ensures
        translate(seq![0x5cu8, 0x6e] + rest) == seq![0x0au8] + translate(rest),
        translate(seq![0x5cu8, 0x72] + rest) == seq![0x0du8] + translate(rest),
        translate(seq![0x5cu8, 0x74] + rest) == seq![0x09u8] + translate(rest),
{
    assert((seq![0x5cu8, 0x6e] + rest).skip(2) =~= rest);
    assert((seq![0x5cu8, 0x72] + rest).skip(2) =~= rest);
    assert((seq![0x5cu8, 0x74] + rest).skip(2) =~= rest);
}

/// Wherever it stands, `\\x` and two hexadecimal digits, small or capital, send the byte that the
/// digits spell, and what comes after them is translated by itself.
pub proof fn hexadecimal_bytes_are_sent(a: u8, b: u8, high: u8, low: u8, rest: Seq<u8>)
    requires
        0x30 <= a <= 0x39 && high == a - 0x30 || 0x41 <= a <= 0x46 && high == a - 0x37 || 0x61 <= a
            <= 0x66 && high == a - 0x57,
        0x30 <= b <= 0x39 && low == b - 0x30 || 0x41 <= b <= 0x46 && low == b - 0x37 || 0x61 <= b
            <= 0x66 && low == b - 0x57,
    ensures
        translate(seq![0x5cu8, 0x78, a, b] + rest) == seq![(high * 16 + low) as u8] + translate(rest),
{
    let s = seq![0x5cu8, 0x78, a, b] + rest;
    assert(s[0] == 0x5c && s[1] == 0x78 && s[2] == a && s[3] == b);
    assert(s.skip(4) =~= rest);
}

/// Wherever they stand, `^` and the letter number `k`, and that letter in `[CTRL+` and `]`, small or
/// capital, send the control character number `k`, and what comes after them is translated by
/// itself.
pub proof fn control_characters_are_sent(k: u8, rest: Seq<u8>)
    requires
        1 <= k <= 26,
    ensures
        translate(seq![0x5eu8, (0x40 + k) as u8] + rest) == seq![k] + translate(rest),
        translate(seq![0x5eu8, (0x60 + k) as u8] + rest) == seq![k] + translate(rest),
        translate(
            seq![0x5bu8, 0x43, 0x54, 0x52, 0x4c, 0x2b, (0x40 + k) as u8, 0x5d] + rest,
        ) == seq![k] + translate(rest),
        translate(
            seq![0x5bu8, 0x43, 0x54, 0x52, 0x4c, 0x2b, (0x60 + k) as u8, 0x5d] + rest,
        ) == seq![k] + translate(rest),
{
    bracketed_control_is_caret((0x40 + k) as u8, rest);
    bracketed_control_is_caret((0x60 + k) as u8, rest);
}

/// A byte with which no placeholder begins is sent as it is, and what comes after it is translated
/// by itself.
pub proof fn anything_else_passes(s: Seq<u8>)
    requires
        s.len() > 0,
        // `^` and a letter
        !(s.len() >= 2 && s[0] == 0x5e && (0x41 <= s[1] <= 0x5a || 0x61 <= s[1] <= 0x7a)),
        // an escape
        !(s.len() >= 2 && s[0] == 0x5c && (s[1] == 0x6e || s[1] == 0x72 || s[1] == 0x74)),
        // `\\x` and two hexadecimal digits
        !(s.len() >= 4 && s[0] == 0x5c && s[1] == 0x78 && (0x30 <= s[2] <= 0x39 || 0x41 <= s[2]
            <= 0x46 || 0x61 <= s[2] <= 0x66) && (0x30 <= s[3] <= 0x39 || 0x41 <= s[3] <= 0x46
            || 0x61 <= s[3] <= 0x66)),
        // a letter in `[CTRL+` and `]`
        !(s.len() >= 8 && s.take(6) == seq![0x5bu8, 0x43, 0x54, 0x52, 0x4c, 0x2b] && (0x41 <= s[6]
            <= 0x5a || 0x61 <= s[6] <= 0x7a) && s[7] == 0x5d),
        // [ENTER]
        !(s.len() >= 7 && s.take(7) == seq![0x5bu8, 0x45, 0x4e, 0x54, 0x45, 0x52, 0x5d]),
        // [TAB]
        !(s.len() >= 5 && s.take(5) == seq![0x5bu8, 0x54, 0x41, 0x42, 0x5d]),
        // [SHIFT+TAB]
        !(s.len() >= 11 && s.take(11) == seq![0x5bu8, 0x53, 0x48, 0x49, 0x46, 0x54, 0x2b, 0x54, 0x41, 0x42, 0x5d]),
        // [ESCAPE]
        !(s.len() >= 8 && s.take(8) == seq![0x5bu8, 0x45, 0x53, 0x43, 0x41, 0x50, 0x45, 0x5d]),
        // [BACKSPACE]
        !(s.len() >= 11 && s.take(11) == seq![0x5bu8, 0x42, 0x41, 0x43, 0x4b, 0x53, 0x50, 0x41, 0x43, 0x45, 0x5d]),
        // [DELETE]
        !(s.len() >= 8 && s.take(8) == seq![0x5bu8, 0x44, 0x45, 0x4c, 0x45, 0x54, 0x45, 0x5d]),
        // [UP]
        !(s.len() >= 4 && s.take(4) == seq![0x5bu8, 0x55, 0x50, 0x5d]),
        // [DOWN]
        !(s.len() >= 6 && s.take(6) == seq![0x5bu8, 0x44, 0x4f, 0x57, 0x4e, 0x5d]),
        // [RIGHT]
        !(s.len() >= 7 && s.take(7) == seq![0x5bu8, 0x52, 0x49, 0x47, 0x48, 0x54, 0x5d]),
        // [LEFT]
        !(s.len() >= 6 && s.take(6) == seq![0x5bu8, 0x4c, 0x45, 0x46, 0x54, 0x5d]),
        // [HOME]
        !(s.len() >= 6 && s.take(6) == seq![0x5bu8, 0x48, 0x4f, 0x4d, 0x45, 0x5d]),
        // [END]
        !(s.len() >= 5 && s.take(5) == seq![0x5bu8, 0x45, 0x4e, 0x44, 0x5d]),
        // [PGUP]
        !(s.len() >= 6 && s.take(6) == seq![0x5bu8, 0x50, 0x47, 0x55, 0x50, 0x5d]),
        // [PGDN]
        !(s.len() >= 6 && s.take(6) == seq![0x5bu8, 0x50, 0x47, 0x44, 0x4e, 0x5d]),
        // [F1]
        !(s.len() >= 4 && s.take(4) == seq![0x5bu8, 0x46, 0x31, 0x5d]),
        // [F2]
        !(s.len() >= 4 && s.take(4) == seq![0x5bu8, 0x46, 0x32, 0x5d]),
        // [F3]
        !(s.len() >= 4 && s.take(4) == seq![0x5bu8, 0x46, 0x33, 0x5d]),
        // [F4]
        !(s.len() >= 4 && s.take(4) == seq![0x5bu8, 0x46, 0x34, 0x5d]),
        // [F5]
        !(s.len() >= 4 && s.take(4) == seq![0x5bu8, 0x46, 0x35, 0x5d]),
        // [F6]
        !(s.len() >= 4 && s.take(4) == seq![0x5bu8, 0x46, 0x36, 0x5d]),
        // [F7]
        !(s.len() >= 4 && s.take(4) == seq![0x5bu8, 0x46, 0x37, 0x5d]),
        // [F8]
        !(s.len() >= 4 && s.take(4) == seq![0x5bu8, 0x46, 0x38, 0x5d]),
        // [F9]
        !(s.len() >= 4 && s.take(4) == seq![0x5bu8, 0x46, 0x39, 0x5d]),
        // [F10]
        !(s.len() >= 5 && s.take(5) == seq![0x5bu8, 0x46, 0x31, 0x30, 0x5d]),
        // [F11]
        !(s.len() >= 5 && s.take(5) == seq![0x5bu8, 0x46, 0x31, 0x31, 0x5d]),
        // [F12]
        !(s.len() >= 5 && s.take(5) == seq![0x5bu8, 0x46, 0x31, 0x32, 0x5d]),
        // [PASTE_START]
        !(s.len() >= 13 && s.take(13) == seq![0x5bu8, 0x50, 0x41, 0x53, 0x54, 0x45, 0x5f, 0x53, 0x54, 0x41, 0x52, 0x54, 0x5d]),
        // [PASTE_END]
        !(s.len() >= 11 && s.take(11) == seq![0x5bu8, 0x50, 0x41, 0x53, 0x54, 0x45, 0x5f, 0x45, 0x4e, 0x44, 0x5d]),
    ensures
        translate(s) == seq![s[0]] + translate(s.skip(1)),
{
    assert(!starts(s, "[CTRL+"@) || (s.len() >= 6 && s.take(6) == seq![0x5bu8, 0x43, 0x54, 0x52, 0x4c, 0x2b])) by {
        reveal_strlit("[CTRL+");
        lemma_begun(s, "[CTRL+"@, seq![0x5bu8, 0x43, 0x54, 0x52, 0x4c, 0x2b]);
    }
    assert(!starts(s, "[ENTER]"@) || (s.len() >= 7 && s.take(7) == seq![0x5bu8, 0x45, 0x4e, 0x54, 0x45, 0x52, 0x5d])) by {
        reveal_strlit("[ENTER]");
        lemma_begun(s, "[ENTER]"@, seq![0x5bu8, 0x45, 0x4e, 0x54, 0x45, 0x52, 0x5d]);
    }
    assert(!starts(s, "[TAB]"@) || (s.len() >= 5 && s.take(5) == seq![0x5bu8, 0x54, 0x41, 0x42, 0x5d])) by {
        reveal_strlit("[TAB]");
        lemma_begun(s, "[TAB]"@, seq![0x5bu8, 0x54, 0x41, 0x42, 0x5d]);
    }
    assert(!starts(s, "[SHIFT+TAB]"@) || (s.len() >= 11 && s.take(11) == seq![0x5bu8, 0x53, 0x48, 0x49, 0x46, 0x54, 0x2b, 0x54, 0x41, 0x42, 0x5d])) by {
        reveal_strlit("[SHIFT+TAB]");
        lemma_begun(s, "[SHIFT+TAB]"@, seq![0x5bu8, 0x53, 0x48, 0x49, 0x46, 0x54, 0x2b, 0x54, 0x41, 0x42, 0x5d]);
    }
    assert(!starts(s, "[ESCAPE]"@) || (s.len() >= 8 && s.take(8) == seq![0x5bu8, 0x45, 0x53, 0x43, 0x41, 0x50, 0x45, 0x5d])) by {
        reveal_strlit("[ESCAPE]");
        lemma_begun(s, "[ESCAPE]"@, seq![0x5bu8, 0x45, 0x53, 0x43, 0x41, 0x50, 0x45, 0x5d]);
    }
    assert(!starts(s, "[BACKSPACE]"@) || (s.len() >= 11 && s.take(11) == seq![0x5bu8, 0x42, 0x41, 0x43, 0x4b, 0x53, 0x50, 0x41, 0x43, 0x45, 0x5d])) by {
        reveal_strlit("[BACKSPACE]");
        lemma_begun(s, "[BACKSPACE]"@, seq![0x5bu8, 0x42, 0x41, 0x43, 0x4b, 0x53, 0x50, 0x41, 0x43, 0x45, 0x5d]);
    }
    assert(!starts(s, "[DELETE]"@) || (s.len() >= 8 && s.take(8) == seq![0x5bu8, 0x44, 0x45, 0x4c, 0x45, 0x54, 0x45, 0x5d])) by {
        reveal_strlit("[DELETE]");
        lemma_begun(s, "[DELETE]"@, seq![0x5bu8, 0x44, 0x45, 0x4c, 0x45, 0x54, 0x45, 0x5d]);
    }
    assert(!starts(s, "[UP]"@) || (s.len() >= 4 && s.take(4) == seq![0x5bu8, 0x55, 0x50, 0x5d])) by {
        reveal_strlit("[UP]");
        lemma_begun(s, "[UP]"@, seq![0x5bu8, 0x55, 0x50, 0x5d]);
    }
    assert(!starts(s, "[DOWN]"@) || (s.len() >= 6 && s.take(6) == seq![0x5bu8, 0x44, 0x4f, 0x57, 0x4e, 0x5d])) by {
        reveal_strlit("[DOWN]");
        lemma_begun(s, "[DOWN]"@, seq![0x5bu8, 0x44, 0x4f, 0x57, 0x4e, 0x5d]);
    }
    assert(!starts(s, "[RIGHT]"@) || (s.len() >= 7 && s.take(7) == seq![0x5bu8, 0x52, 0x49, 0x47, 0x48, 0x54, 0x5d])) by {
        reveal_strlit("[RIGHT]");
        lemma_begun(s, "[RIGHT]"@, seq![0x5bu8, 0x52, 0x49, 0x47, 0x48, 0x54, 0x5d]);
    }
    assert(!starts(s, "[LEFT]"@) || (s.len() >= 6 && s.take(6) == seq![0x5bu8, 0x4c, 0x45, 0x46, 0x54, 0x5d])) by {
        reveal_strlit("[LEFT]");
        lemma_begun(s, "[LEFT]"@, seq![0x5bu8, 0x4c, 0x45, 0x46, 0x54, 0x5d]);
    }
    assert(!starts(s, "[HOME]"@) || (s.len() >= 6 && s.take(6) == seq![0x5bu8, 0x48, 0x4f, 0x4d, 0x45, 0x5d])) by {
        reveal_strlit("[HOME]");
        lemma_begun(s, "[HOME]"@, seq![0x5bu8, 0x48, 0x4f, 0x4d, 0x45, 0x5d]);
    }
    assert(!starts(s, "[END]"@) || (s.len() >= 5 && s.take(5) == seq![0x5bu8, 0x45, 0x4e, 0x44, 0x5d])) by {
        reveal_strlit("[END]");
        lemma_begun(s, "[END]"@, seq![0x5bu8, 0x45, 0x4e, 0x44, 0x5d]);
    }
    assert(!starts(s, "[PGUP]"@) || (s.len() >= 6 && s.take(6) == seq![0x5bu8, 0x50, 0x47, 0x55, 0x50, 0x5d])) by {
        reveal_strlit("[PGUP]");
        lemma_begun(s, "[PGUP]"@, seq![0x5bu8, 0x50, 0x47, 0x55, 0x50, 0x5d]);
    }
    assert(!starts(s, "[PGDN]"@) || (s.len() >= 6 && s.take(6) == seq![0x5bu8, 0x50, 0x47, 0x44, 0x4e, 0x5d])) by {
        reveal_strlit("[PGDN]");
        lemma_begun(s, "[PGDN]"@, seq![0x5bu8, 0x50, 0x47, 0x44, 0x4e, 0x5d]);
    }
    assert(!starts(s, "[F1]"@) || (s.len() >= 4 && s.take(4) == seq![0x5bu8, 0x46, 0x31, 0x5d])) by {
        reveal_strlit("[F1]");
        lemma_begun(s, "[F1]"@, seq![0x5bu8, 0x46, 0x31, 0x5d]);
    }
    assert(!starts(s, "[F2]"@) || (s.len() >= 4 && s.take(4) == seq![0x5bu8, 0x46, 0x32, 0x5d])) by {
        reveal_strlit("[F2]");
        lemma_begun(s, "[F2]"@, seq![0x5bu8, 0x46, 0x32, 0x5d]);
    }
    assert(!starts(s, "[F3]"@) || (s.len() >= 4 && s.take(4) == seq![0x5bu8, 0x46, 0x33, 0x5d])) by {
        reveal_strlit("[F3]");
        lemma_begun(s, "[F3]"@, seq![0x5bu8, 0x46, 0x33, 0x5d]);
    }
    assert(!starts(s, "[F4]"@) || (s.len() >= 4 && s.take(4) == seq![0x5bu8, 0x46, 0x34, 0x5d])) by {
        reveal_strlit("[F4]");
        lemma_begun(s, "[F4]"@, seq![0x5bu8, 0x46, 0x34, 0x5d]);
    }
    assert(!starts(s, "[F5]"@) || (s.len() >= 4 && s.take(4) == seq![0x5bu8, 0x46, 0x35, 0x5d])) by {
        reveal_strlit("[F5]");
        lemma_begun(s, "[F5]"@, seq![0x5bu8, 0x46, 0x35, 0x5d]);
    }
    assert(!starts(s, "[F6]"@) || (s.len() >= 4 && s.take(4) == seq![0x5bu8, 0x46, 0x36, 0x5d])) by {
        reveal_strlit("[F6]");
        lemma_begun(s, "[F6]"@, seq![0x5bu8, 0x46, 0x36, 0x5d]);
    }
    assert(!starts(s, "[F7]"@) || (s.len() >= 4 && s.take(4) == seq![0x5bu8, 0x46, 0x37, 0x5d])) by {
        reveal_strlit("[F7]");
        lemma_begun(s, "[F7]"@, seq![0x5bu8, 0x46, 0x37, 0x5d]);
    }
    assert(!starts(s, "[F8]"@) || (s.len() >= 4 && s.take(4) == seq![0x5bu8, 0x46, 0x38, 0x5d])) by {
        reveal_strlit("[F8]");
        lemma_begun(s, "[F8]"@, seq![0x5bu8, 0x46, 0x38, 0x5d]);
    }
    assert(!starts(s, "[F9]"@) || (s.len() >= 4 && s.take(4) == seq![0x5bu8, 0x46, 0x39, 0x5d])) by {
        reveal_strlit("[F9]");
        lemma_begun(s, "[F9]"@, seq![0x5bu8, 0x46, 0x39, 0x5d]);
    }
    assert(!starts(s, "[F10]"@) || (s.len() >= 5 && s.take(5) == seq![0x5bu8, 0x46, 0x31, 0x30, 0x5d])) by {
        reveal_strlit("[F10]");
        lemma_begun(s, "[F10]"@, seq![0x5bu8, 0x46, 0x31, 0x30, 0x5d]);
    }
    assert(!starts(s, "[F11]"@) || (s.len() >= 5 && s.take(5) == seq![0x5bu8, 0x46, 0x31, 0x31, 0x5d])) by {
        reveal_strlit("[F11]");
        lemma_begun(s, "[F11]"@, seq![0x5bu8, 0x46, 0x31, 0x31, 0x5d]);
    }
    assert(!starts(s, "[F12]"@) || (s.len() >= 5 && s.take(5) == seq![0x5bu8, 0x46, 0x31, 0x32, 0x5d])) by {
        reveal_strlit("[F12]");
        lemma_begun(s, "[F12]"@, seq![0x5bu8, 0x46, 0x31, 0x32, 0x5d]);
    }
    assert(!starts(s, "[PASTE_START]"@) || (s.len() >= 13 && s.take(13) == seq![0x5bu8, 0x50, 0x41, 0x53, 0x54, 0x45, 0x5f, 0x53, 0x54, 0x41, 0x52, 0x54, 0x5d])) by {
        reveal_strlit("[PASTE_START]");
        lemma_begun(s, "[PASTE_START]"@, seq![0x5bu8, 0x50, 0x41, 0x53, 0x54, 0x45, 0x5f, 0x53, 0x54, 0x41, 0x52, 0x54, 0x5d]);
    }
    assert(!starts(s, "[PASTE_END]"@) || (s.len() >= 11 && s.take(11) == seq![0x5bu8, 0x50, 0x41, 0x53, 0x54, 0x45, 0x5f, 0x45, 0x4e, 0x44, 0x5d])) by {
        reveal_strlit("[PASTE_END]");
        lemma_begun(s, "[PASTE_END]"@, seq![0x5bu8, 0x50, 0x41, 0x53, 0x54, 0x45, 0x5f, 0x45, 0x4e, 0x44, 0x5d]);
    }
}

} // verus!
