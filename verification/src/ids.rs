//! Session ids: `pty-` followed by a decimal number, and how they are ordered.

use vstd::prelude::*;
use vstd::string::*;

verus! {

/// The id of a session.
pub type SessionId = String;

/// The character that writes the digit `d` in base ten.
pub open spec fn digit_char(d: int) -> char {
    (d + 48) as char
}

/// The decimal spelling of `n`, most significant digit first and without leading zeros.
pub open spec fn decimal(n: nat) -> Seq<char>
    decreases n,
{
    if n < 10 {
        seq![digit_char(n as int)]
    } else {
        decimal(n / 10).push(digit_char((n % 10) as int))
    }
}

/// Whether `c` is one of `0` to `9`.
pub open spec fn is_digit(c: char) -> bool {
    '0' <= c <= '9'
}

/// The number that a run of decimal digits spells.
pub open spec fn digits_value(s: Seq<char>) -> nat
    decreases s.len(),
{
    if s.len() == 0 {
        0
    } else {
        digits_value(s.drop_last()) * 10 + (s.last() as nat - 48) as nat
    }
}

/// The digits that are left once an optional leading `+` is taken off.
pub open spec fn unsigned_digits(s: Seq<char>) -> Seq<char> {
    if s.len() > 0 && s[0] == '+' {
        s.skip(1)
    } else {
        s
    }
}

/// The `u64` that `s` spells: an optional `+`, then at least one digit and nothing else, with a
/// value that fits.
pub open spec fn parse_u64(s: Seq<char>) -> Option<u64> {
    let digits = unsigned_digits(s);
    if digits.len() > 0 && (forall|i: int| 0 <= i < digits.len() ==> is_digit(#[trigger] digits[i]))
        && digits_value(digits) <= u64::MAX {
        Some(digits_value(digits) as u64)
    } else {
        None
    }
}

/// The id that session number `n` is given.
pub open spec fn id_text(n: nat) -> Seq<char> {
    "pty-"@ + decimal(n)
}

/// The number by which an id is ordered: what follows `pty-`, or zero where the id does not have
/// that form.
pub open spec fn id_number(id: Seq<char>) -> u64 {
    if "pty-"@.is_prefix_of(id) {
        match parse_u64(id.skip("pty-"@.len() as int)) {
            Some(n) => n,
            None => 0,
        }
    } else {
        0
    }
}

fn digit_str(d: u64) -> (text: &'static str)
    requires
        d < 10,
    ensures
        text@ == seq![digit_char(d as int)],
{
    proof {
        reveal_strlit("0");
        reveal_strlit("1");
        reveal_strlit("2");
        reveal_strlit("3");
        reveal_strlit("4");
        reveal_strlit("5");
        reveal_strlit("6");
        reveal_strlit("7");
        reveal_strlit("8");
        reveal_strlit("9");
    }
    match d {
        0 => "0",
        1 => "1",
        2 => "2",
        3 => "3",
        4 => "4",
        5 => "5",
        6 => "6",
        7 => "7",
        8 => "8",
        _ => "9",
    }
}

/// Writes `n` in base ten.
pub fn decimal_string(n: u64) -> (text: String)
    ensures
        text@ == decimal(n as nat),
    decreases n,
{
    if n < 10 {
        digit_str(n).to_owned()
    } else {
        let mut text = decimal_string(n / 10);
        text.append(digit_str(n % 10));
        text
    }
}

/// Writes the id of session number `n`.
pub fn session_id(n: u64) -> (id: SessionId)
    ensures
        id@ == id_text(n as nat),
{
    let mut id = "pty-".to_owned();
    let digits = decimal_string(n);
    id.append(digits.as_str());
    id
}

/// Collects the characters of `s`.
fn chars_of(s: &str) -> (chars: Vec<char>)
    ensures
        chars@ == s@,
{
    let mut chars: Vec<char> = Vec::new();
    for c in it: s.chars()
        invariant
            chars@ == s@.take(it.index()),
            it.seq() == s@,
    {
        chars.push(c);
    }
    chars
}

/// Extending a run of digits never makes the number that it spells smaller.
proof fn lemma_digits_value_grows(s: Seq<char>, k: int)
    requires
        0 <= k <= s.len(),
        forall|i: int| 0 <= i < s.len() ==> is_digit(#[trigger] s[i]),
    ensures
        digits_value(s.take(k)) <= digits_value(s),
    decreases s.len(),
{
    if k == s.len() {
        assert(s.take(k) =~= s);
    } else {
        let shorter = s.drop_last();
        lemma_digits_value_grows(shorter, k);
        assert(shorter.take(k) =~= s.take(k));
    }
}

/// Reads a `u64` from the characters of `chars` at and after `from`.
fn parse_digits(chars: &Vec<char>, from: usize) -> (number: Option<u64>)
    requires
        from <= chars@.len(),
    ensures
        number == parse_u64(chars@.skip(from as int)),
{
    let ghost text = chars@.skip(from as int);
    let ghost digits = unsigned_digits(text);
    let mut start: usize = from;
    if start < chars.len() && chars[start] == '+' {
        start += 1;
    }
    assert(digits =~= chars@.skip(start as int));
    if start == chars.len() {
        return None;
    }
    let mut total: u64 = 0;
    let mut i: usize = start;
    while i < chars.len()
        invariant
            start <= i <= chars@.len(),
            digits == chars@.skip(start as int),
            text == chars@.skip(from as int),
            digits == unsigned_digits(text),
            total == digits_value(digits.take(i - start)),
            forall|j: int| 0 <= j < i - start ==> is_digit(#[trigger] digits[j]),
        decreases chars@.len() - i,
    {
        let c = chars[i];
        assert(digits[i - start] == c);
        if !('0' <= c && c <= '9') {
            assert(!is_digit(digits[i - start]));
            return None;
        }
        let d: u64 = (c as u32 - 48) as u64;
        let ghost longer = digits.take(i - start + 1);
        assert(longer.drop_last() =~= digits.take(i - start));
        assert(digits_value(longer) == total * 10 + d);
        if total > (u64::MAX - d) / 10 {
            proof {
                if forall|j: int| 0 <= j < digits.len() ==> is_digit(#[trigger] digits[j]) {
                    lemma_digits_value_grows(digits, i - start + 1);
                }
            }
            return None;
        }
        total = total * 10 + d;
        i += 1;
    }
    assert(digits.take(i - start) =~= digits);
    Some(total)
}

/// Reads the number by which an id is ordered.
pub fn session_number(id: &str) -> (number: u64)
    ensures
        number == id_number(id@),
{
    proof {
        reveal_strlit("pty-");
    }
    let chars = chars_of(id);
    if chars.len() >= 4 && chars[0] == 'p' && chars[1] == 't' && chars[2] == 'y' && chars[3] == '-' {
        assert("pty-"@.is_prefix_of(id@));
        match parse_digits(&chars, 4) {
            Some(n) => n,
            None => 0,
        }
    } else {
        assert(!"pty-"@.is_prefix_of(id@)) by {
            if "pty-"@.is_prefix_of(id@) {
                assert(id@[0] == "pty-"@[0]);
                assert(id@[1] == "pty-"@[1]);
                assert(id@[2] == "pty-"@[2]);
                assert(id@[3] == "pty-"@[3]);
            }
        }
        0
    }
}

proof fn lemma_decimal(n: nat)
    ensures
        decimal(n).len() > 0,
        digits_value(decimal(n)) == n,
        forall|i: int| 0 <= i < decimal(n).len() ==> is_digit(#[trigger] decimal(n)[i]),
    decreases n,
{
    if n < 10 {
        assert(decimal(n).drop_last() =~= Seq::<char>::empty());
        assert(digits_value(Seq::<char>::empty()) == 0);
        assert(digits_value(decimal(n)) == n);
    } else {
        lemma_decimal(n / 10);
        assert(decimal(n).drop_last() =~= decimal(n / 10));
        let last = digit_char((n % 10) as int);
        assert(decimal(n).last() == last);
        assert(digits_value(decimal(n)) == (n / 10) * 10 + n % 10);
        assert forall|i: int| 0 <= i < decimal(n).len() implies is_digit(#[trigger] decimal(n)[i]) by {
            if i < decimal(n / 10).len() {
                assert(decimal(n)[i] == decimal(n / 10)[i]);
            }
        }
    }
}

/// Ordering by id number orders the ids that the server gives out by when they were given out:
/// the id of session `n` has the number `n`.
pub proof fn id_number_of_id_text(n: u64)
    ensures
        id_number(id_text(n as nat)) == n,
{
    let digits = decimal(n as nat);
    let id = id_text(n as nat);
    lemma_decimal(n as nat);
    assert(id.skip("pty-"@.len() as int) =~= digits);
    assert("pty-"@.is_prefix_of(id));
    assert(is_digit(digits[0]));
    assert(unsigned_digits(digits) == digits);
}

/// Two different session numbers are given two different ids.
pub proof fn ids_differ(m: nat, n: nat)
    requires
        m != n,
    ensures
        id_text(m) != id_text(n),
{
    lemma_decimal(m);
    lemma_decimal(n);
    assert(id_text(m).skip("pty-"@.len() as int) =~= decimal(m));
    assert(id_text(n).skip("pty-"@.len() as int) =~= decimal(n));
}

/// The ids are `pty-0` to `pty-9`, and the id of a number with more digits is that of the number
/// without its last digit, and then that digit.
pub proof fn ids_are_spelled_in_base_ten(n: nat, d: nat)
    requires
        d < 10,
    ensures
        id_text(d) == seq!['p', 't', 'y', '-', (48 + d) as char],
        n > 0 ==> id_text(n * 10 + d) == id_text(n).push((48 + d) as char),
        id_text(1) == seq!['p', 't', 'y', '-', '1'],
{
    reveal_strlit("pty-");
    assert(id_text(d) =~= seq!['p', 't', 'y', '-', (48 + d) as char]);
    assert(id_text(1) =~= seq!['p', 't', 'y', '-', '1']);
    if n > 0 {
        let m = n * 10 + d;
        assert(m / 10 == n && m % 10 == d);
        assert(id_text(m) =~= id_text(n).push((48 + d) as char));
    }
}

/// Numbers are spelled in base ten, without leading zeros.
pub proof fn numbers_are_spelled_in_base_ten(n: nat, d: nat)
    requires
        d < 10,
    ensures
        decimal(d) == seq![(48 + d) as char],
        n > 0 ==> decimal(n * 10 + d) == decimal(n).push((48 + d) as char),
{
    if n > 0 {
        let m = n * 10 + d;
        assert(m / 10 == n && m % 10 == d);
    }
}

/// An id that does not begin with `pty-`, or goes on with anything but digits behind one optional
/// `+`, has the number zero.
pub proof fn other_ids_have_the_number_zero(id: Seq<char>, i: int)
    requires
        !(id.len() >= 4 && id[0] == 'p' && id[1] == 't' && id[2] == 'y' && id[3] == '-') || (5 <= i
            < id.len() && !('0' <= id[i] <= '9')) || id.len() == 4,
    ensures
        id_number(id) == 0,
{
    reveal_strlit("pty-");
    if "pty-"@.is_prefix_of(id) {
        assert(id[0] == "pty-"@[0] && id[1] == "pty-"@[1] && id[2] == "pty-"@[2] && id[3]
            == "pty-"@[3]);
        let text = id.skip(4);
        let digits = unsigned_digits(text);
        if 5 <= i < id.len() {
            let j = i - 4 - (text.len() - digits.len());
            assert(digits[j] == id[i]);
            assert(!is_digit(digits[j]));
        }
    }
}

} // verus!
