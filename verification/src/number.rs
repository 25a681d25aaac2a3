//! Unsigned numbers written in decimal: printing and parsing.
use crate::text::chars_of;
use vstd::prelude::*;

verus! {

/// Why a text is no number that fits 32 bits.
#[derive(Debug, Clone, Copy, PartialEq, Eq, Structural)]
pub enum NumberFault {
    /// The text is empty.
    Empty,
    /// The text holds something other than digits after an optional `+`,
    /// or no digit at all.
    InvalidDigit,
    /// The digits stand for a number above `u32::MAX`.
    Overflow,
}

/// The words for a fault.
pub open spec fn fault_text(fault: NumberFault) -> Seq<char> {
    match fault {
        NumberFault::Empty => "cannot parse integer from empty string"@,
        NumberFault::InvalidDigit => "invalid digit found in string"@,
        NumberFault::Overflow => "number too large to fit in target type"@,
    }
}

impl NumberFault {
    /// Says in words what is wrong.
    pub fn describe(&self) -> (words: &'static str)
        ensures
            words@ == fault_text(*self),
    {
        match self {
            NumberFault::Empty => "cannot parse integer from empty string",
            NumberFault::InvalidDigit => "invalid digit found in string",
            NumberFault::Overflow => "number too large to fit in target type",
        }
    }
}

/// Whether `c` is one of `0` to `9`.
pub open spec fn is_digit(c: char) -> bool {
    '0' <= c && c <= '9'
}

/// The number that a digit stands for.
pub open spec fn digit_value(c: char) -> nat
    recommends
        is_digit(c),
{
    (c as int - '0' as int) as nat
}

/// The digit that stands for a number below ten.
pub open spec fn digit_char(d: nat) -> char
    recommends
        d < 10,
{
    ('0' as int + d) as char
}

/// A number in decimal, without sign or leading zeros.
pub open spec fn decimal(n: nat) -> Seq<char>
    decreases n,
{
    if n < 10 {
        seq![digit_char(n)]
    } else {
        decimal(n / 10).push(digit_char(n % 10))
    }
}

/// The number that a sequence of digits stands for; leading zeros count
/// for nothing, and no digits stand for zero.
pub open spec fn digits_value(digits: Seq<char>) -> nat
    decreases digits.len(),
{
    if digits.len() == 0 {
        0
    } else {
        digits_value(digits.drop_last()) * 10 + digit_value(digits.last())
    }
}

/// How many digits a text begins with.
pub open spec fn digit_run(text: Seq<char>) -> nat
    decreases text.len(),
{
    if text.len() == 0 || !is_digit(text[0]) {
        0
    } else {
        1 + digit_run(text.skip(1))
    }
}

/// The text without one leading `+`, if it has one.
pub open spec fn unsigned_part(text: Seq<char>) -> Seq<char> {
    if text.len() > 0 && text[0] == '+' {
        text.skip(1)
    } else {
        text
    }
}

/// What a text means as a 32-bit unsigned number. A number is an optional
/// `+` and then one digit or more, with nothing before, between or after.
/// The digits that the text begins with decide between the two other
/// faults: once they stand for too large a number the fault is
/// [`NumberFault::Overflow`], whatever follows them.
pub open spec fn parsed_number(text: Seq<char>) -> Result<u32, NumberFault> {
    let body = unsigned_part(text);
    let run = body.take(digit_run(body) as int);
    if text.len() == 0 {
        Err(NumberFault::Empty)
    } else if digits_value(run) > u32::MAX {
        Err(NumberFault::Overflow)
    } else if body.len() == 0 || run.len() < body.len() {
        Err(NumberFault::InvalidDigit)
    } else {
        Ok(digits_value(run) as u32)
    }
}

proof fn lemma_digit_run_bounds(text: Seq<char>)
    ensures
        digit_run(text) <= text.len(),
        forall|j: int| 0 <= j < digit_run(text) ==> is_digit(#[trigger] text[j]),
        digit_run(text) < text.len() ==> !is_digit(text[digit_run(text) as int]),
    decreases text.len(),
{
    if text.len() != 0 && is_digit(text[0]) {
        let rest = text.skip(1);
        lemma_digit_run_bounds(rest);
        assert forall|j: int| 0 <= j < digit_run(text) implies is_digit(#[trigger] text[j]) by {
            if j > 0 {
                assert(text[j] == rest[j - 1]);
            }
        }
        if digit_run(text) < text.len() {
            assert(text[digit_run(text) as int] == rest[digit_run(rest) as int]);
        }
    }
}

/// A text that begins with `count` digits, and then ends or goes on with
/// something else, has a run of exactly `count` digits.
proof fn lemma_digit_run_is(text: Seq<char>, count: int)
    requires
        0 <= count <= text.len(),
        forall|j: int| 0 <= j < count ==> is_digit(#[trigger] text[j]),
        count < text.len() ==> !is_digit(text[count]),
    ensures
        digit_run(text) == count,
{
    lemma_digit_run_bounds(text);
    let run = digit_run(text) as int;
    if run < count {
        assert(is_digit(text[run]));
    } else if run > count {
        assert(is_digit(text[count]));
    }
}

/// A text that begins with `count` digits has a run of `count` or more.
proof fn lemma_digit_run_at_least(text: Seq<char>, count: int)
    requires
        0 <= count <= text.len(),
        forall|j: int| 0 <= j < count ==> is_digit(#[trigger] text[j]),
    ensures
        digit_run(text) >= count,
{
    lemma_digit_run_bounds(text);
    let run = digit_run(text) as int;
    if run < count {
        assert(is_digit(text[run]));
    }
}

/// More digits never stand for less.
proof fn lemma_value_grows(digits: Seq<char>, shorter: int, longer: int)
    requires
        0 <= shorter <= longer <= digits.len(),
    ensures
        digits_value(digits.take(shorter)) <= digits_value(digits.take(longer)),
    decreases longer - shorter,
{
    if shorter < longer {
        lemma_value_grows(digits, shorter, longer - 1);
        assert(digits.take(longer).drop_last() =~= digits.take(longer - 1));
    }
}

/// The character for a number below ten.
fn digit_of(d: u8) -> (c: char)
    requires
        d < 10,
    ensures
        c == digit_char(d as nat),
{
    (48u8 + d) as char
}

/// Appends `n` in decimal to `out`.
fn push_decimal(out: &mut String, n: u32)
    ensures
        final(out)@ == old(out)@ + decimal(n as nat),
    decreases n,
{
    if n >= 10 {
        push_decimal(out, n / 10);
    }
    out.push(digit_of((n % 10) as u8));
    proof {
        let before = old(out)@;
        if n >= 10 {
            assert((before + decimal((n / 10) as nat)).push(digit_char((n % 10) as nat)) =~= before
                + decimal(n as nat));
        } else {
            assert(before.push(digit_char(n as nat)) =~= before + decimal(n as nat));
        }
    }
}

/// Writes a number in decimal.
pub fn to_decimal(n: u32) -> (text: String)
    ensures
        text@ == decimal(n as nat),
{
    let mut text = String::new();
    push_decimal(&mut text, n);
    assert(Seq::<char>::empty() + decimal(n as nat) =~= decimal(n as nat));
    text
}

/// Reads a 32-bit unsigned number written in decimal.
pub fn parse_number(text: &str) -> (outcome: Result<u32, NumberFault>)
    ensures
        outcome == parsed_number(text@),
{
    let chars = chars_of(text);
    if chars.len() == 0 {
        return Err(NumberFault::Empty);
    }
    let start: usize = if chars[0] == '+' { 1 } else { 0 };
    let ghost body = unsigned_part(text@);
    assert(body == text@.skip(start as int));
    if start == chars.len() {
        assert(body.take(digit_run(body) as int) =~= Seq::<char>::empty());
        return Err(NumberFault::InvalidDigit);
    }
    let mut value: u32 = 0;
    let mut k: usize = start;
    assert(body.take(0) =~= Seq::<char>::empty());
    while k < chars.len()
        invariant
            start <= k <= chars.len(),
            start < chars.len(),
            chars@ == text@,
            body == unsigned_part(text@),
            body == text@.skip(start as int),
            forall|j: int| 0 <= j < k - start ==> is_digit(#[trigger] body[j]),
            value == digits_value(body.take(k - start)),
        decreases chars.len() - k,
    {
        let c = chars[k];
        assert(c == body[k - start]);
        if !('0' <= c && c <= '9') {
            proof {
                lemma_digit_run_is(body, k - start);
            }
            return Err(NumberFault::InvalidDigit);
        }
        let d: u32 = c as u32 - 48;
        let ghost longer = body.take(k - start + 1);
        proof {
            assert(longer.drop_last() =~= body.take(k - start));
            assert(digits_value(longer) == value * 10 + d);
        }
        let next = match value.checked_mul(10) {
            Some(tens) => tens.checked_add(d),
            None => None,
        };
        match next {
            Some(v) => {
                value = v;
            },
            None => {
                proof {
                    lemma_digit_run_at_least(body, k - start + 1);
                    lemma_digit_run_bounds(body);
                    lemma_value_grows(body.take(digit_run(body) as int), k - start + 1, digit_run(body) as int);
                    assert(body.take(digit_run(body) as int).take(k - start + 1) =~= longer);
                    assert(body.take(digit_run(body) as int).take(digit_run(body) as int)
                        =~= body.take(digit_run(body) as int));
                }
                return Err(NumberFault::Overflow);
            },
        }
        k += 1;
    }
    proof {
        lemma_digit_run_is(body, body.len() as int);
        assert(body.take(body.len() as int) =~= body);
    }
    Ok(value)
}

/// A number that was written in decimal is read back as itself.
pub proof fn lemma_decimal_round_trip(n: u32)
    ensures
        parsed_number(decimal(n as nat)) == Ok::<u32, NumberFault>(n),
{
    let text = decimal(n as nat);
    lemma_decimal_digits(n as nat);
    assert(unsigned_part(text) == text);
    lemma_digit_run_is(text, text.len() as int);
    assert(text.take(text.len() as int) =~= text);
}

/// The decimal form of a number is made of digits, one at least, and
/// stands for that number.
pub proof fn lemma_decimal_digits(n: nat)
    ensures
        decimal(n).len() >= 1,
        forall|j: int| 0 <= j < decimal(n).len() ==> is_digit(#[trigger] decimal(n)[j]),
        digits_value(decimal(n)) == n,
    decreases n,
{
    if n < 10 {
        assert(decimal(n).drop_last() =~= Seq::<char>::empty());
        assert(digits_value(decimal(n).drop_last()) == 0);
        assert(digit_value(decimal(n).last()) == n);
    } else {
        lemma_decimal_digits(n / 10);
        assert(decimal(n).drop_last() =~= decimal(n / 10));
        assert(digit_value(decimal(n).last()) == n % 10);
    }
}

} // verus!
