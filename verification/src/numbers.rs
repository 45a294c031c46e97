//! Numbers as decimal text.
use vstd::prelude::*;

verus! {

/// The character of a decimal digit.
pub open spec fn digit_char(d: nat) -> char {
    (d + 48) as char
}

/// A character is a decimal digit.
pub open spec fn is_digit(c: char) -> bool {
    48 <= c as nat <= 57
}

/// The decimal text of a number: its digits, the most significant first.
pub open spec fn decimal_text(n: nat) -> Seq<char>
    decreases n,
{
    if n < 10 {
        seq![digit_char(n)]
    } else {
        decimal_text(n / 10).push(digit_char(n % 10))
    }
}

/// The number that digits stand for, or nothing where a character is no digit.
/// No digits stand for zero.
pub open spec fn digits_value(digits: Seq<char>) -> Option<nat>
    decreases digits.len(),
{
    if digits.len() == 0 {
        Some(0)
    } else {
        match digits_value(digits.drop_last()) {
            Some(v) => if is_digit(digits.last()) {
                Some(10 * v + (digits.last() as nat - 48) as nat)
            } else {
                None
            },
            None => None,
        }
    }
}

/// The number that a text stands for: at least one digit, after a plus sign or
/// after nothing.
pub open spec fn parsed_number(text: Seq<char>) -> Option<nat> {
    let digits = if text.len() > 0 && text[0] == '+' {
        text.drop_first()
    } else {
        text
    };
    if digits.len() == 0 {
        None
    } else {
        digits_value(digits)
    }
}

/// The first digits of a text stand for a number, and for no larger one than
/// the whole text, where the whole text stands for one.
pub proof fn lemma_digits_value_prefix(digits: Seq<char>, n: int)
    requires
        0 <= n <= digits.len(),
        digits_value(digits) is Some,
    ensures
        digits_value(digits.take(n)) is Some,
        digits_value(digits.take(n)).unwrap() <= digits_value(digits).unwrap(),
    decreases digits.len(),
{
    if n == digits.len() {
        assert(digits.take(n) =~= digits);
    } else {
        lemma_digits_value_prefix(digits.drop_last(), n);
        assert(digits.drop_last().take(n) =~= digits.take(n));
    }
}

/// The text of one decimal digit.
fn digit_str(d: usize) -> (text: &'static str)
    requires
        d < 10,
    ensures
        text@ == seq![digit_char(d as nat)],
{
    proof {
        reveal_strlit("0");
        reveal_strlit("1");
        reveal_strlit("2");
        reveal_strlit("3");
        reveal_strlit("4");
        reveal_strlit("5");
        reveal_strlit("6");
        reveal_strlit("7");
        reveal_strlit("8");
        reveal_strlit("9");
    }
    let text = if d == 0 {
        "0"
    } else if d == 1 {
        "1"
    } else if d == 2 {
        "2"
    } else if d == 3 {
        "3"
    } else if d == 4 {
        "4"
    } else if d == 5 {
        "5"
    } else if d == 6 {
        "6"
    } else if d == 7 {
        "7"
    } else if d == 8 {
        "8"
    } else {
        "9"
    };
    proof {
        assert(text@ =~= seq![digit_char(d as nat)]);
    }
    text
}

/// Writes a number as decimal text.
pub fn decimal_string(n: usize) -> (text: String)
    ensures
        text@ == decimal_text(n as nat),
    decreases n,
{
    if n < 10 {
        String::from_str(digit_str(n))
    } else {
        let text = decimal_string(n / 10).concat(digit_str(n % 10));
        proof {
            assert(text@ =~= decimal_text(n as nat));
        }
        text
    }
}

/// The decimal text of an integer: a minus sign before the digits of a
/// negative one.
pub open spec fn signed_decimal_text(n: int) -> Seq<char> {
    if n < 0 {
        seq!['-'] + decimal_text((-n) as nat)
    } else {
        decimal_text(n as nat)
    }
}

/// Writes an integer as decimal text.
pub fn signed_decimal_string(n: i32) -> (text: String)
    ensures
        text@ == signed_decimal_text(n as int),
{
    if n < 0 {
        proof {
            reveal_strlit("-");
            assert("-"@ =~= seq!['-']);
        }
        let size: usize = (-(n as i64)) as usize;
        String::from_str("-").concat(decimal_string(size).as_str())
    } else {
        decimal_string(n as usize)
    }
}

/// Reads the characters of `text` from `from` up to `to` as a number of at
/// most `max`.
///
/// Gives nothing exactly when those characters stand for no number or for a
/// larger one.
pub fn parse_number_in(text: &str, from: usize, to: usize, max: u64) -> (value: Option<u64>)
    requires
        from <= to <= text@.len(),
    ensures
        match value {
            Some(v) => parsed_number(text@.subrange(from as int, to as int)) == Some(v as nat) && v
                <= max,
            None => match parsed_number(text@.subrange(from as int, to as int)) {
                Some(v) => v > max,
                None => true,
            },
        },
{
    let ghost part = text@.subrange(from as int, to as int);
    let mut start: usize = from;
    if start < to && text.get_char(start) == '+' {
        start = start + 1;
    }
    if start == to {
        return None;
    }
    let ghost digits = text@.subrange(start as int, to as int);
    proof {
        if start == from {
            assert(digits =~= part);
        } else {
            assert(digits =~= part.drop_first());
        }
        assert(digits.take(0) =~= Seq::<char>::empty());
        assert(parsed_number(part) == digits_value(digits));
    }
    let mut value: u64 = 0;
    let mut i: usize = start;
    while i < to
        invariant
            from <= start <= i <= to <= text@.len(),
            digits == text@.subrange(start as int, to as int),
            parsed_number(text@.subrange(from as int, to as int)) == digits_value(digits),
            digits_value(digits.take(i - start)) == Some(value as nat),
            value <= max,
        decreases to - i,
    {
        let c: char = text.get_char(i);
        proof {
            assert(digits.take(i - start + 1).drop_last() =~= digits.take(i - start));
            assert(digits.take(i - start + 1).last() == c);
        }
        if c < '0' || c > '9' {
            proof {
                assert(digits_value(digits.take(i - start + 1)) is None);
                if digits_value(digits) is Some {
                    lemma_digits_value_prefix(digits, i - start + 1);
                }
            }
            return None;
        }
        let d: u64 = (c as u32 - 48) as u64;
        if d > max || value > (max - d) / 10 {
            proof {
                assert(10 * value + d > max);
                if digits_value(digits) is Some {
                    lemma_digits_value_prefix(digits, i - start + 1);
                }
            }
            return None;
        }
        value = 10 * value + d;
        i = i + 1;
    }
    proof {
        assert(digits.take(to - start) =~= digits);
    }
    Some(value)
}

/// Reads a text as a number of at most `max`.
///
/// Gives nothing exactly when the text stands for no number or for a larger one.
pub fn parse_number(text: &str, max: u64) -> (value: Option<u64>)
    ensures
        match value {
            Some(v) => parsed_number(text@) == Some(v as nat) && v <= max,
            None => match parsed_number(text@) {
                Some(v) => v > max,
                None => true,
            },
        },
{
    let len: usize = text.unicode_len();
    proof {
        assert(text@.subrange(0, len as int) =~= text@);
    }
    parse_number_in(text, 0, len, max)
}

} // verus!
