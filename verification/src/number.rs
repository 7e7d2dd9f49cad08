use vstd::prelude::*;
use vstd::std_specs::iter::IteratorSpec;

verus! {

/// The character that stands for a digit below ten.
pub open spec fn digit_char(d: nat) -> char {
    (d + 48) as u8 as char
}

/// A number in decimal notation, without a sign or leading zeros.
pub open spec fn decimal(n: nat) -> Seq<char>
    decreases n,
{
    if n < 10 {
        seq![digit_char(n)]
    } else {
        decimal(n / 10).push(digit_char(n % 10))
    }
}

/// Gives a digit below ten as a text of one character.
fn digit_str(d: usize) -> (text: &'static str)
    requires
        d < 10,
    ensures
        text@ == seq![digit_char(d as nat)],
{
    proof {
        reveal_strlit("0");
        reveal_strlit("1");
        reveal_strlit("2");
        reveal_strlit("3");
        reveal_strlit("4");
        reveal_strlit("5");
        reveal_strlit("6");
        reveal_strlit("7");
        reveal_strlit("8");
        reveal_strlit("9");
    }
    let text = match d {
        0 => "0",
        1 => "1",
        2 => "2",
        3 => "3",
        4 => "4",
        5 => "5",
        6 => "6",
        7 => "7",
        8 => "8",
        _ => "9",
    };
    assert(text@ =~= seq![digit_char(d as nat)]);
    text
}

/// Writes a number in decimal notation.
pub fn decimal_string(n: usize) -> (text: String)
    ensures
        text@ == decimal(n as nat),
    decreases n,
{
    if n < 10 {
        String::from_str(digit_str(n))
    } else {
        let mut text = decimal_string(n / 10);
        text.append(digit_str(n % 10));
        text
    }
}

/// Tells whether a character is one of the ten decimal digits.
pub open spec fn is_digit(c: char) -> bool {
    48 <= c as u32 <= 57
}

/// The number that a decimal digit stands for.
pub open spec fn digit_value(c: char) -> nat {
    (c as u32 - 48) as nat
}

/// The number that a run of decimal digits stands for; leading zeros count
/// for nothing.
pub open spec fn digits_value(digits: Seq<char>) -> nat
    decreases digits.len(),
{
    if digits.len() == 0 {
        0
    } else {
        digits_value(digits.drop_last()) * 10 + digit_value(digits.last())
    }
}

/// A text without the one plus sign that may precede a number.
pub open spec fn unsigned_part(text: Seq<char>) -> Seq<char> {
    if text.len() > 0 && text[0] == '+' {
        text.drop_first()
    } else {
        text
    }
}

/// The position that a text stands for: one or more decimal digits, which
/// one plus sign may precede, and nothing else. A text of any other shape
/// stands for none, nor does a number too large for a position.
pub open spec fn index_of_text(text: Seq<char>) -> Option<usize> {
    let digits = unsigned_part(text);
    if digits.len() > 0 && (forall|i: int| 0 <= i < digits.len() ==> is_digit(digits[i]))
        && digits_value(digits) <= usize::MAX {
        Some(digits_value(digits) as usize)
    } else {
        None
    }
}

/// A run of digits stands for no less than any of its beginnings.
pub proof fn lemma_digits_value_grows(digits: Seq<char>, k: int)
    requires
        0 <= k <= digits.len(),
    ensures
        digits_value(digits.take(k)) <= digits_value(digits),
    decreases digits.len() - k,
{
    if k == digits.len() {
        assert(digits.take(k) == digits);
    } else {
        lemma_digits_value_grows(digits.drop_last(), k);
        assert(digits.drop_last().take(k) == digits.take(k));
    }
}

/// Reads a position in a list from its text.
pub fn parse_index(text: &str) -> (index: Option<usize>)
    ensures
        index == index_of_text(text@),
{
    let length = text.unicode_len();
    let digits = if length > 0 && text.get_char(0) == '+' {
        text.substring_char(1, length)
    } else {
        text
    };
    let total = digits.unicode_len();
    if total == 0 {
        return None;
    }
    let mut chars = digits.chars();
    let mut seen: usize = 0;
    let mut value: usize = 0;
    loop
        invariant
            digits@ == unsigned_part(text@),
            total == digits@.len(),
            seen <= total,
            total > 0,
            chars.remaining() == digits@.skip(seen as int),
            forall|j: int| 0 <= j < seen ==> is_digit(digits@[j]),
            value == digits_value(digits@.take(seen as int)),
        decreases total - seen,
    {
        match chars.next() {
            Some(c) => {
                let code = c as u32;
                if code < 48 || code > 57 {
                    assert(!is_digit(digits@[seen as int]));
                    return None;
                }
                proof {
                    let longer = digits@.take(seen + 1);
                    assert(longer.drop_last() == digits@.take(seen as int));
                    assert(longer.last() == c);
                    lemma_digits_value_grows(digits@, seen + 1);
                }
                let digit = (code - 48) as usize;
                match value.checked_mul(10) {
                    Some(tens) => match tens.checked_add(digit) {
                        Some(next) => {
                            value = next;
                        },
                        None => {
                            return None;
                        },
                    },
                    None => {
                        return None;
                    },
                }
                seen = seen + 1;
            },
            None => {
                assert(digits@.take(seen as int) == digits@);
                return Some(value);
            },
        }
    }
}

} // verus!
