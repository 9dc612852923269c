//! Numbers written in decimal digits: reading the numeric fields of a record
//! and writing the identity of a new account.

use vstd::prelude::*;

verus! {

/// Whether a character is one of the ten decimal digits.
pub open spec fn is_digit(c: char) -> bool {
    '0' <= c && c <= '9'
}

/// The number that a decimal digit stands for.
pub open spec fn digit_of(c: char) -> nat {
    (c as int - '0' as int) as nat
}

/// The decimal digit that stands for a number below ten.
pub open spec fn digit_char(d: nat) -> char {
    ('0' as int + d) as char
}

/// Whether every character is a decimal digit.
pub open spec fn all_digits(s: Seq<char>) -> bool {
    forall|i: int| 0 <= i < s.len() ==> is_digit(#[trigger] s[i])
}

/// The number that a run of decimal digits stands for, the most significant
/// digit first.
pub open spec fn value_of(digits: Seq<char>) -> nat
    decreases digits.len(),
{
    if digits.len() == 0 {
        0
    } else {
        value_of(digits.drop_last()) * 10 + digit_of(digits.last())
    }
}

/// A field without the plus sign that may lead it.
pub open spec fn unsigned(field: Seq<char>) -> Seq<char> {
    if field.len() > 0 && field[0] == '+' {
        field.skip(1)
    } else {
        field
    }
}

/// Whether a field is a number: at least one decimal digit and nothing else,
/// but for a plus sign that may lead it.
pub open spec fn is_number(field: Seq<char>) -> bool {
    unsigned(field).len() > 0 && all_digits(unsigned(field))
}

/// The identity that a numeric field of a record holds: its value where the
/// field is a number that fits in 32 bits, and 0 otherwise.
pub open spec fn id_of(field: Seq<char>) -> u32 {
    if is_number(field) && value_of(unsigned(field)) <= u32::MAX {
        value_of(unsigned(field)) as u32
    } else {
        0
    }
}

/// A number written in decimal digits, without sign or leading zeros.
pub open spec fn decimal(n: nat) -> Seq<char>
    decreases n,
{
    if n < 10 {
        seq![digit_char(n)]
    } else {
        decimal(n / 10).push(digit_char(n % 10))
    }
}

/// A longer run of digits stands for a number at least as large as any of
/// its beginnings.
pub proof fn lemma_value_grows(digits: Seq<char>, k: int)
    requires
        0 <= k <= digits.len(),
    ensures
        value_of(digits.take(k)) <= value_of(digits),
    decreases digits.len() - k,
{
    if k == digits.len() {
        assert(digits.take(k) == digits);
    } else {
        lemma_value_grows(digits.drop_last(), k);
        assert(digits.drop_last().take(k) == digits.take(k));
    }
}

/// What is written for a number consists of digits only, at least one.
pub proof fn lemma_decimal_digits(n: nat)
    ensures
        decimal(n).len() > 0,
        all_digits(decimal(n)),
        unsigned(decimal(n)) == decimal(n),
        !decimal(n).contains(':'),
        !decimal(n).contains('\n'),
        !decimal(n).contains('\r'),
    decreases n,
{
    if n >= 10 {
        lemma_decimal_digits(n / 10);
        let front = decimal(n / 10);
        assert(decimal(n)[0] == front[0]);
    }
    assert(is_digit(decimal(n)[0]));
    let text = decimal(n);
    assert forall|c: char| text.contains(c) implies is_digit(c) by {
        let i = choose|i: int| 0 <= i < text.len() && text[i] == c;
        assert(is_digit(text[i]));
    }
}

/// Reading what was written for a number gives the number back.
pub proof fn lemma_value_decimal(n: nat)
    ensures
        value_of(decimal(n)) == n,
    decreases n,
{
    if n < 10 {
        let text = seq![digit_char(n)];
        assert(text.drop_last() == Seq::<char>::empty());
        assert(value_of(text.drop_last()) == 0);
    } else {
        lemma_value_decimal(n / 10);
        let text = decimal(n / 10).push(digit_char(n % 10));
        assert(text.drop_last() == decimal(n / 10));
    }
}

/// An identity that fits in 32 bits is read back from its decimal form.
pub proof fn lemma_id_of_decimal(n: nat)
    requires
        n <= u32::MAX,
    ensures
        id_of(decimal(n)) == n,
{
    lemma_decimal_digits(n);
    lemma_value_decimal(n);
}

/// Reads a numeric field of a record.
pub fn parse_id(field: &[char]) -> (id: u32)
    ensures
        id == id_of(field@),
{
    let start: usize = if field.len() > 0 && field[0] == '+' {
        1
    } else {
        0
    };
    let ghost digits = unsigned(field@);
    assert(digits == field@.skip(start as int));
    if start == field.len() {
        return 0;
    }
    let mut value: u64 = 0;
    let mut i: usize = start;
    while i < field.len()
        invariant
            start <= i <= field.len(),
            digits == unsigned(field@),
            digits == field@.skip(start as int),
            all_digits(digits.take(i - start)),
            value == value_of(digits.take(i - start)),
            value <= u32::MAX,
        decreases field.len() - i,
    {
        let c = field[i];
        let ghost seen = digits.take(i - start + 1);
        assert(seen.drop_last() == digits.take(i - start));
        assert(seen.last() == c);
        if c < '0' || c > '9' {
            assert(!is_digit(digits[i - start]));
            return 0;
        }
        assert(all_digits(seen)) by {
            assert forall|j: int| 0 <= j < seen.len() implies is_digit(#[trigger] seen[j]) by {
                if j < seen.len() - 1 {
                    assert(seen[j] == digits.take(i - start)[j]);
                }
            }
        }
        let d: u64 = (c as u32 - '0' as u32) as u64;
        value = value * 10 + d;
        if value > 0xffff_ffff {
            proof {
                lemma_value_grows(digits, i - start + 1);
            }
            return 0;
        }
        i += 1;
    }
    assert(digits.take(i - start) == digits);
    value as u32
}

/// The decimal digit for a number below ten.
fn digit(d: u8) -> (c: char)
    requires
        d < 10,
    ensures
        c == digit_char(d as nat),
{
    (48u8 + d) as char
}

/// Writes a number in decimal digits.
pub fn format_decimal(n: u128) -> (out: Vec<char>)
    ensures
        out@ == decimal(n as nat),
    decreases n,
{
    if n < 10 {
        let mut out: Vec<char> = Vec::new();
        out.push(digit(n as u8));
        out
    } else {
        let mut out = format_decimal(n / 10);
        out.push(digit((n % 10) as u8));
        out
    }
}

} // verus!
