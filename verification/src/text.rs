//! Decimal notation for the numbers that appear in messages, and the
//! notation of an identifier as the text of a UUID.

use vstd::prelude::*;
use vstd::string::*;

verus! {

/// The character of the decimal digit `d`.
pub open spec fn digit_char(d: int) -> char {
    if d == 0 {
        '0'
    } else if d == 1 {
        '1'
    } else if d == 2 {
        '2'
    } else if d == 3 {
        '3'
    } else if d == 4 {
        '4'
    } else if d == 5 {
        '5'
    } else if d == 6 {
        '6'
    } else if d == 7 {
        '7'
    } else if d == 8 {
        '8'
    } else {
        '9'
    }
}

/// The decimal digits of a natural number, without leading zeros.
pub open spec fn decimal_of_nat(n: nat) -> Seq<char>
    decreases n,
{
    if n < 10 {
        seq![digit_char(n as int)]
    } else {
        decimal_of_nat(n / 10).push(digit_char((n % 10) as int))
    }
}

/// The decimal notation of an integer: a minus sign if it is negative, then
/// the digits of its magnitude.
pub open spec fn decimal(n: int) -> Seq<char> {
    if n < 0 {
        seq!['-'] + decimal_of_nat((-n) as nat)
    } else {
        decimal_of_nat(n as nat)
    }
}

/// The one-character text of the digit `d`.
fn digit_text(d: u64) -> (r: &'static str)
    requires
        d < 10,
    ensures
        r@ == seq![digit_char(d as int)],
{
    let digits: &'static str = "0123456789";
    proof {
        reveal_strlit("0123456789");
    }
    let r = digits.substring_ascii(d as usize, d as usize + 1);
    assert(r@ =~= seq![digit_char(d as int)]);
    r
}

/// Appends the decimal digits of `n` to `out`.
fn push_digits(out: &mut String, n: u64)
    ensures
        final(out)@ == old(out)@ + decimal_of_nat(n as nat),
    decreases n,
{
    if n >= 10 {
        push_digits(out, n / 10);
    }
    out.append(digit_text(n % 10));
    assert(final(out)@ =~= old(out)@ + decimal_of_nat(n as nat));
}

/// Appends the decimal notation of `n` to `out`.
pub fn push_decimal(out: &mut String, n: i64)
    ensures
        final(out)@ == old(out)@ + decimal(n as int),
{
    if n < 0 {
        out.append("-");
        proof {
            reveal_strlit("-");
        }
        let magnitude: u64 = (-(n as i128)) as u64;
        push_digits(out, magnitude);
        assert(final(out)@ =~= old(out)@ + decimal(n as int));
    } else {
        push_digits(out, n as u64);
    }
}

/// The decimal notation of `n`.
pub fn to_decimal(n: i64) -> (r: String)
    ensures
        r@ == decimal(n as int),
{
    let mut out: String = String::new();
    push_decimal(&mut out, n);
    assert(out@ =~= decimal(n as int));
    out
}

/// The character of the hexadecimal digit `d`, in lower case.
pub open spec fn hex_char(d: int) -> char {
    if d < 10 {
        digit_char(d)
    } else if d == 10 {
        'a'
    } else if d == 11 {
        'b'
    } else if d == 12 {
        'c'
    } else if d == 13 {
        'd'
    } else if d == 14 {
        'e'
    } else {
        'f'
    }
}

/// The hexadecimal digit of `id` at `place`, counted from the most
/// significant of its 32 digits.
pub open spec fn hex_digit_at(id: u128, place: int) -> int {
    ((id >> ((4 * (31 - place)) as u128)) & 0xf) as int
}

/// The length of the text of a UUID.
pub const UUID_TEXT_LENGTH: usize = 36;

/// The number of hexadecimal digits that come before the position `i` of
/// the text of a UUID, which has hyphens at the positions 8, 13, 18 and
/// 23.
pub open spec fn digits_before(i: int) -> int {
    if i <= 8 {
        i
    } else if i <= 13 {
        i - 1
    } else if i <= 18 {
        i - 2
    } else if i <= 23 {
        i - 3
    } else {
        i - 4
    }
}

/// The character at position `i` of the text of the UUID with the 128 bits
/// of `id`: a hyphen, or the next hexadecimal digit.
pub open spec fn uuid_char(id: u128, i: int) -> char {
    if i == 8 || i == 13 || i == 18 || i == 23 {
        '-'
    } else {
        hex_char(hex_digit_at(id, digits_before(i)))
    }
}

/// The text of the UUID with the 128 bits of `id`: 32 hexadecimal digits in
/// lower case, in groups of 8, 4, 4, 4 and 12.
pub open spec fn uuid_notation(id: u128) -> Seq<char> {
    Seq::new(UUID_TEXT_LENGTH as nat, |i: int| uuid_char(id, i))
}

/// The one-character text of the hexadecimal digit `d`.
fn hex_text(d: u8) -> (r: &'static str)
    requires
        d < 16,
    ensures
        r@ == seq![hex_char(d as int)],
{
    let digits: &'static str = "0123456789abcdef";
    proof {
        reveal_strlit("0123456789abcdef");
    }
    let r = digits.substring_ascii(d as usize, d as usize + 1);
    assert(r@ =~= seq![hex_char(d as int)]);
    r
}

/// Writes an identifier as the text of a UUID.
pub fn uuid_text(id: u128) -> (r: String)
    ensures
        r@ == uuid_notation(id),
{
    let mut out: String = String::new();
    let mut i: usize = 0;
    let mut place: u32 = 0;
    while i < UUID_TEXT_LENGTH
        invariant
            i <= UUID_TEXT_LENGTH,
            place == digits_before(i as int),
            out@.len() == i,
            forall|k: int| 0 <= k < i ==> out@[k] == uuid_char(id, k),
        decreases UUID_TEXT_LENGTH - i,
    {
        let ghost before = out@;
        if i == 8 || i == 13 || i == 18 || i == 23 {
            out.append("-");
            proof {
                reveal_strlit("-");
            }
        } else {
            let shift: u32 = 4 * (31 - place);
            let digit: u128 = (id >> (shift as u128)) & 0xf;
            assert(digit < 16) by (bit_vector)
                requires
                    digit == (id >> (shift as u128)) & 0xf,
            ;
            out.append(hex_text(digit as u8));
            place = place + 1;
        }
        assert forall|k: int| 0 <= k < i + 1 implies out@[k] == uuid_char(id, k) by {
            if k < i {
                assert(out@[k] == before[k]);
            }
        }
        i += 1;
    }
    assert(out@ =~= uuid_notation(id));
    out
}

} // verus!
