//! Text helpers: decimal rendering of integers and padding of columns.
use vstd::prelude::*;
use vstd::string::*;

verus! {

/// The character that stands for the decimal digit `d`.
pub open spec fn digit_char(d: int) -> char {
    if d == 0 {
        '0'
    } else if d == 1 {
        '1'
    } else if d == 2 {
        '2'
    } else if d == 3 {
        '3'
    } else if d == 4 {
        '4'
    } else if d == 5 {
        '5'
    } else if d == 6 {
        '6'
    } else if d == 7 {
        '7'
    } else if d == 8 {
        '8'
    } else {
        '9'
    }
}

/// The decimal digits of `n`, most significant first, without leading zeros.
pub open spec fn nat_digits(n: nat) -> Seq<char>
    decreases n,
{
    if n < 10 {
        seq![digit_char(n as int)]
    } else {
        nat_digits(n / 10).push(digit_char((n % 10) as int))
    }
}

/// The decimal text of `i`, with a leading `-` when it is negative.
pub open spec fn int_digits(i: int) -> Seq<char> {
    if i < 0 {
        seq!['-'] + nat_digits((-i) as nat)
    } else {
        nat_digits(i as nat)
    }
}

/// `s` with `fill` put in front until it is `width` characters long.
pub open spec fn pad_left(s: Seq<char>, width: nat, fill: char) -> Seq<char> {
    if s.len() >= width {
        s
    } else {
        Seq::new((width - s.len()) as nat, |i: int| fill) + s
    }
}

/// `s` followed by spaces until it is `width` characters long.
pub open spec fn pad_right(s: Seq<char>, width: nat) -> Seq<char> {
    if s.len() >= width {
        s
    } else {
        s + Seq::new((width - s.len()) as nat, |i: int| ' ')
    }
}

fn digit_str(d: u64) -> (r: &'static str)
    requires
        d < 10,
    ensures
        r@ == seq![digit_char(d as int)],
{
    proof {
        reveal_strlit("0");
        reveal_strlit("1");
        reveal_strlit("2");
        reveal_strlit("3");
        reveal_strlit("4");
        reveal_strlit("5");
        reveal_strlit("6");
        reveal_strlit("7");
        reveal_strlit("8");
        reveal_strlit("9");
    }
    let r = if d == 0 {
        "0"
    } else if d == 1 {
        "1"
    } else if d == 2 {
        "2"
    } else if d == 3 {
        "3"
    } else if d == 4 {
        "4"
    } else if d == 5 {
        "5"
    } else if d == 6 {
        "6"
    } else if d == 7 {
        "7"
    } else if d == 8 {
        "8"
    } else {
        "9"
    };
    assert(r@ =~= seq![digit_char(d as int)]);
    r
}

/// Renders an unsigned integer in decimal.
pub fn u64_to_string(n: u64) -> (r: String)
    ensures
        r@ == nat_digits(n as nat),
    decreases n,
{
    if n < 10 {
        digit_str(n).to_owned()
    } else {
        let mut s = u64_to_string(n / 10);
        s.append(digit_str(n % 10));
        assert(s@ =~= nat_digits(n as nat));
        s
    }
}

/// Renders an index or a count in decimal.
pub fn usize_to_string(n: usize) -> (r: String)
    ensures
        r@ == nat_digits(n as nat),
{
    u64_to_string(n as u64)
}

/// Renders a signed integer in decimal.
pub fn i64_to_string(i: i64) -> (r: String)
    ensures
        r@ == int_digits(i as int),
{
    if i < 0 {
        let magnitude: u64 = ((-(i + 1)) as u64) + 1;
        let mut s = "-".to_owned();
        let digits = u64_to_string(magnitude);
        s.append(digits.as_str());
        proof {
            reveal_strlit("-");
            assert(s@ =~= int_digits(i as int));
        }
        s
    } else {
        u64_to_string(i as u64)
    }
}

/// Puts `fill` in front of `s` until it is `width` characters long.
pub fn pad_left_string(s: String, width: usize, zero: bool) -> (r: String)
    ensures
        r@ == pad_left(s@, width as nat, if zero { '0' } else { ' ' }),
{
    let len = s.as_str().unicode_len();
    if len >= width {
        return s;
    }
    let mut out = String::new();
    let mut i: usize = len;
    let ghost fill = if zero { '0' } else { ' ' };
    while i < width
        invariant
            len <= i <= width,
            out@ == Seq::new((i - len) as nat, |k: int| fill),
            fill == (if zero { '0' } else { ' ' }),
        decreases width - i,
    {
        proof {
            reveal_strlit("0");
            reveal_strlit(" ");
        }
        out.append(if zero { "0" } else { " " });
        i += 1;
        assert(out@ =~= Seq::new((i - len) as nat, |k: int| fill));
    }
    out.append(s.as_str());
    out
}

/// Puts spaces behind `s` until it is `width` characters long.
pub fn pad_right_string(s: String, width: usize) -> (r: String)
    ensures
        r@ == pad_right(s@, width as nat),
{
    let len = s.as_str().unicode_len();
    if len >= width {
        return s;
    }
    let mut out = s;
    let mut i: usize = len;
    let ghost start = out@;
    while i < width
        invariant
            len <= i <= width,
            start.len() == len,
            out@ == start + Seq::new((i - len) as nat, |k: int| ' '),
        decreases width - i,
    {
        proof {
            reveal_strlit(" ");
        }
        out.append(" ");
        i += 1;
        assert(out@ =~= start + Seq::new((i - len) as nat, |k: int| ' '));
    }
    out
}


/// Whether the character is one of the ten decimal digits.
pub open spec fn is_decimal(c: char) -> bool {
    '0' <= c && c <= '9'
}

/// The number that a decimal digit stands for.
pub open spec fn digit_value(c: char) -> int {
    (c as u32) as int - 48
}

/// The number that a sequence of decimal digits stands for.
pub open spec fn digits_value(s: Seq<char>) -> int
    decreases s.len(),
{
    if s.len() == 0 {
        0
    } else {
        digits_value(s.drop_last()) * 10 + digit_value(s.last())
    }
}

/// Whether the text holds decimal digits only.
pub open spec fn all_decimal(s: Seq<char>) -> bool {
    forall|i: int| 0 <= i < s.len() ==> is_decimal(#[trigger] s[i])
}

/// The integer that a literal stands for: the text is a sequence of at
/// least one decimal digit, and the number fits a signed 64-bit integer.
pub open spec fn integer_value(s: Seq<char>) -> Option<i64> {
    if s.len() > 0 && all_decimal(s) && digits_value(s) <= i64::MAX {
        Some(digits_value(s) as i64)
    } else {
        None
    }
}

/// A sequence of digits stands for no smaller a number than any of its
/// starts, and for none below zero.
pub proof fn lemma_digits_value_grows(s: Seq<char>, i: int)
    requires
        all_decimal(s),
        0 <= i <= s.len(),
    ensures
        0 <= digits_value(s.subrange(0, i)) <= digits_value(s),
    decreases s.len() - i,
{
    if i == s.len() {
        assert(s.subrange(0, i) =~= s);
        lemma_digits_value_nonnegative(s);
    } else {
        lemma_digits_value_grows(s, i + 1);
        let longer = s.subrange(0, i + 1);
        assert(longer.drop_last() =~= s.subrange(0, i));
        assert(longer.last() == s[i]);
        lemma_digits_value_nonnegative(s.subrange(0, i));
    }
}

/// A sequence of digits stands for a number that is not below zero.
pub proof fn lemma_digits_value_nonnegative(s: Seq<char>)
    requires
        all_decimal(s),
    ensures
        0 <= digits_value(s),
    decreases s.len(),
{
    if s.len() > 0 {
        lemma_digits_value_nonnegative(s.drop_last());
    }
}

/// Reads an integer literal.
pub fn parse_integer(text: &str) -> (r: Option<i64>)
    ensures
        r == integer_value(text@),
{
    let len: usize = text.unicode_len();
    if len == 0 {
        return None;
    }
    let mut value: u64 = 0;
    let mut i: usize = 0;
    while i < len
        invariant
            i <= len,
            len == text@.len(),
            all_decimal(text@.subrange(0, i as int)),
            value == digits_value(text@.subrange(0, i as int)),
            value <= 0x7FFF_FFFF_FFFF_FFFF,
        decreases len - i,
    {
        let c = text.get_char(i);
        if !(c >= '0' && c <= '9') {
            assert(!all_decimal(text@)) by {
                assert(!is_decimal(text@[i as int]));
            }
            return None;
        }
        let digit: u64 = (c as u32 - 48) as u64;
        proof {
            let longer = text@.subrange(0, i + 1);
            assert(longer.drop_last() =~= text@.subrange(0, i as int));
            assert(longer.last() == c);
            assert(all_decimal(longer)) by {
                assert forall|k: int| 0 <= k < longer.len() implies is_decimal(#[trigger] longer[k]) by {
                    if k < i {
                        assert(text@.subrange(0, i as int)[k] == longer[k]);
                    }
                }
            }
        }
        if value > (0x7FFF_FFFF_FFFF_FFFF - digit) / 10 {
            proof {
                if all_decimal(text@) {
                    lemma_digits_value_grows(text@, i + 1);
                }
            }
            return None;
        }
        value = value * 10 + digit;
        i += 1;
    }
    assert(text@.subrange(0, i as int) =~= text@);
    Some(value as i64)
}

} // verus!
