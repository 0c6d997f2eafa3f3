//! Numbers and names as text, for the printed form of instructions.

use vstd::prelude::*;
use vstd::string::*;

verus! {

/// The character of a digit below sixteen: `0` to `9`, then `a` to `f`.
pub open spec fn digit(d: nat) -> char {
    if d == 0 {
        '0'
    } else if d == 1 {
        '1'
    } else if d == 2 {
        '2'
    } else if d == 3 {
        '3'
    } else if d == 4 {
        '4'
    } else if d == 5 {
        '5'
    } else if d == 6 {
        '6'
    } else if d == 7 {
        '7'
    } else if d == 8 {
        '8'
    } else if d == 9 {
        '9'
    } else if d == 10 {
        'a'
    } else if d == 11 {
        'b'
    } else if d == 12 {
        'c'
    } else if d == 13 {
        'd'
    } else if d == 14 {
        'e'
    } else {
        'f'
    }
}

/// A natural number in decimal, without leading zeroes.
pub open spec fn decimal(n: nat) -> Seq<char>
    decreases n,
{
    if n < 10 {
        seq![digit(n)]
    } else {
        decimal(n / 10).push(digit(n % 10))
    }
}

/// An integer in decimal, with a minus sign if it is negative.
pub open spec fn signed_decimal(x: int) -> Seq<char> {
    if x < 0 {
        seq!['-'] + decimal((-x) as nat)
    } else {
        decimal(x as nat)
    }
}

/// The low `digits` hexadecimal digits of a natural number, in lower case.
pub open spec fn hex(n: nat, digits: nat) -> Seq<char>
    decreases digits,
{
    if digits == 0 {
        Seq::empty()
    } else {
        hex(n / 16, (digits - 1) as nat).push(digit(n % 16))
    }
}

/// A text filled up with spaces on the right to `width` characters. A
/// text that is as long or longer stays as it is.
pub open spec fn pad(text: Seq<char>, width: nat) -> Seq<char> {
    if text.len() >= width {
        text
    } else {
        text + Seq::new((width - text.len()) as nat, |i: int| ' ')
    }
}

/// The text of one digit.
pub fn digit_str(d: u32) -> (s: &'static str)
    requires
        d < 16,
    ensures
        s@ == seq![digit(d as nat)],
{
    proof {
        reveal_strlit("0");
        reveal_strlit("1");
        reveal_strlit("2");
        reveal_strlit("3");
        reveal_strlit("4");
        reveal_strlit("5");
        reveal_strlit("6");
        reveal_strlit("7");
        reveal_strlit("8");
        reveal_strlit("9");
        reveal_strlit("a");
        reveal_strlit("b");
        reveal_strlit("c");
        reveal_strlit("d");
        reveal_strlit("e");
        reveal_strlit("f");
    }
    let s = match d {
        0 => "0",
        1 => "1",
        2 => "2",
        3 => "3",
        4 => "4",
        5 => "5",
        6 => "6",
        7 => "7",
        8 => "8",
        9 => "9",
        10 => "a",
        11 => "b",
        12 => "c",
        13 => "d",
        14 => "e",
        _ => "f",
    };
    assert(s@ =~= seq![digit(d as nat)]);
    s
}

/// Write an unsigned number in decimal.
pub fn decimal_string(x: u32) -> (s: String)
    ensures
        s@ == decimal(x as nat),
    decreases x,
{
    if x < 10 {
        String::from_str(digit_str(x))
    } else {
        let mut s = decimal_string(x / 10);
        s.append(digit_str(x % 10));
        assert(s@ =~= decimal((x / 10) as nat).push(digit((x % 10) as nat)));
        s
    }
}

/// Write a signed number in decimal.
pub fn signed_decimal_string(x: i32) -> (s: String)
    ensures
        s@ == signed_decimal(x as int),
{
    if x < 0 {
        let magnitude = (-(x as i64)) as u32;
        proof {
            reveal_strlit("-");
        }
        let mut s = String::from_str("-");
        let digits = decimal_string(magnitude);
        s.append(digits.as_str());
        assert(s@ =~= seq!['-'] + decimal((-x) as nat));
        s
    } else {
        decimal_string(x as u32)
    }
}

/// Write the low `digits` hexadecimal digits of a number, of which it has eight.
pub fn hex_string(x: u32, digits: u32) -> (s: String)
    requires
        digits <= 8,
    ensures
        s@ == hex(x as nat, digits as nat),
    decreases digits,
{
    if digits == 0 {
        proof {
            reveal_strlit("");
        }
        let s = String::from_str("");
        assert(s@ =~= Seq::<char>::empty());
        s
    } else {
        let mut s = hex_string(x / 16, digits - 1);
        s.append(digit_str(x % 16));
        assert(s@ =~= hex((x / 16) as nat, (digits - 1) as nat).push(digit((x % 16) as nat)));
        s
    }
}

/// Fill a text up with spaces on the right to `width` characters.
pub fn pad_string(text: String, width: usize) -> (s: String)
    ensures
        s@ == pad(text@, width as nat),
{
    let mut s = text;
    let mut len = s.as_str().unicode_len();
    proof {
        reveal_strlit(" ");
    }
    while len < width
        invariant
            len == s@.len(),
            text@.len() <= len,
            len <= width || len == text@.len(),
            s@ == text@ + Seq::new((len - text@.len()) as nat, |i: int| ' '),
            " "@ == seq![' '],
        decreases width - len,
    {
        s.append(" ");
        len += 1;
        assert(s@ =~= text@ + Seq::new((len - text@.len()) as nat, |i: int| ' '));
    }
    assert(s@ =~= pad(text@, width as nat));
    s
}

} // verus!
