//! Plain-text building blocks for the renderer: decimal and octal digit
//! strings, space runs, and left/right padding to a fixed column width.

use vstd::prelude::*;

verus! {

/// The character for one digit value below ten.
pub open spec fn spec_digit_char(d: nat) -> char {
    if d == 0 {
        '0'
    } else if d == 1 {
        '1'
    } else if d == 2 {
        '2'
    } else if d == 3 {
        '3'
    } else if d == 4 {
        '4'
    } else if d == 5 {
        '5'
    } else if d == 6 {
        '6'
    } else if d == 7 {
        '7'
    } else if d == 8 {
        '8'
    } else {
        '9'
    }
}

/// The decimal digit string of `n`, with no leading zeros (`0` itself is "0").
pub open spec fn spec_dec(n: nat) -> Seq<char>
    decreases n,
{
    if n < 10 {
        seq![spec_digit_char(n)]
    } else {
        spec_dec(n / 10).push(spec_digit_char(n % 10))
    }
}

/// The octal digit string of `n`, with no leading zeros (`0` itself is "0").
pub open spec fn spec_oct(n: nat) -> Seq<char>
    decreases n,
{
    if n < 8 {
        seq![spec_digit_char(n)]
    } else {
        spec_oct(n / 8).push(spec_digit_char(n % 8))
    }
}

/// A run of `n` spaces.
pub open spec fn spec_spaces(n: nat) -> Seq<char> {
    Seq::new(n, |i: int| ' ')
}

/// `s` padded with spaces on the left up to width `w`; unchanged when it is
/// already that wide.
pub open spec fn spec_pad_left(s: Seq<char>, w: nat) -> Seq<char> {
    if s.len() >= w {
        s
    } else {
        spec_spaces((w - s.len()) as nat) + s
    }
}

/// `s` padded with spaces on the right up to width `w`; unchanged when it is
/// already that wide.
pub open spec fn spec_pad_right(s: Seq<char>, w: nat) -> Seq<char> {
    if s.len() >= w {
        s
    } else {
        s + spec_spaces((w - s.len()) as nat)
    }
}

/// The one-character string for a digit value below ten.
fn digit_str(d: u64) -> (r: &'static str)
    requires
        d < 10,
    ensures
        r@ == seq![spec_digit_char(d as nat)],
{
    proof {
        reveal_strlit("0");
        reveal_strlit("1");
        reveal_strlit("2");
        reveal_strlit("3");
        reveal_strlit("4");
        reveal_strlit("5");
        reveal_strlit("6");
        reveal_strlit("7");
        reveal_strlit("8");
        reveal_strlit("9");
    }
    let r = if d == 0 {
        "0"
    } else if d == 1 {
        "1"
    } else if d == 2 {
        "2"
    } else if d == 3 {
        "3"
    } else if d == 4 {
        "4"
    } else if d == 5 {
        "5"
    } else if d == 6 {
        "6"
    } else if d == 7 {
        "7"
    } else if d == 8 {
        "8"
    } else {
        "9"
    };
    proof {
        assert(r@ =~= seq![spec_digit_char(d as nat)]);
    }
    r
}

/// Renders `n` in decimal.
pub fn u64_to_dec(n: u64) -> (r: String)
    ensures
        r@ == spec_dec(n as nat),
    decreases n,
{
    if n < 10 {
        digit_str(n).to_owned()
    } else {
        proof {
            assert(n / 10 < n) by (nonlinear_arith)
                requires
                    n >= 10,
            ;
        }
        let mut r = u64_to_dec(n / 10);
        r.append(digit_str(n % 10));
        proof {
            assert(r@ =~= spec_dec((n / 10) as nat).push(spec_digit_char((n % 10) as nat)));
        }
        r
    }
}

/// Renders `n` in octal.
pub fn u32_to_oct(n: u32) -> (r: String)
    ensures
        r@ == spec_oct(n as nat),
    decreases n,
{
    if n < 8 {
        digit_str(n as u64).to_owned()
    } else {
        proof {
            assert(n / 8 < n) by (nonlinear_arith)
                requires
                    n >= 8,
            ;
        }
        let mut r = u32_to_oct(n / 8);
        r.append(digit_str((n % 8) as u64));
        proof {
            assert(r@ =~= spec_oct((n / 8) as nat).push(spec_digit_char((n % 8) as nat)));
        }
        r
    }
}

/// A string of `n` spaces.
pub fn spaces(n: usize) -> (r: String)
    ensures
        r@ == spec_spaces(n as nat),
{
    proof {
        reveal_strlit(" ");
    }
    let mut r = String::new();
    let mut i: usize = 0;
    while i < n
        invariant
            i <= n,
            r@ == spec_spaces(i as nat),
        decreases n - i,
    {
        r.append(" ");
        i = i + 1;
        proof {
            reveal_strlit(" ");
            assert(r@ =~= spec_spaces(i as nat));
        }
    }
    r
}

/// Pads `s` with spaces on the left to width `w`.
pub fn pad_left(s: String, w: usize) -> (r: String)
    ensures
        r@ == spec_pad_left(s@, w as nat),
{
    let len = s.as_str().unicode_len();
    if len >= w {
        s
    } else {
        let pad = spaces(w - len);
        pad.concat(s.as_str())
    }
}

/// Pads `s` with spaces on the right to width `w`.
pub fn pad_right(s: String, w: usize) -> (r: String)
    ensures
        r@ == spec_pad_right(s@, w as nat),
{
    let len = s.as_str().unicode_len();
    if len >= w {
        s
    } else {
        let pad = spaces(w - len);
        s.concat(pad.as_str())
    }
}

/// The text of a boolean value.
pub open spec fn spec_bool_text(b: bool) -> Seq<char> {
    if b {
        "true"@
    } else {
        "false"@
    }
}

/// Renders a boolean as "true" or "false".
pub fn bool_text(b: bool) -> (r: &'static str)
    ensures
        r@ == spec_bool_text(b),
{
    if b {
        "true"
    } else {
        "false"
    }
}

} // verus!
