use vstd::prelude::*;
use crate::axis::TENTH;

verus! {

pub open spec fn digit_char(d: int) -> char {
    if d == 0 {
        '0'
    } else if d == 1 {
        '1'
    } else if d == 2 {
        '2'
    } else if d == 3 {
        '3'
    } else if d == 4 {
        '4'
    } else if d == 5 {
        '5'
    } else if d == 6 {
        '6'
    } else if d == 7 {
        '7'
    } else if d == 8 {
        '8'
    } else {
        '9'
    }
}

/// The decimal digits of `n`, without leading zeros.
pub open spec fn decimal(n: nat) -> Seq<char>
    decreases n,
{
    if n < 10 {
        seq![digit_char(n as int)]
    } else {
        decimal(n / 10).push(digit_char((n % 10) as int))
    }
}

/// `v` in tenths of a data unit, rounded half away from zero.
pub open spec fn rounded_tenths(v: int) -> int {
    if v >= 0 {
        (v + TENTH / 2) / (TENTH as int)
    } else {
        -((-v + TENTH / 2) / (TENTH as int))
    }
}

/// `v` written with one decimal place, as tick labels and the cursor
/// readout show it: a minus sign for negative values, the whole units, a
/// point and the tenths.
pub open spec fn label_text(v: int) -> Seq<char> {
    let t = rounded_tenths(v);
    let a = if t < 0 {
        -t
    } else {
        t
    };
    let sign = if t < 0 {
        seq!['-']
    } else {
        Seq::<char>::empty()
    };
    sign + decimal((a / 10) as nat) + seq!['.', digit_char(a % 10)]
}

/// Relies on `String::push`: appends `c` to the end of the string.
#[verifier::external_body]
fn push_char(s: &mut String, c: char)
    ensures
        final(s)@ == old(s)@.push(c),
{
    s.push(c)
}

fn digit(d: u64) -> (c: char)
    requires
        d < 10,
    ensures
        c == digit_char(d as int),
{
    if d == 0 {
        '0'
    } else if d == 1 {
        '1'
    } else if d == 2 {
        '2'
    } else if d == 3 {
        '3'
    } else if d == 4 {
        '4'
    } else if d == 5 {
        '5'
    } else if d == 6 {
        '6'
    } else if d == 7 {
        '7'
    } else if d == 8 {
        '8'
    } else {
        '9'
    }
}

fn push_decimal(s: &mut String, n: u64)
    ensures
        final(s)@ == old(s)@ + decimal(n as nat),
    decreases n,
{
    if n >= 10 {
        push_decimal(s, n / 10);
    }
    push_char(s, digit(n % 10));
}

/// A data value as text with one decimal place.
pub fn value_label(v: i64) -> (r: String)
    ensures
        r@ == label_text(v as int),
{
    let w = v as i128;
    let half = (TENTH / 2) as i128;
    let tenth = TENTH as i128;
    let t: i128 = if w >= 0 {
        (w + half) / tenth
    } else {
        -((-w + half) / tenth)
    };
    let a: u64 = if t < 0 {
        (-t) as u64
    } else {
        t as u64
    };
    let mut s = String::new();
    if t < 0 {
        push_char(&mut s, '-');
    }
    push_decimal(&mut s, a / 10);
    push_char(&mut s, '.');
    push_char(&mut s, digit(a % 10));
    proof {
        let sign = if t < 0 {
            seq!['-']
        } else {
            Seq::<char>::empty()
        };
        assert(s@ =~= sign + decimal((a / 10) as nat) + seq!['.', digit_char((a % 10) as int)]);
    }
    s
}

} // verus!
