//! Rendering a duration the way the classic ping summary does: whole
//! milliseconds, a dot, and the microsecond remainder as exactly three
//! decimal digits, zero-padded on the left.

use vstd::prelude::*;

verus! {

use vstd::string::StringExecFns;

/// The character for one decimal digit.
pub open spec fn digit_char(d: int) -> char {
    if d == 0 {
        '0'
    } else if d == 1 {
        '1'
    } else if d == 2 {
        '2'
    } else if d == 3 {
        '3'
    } else if d == 4 {
        '4'
    } else if d == 5 {
        '5'
    } else if d == 6 {
        '6'
    } else if d == 7 {
        '7'
    } else if d == 8 {
        '8'
    } else {
        '9'
    }
}

/// The decimal digits of `n`, most significant first.
pub open spec fn decimal_digits(n: int) -> Seq<char>
    decreases n,
{
    if n < 10 {
        seq![digit_char(n)]
    } else {
        decimal_digits(n / 10) + seq![digit_char(n % 10)]
    }
}

/// The rendered form of `nanos`: the whole milliseconds, a dot, and the
/// microsecond remainder written as exactly three decimal digits, padded
/// with zeros on the left.
pub open spec fn spec_display_frac_millis(nanos: u64) -> Seq<char> {
    let millis = nanos as int / 1_000_000;
    let frac = (nanos as int / 1000) % 1000;
    decimal_digits(millis) + seq!['.'] + (if frac < 10 {
        seq!['0', '0']
    } else if frac < 100 {
        seq!['0']
    } else {
        Seq::<char>::empty()
    }) + decimal_digits(frac)
}

/// Appends the decimal digits of `n` to `out`.
fn append_decimal(out: &mut String, n: u64)
    ensures
        final(out)@ == old(out)@ + decimal_digits(n as int),
    decreases n,
{
    if n >= 10 {
        append_decimal(out, n / 10);
    }
    let d = n % 10;
    let digit: &str = if d == 0 {
        "0"
    } else if d == 1 {
        "1"
    } else if d == 2 {
        "2"
    } else if d == 3 {
        "3"
    } else if d == 4 {
        "4"
    } else if d == 5 {
        "5"
    } else if d == 6 {
        "6"
    } else if d == 7 {
        "7"
    } else if d == 8 {
        "8"
    } else {
        "9"
    };
    proof {
        reveal_strlit("0");
        reveal_strlit("1");
        reveal_strlit("2");
        reveal_strlit("3");
        reveal_strlit("4");
        reveal_strlit("5");
        reveal_strlit("6");
        reveal_strlit("7");
        reveal_strlit("8");
        reveal_strlit("9");
        assert(digit@ =~= seq![digit_char(d as int)]);
    }
    out.append(digit);
    proof {
        if n < 10 {
            assert(old(out)@ + digit@ =~= old(out)@ + decimal_digits(n as int));
        } else {
            assert(old(out)@ + decimal_digits(n as int / 10) + digit@ =~= old(out)@
                + decimal_digits(n as int));
        }
    }
}

/// Renders a round trip time in nanoseconds as the ping summary does:
/// whole milliseconds, a dot, then the microsecond remainder as exactly
/// three digits, zero-padded on the left.
pub fn display_frac_millis(nanos: u64) -> (r: String)
    ensures
        r@ == spec_display_frac_millis(nanos),
{
    let mut out = String::new();
    append_decimal(&mut out, nanos / 1_000_000);
    proof {
        reveal_strlit(".");
        reveal_strlit("00");
        reveal_strlit("0");
    }
    out.append(".");
    let frac = (nanos / 1000) % 1000;
    if frac < 10 {
        out.append("00");
    } else if frac < 100 {
        out.append("0");
    }
    append_decimal(&mut out, frac);
    proof {
        assert(out@ =~= spec_display_frac_millis(nanos));
    }
    out
}

} // verus!
