//! Display formatting of monetary amounts: a zatoshi count rendered as
//! whole coins with exactly eight fractional digits.

use vstd::prelude::*;
use vstd::string::StringExecFns;

verus! {

/// The decimal digit character for `d`.
pub open spec fn digit_char(d: nat) -> char {
    if d == 0 {
        '0'
    } else if d == 1 {
        '1'
    } else if d == 2 {
        '2'
    } else if d == 3 {
        '3'
    } else if d == 4 {
        '4'
    } else if d == 5 {
        '5'
    } else if d == 6 {
        '6'
    } else if d == 7 {
        '7'
    } else if d == 8 {
        '8'
    } else {
        '9'
    }
}

/// The decimal digits of `n`, most significant first, with no leading
/// zeros (a single `0` for zero).
pub open spec fn dec_digits(n: nat) -> Seq<char>
    decreases n,
{
    if n < 10 {
        seq![digit_char(n)]
    } else {
        dec_digits(n / 10).push(digit_char(n % 10))
    }
}

/// The last `k` decimal digits of `n`, zero-padded to exactly `k`
/// characters.
pub open spec fn pad_digits(n: nat, k: nat) -> Seq<char>
    decreases k,
{
    if k == 0 {
        Seq::<char>::empty()
    } else {
        pad_digits(n / 10, (k - 1) as nat).push(digit_char(n % 10))
    }
}

/// What a zatoshi amount displays as: the currency marker, the whole
/// coins, a point, and exactly eight fractional digits.
pub open spec fn zec_amount_chars(amount: u64) -> Seq<char> {
    seq!['Z', 'E', 'C', ' '] + dec_digits((amount / 100_000_000) as nat) + seq!['.'] + pad_digits(
        (amount % 100_000_000) as nat,
        8,
    )
}

/// The character of one decimal digit.
fn digit_str(d: u64) -> (s: &'static str)
    requires
        d < 10,
    ensures
        s@ == seq![digit_char(d as nat)],
{
    proof {
        reveal_strlit("0");
        reveal_strlit("1");
        reveal_strlit("2");
        reveal_strlit("3");
        reveal_strlit("4");
        reveal_strlit("5");
        reveal_strlit("6");
        reveal_strlit("7");
        reveal_strlit("8");
        reveal_strlit("9");
    }
    match d {
        0 => "0",
        1 => "1",
        2 => "2",
        3 => "3",
        4 => "4",
        5 => "5",
        6 => "6",
        7 => "7",
        8 => "8",
        _ => "9",
    }
}

/// Appends the decimal digits of `n`, most significant first.
fn push_dec(out: &mut String, n: u64)
    ensures
        final(out)@ == old(out)@ + dec_digits(n as nat),
    decreases n,
{
    if n >= 10 {
        push_dec(out, n / 10);
    }
    out.append(digit_str(n % 10));
    proof {
        assert(out@ =~= old(out)@ + dec_digits(n as nat));
    }
}

/// Appends the last `k` decimal digits of `n`, zero-padded to `k`.
fn push_pad(out: &mut String, n: u64, k: usize)
    ensures
        final(out)@ == old(out)@ + pad_digits(n as nat, k as nat),
    decreases k,
{
    if k > 0 {
        push_pad(out, n / 10, k - 1);
        out.append(digit_str(n % 10));
    }
    proof {
        assert(out@ =~= old(out)@ + pad_digits(n as nat, k as nat));
    }
}

/// Renders a zatoshi amount for display, with eight decimal places.
pub fn format_zec_amount(amount: u64) -> (s: String)
    ensures
        s@ == zec_amount_chars(amount),
{
    let mut s = String::new();
    s.append("ZEC ");
    proof {
        reveal_strlit("ZEC ");
        assert(s@ =~= seq!['Z', 'E', 'C', ' ']);
    }
    push_dec(&mut s, amount / 100_000_000);
    s.append(".");
    proof {
        reveal_strlit(".");
        assert("."@ =~= seq!['.']);
    }
    push_pad(&mut s, amount % 100_000_000, 8);
    proof {
        assert(s@ =~= zec_amount_chars(amount));
    }
    s
}

} // verus!
