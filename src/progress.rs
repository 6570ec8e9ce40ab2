//! Progress text of a download: `"<downloaded> MB / <total> MB"`, each amount
//! in mebibytes with two decimals.

use vstd::prelude::*;
use crate::fetch::FetchProgress;

verus! {

broadcast use vstd::string::group_string_axioms;

/// Bytes in a mebibyte.
pub const MEBIBYTE: u64 = 1048576;

/// `b` bytes in hundredths of a mebibyte, rounded to the nearest, ties to
/// the even neighbour.
pub open spec fn hundredths(b: nat) -> nat {
    let q = (b * 100) / (MEBIBYTE as nat);
    let rem = (b * 100) % (MEBIBYTE as nat);
    if rem * 2 > MEBIBYTE || (rem * 2 == MEBIBYTE && q % 2 == 1) {
        q + 1
    } else {
        q
    }
}

/// The decimal digit of value `d`.
pub open spec fn digit(d: nat) -> char {
    ((d % 10) + '0' as u32) as char
}

/// The decimal numeral of `n`, without leading zeros.
pub open spec fn decimal(n: nat) -> Seq<char>
    decreases n,
{
    if n < 10 {
        seq![digit(n)]
    } else {
        decimal(n / 10).push(digit(n % 10))
    }
}

/// `b` bytes written in mebibytes with two decimals.
pub open spec fn megabytes(b: nat) -> Seq<char> {
    let h = hundredths(b);
    decimal(h / 100) + seq!['.', digit((h % 100) / 10), digit(h % 10)]
}

/// The progress text for `p`.
pub open spec fn progress_line(p: FetchProgress) -> Seq<char> {
    megabytes(p.bytes_transferred as nat) + " MB / "@ + megabytes(p.bytes_total as nat) + " MB"@
}

fn digit_str(d: u64) -> (r: &'static str)
    requires
        d < 10,
    ensures
        r@ == seq![digit(d as nat)],
{
    proof {
        reveal_strlit("0");
        reveal_strlit("1");
        reveal_strlit("2");
        reveal_strlit("3");
        reveal_strlit("4");
        reveal_strlit("5");
        reveal_strlit("6");
        reveal_strlit("7");
        reveal_strlit("8");
        reveal_strlit("9");
    }
    let r = match d {
        0 => "0",
        1 => "1",
        2 => "2",
        3 => "3",
        4 => "4",
        5 => "5",
        6 => "6",
        7 => "7",
        8 => "8",
        _ => "9",
    };
    assert(r@ =~= seq![digit(d as nat)]);
    r
}

fn append_decimal(out: &mut String, n: u64)
    ensures
        final(out)@ == old(out)@ + decimal(n as nat),
    decreases n,
{
    if n >= 10 {
        append_decimal(out, n / 10);
    }
    out.append(digit_str(n % 10));
    assert(decimal(n as nat) =~= if n < 10 {
        seq![digit(n as nat)]
    } else {
        decimal((n / 10) as nat).push(digit((n % 10) as nat))
    });
}

/// `b` bytes in hundredths of a mebibyte, rounded to the nearest, ties to
/// the even neighbour.
pub fn hundredths_of(b: u64) -> (r: u64)
    ensures
        r == hundredths(b as nat),
{
    let scaled: u128 = b as u128 * 100;
    let q: u128 = scaled / MEBIBYTE as u128;
    let rem: u128 = scaled % MEBIBYTE as u128;
    assert(q <= u64::MAX) by (nonlinear_arith)
        requires
            scaled == b * 100,
            q == scaled / 1048576,
            b <= u64::MAX,
    ;
    let r = if rem * 2 > MEBIBYTE as u128 || (rem * 2 == MEBIBYTE as u128 && q % 2 == 1) {
        q + 1
    } else {
        q
    };
    r as u64
}

fn append_megabytes(out: &mut String, b: u64)
    ensures
        final(out)@ == old(out)@ + megabytes(b as nat),
{
    let h = hundredths_of(b);
    append_decimal(out, h / 100);
    proof {
        reveal_strlit(".");
    }
    out.append(".");
    out.append(digit_str((h % 100) / 10));
    out.append(digit_str(h % 10));
    assert(out@ =~= old(out)@ + megabytes(b as nat));
}

/// The progress text for `p`: `"<downloaded> MB / <total> MB"`.
pub fn progress_text(p: FetchProgress) -> (r: String)
    ensures
        r@ == progress_line(p),
{
    let mut out = String::new();
    append_megabytes(&mut out, p.bytes_transferred);
    out.append(" MB / ");
    append_megabytes(&mut out, p.bytes_total);
    out.append(" MB");
    assert(out@ =~= progress_line(p));
    out
}

} // verus!
