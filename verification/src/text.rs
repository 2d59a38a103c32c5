//! Response texts: decimal rendering of the checksum, the workload response
//! body `ok (checksum: <N>)`, and the fixed health body `ok`.

use vstd::prelude::*;

verus! {

/// The decimal digit character for `d` (0 through 9).
pub open spec fn digit_char(d: int) -> char {
    if d == 0 {
        '0'
    } else if d == 1 {
        '1'
    } else if d == 2 {
        '2'
    } else if d == 3 {
        '3'
    } else if d == 4 {
        '4'
    } else if d == 5 {
        '5'
    } else if d == 6 {
        '6'
    } else if d == 7 {
        '7'
    } else if d == 8 {
        '8'
    } else {
        '9'
    }
}

/// Decimal digits of `n`, most significant first, with no sign and no leading
/// zeros (zero itself is the single digit `0`).
pub open spec fn dec_digits(n: nat) -> Seq<char>
    decreases n,
{
    if n < 10 {
        seq![digit_char(n as int)]
    } else {
        dec_digits(n / 10).push(digit_char((n % 10) as int))
    }
}

/// Decimal rendering of a signed integer: the digits of the magnitude,
/// preceded by `-` when `n` is negative.
pub open spec fn dec_int(n: int) -> Seq<char> {
    if n < 0 {
        seq!['-'] + dec_digits((-n) as nat)
    } else {
        dec_digits(n as nat)
    }
}

/// The one-character string for a single decimal digit.
fn digit_str(d: u64) -> (r: &'static str)
    requires
        d < 10,
    ensures
        r@ == seq![digit_char(d as int)],
{
    proof {
        reveal_strlit("0");
        reveal_strlit("1");
        reveal_strlit("2");
        reveal_strlit("3");
        reveal_strlit("4");
        reveal_strlit("5");
        reveal_strlit("6");
        reveal_strlit("7");
        reveal_strlit("8");
        reveal_strlit("9");
    }
    let r: &'static str = if d == 0 {
        "0"
    } else if d == 1 {
        "1"
    } else if d == 2 {
        "2"
    } else if d == 3 {
        "3"
    } else if d == 4 {
        "4"
    } else if d == 5 {
        "5"
    } else if d == 6 {
        "6"
    } else if d == 7 {
        "7"
    } else if d == 8 {
        "8"
    } else {
        "9"
    };
    proof {
        assert(r@ =~= seq![digit_char(d as int)]);
    }
    r
}

/// Append the decimal digits of `n` to `out`.
fn append_u64_digits(out: &mut String, n: u64)
    ensures
        final(out)@ == old(out)@ + dec_digits(n as nat),
    decreases n,
{
    if n < 10 {
        out.append(digit_str(n));
        proof {
            assert(dec_digits(n as nat) =~= seq![digit_char(n as int)]);
        }
    } else {
        let ghost pre: Seq<char> = out@;
        append_u64_digits(out, n / 10);
        out.append(digit_str(n % 10));
        proof {
            assert((pre + dec_digits((n / 10) as nat)) + seq![digit_char((n % 10) as int)]
                =~= pre + dec_digits(n as nat));
        }
    }
}

/// `n` rendered in base 10 as a signed integer.
pub fn render_i64(n: i64) -> (r: String)
    ensures
        r@ == dec_int(n as int),
{
    let mut out = String::new();
    if n < 0 {
        proof {
            reveal_strlit("-");
        }
        out.append("-");
        proof {
            assert("-"@ =~= seq!['-']);
        }
        let m: u64 = (-(n as i128)) as u64;
        append_u64_digits(&mut out, m);
        proof {
            assert(seq!['-'] + dec_digits(m as nat) =~= dec_int(n as int));
        }
    } else {
        append_u64_digits(&mut out, n as u64);
    }
    out
}

/// Body of a successful workload response, for a given checksum value.
pub open spec fn response_body_spec(checksum: int) -> Seq<char> {
    "ok (checksum: "@ + dec_int(checksum) + ")"@
}

/// Render the workload response body `ok (checksum: <N>)`, with the checksum
/// in base 10 as a signed integer.
pub fn response_body(checksum: i64) -> (r: String)
    ensures
        r@ == response_body_spec(checksum as int),
{
    let mut out = String::from_str("ok (checksum: ");
    let digits = render_i64(checksum);
    out.append(digits.as_str());
    out.append(")");
    proof {
        assert(("ok (checksum: "@ + dec_int(checksum as int)) + ")"@
            =~= response_body_spec(checksum as int));
    }
    out
}

/// Body of the health endpoint: the fixed text `ok`, whatever the state of
/// the backend or of the metrics subsystem.
pub fn health_body() -> (r: &'static str)
    ensures
        r@ == "ok"@,
{
    "ok"
}

} // verus!
