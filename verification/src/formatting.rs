//! Display formatting: byte counts, uptime durations, one-decimal scaled
//! values, and name truncation. All results are pinned down character by
//! character over a decimal-representation spec.

use vstd::prelude::*;

verus! {

/// The decimal digit character for `d` (0 through 9).
pub open spec fn digit_char(d: int) -> char {
    if d == 0 {
        '0'
    } else if d == 1 {
        '1'
    } else if d == 2 {
        '2'
    } else if d == 3 {
        '3'
    } else if d == 4 {
        '4'
    } else if d == 5 {
        '5'
    } else if d == 6 {
        '6'
    } else if d == 7 {
        '7'
    } else if d == 8 {
        '8'
    } else {
        '9'
    }
}

/// The usual decimal representation of `n`, most significant digit first,
/// with no leading zeros (except for `n == 0` itself).
pub open spec fn dec_rep(n: nat) -> Seq<char>
    decreases n,
{
    if n < 10 {
        seq![digit_char(n as int)]
    } else {
        dec_rep(n / 10).push(digit_char((n % 10) as int))
    }
}

fn digit_str(d: u64) -> (s: &'static str)
    requires
        d < 10,
    ensures
        s@ == seq![digit_char(d as int)],
{
    if d == 0 {
        proof {
            reveal_strlit("0");
            assert("0"@ =~= seq![digit_char(0)]);
        }
        "0"
    } else if d == 1 {
        proof {
            reveal_strlit("1");
            assert("1"@ =~= seq![digit_char(1)]);
        }
        "1"
    } else if d == 2 {
        proof {
            reveal_strlit("2");
            assert("2"@ =~= seq![digit_char(2)]);
        }
        "2"
    } else if d == 3 {
        proof {
            reveal_strlit("3");
            assert("3"@ =~= seq![digit_char(3)]);
        }
        "3"
    } else if d == 4 {
        proof {
            reveal_strlit("4");
            assert("4"@ =~= seq![digit_char(4)]);
        }
        "4"
    } else if d == 5 {
        proof {
            reveal_strlit("5");
            assert("5"@ =~= seq![digit_char(5)]);
        }
        "5"
    } else if d == 6 {
        proof {
            reveal_strlit("6");
            assert("6"@ =~= seq![digit_char(6)]);
        }
        "6"
    } else if d == 7 {
        proof {
            reveal_strlit("7");
            assert("7"@ =~= seq![digit_char(7)]);
        }
        "7"
    } else if d == 8 {
        proof {
            reveal_strlit("8");
            assert("8"@ =~= seq![digit_char(8)]);
        }
        "8"
    } else {
        proof {
            reveal_strlit("9");
            assert("9"@ =~= seq![digit_char(9)]);
        }
        "9"
    }
}

/// Renders `n` in decimal.
pub fn u64_to_dec(n: u64) -> (s: String)
    ensures
        s@ == dec_rep(n as nat),
    decreases n,
{
    if n < 10 {
        String::from_str(digit_str(n))
    } else {
        let mut s = u64_to_dec(n / 10);
        s.append(digit_str(n % 10));
        proof {
            assert(s@ =~= dec_rep((n / 10) as nat).push(digit_char((n % 10) as int)));
        }
        s
    }
}

/// What `format_uptime` produces: days/hours/minutes decomposition of a
/// second count, with zero-valued leading units omitted and seconds dropped.
pub open spec fn spec_format_uptime(secs: nat) -> Seq<char> {
    let days = secs / 86400;
    let hours = (secs % 86400) / 3600;
    let minutes = (secs % 3600) / 60;
    if days > 0 {
        dec_rep(days) + "d "@ + dec_rep(hours) + "h "@ + dec_rep(minutes) + "m"@
    } else if hours > 0 {
        dec_rep(hours) + "h "@ + dec_rep(minutes) + "m"@
    } else {
        dec_rep(minutes) + "m"@
    }
}

/// Renders an uptime in seconds as `Dd Hh Mm`, `Hh Mm`, or `Mm`.
pub fn format_uptime(uptime_seconds: u64) -> (s: String)
    ensures
        s@ == spec_format_uptime(uptime_seconds as nat),
{
    let days: u64 = uptime_seconds / 86400;
    let hours: u64 = (uptime_seconds % 86400) / 3600;
    let minutes: u64 = (uptime_seconds % 3600) / 60;
    if days > 0 {
        let mut s = u64_to_dec(days);
        s.append("d ");
        let h = u64_to_dec(hours);
        s.append(h.as_str());
        s.append("h ");
        let m = u64_to_dec(minutes);
        s.append(m.as_str());
        s.append("m");
        s
    } else if hours > 0 {
        let mut s = u64_to_dec(hours);
        s.append("h ");
        let m = u64_to_dec(minutes);
        s.append(m.as_str());
        s.append("m");
        s
    } else {
        let mut s = u64_to_dec(minutes);
        s.append("m");
        s
    }
}

/// The scale factor of binary unit `k`: 1024 to the `k`th power, for the
/// units B, KB, MB, GB, TB (`k` from 0 to 4).
pub open spec fn unit_factor(k: int) -> nat {
    if k <= 0 {
        1
    } else if k == 1 {
        1024
    } else if k == 2 {
        1048576
    } else if k == 3 {
        1073741824
    } else {
        1099511627776
    }
}

/// The largest unit (capped at TB) whose scaled value stays below 1024.
pub open spec fn spec_unit_index(b: nat) -> int {
    if b < 1024 {
        0
    } else if b < 1048576 {
        1
    } else if b < 1073741824 {
        2
    } else if b < 1099511627776 {
        3
    } else {
        4
    }
}

pub open spec fn unit_suffix(k: int) -> Seq<char> {
    if k <= 0 {
        " B"@
    } else if k == 1 {
        " KB"@
    } else if k == 2 {
        " MB"@
    } else if k == 3 {
        " GB"@
    } else {
        " TB"@
    }
}

/// The value `q + rem/d` rounded to the nearest integer, ties to the
/// even neighbor: round up when the leftover `rem/d` is above one half,
/// or is exactly one half and `q` is odd (so the value kept is the even
/// one). This is the tie rule of float formatting, stated on the exact
/// rational.
pub open spec fn round_scaled_even(q: int, rem: int, d: int) -> int {
    if 2 * rem > d || (2 * rem == d && q % 2 == 1) {
        q + 1
    } else {
        q
    }
}

/// What `format_bytes` produces: the byte count scaled to the largest unit
/// that keeps it below 1024, shown with one decimal digit (rounded to
/// nearest, ties to even); plain bytes are shown as a bare integer.
pub open spec fn spec_format_bytes(b: nat) -> Seq<char> {
    let k = spec_unit_index(b);
    if k == 0 {
        dec_rep(b) + unit_suffix(0)
    } else {
        let d = unit_factor(k);
        let whole0 = b / d;
        let t0 = b % d * 10 / d;
        let frac2 = b % d * 10 % d;
        let tenths = round_scaled_even(t0 as int, frac2 as int, d as int);
        let whole = if tenths == 10 {
            whole0 + 1
        } else {
            whole0
        };
        let frac = if tenths == 10 {
            0
        } else {
            tenths
        };
        dec_rep(whole) + "."@ + seq![digit_char(frac)] + unit_suffix(k)
    }
}

fn scaled_one_decimal(b: u64, d: u64) -> (s: String)
    requires
        1024 <= d <= 1099511627776,
    ensures
        s@ == ({
            let whole0 = b as nat / d as nat;
            let t0 = b as nat % d as nat * 10 / d as nat;
            let frac2 = b as nat % d as nat * 10 % d as nat;
            let tenths = round_scaled_even(t0 as int, frac2 as int, d as int);
            let whole = if tenths == 10 {
                whole0 + 1
            } else {
                whole0
            };
            let frac = if tenths == 10 {
                0
            } else {
                tenths
            };
            dec_rep(whole) + "."@ + seq![digit_char(frac)]
        }),
{
    let whole0: u64 = b / d;
    let rem: u64 = b % d;
    let t0: u64 = rem * 10 / d;
    let frac2: u64 = rem * 10 % d;
    proof {
        assert(rem as int * 10 < d as int * 10) by (nonlinear_arith)
            requires
                rem < d,
        ;
        assert(((rem as int * 10) / (d as int)) < 10) by (nonlinear_arith)
            requires
                rem as int * 10 < d as int * 10,
                d as int >= 1024,
        ;
    }
    let tenths: u64 = if 2 * frac2 > d || (2 * frac2 == d && t0 % 2 == 1) {
        t0 + 1
    } else {
        t0
    };
    proof {
        vstd::arithmetic::div_mod::lemma_div_is_ordered_by_denominator(b as int, 1024, d as int);
    }
    let (whole, frac): (u64, u64) = if tenths == 10 {
        (whole0 + 1, 0)
    } else {
        (whole0, tenths)
    };
    let mut s = u64_to_dec(whole);
    s.append(".");
    s.append(digit_str(frac));
    proof {
        reveal_strlit(".");
    }
    s
}

/// Renders a byte count with the largest binary unit in B..TB that keeps
/// the scaled value under 1024, one decimal digit for scaled units.
pub fn format_bytes(bytes: u64) -> (s: String)
    ensures
        s@ == spec_format_bytes(bytes as nat),
{
    if bytes < 1024 {
        let mut s = u64_to_dec(bytes);
        s.append(" B");
        s
    } else if bytes < 1048576 {
        let mut s = scaled_one_decimal(bytes, 1024);
        s.append(" KB");
        s
    } else if bytes < 1073741824 {
        let mut s = scaled_one_decimal(bytes, 1048576);
        s.append(" MB");
        s
    } else if bytes < 1099511627776 {
        let mut s = scaled_one_decimal(bytes, 1073741824);
        s.append(" GB");
        s
    } else {
        let mut s = scaled_one_decimal(bytes, 1099511627776);
        s.append(" TB");
        s
    }
}

/// Renders a value given in tenths with one decimal digit: 453 tenths
/// become `45.3`.
pub fn format_tenths(tenths: u64) -> (s: String)
    ensures
        s@ == dec_rep(tenths as nat / 10) + "."@ + seq![digit_char((tenths % 10) as int)],
{
    let mut s = u64_to_dec(tenths / 10);
    s.append(".");
    s.append(digit_str(tenths % 10));
    proof {
        reveal_strlit(".");
    }
    s
}

/// Rounds basis points (hundredths of a percent) to tenths of a percent,
/// nearest with ties to even: 4567 basis points become 457 tenths (45.7
/// percent), 4565 become 456.
pub fn bp_to_tenths(bp: u64) -> (t: u64)
    ensures
        t == round_scaled_even(bp as int / 10, bp as int % 10, 10),
{
    let q: u64 = bp / 10;
    let r: u64 = bp % 10;
    if 2 * r > 10 || (2 * r == 10 && q % 2 == 1) {
        q + 1
    } else {
        q
    }
}

/// Rounds millidegrees (or any thousandths) to tenths, nearest with ties
/// to even: 75049 millidegrees become 750 tenths (75.0 degrees), 75150
/// become 752.
pub fn milli_to_tenths(m: u64) -> (t: u64)
    ensures
        t == round_scaled_even(m as int / 100, m as int % 100, 100),
{
    let q: u64 = m / 100;
    let r: u64 = m % 100;
    if 2 * r > 100 || (2 * r == 100 && q % 2 == 1) {
        q + 1
    } else {
        q
    }
}

/// Renders a value given in hundredths with two decimal digits: 1205
/// hundredths become `12.05`.
pub fn format_hundredths(hundredths: u64) -> (s: String)
    ensures
        s@ == dec_rep(hundredths as nat / 100) + "."@ + seq![
            digit_char((hundredths / 10 % 10) as int),
            digit_char((hundredths % 10) as int),
        ],
{
    let mut s = u64_to_dec(hundredths / 100);
    s.append(".");
    s.append(digit_str(hundredths / 10 % 10));
    s.append(digit_str(hundredths % 10));
    proof {
        reveal_strlit(".");
        assert(s@ =~= dec_rep(hundredths as nat / 100) + "."@ + seq![
            digit_char((hundredths / 10 % 10) as int),
            digit_char((hundredths % 10) as int),
        ]);
    }
    s
}

/// Truncates `name` to at most `max_len` characters: a too-long name keeps
/// its first `max_len - 3` characters and ends in `...`; a short name comes
/// back unchanged. Operates on characters, so any multi-byte text is cut at
/// a character boundary.
pub fn truncate_name(name: &str, max_len: usize) -> (r: String)
    requires
        name@.len() > max_len ==> max_len >= 3,
    ensures
        name@.len() <= max_len ==> r@ == name@,
        name@.len() > max_len ==> r@ == name@.subrange(0, max_len - 3) + "..."@,
        name@.len() > max_len ==> r@.len() == max_len,
{
    let n = name.unicode_len();
    if n <= max_len {
        String::from_str(name)
    } else {
        let head = name.substring_char(0, max_len - 3);
        let mut s = String::from_str(head);
        s.append("...");
        proof {
            reveal_strlit("...");
        }
        s
    }
}

} // verus!
