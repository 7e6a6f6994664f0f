//! Human-readable durations, activity hints, sizes and status lines.

use vstd::prelude::*;
use vstd::arithmetic::power2::pow2;
use crate::text::{decimal, digit_char, push_char, push_decimal, push_str};

verus! {

// ---------------------------------------------------------------------------
// Durations

/// "1 day", "2 days", ... for whole days.
pub open spec fn days_text(d: nat) -> Seq<char> {
    if d == 1 {
        "1 day"@
    } else {
        decimal(d) + " days"@
    }
}

/// How long ago someone was last seen, never in seconds:
/// under a minute "just now"; under an hour "N minutes"; under a day "N hours";
/// otherwise days, with the remaining hours when there are any.
pub open spec fn spec_format_duration(secs: nat) -> Seq<char> {
    let minutes = secs / 60;
    let hours = secs / 3600;
    let days = secs / 86400;
    if secs < 60 {
        "just now"@
    } else if days >= 1 {
        let remaining_hours = (secs % 86400) / 3600;
        if remaining_hours > 0 {
            days_text(days) + " "@ + decimal(remaining_hours) + " hours"@
        } else {
            days_text(days)
        }
    } else if hours >= 1 {
        if hours == 1 {
            "1 hour"@
        } else {
            decimal(hours) + " hours"@
        }
    } else if minutes == 1 {
        "1 minute"@
    } else {
        decimal(minutes) + " minutes"@
    }
}

/// Format duration (given in whole seconds) in human-readable form
pub fn format_duration(secs: u64) -> (s: String)
    ensures
        s@ == spec_format_duration(secs as nat),
{
    if secs < 60 {
        return String::from_str("just now");
    }
    let minutes = secs / 60;
    let hours = secs / 3600;
    let days = secs / 86400;
    if days >= 1 {
        let remaining_hours = (secs % 86400) / 3600;
        let mut s = if days == 1 {
            String::from_str("1 day")
        } else {
            let mut t = String::new();
            push_decimal(&mut t, days);
            t.append(" days");
            t
        };
        if remaining_hours > 0 {
            s.append(" ");
            push_decimal(&mut s, remaining_hours);
            s.append(" hours");
        }
        s
    } else if hours >= 1 {
        if hours == 1 {
            String::from_str("1 hour")
        } else {
            let mut t = String::new();
            push_decimal(&mut t, hours);
            t.append(" hours");
            t
        }
    } else {
        if minutes == 1 {
            String::from_str("1 minute")
        } else {
            let mut t = String::new();
            push_decimal(&mut t, minutes);
            t.append(" minutes");
            t
        }
    }
}

/// How long since a member was last active: "Active" under ten seconds, then
/// the largest whole unit: seconds, minutes, hours, days.
pub open spec fn spec_activity_hint(secs: nat) -> Seq<char> {
    if secs < 10 {
        "Active"@
    } else if secs < 60 {
        decimal(secs) + "s"@
    } else if secs < 3600 {
        decimal(secs / 60) + "m"@
    } else if secs < 86400 {
        decimal(secs / 3600) + "h"@
    } else {
        decimal(secs / 86400) + "d"@
    }
}

/// Format elapsed seconds as activity hint
pub fn format_activity_hint(secs: u64) -> (s: String)
    ensures
        s@ == spec_activity_hint(secs as nat),
{
    if secs < 10 {
        return String::from_str("Active");
    }
    let (n, unit) = if secs < 60 {
        (secs, "s")
    } else if secs < 3600 {
        (secs / 60, "m")
    } else if secs < 86400 {
        (secs / 3600, "h")
    } else {
        (secs / 86400, "d")
    };
    let mut s = String::new();
    push_decimal(&mut s, n);
    s.append(unit);
    s
}

// ---------------------------------------------------------------------------
// Typing indicator and desk status

/// The typing indicator line for the users currently typing.
pub open spec fn spec_typing_text(names: Seq<Seq<char>>) -> Seq<char> {
    if names.len() == 0 {
        Seq::empty()
    } else if names.len() == 1 {
        names[0] + " typing..."@
    } else if names.len() == 2 {
        names[0] + ", "@ + names[1] + " typing..."@
    } else if names.len() == 3 {
        names[0] + ", "@ + names[1] + ", "@ + names[2] + " typing..."@
    } else {
        "Several people typing..."@
    }
}

/// Format typing indicator text
pub fn format_typing_text(typing_users: &[(u128, String)]) -> (s: String)
    ensures
        s@ == spec_typing_text(typing_users@.map_values(|p: (u128, String)| p.1@)),
{
    let ghost names = typing_users@.map_values(|p: (u128, String)| p.1@);
    let n = typing_users.len();
    if n == 0 {
        String::new()
    } else if n == 1 {
        let mut s = typing_users[0].1.clone();
        s.append(" typing...");
        s
    } else if n == 2 {
        let mut s = typing_users[0].1.clone();
        s.append(", ");
        s.append(typing_users[1].1.as_str());
        s.append(" typing...");
        s
    } else if n == 3 {
        let mut s = typing_users[0].1.clone();
        s.append(", ");
        s.append(typing_users[1].1.as_str());
        s.append(", ");
        s.append(typing_users[2].1.as_str());
        s.append(" typing...");
        s
    } else {
        String::from_str("Several people typing...")
    }
}

/// Format desk status for display: " — at the {desk} desk"
pub fn format_desk_status(desk_label: &str) -> (s: String)
    ensures
        s@ == " — at the "@ + desk_label@ + " desk"@,
{
    let mut s = String::from_str(" — at the ");
    s.append(desk_label);
    s.append(" desk");
    s
}

// ---------------------------------------------------------------------------
// Sizes

/// How far a count must be scaled down (by halving) to fit the 53-bit
/// significand of an `f64`.
pub open spec fn f64_scale(n: nat) -> nat
    decreases n,
{
    if n < 9007199254740992 {
        0
    } else {
        1 + f64_scale(n / 2)
    }
}

/// `n` rounded to a multiple of `p`, ties to the even multiple.
pub open spec fn round_to_multiple(n: nat, p: nat) -> nat
    recommends
        p > 0,
{
    let q = n / p;
    let r = n % p;
    if 2 * r > p || (2 * r == p && q % 2 == 1) {
        (q + 1) * p
    } else {
        q * p
    }
}

/// The value `n as f64` holds: `n` rounded to the nearest number with a
/// 53-bit significand, ties to even.
pub open spec fn f64_value(n: nat) -> nat {
    round_to_multiple(n, pow2(f64_scale(n)))
}

/// `x / unit` to one decimal place, as `{:.1}` writes it: the number of tenths,
/// rounded to nearest, ties to even.
pub open spec fn tenths(x: nat, unit: nat) -> nat
    recommends
        unit > 0,
{
    let q = (x * 10) / unit;
    let r = (x * 10) % unit;
    if 2 * r > unit || (2 * r == unit && q % 2 == 1) {
        q + 1
    } else {
        q
    }
}

/// A number of tenths written with one decimal: "12.3".
pub open spec fn one_decimal(t: nat) -> Seq<char> {
    decimal(t / 10) + seq!['.', digit_char(t % 10)]
}

/// The human-readable size of a file: bytes below 1 KiB, then KiB, MiB or GiB
/// with one decimal (computed on the `f64` value of the size).
pub open spec fn spec_format_size(bytes: nat) -> Seq<char> {
    if bytes < 1024 {
        decimal(bytes) + " B"@
    } else if bytes < 1048576 {
        one_decimal(tenths(f64_value(bytes), 1024)) + " KB"@
    } else if bytes < 1073741824 {
        one_decimal(tenths(f64_value(bytes), 1048576)) + " MB"@
    } else {
        one_decimal(tenths(f64_value(bytes), 1073741824)) + " GB"@
    }
}

proof fn lemma_pow2_values()
    ensures
        pow2(10) == 1024,
        pow2(20) == 1048576,
        pow2(30) == 1073741824,
        pow2(53) == 9007199254740992,
        pow2(64) == 18446744073709551616,
{
    vstd::arithmetic::power2::lemma2_to64();
    vstd::arithmetic::power2::lemma2_to64_rest();
}

/// `n as f64`, as an integer.
fn f64_of_count(n: u64) -> (v: u128)
    ensures
        v == f64_value(n as nat),
        v <= pow2(64),
{
    proof {
        lemma_pow2_values();
    }
    // find the scale: the number of halvings until n fits in 53 bits
    let mut e: u32 = 0;
    let mut p: u128 = 1;
    let mut m: u64 = n;
    proof {
        vstd::arithmetic::power2::lemma2_to64();
        assert(f64_scale(n as nat) == e + f64_scale(m as nat));
    }
    while m >= 9007199254740992
        invariant
            e <= 11,
            p == pow2(e as nat),
            p <= 2048,
            m == n as nat / pow2(e as nat),
            f64_scale(n as nat) == e + f64_scale(m as nat),
            m < pow2((64 - e) as nat),
        decreases m,
    {
        proof {
            vstd::arithmetic::power2::lemma_pow2_adds(e as nat, 1);
            vstd::arithmetic::power2::lemma_pow2_pos(e as nat);
            vstd::arithmetic::div_mod::lemma_div_denominator(n as int, pow2(e as nat) as int, 2);
            vstd::arithmetic::power2::lemma2_to64();
            lemma_pow2_values();
            if e >= 11 {
                if 64 - e < 53 {
                    vstd::arithmetic::power2::lemma_pow2_strictly_increases((64 - e) as nat, 53);
                }
                assert(false);
            }
            if e + 1 < 11 {
                vstd::arithmetic::power2::lemma_pow2_strictly_increases((e + 1) as nat, 11);
            }
            assert(pow2((e + 1) as nat) == pow2(e as nat) * 2);
            vstd::arithmetic::power2::lemma_pow2_adds((63 - e) as nat, 1);
        }
        m = m / 2;
        e = e + 1;
        p = p * 2;
    }
    proof {
        vstd::arithmetic::power2::lemma_pow2_pos(e as nat);
        vstd::arithmetic::power2::lemma_pow2_strictly_increases(e as nat, 12);
        vstd::arithmetic::power2::lemma2_to64();
    }
    let q: u128 = n as u128 / p;
    let r: u128 = n as u128 % p;
    assert(q == m) by {
        assert(n as nat / pow2(e as nat) == m);
    }
    assert((q + 1) * p <= 9007199254740992 * 2048 && q * p <= (q + 1) * p) by (nonlinear_arith)
        requires
            q < 9007199254740992,
            p <= 2048,
    ;
    let v = if 2 * r > p || (2 * r == p && q % 2 == 1) {
        (q + 1) * p
    } else {
        q * p
    };
    proof {
        assert(v <= (q + 1) * p);
        assert((q + 1) * p <= pow2(53) * pow2(e as nat)) by (nonlinear_arith)
            requires
                q + 1 <= pow2(53),
                p == pow2(e as nat),
        ;
        vstd::arithmetic::power2::lemma_pow2_adds(53, e as nat);
        if 53 + e < 64 {
            vstd::arithmetic::power2::lemma_pow2_strictly_increases(53 + e as nat, 64);
        }
    }
    v
}

/// `x / unit` in tenths, rounded half to even.
fn tenths_of(x: u128, unit: u128) -> (t: u128)
    requires
        0 < unit <= 1073741824,
        x <= pow2(64),
    ensures
        t == tenths(x as nat, unit as nat),
{
    proof {
        lemma_pow2_values();
    }
    let q = (x * 10) / unit;
    let r = (x * 10) % unit;
    if 2 * r > unit || (2 * r == unit && q % 2 == 1) {
        q + 1
    } else {
        q
    }
}

fn push_one_decimal(s: &mut String, t: u128)
    requires
        t <= u64::MAX,
    ensures
        final(s)@ == old(s)@ + one_decimal(t as nat),
{
    push_decimal(s, (t / 10) as u64);
    push_char(s, '.');
    let d = (t % 10) as u8;
    let c = (48u8 + d) as char;
    push_char(s, c);
    assert(final(s)@ =~= old(s)@ + one_decimal(t as nat));
}

/// Get human-readable size
pub fn format_size(bytes: u64) -> (s: String)
    ensures
        s@ == spec_format_size(bytes as nat),
{
    proof {
        lemma_pow2_values();
    }
    let mut s = String::new();
    if bytes < 1024 {
        push_decimal(&mut s, bytes);
        s.append(" B");
        return s;
    }
    let f = f64_of_count(bytes);
    let (unit, label): (u128, &str) = if bytes < 1048576 {
        (1024, " KB")
    } else if bytes < 1073741824 {
        (1048576, " MB")
    } else {
        (1073741824, " GB")
    };
    let t = tenths_of(f, unit);
    assert(t <= u64::MAX) by {
        let fi = f as int;
        let ui = unit as int;
        assert(t <= (fi * 10) / ui + 1);
        assert((fi * 10) / ui <= fi * 10 / 1024) by (nonlinear_arith)
            requires
                ui >= 1024,
                fi >= 0,
        ;
    }
    push_one_decimal(&mut s, t);
    s.append(label);
    s
}

} // verus!
