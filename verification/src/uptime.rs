//! Uptime text used by the LSP health report, and its reading back.

use vstd::prelude::*;
use crate::text::{
    chars_of, decimal, find_char, find_char_in, is_digit, lemma_decimal_digits,
    lemma_digits_value_nonneg, lemma_find_char_at, lemma_find_char_none, parse_u64_in,
    parse_u64_spec, push_char, push_decimal,
};

verus! {

/// The text that `format_uptime` gives for `seconds`: `"Ns"` under a
/// minute, `"Nm"`/`"NmKs"` under an hour, `"Nh"`/`"NhKm"` from an hour on.
pub open spec fn uptime_text(seconds: nat) -> Seq<char> {
    if seconds < 60 {
        decimal(seconds) + seq!['s']
    } else if seconds < 3600 {
        let mins = seconds / 60;
        let secs = seconds % 60;
        if secs == 0 {
            decimal(mins) + seq!['m']
        } else {
            decimal(mins) + seq!['m'] + decimal(secs) + seq!['s']
        }
    } else {
        let hours = seconds / 3600;
        let mins = (seconds % 3600) / 60;
        if mins == 0 {
            decimal(hours) + seq!['h']
        } else {
            decimal(hours) + seq!['h'] + decimal(mins) + seq!['m']
        }
    }
}

/// Seconds contributed by the field that ends at the first `unit` of `s`:
/// the number before it times `mult`, or nothing when that is no number.
pub open spec fn field_seconds(s: Seq<char>, unit: char, mult: int) -> int {
    match find_char(s, unit) {
        Some(p) => match parse_u64_spec(s.take(p)) {
            Some(v) => v * mult,
            None => 0,
        },
        None => 0,
    }
}

/// The part of `s` after its first `unit`, or all of `s` when it has none.
pub open spec fn after_unit(s: Seq<char>, unit: char) -> Seq<char> {
    match find_char(s, unit) {
        Some(p) => s.skip(p + 1),
        None => s,
    }
}

/// Total seconds that `parse_uptime_to_seconds` reads from `u`: hours before
/// the first `h`, then minutes before the first `m` after it, then seconds
/// before the first `s` after that.
pub open spec fn uptime_seconds(u: Seq<char>) -> int {
    let min_part = after_unit(u, 'h');
    let sec_part = after_unit(min_part, 'm');
    field_seconds(u, 'h', 3600) + field_seconds(min_part, 'm', 60) + field_seconds(
        sec_part,
        's',
        1,
    )
}

/// Formats an uptime in seconds as human-readable text.
pub fn format_uptime(seconds: u64) -> (s: String)
    ensures
        s@ == uptime_text(seconds as nat),
{
    let mut out = String::new();
    let ghost e = Seq::<char>::empty();
    if seconds < 60 {
        push_decimal(&mut out, seconds);
        push_char(&mut out, 's');
        assert(out@ =~= uptime_text(seconds as nat));
    } else if seconds < 3600 {
        let mins = seconds / 60;
        let secs = seconds % 60;
        push_decimal(&mut out, mins);
        push_char(&mut out, 'm');
        if secs != 0 {
            push_decimal(&mut out, secs);
            push_char(&mut out, 's');
        }
        assert(out@ =~= uptime_text(seconds as nat));
    } else {
        let hours = seconds / 3600;
        let mins = (seconds % 3600) / 60;
        push_decimal(&mut out, hours);
        push_char(&mut out, 'h');
        if mins != 0 {
            push_decimal(&mut out, mins);
            push_char(&mut out, 'm');
        }
        assert(out@ =~= uptime_text(seconds as nat));
    }
    out
}

/// Reads back a formatted uptime (`"Xs"`, `"XmYs"`, `"XhYm"`, `"XhYmZs"`) as
/// seconds; a field that is not a number counts as zero.
pub fn parse_uptime_to_seconds(uptime: Option<&str>) -> (r: Option<u64>)
    requires
        uptime matches Some(u) ==> uptime_seconds(u@) <= u64::MAX,
    ensures
        match uptime {
            None => r is None,
            Some(u) => r == Some(uptime_seconds(u@) as u64),
        },
{
    let u = match uptime {
        None => return None,
        Some(u) => u,
    };
    let v = chars_of(u);
    let n = v.len();
    let ghost s = v@;
    assert(s.subrange(0, n as int) =~= s);
    let mut seconds: u64 = 0;
    let h = find_char_in(&v, 0, n, 'h');
    proof {
        lemma_field_nonneg(s, 'h', 3600);
        let mp = after_unit(s, 'h');
        lemma_field_nonneg(mp, 'm', 60);
        lemma_field_nonneg(after_unit(mp, 'm'), 's', 1);
    }
    if let Some(hp) = h {
        assert(s.subrange(0, hp as int) =~= s.take(hp as int));
        if let Some(hv) = parse_u64_in(&v, 0, hp) {
            seconds = seconds + hv * 3600;
        }
    }
    let min_lo: usize = match h {
        Some(hp) => hp + 1,
        None => 0,
    };
    let ghost min_part = after_unit(s, 'h');
    assert(min_part =~= s.subrange(min_lo as int, n as int));
    assert(seconds == field_seconds(s, 'h', 3600));
    let m = find_char_in(&v, min_lo, n, 'm');
    if let Some(mp) = m {
        assert(v@.subrange(min_lo as int, (min_lo + mp) as int) =~= min_part.take(mp as int));
        if let Some(mv) = parse_u64_in(&v, min_lo, min_lo + mp) {
            seconds = seconds + mv * 60;
        }
    }
    let sec_lo: usize = match m {
        Some(mp) => min_lo + mp + 1,
        None => min_lo,
    };
    let ghost sec_part = after_unit(min_part, 'm');
    assert(sec_part =~= s.subrange(sec_lo as int, n as int));
    assert(seconds == field_seconds(s, 'h', 3600) + field_seconds(min_part, 'm', 60));
    let sp = find_char_in(&v, sec_lo, n, 's');
    if let Some(spos) = sp {
        assert(v@.subrange(sec_lo as int, (sec_lo + spos) as int) =~= sec_part.take(spos as int));
        if let Some(sv) = parse_u64_in(&v, sec_lo, sec_lo + spos) {
            seconds = seconds + sv;
        }
    }
    Some(seconds)
}

/// The seconds read from any text are never negative.
pub proof fn lemma_uptime_seconds_nonneg(u: Seq<char>)
    ensures
        uptime_seconds(u) >= 0,
{
    lemma_field_nonneg(u, 'h', 3600);
    let mp = after_unit(u, 'h');
    lemma_field_nonneg(mp, 'm', 60);
    lemma_field_nonneg(after_unit(mp, 'm'), 's', 1);
}

proof fn lemma_field_nonneg(s: Seq<char>, unit: char, mult: int)
    requires
        mult >= 0,
    ensures
        field_seconds(s, unit, mult) >= 0,
{
    if let Some(p) = find_char(s, unit) {
        if let Some(v) = parse_u64_spec(s.take(p)) {
            assert(v >= 0) by {
                let t = s.take(p);
                let d = if t.len() > 0 && t[0] == '+' { t.drop_first() } else { t };
                lemma_digits_value_nonneg(d);
            }
            assert(v * mult >= 0) by (nonlinear_arith)
                requires
                    v >= 0,
                    mult >= 0,
            ;
        }
    }
}

/// Reading back a formatted uptime gives the seconds it was made from, less
/// the leftover seconds that the text leaves out from one hour on.
pub proof fn law_uptime_round_trip(seconds: u64)
    ensures
        uptime_seconds(uptime_text(seconds as nat)) == seconds - (if seconds >= 3600 {
            seconds % 60
        } else {
            0
        }),
        uptime_seconds(uptime_text(seconds as nat)) <= u64::MAX,
{
    let n = seconds as nat;
    let t = uptime_text(n);
    let e = Seq::<char>::empty();
    if n < 60 {
        lemma_unit_field(n, 's', e, 1);
        lemma_field_lacks(n, 's', e, 'h');
        lemma_field_lacks(n, 's', e, 'm');
        lemma_no_unit(decimal(n) + seq!['s'] + e, 'h', 3600);
        lemma_no_unit(decimal(n) + seq!['s'] + e, 'm', 60);
        assert(t =~= decimal(n) + seq!['s'] + e);
    } else if n < 3600 {
        let mins = n / 60;
        let secs = n % 60;
        if secs == 0 {
            lemma_unit_field(mins, 'm', e, 60);
            lemma_field_lacks(mins, 'm', e, 'h');
            lemma_no_unit(decimal(mins) + seq!['m'] + e, 'h', 3600);
            lemma_no_unit(e, 's', 1);
            assert(t =~= decimal(mins) + seq!['m'] + e);
            assert(mins * 60 == n);
        } else {
            let rest = decimal(secs) + seq!['s'];
            lemma_unit_field(secs, 's', e, 1);
            assert(rest =~= decimal(secs) + seq!['s'] + e);
            lemma_unit_field(mins, 'm', rest, 60);
            lemma_field_lacks(secs, 's', e, 'h');
            assert(forall|j: int| 0 <= j < rest.len() ==> #[trigger] rest[j] != 'h');
            lemma_field_lacks(mins, 'm', rest, 'h');
            lemma_no_unit(decimal(mins) + seq!['m'] + rest, 'h', 3600);
            assert(t =~= decimal(mins) + seq!['m'] + rest);
            assert(mins * 60 + secs == n);
        }
    } else {
        let hours = n / 3600;
        let mins = (n % 3600) / 60;
        assert(hours <= u64::MAX);
        if mins == 0 {
            lemma_unit_field(hours, 'h', e, 3600);
            lemma_no_unit(e, 'm', 60);
            lemma_no_unit(e, 's', 1);
            assert(t =~= decimal(hours) + seq!['h'] + e);
            assert(hours * 3600 == n - n % 60) by (nonlinear_arith)
                requires
                    hours == n / 3600,
                    (n % 3600) / 60 == 0,
            ;
        } else {
            let rest = decimal(mins) + seq!['m'];
            lemma_unit_field(mins, 'm', e, 60);
            assert(rest =~= decimal(mins) + seq!['m'] + e);
            lemma_no_unit(e, 's', 1);
            lemma_unit_field(hours, 'h', rest, 3600);
            assert(t =~= decimal(hours) + seq!['h'] + rest);
            assert(hours * 3600 + mins * 60 == n - n % 60) by (nonlinear_arith)
                requires
                    hours == n / 3600,
                    mins == (n % 3600) / 60,
            ;
        }
    }
}

/// The field `decimal(a)` followed by `unit` is read as `a * mult`, and the
/// text after it is `rest`.
proof fn lemma_unit_field(a: nat, unit: char, rest: Seq<char>, mult: int)
    requires
        a <= u64::MAX,
        !is_digit(unit),
    ensures
        field_seconds(decimal(a) + seq![unit] + rest, unit, mult) == a * mult,
        after_unit(decimal(a) + seq![unit] + rest, unit) == rest,
{
    lemma_decimal_digits(a);
    let d = decimal(a);
    let t = d + seq![unit] + rest;
    assert(t[d.len() as int] == unit);
    assert forall|j: int| 0 <= j < d.len() implies t[j] != unit by {
        assert(t[j] == d[j]);
        assert(is_digit(d[j]));
    }
    lemma_find_char_at(t, unit, d.len() as int);
    assert(t.take(d.len() as int) =~= d);
    assert(t.skip(d.len() as int + 1) =~= rest);
    assert(d[0] != '+') by {
        assert(is_digit(d[0]));
    }
}

/// A character that is neither a digit, nor `unit`, nor in `rest` does not
/// occur in `decimal(a)` followed by `unit` and `rest`.
proof fn lemma_field_lacks(a: nat, unit: char, rest: Seq<char>, c: char)
    requires
        !is_digit(c),
        c != unit,
        forall|j: int| 0 <= j < rest.len() ==> #[trigger] rest[j] != c,
    ensures
        forall|j: int|
            0 <= j < (decimal(a) + seq![unit] + rest).len() ==> #[trigger] (decimal(a) + seq![unit]
                + rest)[j] != c,
{
    lemma_decimal_digits(a);
    let d = decimal(a);
    let t = d + seq![unit] + rest;
    assert forall|j: int| 0 <= j < t.len() implies #[trigger] t[j] != c by {
        if j < d.len() {
            assert(t[j] == d[j]);
            assert(is_digit(d[j]));
        } else if j == d.len() {
        } else {
            assert(t[j] == rest[j - d.len() - 1]);
        }
    }
}

/// A text in which `unit` does not occur contributes no seconds for it and
/// is kept whole.
proof fn lemma_no_unit(t: Seq<char>, unit: char, mult: int)
    requires
        forall|j: int| 0 <= j < t.len() ==> #[trigger] t[j] != unit,
    ensures
        field_seconds(t, unit, mult) == 0,
        after_unit(t, unit) == t,
{
    lemma_find_char_none(t, unit);
}

} // verus!
