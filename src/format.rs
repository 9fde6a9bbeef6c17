//! Durations as short text: hours, minutes and seconds, for terminals.
use crate::json::{int_text, push_int};
use owo_colors::OwoColorize;
use vstd::prelude::*;
use vstd::string::StringExecFns;

verus! {

/// Seconds in an hour.
pub const HOUR: i32 = 3600;

/// Seconds in a minute.
pub const MINUTE: i32 = 60;

/// `t` in the terminal's dim style.
pub open spec fn dim(t: Seq<char>) -> Seq<char> {
    seq!['\u{1b}', '[', '2', 'm'] + t + seq!['\u{1b}', '[', '0', 'm']
}

/// `t` in the terminal's cyan foreground colour.
pub open spec fn fg_cyan(t: Seq<char>) -> Seq<char> {
    seq!['\u{1b}', '[', '3', '6', 'm'] + t + seq!['\u{1b}', '[', '3', '9', 'm']
}

/// Relies on owo_colors' `dimmed`: its display is the text between the
/// escape sequences ESC[2m and ESC[0m.
#[verifier::external_body]
fn dimmed(s: &str) -> (r: String)
    ensures
        r@ == dim(s@),
{
    s.dimmed().to_string()
}

/// Relies on owo_colors' `cyan`: its display is the text between the escape
/// sequences ESC[36m and ESC[39m.
#[verifier::external_body]
fn cyan(s: &str) -> (r: String)
    ensures
        r@ == fg_cyan(s@),
{
    s.cyan().to_string()
}

/// A count followed by its unit letter: in cyan with a dim cyan letter, or
/// plain with a dim letter.
pub open spec fn unit_text(n: int, unit: char, colored: bool) -> Seq<char> {
    if colored {
        fg_cyan(int_text(n)) + dim(fg_cyan(seq![unit]))
    } else {
        int_text(n) + dim(seq![unit])
    }
}

/// A duration as hours (from one hour on), minutes (from one minute on, or
/// after hours) and seconds. With `cyan`, minutes and seconds are coloured
/// and the hours plain; without it, only the hours are coloured.
pub open spec fn duration_text(d: int, cyan: bool) -> Seq<char> {
    let with_hours = d >= HOUR;
    let h = d / HOUR as int;
    let r1 = if with_hours {
        d - h * HOUR
    } else {
        d
    };
    let with_minutes = with_hours || r1 >= MINUTE;
    let m = r1 / MINUTE as int;
    let r2 = if with_minutes {
        r1 - m * MINUTE
    } else {
        r1
    };
    (if with_hours {
        unit_text(h, 'h', !cyan)
    } else {
        seq![]
    }) + (if with_minutes {
        unit_text(m, 'm', cyan)
    } else {
        seq![]
    }) + unit_text(r2, 's', cyan)
}

/// A duration as plain text: hours (above one hour), minutes (above one
/// minute, or after hours) and seconds, each followed by its unit letter.
pub open spec fn plain_duration_text(d: int) -> Seq<char> {
    let with_hours = d > HOUR;
    let h = d / HOUR as int;
    let r1 = if with_hours {
        d - h * HOUR
    } else {
        d
    };
    let with_minutes = with_hours || r1 > MINUTE;
    let m = r1 / MINUTE as int;
    let r2 = if with_minutes {
        r1 - m * MINUTE
    } else {
        r1
    };
    (if with_hours {
        int_text(h) + seq!['h']
    } else {
        seq![]
    }) + (if with_minutes {
        int_text(m) + seq!['m']
    } else {
        seq![]
    }) + int_text(r2) + seq!['s']
}

fn push_unit(out: &mut String, n: i32, unit: &str, colored: bool)
    requires
        unit@.len() == 1,
    ensures
        final(out)@ == old(out)@ + unit_text(n as int, unit@[0], colored),
{
    let mut num = String::new();
    push_int(&mut num, n as i64);
    assert(num@ =~= int_text(n as int));
    assert(unit@ =~= seq![unit@[0]]);
    if colored {
        let c = cyan(num.as_str());
        out.append(c.as_str());
        let cu = cyan(unit);
        let d = dimmed(cu.as_str());
        out.append(d.as_str());
    } else {
        out.append(num.as_str());
        let d = dimmed(unit);
        out.append(d.as_str());
    }
    assert(final(out)@ =~= old(out)@ + unit_text(n as int, unit@[0], colored));
}

/// The duration `duration_secs` as hours, minutes and seconds with terminal
/// styling; see `duration_text`.
pub fn format_duration(duration_secs: i32, cyan: bool) -> (r: String)
    ensures
        r@ == duration_text(duration_secs as int, cyan),
{
    proof {
        reveal_strlit("h");
        reveal_strlit("m");
        reveal_strlit("s");
    }
    let mut secs = duration_secs;
    let mut out = String::new();
    let mut started = false;
    if secs >= HOUR {
        let hours = secs / HOUR;
        push_unit(&mut out, hours, "h", !cyan);
        secs = secs - hours * HOUR;
        started = true;
    }
    if started || secs >= MINUTE {
        let mins = secs / MINUTE;
        push_unit(&mut out, mins, "m", cyan);
        secs = secs - mins * MINUTE;
    }
    push_unit(&mut out, secs, "s", cyan);
    assert(out@ =~= duration_text(duration_secs as int, cyan));
    out
}

/// The duration `duration_secs` as plain hours, minutes and seconds; see
/// `plain_duration_text`.
pub fn format_duration_plain(duration_secs: i32) -> (r: String)
    ensures
        r@ == plain_duration_text(duration_secs as int),
{
    proof {
        reveal_strlit("h");
        reveal_strlit("m");
        reveal_strlit("s");
    }
    let mut secs = duration_secs;
    let mut out = String::new();
    let mut started = false;
    if secs > HOUR {
        let hours = secs / HOUR;
        push_int(&mut out, hours as i64);
        out.append("h");
        secs = secs - hours * HOUR;
        started = true;
    }
    if started || secs > MINUTE {
        let mins = secs / MINUTE;
        push_int(&mut out, mins as i64);
        out.append("m");
        secs = secs - mins * MINUTE;
    }
    push_int(&mut out, secs as i64);
    out.append("s");
    assert(out@ =~= plain_duration_text(duration_secs as int));
    out
}

} // verus!
