//! Rendering a bidirectional duration back into human text.
//!
//! [`BiDuration::to_friendly_string`] decomposes the magnitude greedily into
//! the grammar's own units (`1h 30m` style) and wraps it in the directional
//! phrasing `in {duration}` / `{duration} ago`; the decomposition uses the
//! same multipliers as the parser, so the rendered text re-parses to the
//! same magnitude. [`BiDuration::to_friendly_hours_string`] is a coarser
//! display that rounds to whole minutes and shows only hours and minutes.

use vstd::prelude::*;
use vstd::string::{StringExecFns, StrSliceExecFns};

use crate::biduration::{BiDuration, Direction};
use crate::grammar::{
    NANOS_PER_MICROSECOND, NANOS_PER_MILLISECOND, NANOS_PER_SECOND, SECS_PER_DAY, SECS_PER_HOUR,
    SECS_PER_MINUTE, SECS_PER_MONTH, SECS_PER_YEAR,
};
use crate::text::{dec_chars, push_dec, push_str_chars, string_from_chars};

verus! {

/// A rendered component of the compact form: the count in decimal, the unit
/// label glued on (`30m`), an `s` appended to pluralizable labels for counts
/// above one, and a space joining it to what came before. A zero count
/// renders as nothing.
pub open spec fn append_item(body: Seq<char>, n: nat, label: Seq<char>, plural: bool) -> Seq<
    char,
> {
    if n == 0 {
        body
    } else {
        (if body.len() == 0 {
            body
        } else {
            body + seq![' ']
        }) + dec_chars(n) + label + (if plural && n > 1 {
            seq!['s']
        } else {
            Seq::<char>::empty()
        })
    }
}

/// The compact rendering of a magnitude: a greedy decomposition into years,
/// months, days, hours, minutes, seconds, milliseconds, microseconds and
/// nanoseconds, with the same multipliers the grammar gives those units, so
/// the rendering re-parses to the same magnitude. A zero magnitude renders
/// as `0s`.
pub open spec fn friendly_body_chars(mag: nat) -> Seq<char> {
    let secs = mag / (NANOS_PER_SECOND as nat);
    let subns = mag % (NANOS_PER_SECOND as nat);
    let years = secs / (SECS_PER_YEAR as nat);
    let ydays = secs % (SECS_PER_YEAR as nat);
    let months = ydays / (SECS_PER_MONTH as nat);
    let mdays = ydays % (SECS_PER_MONTH as nat);
    let days = mdays / (SECS_PER_DAY as nat);
    let day_secs = mdays % (SECS_PER_DAY as nat);
    let hours = day_secs / (SECS_PER_HOUR as nat);
    let hour_secs = day_secs % (SECS_PER_HOUR as nat);
    let minutes = hour_secs / (SECS_PER_MINUTE as nat);
    let seconds = hour_secs % (SECS_PER_MINUTE as nat);
    let millis = subns / (NANOS_PER_MILLISECOND as nat);
    let sub_ms = subns % (NANOS_PER_MILLISECOND as nat);
    let micros = sub_ms / (NANOS_PER_MICROSECOND as nat);
    let nanos = sub_ms % (NANOS_PER_MICROSECOND as nat);
    let b = Seq::<char>::empty();
    let b = append_item(b, years, "year"@, true);
    let b = append_item(b, months, "month"@, true);
    let b = append_item(b, days, "day"@, true);
    let b = append_item(b, hours, "h"@, false);
    let b = append_item(b, minutes, "m"@, false);
    let b = append_item(b, seconds, "s"@, false);
    let b = append_item(b, millis, "ms"@, false);
    let b = append_item(b, micros, "us"@, false);
    let b = append_item(b, nanos, "ns"@, false);
    if b.len() == 0 {
        "0s"@
    } else {
        b
    }
}

/// The friendly rendering of a whole duration: the compact form of the
/// magnitude wrapped in the directional phrasing.
pub open spec fn friendly_chars(mag: nat, dir: Direction) -> Seq<char> {
    if dir is Forward {
        "in "@ + friendly_body_chars(mag)
    } else {
        friendly_body_chars(mag) + " ago"@
    }
}

/// A rendered component of the coarse hours-and-minutes form: `N name` with
/// an `s` appended when the count is above one, joined by a space unless it
/// is the first component. A zero count renders as nothing and keeps the
/// first-component flag.
pub open spec fn rendered_item(prev: Seq<char>, first: bool, n: nat, name: Seq<char>) -> Seq<
    char,
> {
    if n == 0 {
        prev
    } else {
        prev + (if first {
            Seq::<char>::empty()
        } else {
            seq![' ']
        }) + dec_chars(n) + seq![' '] + name + (if n > 1 {
            seq!['s']
        } else {
            Seq::<char>::empty()
        })
    }
}

/// The coarse rendering of a magnitude: total whole seconds rounded to the
/// nearest minute (half away from zero), split into hours and minutes, the
/// nonzero components rendered, and `0 minutes` when nothing remains.
pub open spec fn friendly_hours_chars(mag: nat) -> Seq<char> {
    let secs = mag / (NANOS_PER_SECOND as nat);
    if secs == 0 {
        "0 minutes"@
    } else {
        let rounded: nat = if secs % 60 >= 30 {
            1
        } else {
            0
        };
        let minutes = secs / 60 + rounded;
        let hours = minutes / 60;
        let mins = minutes % 60;
        let b = rendered_item(Seq::<char>::empty(), true, hours, "hour"@);
        let b2 = rendered_item(b, hours == 0, mins, "minute"@);
        if b2.len() == 0 {
            "0 minutes"@
        } else {
            b2
        }
    }
}

/// Append one component of the compact form to `out`.
fn append_item_exec(out: &mut Vec<char>, n: u64, label: &str, plural: bool)
    ensures
        final(out)@ == append_item(old(out)@, n as nat, label@, plural),
{
    if n == 0 {
        return ;
    }
    if out.len() > 0 {
        out.push(' ');
    }
    push_dec(out, n);
    push_str_chars(out, label);
    if plural && n > 1 {
        out.push('s');
    }
    proof {
        assert(final(out)@ =~= append_item(old(out)@, n as nat, label@, plural));
    }
}

/// Append one component of the coarse form to `s`, exactly as
/// [`rendered_item`] describes it, clearing the first-component flag when
/// something was rendered.
pub fn item(s: &mut String, is_first: &mut bool, name: &str, value: u64)
    ensures
        final(s)@ == rendered_item(old(s)@, *old(is_first), value as nat, name@),
        *final(is_first) == (*old(is_first) && value == 0),
{
    if value > 0 {
        if !*is_first {
            s.append(" ");
        }
        *is_first = false;
        let mut digits: Vec<char> = Vec::new();
        push_dec(&mut digits, value);
        let ds = string_from_chars(&digits);
        s.append(ds.as_str());
        s.append(" ");
        s.append(name);
        if value > 1 {
            s.append("s");
        }
        proof {
            reveal_strlit(" ");
            reveal_strlit("s");
            assert(" "@ =~= seq![' ']);
            assert("s"@ =~= seq!['s']);
            assert(final(s)@ =~= rendered_item(old(s)@, *old(is_first), value as nat, name@));
        }
    }
}

impl BiDuration {
    /// Render the duration as directional human text: the compact form of
    /// the magnitude, wrapped as `in {duration}` for a forward span and
    /// `{duration} ago` for a backward one.
    pub fn to_friendly_string(&self) -> (r: String)
        ensures
            r@ == friendly_chars(self.magnitude(), self.direction()),
    {
        let (mag, dir) = self.to_std_duration();
        let secs = mag / NANOS_PER_SECOND;
        let subns = mag % NANOS_PER_SECOND;
        let years = secs / SECS_PER_YEAR;
        let ydays = secs % SECS_PER_YEAR;
        let months = ydays / SECS_PER_MONTH;
        let mdays = ydays % SECS_PER_MONTH;
        let days = mdays / SECS_PER_DAY;
        let day_secs = mdays % SECS_PER_DAY;
        let hours = day_secs / SECS_PER_HOUR;
        let hour_secs = day_secs % SECS_PER_HOUR;
        let minutes = hour_secs / SECS_PER_MINUTE;
        let seconds = hour_secs % SECS_PER_MINUTE;
        let millis = subns / NANOS_PER_MILLISECOND;
        let sub_ms = subns % NANOS_PER_MILLISECOND;
        let micros = sub_ms / NANOS_PER_MICROSECOND;
        let nanos = sub_ms % NANOS_PER_MICROSECOND;
        let mut body: Vec<char> = Vec::new();
        append_item_exec(&mut body, years, "year", true);
        append_item_exec(&mut body, months, "month", true);
        append_item_exec(&mut body, days, "day", true);
        append_item_exec(&mut body, hours, "h", false);
        append_item_exec(&mut body, minutes, "m", false);
        append_item_exec(&mut body, seconds, "s", false);
        append_item_exec(&mut body, millis, "ms", false);
        append_item_exec(&mut body, micros, "us", false);
        append_item_exec(&mut body, nanos, "ns", false);
        if body.len() == 0 {
            push_str_chars(&mut body, "0s");
        }
        proof {
            assert(body@ == friendly_body_chars(mag as nat));
        }
        let mut out: Vec<char> = Vec::new();
        match dir {
            Direction::Forward => {
                push_str_chars(&mut out, "in ");
                out.append(&mut body);
            },
            Direction::Backward => {
                out.append(&mut body);
                push_str_chars(&mut out, " ago");
            },
        }
        string_from_chars(&out)
    }

    /// Render the magnitude as a coarse hours-and-minutes display, rounding
    /// the leftover seconds to the nearest minute (half away from zero).
    /// The rounding can promote a sub-minute remainder into an extra minute
    /// and sixty minutes into an extra hour; a result with nothing left to
    /// show reads `0 minutes`.
    pub fn to_friendly_hours_string(&self) -> (r: String)
        ensures
            r@ == friendly_hours_chars(self.magnitude()),
    {
        let (mag, _) = self.to_std_duration();
        let secs = mag / NANOS_PER_SECOND;
        if secs == 0 {
            return String::from_str("0 minutes");
        }
        proof {
            assert(secs / 60 < u64::MAX) by (nonlinear_arith)
                requires
                    secs <= u64::MAX,
            ;
        }
        let rounded: u64 = if secs % 60 >= 30 {
            1
        } else {
            0
        };
        let minutes = secs / 60 + rounded;
        let hours = minutes / 60;
        let mins = minutes % 60;
        let mut out = String::new();
        let mut first = true;
        item(&mut out, &mut first, "hour", hours);
        item(&mut out, &mut first, "minute", mins);
        if hours == 0 && mins == 0 {
            return String::from_str("0 minutes");
        }
        proof {
            assert(out@.len() > 0);
        }
        out
    }
}

} // verus!
