//! The duration grammar: a whitespace-separated list of `count unit` tokens
//! such as `1h 30m`, where a count is a run of decimal digits and a unit is
//! an abbreviation from a fixed table (`y`, `month`, `w`, `d`, `h`, `m`, `s`,
//! `ms`, `us`, `ns` and their long forms). Whitespace between a count and its
//! unit is permitted, so `1 h` and `1h` both parse. Duplicate units are
//! summed. The value of an expression is the sum over its tokens of
//! `count * ticks(unit)`, counted in elementary ticks of one nanosecond.
//!
//! The grammar is specified as a character-at-a-time automaton ([`step`],
//! [`run`], [`finalize`]) whose accumulators are bounded by `u64::MAX`:
//! exceeding that bound while summing is a parse failure, exactly as the
//! executable parser detects it with checked arithmetic.

use vstd::prelude::*;

verus! {

pub const NANOS_PER_MICROSECOND: u64 = 1_000;
pub const NANOS_PER_MILLISECOND: u64 = 1_000_000;
pub const NANOS_PER_SECOND: u64 = 1_000_000_000;
pub const NANOS_PER_MINUTE: u64 = 60_000_000_000;
pub const NANOS_PER_HOUR: u64 = 3_600_000_000_000;
pub const NANOS_PER_DAY: u64 = 86_400_000_000_000;
pub const NANOS_PER_WEEK: u64 = 604_800_000_000_000;
/// A month is a fixed nominal length of 30.44 days, not calendar-aware.
pub const NANOS_PER_MONTH: u64 = 2_630_016_000_000_000;
/// A year is a fixed nominal length of 365.25 days.
pub const NANOS_PER_YEAR: u64 = 31_557_600_000_000_000;

pub const SECS_PER_MINUTE: u64 = 60;
pub const SECS_PER_HOUR: u64 = 3_600;
pub const SECS_PER_DAY: u64 = 86_400;
pub const SECS_PER_MONTH: u64 = 2_630_016;
pub const SECS_PER_YEAR: u64 = 31_557_600;

/// The whitespace characters that separate tokens and direction markers.
pub open spec fn space(c: char) -> bool {
    c == ' ' || c == '\t' || c == '\n' || c == '\r' || c == '\u{b}' || c == '\u{c}'
}

pub open spec fn digit(c: char) -> bool {
    48 <= c as u32 && c as u32 <= 57
}

pub open spec fn digit_val(c: char) -> nat {
    (c as u32 - 48) as nat
}

/// The characters a unit abbreviation may consist of.
pub open spec fn alpha(c: char) -> bool {
    (97 <= c as u32 && c as u32 <= 122) || (65 <= c as u32 && c as u32 <= 90)
}

/// The fixed abbreviation table: the tick count of one unit, or `None` for
/// an unrecognized abbreviation. Looking the whole alphabetic run up in this
/// table is what disambiguates abbreviations sharing a prefix (`m`, `ms`,
/// `month`).
pub open spec fn unit_ticks(u: Seq<char>) -> Option<nat> {
    if u == "nanos"@ || u == "nsec"@ || u == "ns"@ {
        Some(1 as nat)
    } else if u == "usec"@ || u == "us"@ {
        Some(NANOS_PER_MICROSECOND as nat)
    } else if u == "millis"@ || u == "msec"@ || u == "ms"@ {
        Some(NANOS_PER_MILLISECOND as nat)
    } else if u == "seconds"@ || u == "second"@ || u == "secs"@ || u == "sec"@ || u == "s"@ {
        Some(NANOS_PER_SECOND as nat)
    } else if u == "minutes"@ || u == "minute"@ || u == "min"@ || u == "mins"@ || u == "m"@ {
        Some(NANOS_PER_MINUTE as nat)
    } else if u == "hours"@ || u == "hour"@ || u == "hr"@ || u == "hrs"@ || u == "h"@ {
        Some(NANOS_PER_HOUR as nat)
    } else if u == "days"@ || u == "day"@ || u == "d"@ {
        Some(NANOS_PER_DAY as nat)
    } else if u == "weeks"@ || u == "week"@ || u == "wk"@ || u == "wks"@ || u == "w"@ {
        Some(NANOS_PER_WEEK as nat)
    } else if u == "months"@ || u == "month"@ || u == "M"@ {
        Some(NANOS_PER_MONTH as nat)
    } else if u == "years"@ || u == "year"@ || u == "yr"@ || u == "yrs"@ || u == "y"@ {
        Some(NANOS_PER_YEAR as nat)
    } else {
        None
    }
}

/// Where the automaton stands inside the token list.
#[derive(Debug, Clone, Copy, PartialEq, Eq, Structural)]
pub enum Phase {
    /// Before the first token, between tokens, or after the last one.
    Between,
    /// Inside a run of digits.
    InDigits,
    /// After a digit run and at least one whitespace character, awaiting a unit.
    AfterDigits,
    /// Inside a run of unit characters.
    InUnit,
}

/// The automaton's state: the ticks of the tokens already completed, the
/// pending count and unit characters, and whether any token has completed.
#[verifier::ext_equal]
pub struct GrammarState {
    pub phase: Phase,
    pub total: nat,
    pub num: nat,
    pub unit: Seq<char>,
    pub seen: bool,
}

pub open spec fn init_state() -> GrammarState {
    GrammarState { phase: Phase::Between, total: 0, num: 0, unit: Seq::empty(), seen: false }
}

/// Close the pending token: add `num * ticks(unit)` to the running total.
/// Fails on an unknown unit or when the sum leaves the 64-bit range.
pub open spec fn close_token(st: GrammarState) -> Option<GrammarState> {
    match unit_ticks(st.unit) {
        None => None,
        Some(m) => {
            let t2 = st.total + st.num * m;
            if t2 > u64::MAX as nat {
                None
            } else {
                Some(
                    GrammarState {
                        phase: Phase::Between,
                        total: t2,
                        num: 0,
                        unit: Seq::empty(),
                        seen: true,
                    },
                )
            }
        },
    }
}

/// One character of the grammar automaton. `None` is a parse failure.
pub open spec fn step(st: GrammarState, c: char) -> Option<GrammarState> {
    match st.phase {
        Phase::Between => {
            if space(c) {
                Some(st)
            } else if digit(c) {
                Some(GrammarState { phase: Phase::InDigits, num: digit_val(c), ..st })
            } else {
                None
            }
        },
        Phase::InDigits => {
            if digit(c) {
                let n2 = st.num * 10 + digit_val(c);
                if n2 > u64::MAX as nat {
                    None
                } else {
                    Some(GrammarState { num: n2, ..st })
                }
            } else if space(c) {
                Some(GrammarState { phase: Phase::AfterDigits, ..st })
            } else if alpha(c) {
                Some(GrammarState { phase: Phase::InUnit, unit: seq![c], ..st })
            } else {
                None
            }
        },
        Phase::AfterDigits => {
            if space(c) {
                Some(st)
            } else if alpha(c) {
                Some(GrammarState { phase: Phase::InUnit, unit: seq![c], ..st })
            } else {
                None
            }
        },
        Phase::InUnit => {
            if alpha(c) {
                Some(GrammarState { unit: st.unit.push(c), ..st })
            } else {
                match close_token(st) {
                    None => None,
                    Some(st2) => {
                        if space(c) {
                            Some(st2)
                        } else if digit(c) {
                            Some(
                                GrammarState { phase: Phase::InDigits, num: digit_val(c), ..st2 },
                            )
                        } else {
                            None
                        }
                    },
                }
            }
        },
    }
}

/// Run the automaton over a whole character sequence.
pub open spec fn run(st: GrammarState, s: Seq<char>) -> Option<GrammarState>
    decreases s.len(),
{
    if s.len() == 0 {
        Some(st)
    } else {
        match step(st, s[0]) {
            None => None,
            Some(st2) => run(st2, s.drop_first()),
        }
    }
}

/// What the automaton yields at the end of the input: the total ticks, or
/// `None` when the input ends mid-token, holds no token at all, ends in an
/// unknown unit, or overflows while summing.
pub open spec fn finalize(st: GrammarState) -> Option<nat> {
    match st.phase {
        Phase::Between => if st.seen {
            Some(st.total)
        } else {
            None
        },
        Phase::InDigits => None,
        Phase::AfterDigits => None,
        Phase::InUnit => match close_token(st) {
            None => None,
            Some(st2) => Some(st2.total),
        },
    }
}

/// The value of a duration expression: its total tick count, or `None` when
/// the expression is not in the grammar (or overflows 64 bits).
pub open spec fn grammar_ticks(s: Seq<char>) -> Option<nat> {
    match run(init_state(), s) {
        None => None,
        Some(st) => finalize(st),
    }
}

/// Running over a single character is one step of the automaton.
pub proof fn lemma_run_one(st: GrammarState, c: char)
    ensures
        run(st, seq![c]) == step(st, c),
{
    assert(seq![c][0] == c);
    match step(st, c) {
        None => {
            assert(run(st, seq![c]) is None);
        },
        Some(st2) => {
            assert(run(st, seq![c]) == run(st2, seq![c].drop_first()));
            assert(seq![c].drop_first() =~= Seq::<char>::empty());
            assert(run(st2, Seq::<char>::empty()) == Some(st2));
        },
    }
}

/// Running over a concatenation runs over each part in turn.
pub proof fn lemma_run_append(st: GrammarState, s1: Seq<char>, s2: Seq<char>)
    ensures
        run(st, s1 + s2) == (match run(st, s1) {
            None => None::<GrammarState>,
            Some(mid) => run(mid, s2),
        }),
    decreases s1.len(),
{
    if s1.len() == 0 {
        assert(s1 + s2 =~= s2);
    } else {
        assert((s1 + s2)[0] == s1[0]);
        assert((s1 + s2).len() > 0);
        match step(st, s1[0]) {
            None => {},
            Some(mid) => {
                assert((s1 + s2).drop_first() =~= s1.drop_first() + s2);
                lemma_run_append(mid, s1.drop_first(), s2);
            },
        }
    }
}

/// The leading whitespace of a sequence, removed.
pub open spec fn trim_front(s: Seq<char>) -> Seq<char>
    decreases s.len(),
{
    if s.len() > 0 && space(s[0]) {
        trim_front(s.drop_first())
    } else {
        s
    }
}

/// The trailing whitespace of a sequence, removed.
pub open spec fn trim_back(s: Seq<char>) -> Seq<char>
    decreases s.len(),
{
    if s.len() > 0 && space(s.last()) {
        trim_back(s.drop_last())
    } else {
        s
    }
}

/// The sequence with whitespace removed at both ends.
pub open spec fn trimmed(s: Seq<char>) -> Seq<char> {
    trim_back(trim_front(s))
}

/// The trimmed input starts with the word `in`.
pub open spec fn has_in_marker(t: Seq<char>) -> bool {
    &&& t.len() >= 2
    &&& t[0] == 'i'
    &&& t[1] == 'n'
    &&& (t.len() == 2 || space(t[2]))
}

/// The trimmed input ends with the word `ago`.
pub open spec fn has_ago_marker(t: Seq<char>) -> bool {
    &&& t.len() >= 3
    &&& t[t.len() - 3] == 'a'
    &&& t[t.len() - 2] == 'g'
    &&& t[t.len() - 1] == 'o'
    &&& (t.len() == 3 || space(t[t.len() - 4]))
}

/// The duration expression handed to the grammar once a direction marker is
/// stripped from the trimmed input.
pub open spec fn stripped_body(t: Seq<char>) -> Seq<char> {
    if has_in_marker(t) {
        trim_front(t.subrange(2, t.len() as int))
    } else if has_ago_marker(t) {
        trim_back(t.subrange(0, t.len() - 3))
    } else {
        t
    }
}

/// The direction the markers resolve to: `ago` alone means backward,
/// anything else (an explicit `in`, or no marker) means forward.
pub open spec fn parsed_direction(t: Seq<char>) -> crate::biduration::Direction {
    if has_ago_marker(t) && !has_in_marker(t) {
        crate::biduration::Direction::Backward
    } else {
        crate::biduration::Direction::Forward
    }
}

} // verus!
