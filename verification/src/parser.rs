//! The executable duration parser, proved to agree with the grammar
//! automaton of [`crate::grammar`] character for character.

use vstd::prelude::*;

use crate::grammar::{
    close_token, digit_val, grammar_ticks, init_state, lemma_run_append, lemma_run_one, run,
    space, unit_ticks, GrammarState, Phase, NANOS_PER_DAY, NANOS_PER_HOUR, NANOS_PER_MICROSECOND,
    NANOS_PER_MILLISECOND, NANOS_PER_MINUTE, NANOS_PER_MONTH, NANOS_PER_SECOND, NANOS_PER_WEEK,
    NANOS_PER_YEAR,
};
use crate::text::seg_matches;

verus! {

/// Whether `c` separates tokens and direction markers.
pub fn is_space_char(c: char) -> (r: bool)
    ensures
        r == space(c),
{
    c == ' ' || c == '\t' || c == '\n' || c == '\r' || c == '\u{b}' || c == '\u{c}'
}

/// The unit abbreviation table, decided over the characters of `cs` between
/// `start` and `end`.
pub(crate) fn unit_ticks_exec(cs: &Vec<char>, start: usize, end: usize) -> (r: Option<u64>)
    requires
        start <= end <= cs@.len(),
    ensures
        r is None <==> unit_ticks(cs@.subrange(start as int, end as int)) is None,
        r matches Some(m) ==> unit_ticks(cs@.subrange(start as int, end as int)) == Some(
            m as nat,
        ),
{
    if seg_matches(cs, start, end, "nanos") || seg_matches(cs, start, end, "nsec")
        || seg_matches(cs, start, end, "ns") {
        Some(1)
    } else if seg_matches(cs, start, end, "usec") || seg_matches(cs, start, end, "us") {
        Some(NANOS_PER_MICROSECOND)
    } else if seg_matches(cs, start, end, "millis") || seg_matches(cs, start, end, "msec")
        || seg_matches(cs, start, end, "ms") {
        Some(NANOS_PER_MILLISECOND)
    } else if seg_matches(cs, start, end, "seconds") || seg_matches(cs, start, end, "second")
        || seg_matches(cs, start, end, "secs") || seg_matches(cs, start, end, "sec")
        || seg_matches(cs, start, end, "s") {
        Some(NANOS_PER_SECOND)
    } else if seg_matches(cs, start, end, "minutes") || seg_matches(cs, start, end, "minute")
        || seg_matches(cs, start, end, "min") || seg_matches(cs, start, end, "mins")
        || seg_matches(cs, start, end, "m") {
        Some(NANOS_PER_MINUTE)
    } else if seg_matches(cs, start, end, "hours") || seg_matches(cs, start, end, "hour")
        || seg_matches(cs, start, end, "hr") || seg_matches(cs, start, end, "hrs")
        || seg_matches(cs, start, end, "h") {
        Some(NANOS_PER_HOUR)
    } else if seg_matches(cs, start, end, "days") || seg_matches(cs, start, end, "day")
        || seg_matches(cs, start, end, "d") {
        Some(NANOS_PER_DAY)
    } else if seg_matches(cs, start, end, "weeks") || seg_matches(cs, start, end, "week")
        || seg_matches(cs, start, end, "wk") || seg_matches(cs, start, end, "wks")
        || seg_matches(cs, start, end, "w") {
        Some(NANOS_PER_WEEK)
    } else if seg_matches(cs, start, end, "months") || seg_matches(cs, start, end, "month")
        || seg_matches(cs, start, end, "M") {
        Some(NANOS_PER_MONTH)
    } else if seg_matches(cs, start, end, "years") || seg_matches(cs, start, end, "year")
        || seg_matches(cs, start, end, "yr") || seg_matches(cs, start, end, "yrs")
        || seg_matches(cs, start, end, "y") {
        Some(NANOS_PER_YEAR)
    } else {
        None
    }
}

/// The grammar state the executable parser's variables stand for.
pub(crate) open spec fn st_of(
    phase: Phase,
    total: u64,
    num: u64,
    unit: Seq<char>,
    seen: bool,
) -> GrammarState {
    GrammarState { phase, total: total as nat, num: num as nat, unit, seen }
}

/// Parse the duration expression in `cs` between `blo` and `bhi`: the total
/// tick count under the grammar, or `None` exactly when the grammar rejects
/// the expression.
pub(crate) fn parse_body(cs: &Vec<char>, blo: usize, bhi: usize) -> (r: Option<u64>)
    requires
        blo <= bhi <= cs@.len(),
    ensures
        ({
            let b = cs@.subrange(blo as int, bhi as int);
            match grammar_ticks(b) {
                None => r is None,
                Some(v) => v <= u64::MAX as nat && r == Some(v as u64),
            }
        }),
{
    let ghost b = cs@.subrange(blo as int, bhi as int);
    let mut phase = Phase::Between;
    let mut total: u64 = 0;
    let mut num: u64 = 0;
    let mut ustart: usize = blo;
    let mut seen: bool = false;
    let mut i: usize = blo;
    proof {
        assert(b.subrange(0, 0) =~= Seq::<char>::empty());
    }
    while i < bhi
        invariant
            blo <= i <= bhi <= cs@.len(),
            b == cs@.subrange(blo as int, bhi as int),
            phase is InUnit ==> blo <= ustart && ustart < i,
            run(init_state(), b.subrange(0, i - blo)) == Some(
                st_of(
                    phase,
                    total,
                    num,
                    if phase is InUnit {
                        cs@.subrange(ustart as int, i as int)
                    } else {
                        Seq::<char>::empty()
                    },
                    seen,
                ),
            ),
        decreases bhi - i,
    {
        let c = cs[i];
        let ghost prefix = b.subrange(0, i - blo);
        let ghost cur = st_of(
            phase,
            total,
            num,
            if phase is InUnit {
                cs@.subrange(ustart as int, i as int)
            } else {
                Seq::<char>::empty()
            },
            seen,
        );
        proof {
            assert(b.subrange(0, i + 1 - blo) =~= prefix + seq![c]);
            lemma_run_append(init_state(), prefix, seq![c]);
            lemma_run_one(cur, c);
        }
        let cu = c as u32;
        let c_is_space = is_space_char(c);
        let c_is_digit = 48 <= cu && cu <= 57;
        let c_is_alpha = (97 <= cu && cu <= 122) || (65 <= cu && cu <= 90);
        match phase {
            Phase::Between => {
                if c_is_space {
                    // state unchanged
                } else if c_is_digit {
                    num = (cu - 48) as u64;
                    phase = Phase::InDigits;
                } else {
                    proof {
                        reject_prefix(b, i - blo + 1);
                    }
                    return None;
                }
            },
            Phase::InDigits => {
                if c_is_digit {
                    let d = (cu - 48) as u64;
                    match num.checked_mul(10) {
                        Some(p) => match p.checked_add(d) {
                            Some(n2) => {
                                num = n2;
                            },
                            None => {
                                proof {
                                    reject_prefix(b, i - blo + 1);
                                }
                                return None;
                            },
                        },
                        None => {
                            proof {
                                assert(num as nat * 10 + digit_val(c) > u64::MAX as nat);
                                reject_prefix(b, i - blo + 1);
                            }
                            return None;
                        },
                    }
                } else if c_is_space {
                    phase = Phase::AfterDigits;
                } else if c_is_alpha {
                    phase = Phase::InUnit;
                    ustart = i;
                    proof {
                        assert(cs@.subrange(i as int, i + 1 as int) =~= seq![c]);
                    }
                } else {
                    proof {
                        reject_prefix(b, i - blo + 1);
                    }
                    return None;
                }
            },
            Phase::AfterDigits => {
                if c_is_space {
                    // state unchanged
                } else if c_is_alpha {
                    phase = Phase::InUnit;
                    ustart = i;
                    proof {
                        assert(cs@.subrange(i as int, i + 1 as int) =~= seq![c]);
                    }
                } else {
                    proof {
                        reject_prefix(b, i - blo + 1);
                    }
                    return None;
                }
            },
            Phase::InUnit => {
                if c_is_alpha {
                    proof {
                        assert(cs@.subrange(ustart as int, i + 1 as int) =~= cs@.subrange(
                            ustart as int,
                            i as int,
                        ).push(c));
                    }
                } else {
                    match unit_ticks_exec(cs, ustart, i) {
                        None => {
                            proof {
                                reject_prefix(b, i - blo + 1);
                            }
                            return None;
                        },
                        Some(m) => {
                            match num.checked_mul(m) {
                                None => {
                                    proof {
                                        assert(close_token(cur) is None) by {
                                            assert(num as nat * m as nat > u64::MAX as nat);
                                        }
                                        reject_prefix(b, i - blo + 1);
                                    }
                                    return None;
                                },
                                Some(p) => match total.checked_add(p) {
                                    None => {
                                        proof {
                                            reject_prefix(b, i - blo + 1);
                                        }
                                        return None;
                                    },
                                    Some(t2) => {
                                        total = t2;
                                        num = 0;
                                        seen = true;
                                        if c_is_space {
                                            phase = Phase::Between;
                                        } else if c_is_digit {
                                            num = (cu - 48) as u64;
                                            phase = Phase::InDigits;
                                        } else {
                                            proof {
                                                reject_prefix(b, i - blo + 1);
                                            }
                                            return None;
                                        }
                                    },
                                },
                            }
                        },
                    }
                }
            },
        }
        i = i + 1;
    }
    proof {
        assert(b.subrange(0, bhi - blo) =~= b);
    }
    match phase {
        Phase::Between => {
            if seen {
                Some(total)
            } else {
                None
            }
        },
        Phase::InDigits => None,
        Phase::AfterDigits => None,
        Phase::InUnit => {
            match unit_ticks_exec(cs, ustart, bhi) {
                None => None,
                Some(m) => match num.checked_mul(m) {
                    None => {
                        proof {
                            assert(num as nat * m as nat > u64::MAX as nat);
                        }
                        None
                    },
                    Some(p) => match total.checked_add(p) {
                        None => None,
                        Some(t2) => Some(t2),
                    },
                },
            }
        },
    }
}

/// The first index at or after `from` (up to `to`) holding a non-whitespace
/// character: trimming the front of the range starts there.
pub(crate) fn skip_spaces_fwd(cs: &Vec<char>, from: usize, to: usize) -> (r: usize)
    requires
        from <= to <= cs@.len(),
    ensures
        from <= r <= to,
        crate::grammar::trim_front(cs@.subrange(from as int, to as int)) == cs@.subrange(
            r as int,
            to as int,
        ),
{
    let mut r: usize = from;
    while r < to && is_space_char(cs[r])
        invariant
            from <= r <= to <= cs@.len(),
            crate::grammar::trim_front(cs@.subrange(from as int, to as int))
                == crate::grammar::trim_front(cs@.subrange(r as int, to as int)),
        decreases to - r,
    {
        proof {
            assert(cs@.subrange(r as int, to as int).drop_first() =~= cs@.subrange(
                r + 1 as int,
                to as int,
            ));
        }
        r = r + 1;
    }
    proof {
        if r < to {
            assert(!space(cs@.subrange(r as int, to as int)[0]));
        }
    }
    r
}

/// The index before which (down to `from`) every character is whitespace:
/// trimming the back of the range ends there.
pub(crate) fn skip_spaces_back(cs: &Vec<char>, from: usize, to: usize) -> (r: usize)
    requires
        from <= to <= cs@.len(),
    ensures
        from <= r <= to,
        crate::grammar::trim_back(cs@.subrange(from as int, to as int)) == cs@.subrange(
            from as int,
            r as int,
        ),
{
    let mut r: usize = to;
    while r > from && is_space_char(cs[r - 1])
        invariant
            from <= r <= to <= cs@.len(),
            crate::grammar::trim_back(cs@.subrange(from as int, to as int))
                == crate::grammar::trim_back(cs@.subrange(from as int, r as int)),
        decreases r,
    {
        proof {
            assert(cs@.subrange(from as int, r as int).drop_last() =~= cs@.subrange(
                from as int,
                r - 1 as int,
            ));
            assert(cs@.subrange(from as int, r as int).last() == cs@[r - 1]);
        }
        r = r - 1;
    }
    proof {
        if r > from {
            assert(!space(cs@.subrange(from as int, r as int).last()));
        }
    }
    r
}

/// A rejected prefix rejects the whole expression.
proof fn reject_prefix(b: Seq<char>, k: int)
    requires
        0 <= k <= b.len(),
        run(init_state(), b.subrange(0, k)) is None,
    ensures
        grammar_ticks(b) is None,
{
    lemma_run_append(init_state(), b.subrange(0, k), b.subrange(k, b.len() as int));
    assert(b.subrange(0, k) + b.subrange(k, b.len() as int) =~= b);
}

} // verus!
