//! Laws relating the formatter to the parser: the friendly rendering of any
//! duration re-parses, under the grammar the parser is proved against, to
//! the very magnitude that was rendered.

use vstd::prelude::*;

use crate::biduration::BiDuration;
use crate::format::{append_item, friendly_body_chars, friendly_chars};
use crate::grammar::{
    alpha, close_token, digit, digit_val, finalize, grammar_ticks, has_ago_marker, has_in_marker, init_state,
    lemma_run_append, lemma_run_one, parsed_direction, run, space, step, stripped_body, trim_back,
    trim_front, trimmed, unit_ticks, GrammarState, Phase, NANOS_PER_DAY, NANOS_PER_HOUR,
    NANOS_PER_MICROSECOND, NANOS_PER_MILLISECOND, NANOS_PER_MINUTE, NANOS_PER_MONTH,
    NANOS_PER_SECOND, NANOS_PER_YEAR, SECS_PER_DAY, SECS_PER_HOUR, SECS_PER_MINUTE,
    SECS_PER_MONTH, SECS_PER_YEAR,
};
use crate::text::{dec_chars, digit_char, lemma_digit_char};

verus! {

broadcast use vstd::string::group_string_axioms;

/// The decimal rendering is nonempty and starts with a digit.
proof fn lemma_dec_shape(n: nat)
    ensures
        dec_chars(n).len() > 0,
        digit(dec_chars(n)[0]),
    decreases n,
{
    if n < 10 {
        lemma_digit_char(n);
    } else {
        lemma_dec_shape(n / 10);
    }
}

/// Running the automaton over a decimal rendering, between tokens, reads
/// the rendered number into the pending count.
proof fn lemma_run_dec(st: GrammarState, n: nat)
    requires
        st.phase is Between,
        n <= u64::MAX,
    ensures
        run(st, dec_chars(n)) == Some(GrammarState { phase: Phase::InDigits, num: n, ..st }),
    decreases n,
{
    if n < 10 {
        lemma_digit_char(n);
        lemma_run_one(st, digit_char(n));
    } else {
        lemma_digit_char(n % 10);
        lemma_run_dec(st, n / 10);
        assert(dec_chars(n) =~= dec_chars(n / 10) + seq![digit_char(n % 10)]);
        lemma_run_append(st, dec_chars(n / 10), seq![digit_char(n % 10)]);
        let mid = GrammarState { phase: Phase::InDigits, num: n / 10, ..st };
        lemma_run_one(mid, digit_char(n % 10));
        assert((n / 10) * 10 + n % 10 == n) by (nonlinear_arith);
    }
}

/// Running the automaton over unit characters, inside a unit, appends them
/// to the pending unit.
proof fn lemma_run_unit_cont(st: GrammarState, u: Seq<char>)
    requires
        st.phase is InUnit,
        forall|i: int| 0 <= i < u.len() ==> alpha(#[trigger] u[i]),
    ensures
        run(st, u) == Some(GrammarState { unit: st.unit + u, ..st }),
    decreases u.len(),
{
    if u.len() == 0 {
        assert(st.unit + u =~= st.unit);
        assert(GrammarState { unit: st.unit + u, ..st } =~= st);
    } else {
        lemma_run_one(st, u[0]);
        let st2 = GrammarState { unit: st.unit.push(u[0]), ..st };
        assert(step(st, u[0]) == Some(st2));
        lemma_run_unit_cont(st2, u.drop_first());
        assert(run(st, u) == run(st2, u.drop_first())) by {
            assert(run(st, u) == (match step(st, u[0]) {
                None => None::<GrammarState>,
                Some(m) => run(m, u.drop_first()),
            }));
        }
        assert(st2.unit + u.drop_first() =~= st.unit + u);
        assert(GrammarState { unit: st2.unit + u.drop_first(), ..st2 } =~= GrammarState {
            unit: st.unit + u,
            ..st
        });
    }
}

/// Running the automaton over a whole unit abbreviation, right after a digit
/// run, makes it the pending unit.
proof fn lemma_run_unit(st: GrammarState, u: Seq<char>)
    requires
        st.phase is InDigits,
        u.len() > 0,
        forall|i: int| 0 <= i < u.len() ==> alpha(#[trigger] u[i]),
    ensures
        run(st, u) == Some(GrammarState { phase: Phase::InUnit, unit: u, ..st }),
{
    lemma_run_one(st, u[0]);
    let st2 = GrammarState { phase: Phase::InUnit, unit: seq![u[0]], ..st };
    assert(step(st, u[0]) == Some(st2));
    assert(run(st, u) == run(st2, u.drop_first())) by {
        assert(run(st, u) == (match step(st, u[0]) {
            None => None::<GrammarState>,
            Some(m) => run(m, u.drop_first()),
        }));
    }
    lemma_run_unit_cont(st2, u.drop_first());
    assert(st2.unit + u.drop_first() =~= u);
    assert(GrammarState { unit: st2.unit + u.drop_first(), ..st2 } =~= GrammarState {
        phase: Phase::InUnit,
        unit: u,
        ..st
    });
}

/// The unit table entries and character shapes of the labels the formatter
/// writes.
#[verifier::rlimit(100)]
proof fn lemma_format_labels()
    ensures
        unit_ticks("year"@) == Some(NANOS_PER_YEAR as nat),
        unit_ticks("years"@) == Some(NANOS_PER_YEAR as nat),
        unit_ticks("month"@) == Some(NANOS_PER_MONTH as nat),
        unit_ticks("months"@) == Some(NANOS_PER_MONTH as nat),
        unit_ticks("day"@) == Some(NANOS_PER_DAY as nat),
        unit_ticks("days"@) == Some(NANOS_PER_DAY as nat),
        unit_ticks("h"@) == Some(NANOS_PER_HOUR as nat),
        unit_ticks("m"@) == Some(NANOS_PER_MINUTE as nat),
        unit_ticks("s"@) == Some(NANOS_PER_SECOND as nat),
        unit_ticks("ms"@) == Some(NANOS_PER_MILLISECOND as nat),
        unit_ticks("us"@) == Some(NANOS_PER_MICROSECOND as nat),
        unit_ticks("ns"@) == Some(1 as nat),
        "year"@.push('s') =~= "years"@,
        "month"@.push('s') =~= "months"@,
        "day"@.push('s') =~= "days"@,
        forall|i: int| 0 <= i < "year"@.len() ==> alpha(#[trigger] "year"@[i]),
        forall|i: int| 0 <= i < "month"@.len() ==> alpha(#[trigger] "month"@[i]),
        forall|i: int| 0 <= i < "day"@.len() ==> alpha(#[trigger] "day"@[i]),
        forall|i: int| 0 <= i < "h"@.len() ==> alpha(#[trigger] "h"@[i]),
        forall|i: int| 0 <= i < "m"@.len() ==> alpha(#[trigger] "m"@[i]),
        forall|i: int| 0 <= i < "s"@.len() ==> alpha(#[trigger] "s"@[i]),
        forall|i: int| 0 <= i < "ms"@.len() ==> alpha(#[trigger] "ms"@[i]),
        forall|i: int| 0 <= i < "us"@.len() ==> alpha(#[trigger] "us"@[i]),
        forall|i: int| 0 <= i < "ns"@.len() ==> alpha(#[trigger] "ns"@[i]),
        "year"@.len() > 0 && "year"@.last() != 'o' && "year"@.last() != 's',
        "month"@.len() > 0 && "month"@.last() != 'o' && "month"@.last() != 's',
        "day"@.len() > 0 && "day"@.last() != 'o' && "day"@.last() != 's',
        "h"@.len() > 0 && "h"@.last() != 'o' && "h"@.last() != 's',
        "m"@.len() > 0 && "m"@.last() != 'o' && "m"@.last() != 's',
        "s"@.len() > 0 && "s"@.last() != 'o',
        "ms"@.len() > 0 && "ms"@.last() != 'o',
        "us"@.len() > 0 && "us"@.last() != 'o',
        "ns"@.len() > 0 && "ns"@.last() != 'o',
{
    reveal_strlit("nanos");
    reveal_strlit("nsec");
    reveal_strlit("ns");
    reveal_strlit("usec");
    reveal_strlit("us");
    reveal_strlit("millis");
    reveal_strlit("msec");
    reveal_strlit("ms");
    reveal_strlit("seconds");
    reveal_strlit("second");
    reveal_strlit("secs");
    reveal_strlit("sec");
    reveal_strlit("s");
    reveal_strlit("minutes");
    reveal_strlit("minute");
    reveal_strlit("min");
    reveal_strlit("mins");
    reveal_strlit("m");
    reveal_strlit("hours");
    reveal_strlit("hour");
    reveal_strlit("hr");
    reveal_strlit("hrs");
    reveal_strlit("h");
    reveal_strlit("days");
    reveal_strlit("day");
    reveal_strlit("d");
    reveal_strlit("weeks");
    reveal_strlit("week");
    reveal_strlit("wk");
    reveal_strlit("wks");
    reveal_strlit("w");
    reveal_strlit("months");
    reveal_strlit("month");
    reveal_strlit("M");
    reveal_strlit("years");
    reveal_strlit("year");
    reveal_strlit("yr");
    reveal_strlit("yrs");
    reveal_strlit("y");
    assert("nanos"@ =~= seq!['n', 'a', 'n', 'o', 's']);
    assert("nsec"@ =~= seq!['n', 's', 'e', 'c']);
    assert("ns"@ =~= seq!['n', 's']);
    assert("usec"@ =~= seq!['u', 's', 'e', 'c']);
    assert("us"@ =~= seq!['u', 's']);
    assert("millis"@ =~= seq!['m', 'i', 'l', 'l', 'i', 's']);
    assert("msec"@ =~= seq!['m', 's', 'e', 'c']);
    assert("ms"@ =~= seq!['m', 's']);
    assert("seconds"@ =~= seq!['s', 'e', 'c', 'o', 'n', 'd', 's']);
    assert("second"@ =~= seq!['s', 'e', 'c', 'o', 'n', 'd']);
    assert("secs"@ =~= seq!['s', 'e', 'c', 's']);
    assert("sec"@ =~= seq!['s', 'e', 'c']);
    assert("s"@ =~= seq!['s']);
    assert("minutes"@ =~= seq!['m', 'i', 'n', 'u', 't', 'e', 's']);
    assert("minute"@ =~= seq!['m', 'i', 'n', 'u', 't', 'e']);
    assert("min"@ =~= seq!['m', 'i', 'n']);
    assert("mins"@ =~= seq!['m', 'i', 'n', 's']);
    assert("m"@ =~= seq!['m']);
    assert("hours"@ =~= seq!['h', 'o', 'u', 'r', 's']);
    assert("hour"@ =~= seq!['h', 'o', 'u', 'r']);
    assert("hr"@ =~= seq!['h', 'r']);
    assert("hrs"@ =~= seq!['h', 'r', 's']);
    assert("h"@ =~= seq!['h']);
    assert("days"@ =~= seq!['d', 'a', 'y', 's']);
    assert("day"@ =~= seq!['d', 'a', 'y']);
    assert("d"@ =~= seq!['d']);
    assert("weeks"@ =~= seq!['w', 'e', 'e', 'k', 's']);
    assert("week"@ =~= seq!['w', 'e', 'e', 'k']);
    assert("wk"@ =~= seq!['w', 'k']);
    assert("wks"@ =~= seq!['w', 'k', 's']);
    assert("w"@ =~= seq!['w']);
    assert("months"@ =~= seq!['m', 'o', 'n', 't', 'h', 's']);
    assert("month"@ =~= seq!['m', 'o', 'n', 't', 'h']);
    assert("M"@ =~= seq!['M']);
    assert("years"@ =~= seq!['y', 'e', 'a', 'r', 's']);
    assert("year"@ =~= seq!['y', 'e', 'a', 'r']);
    assert("yr"@ =~= seq!['y', 'r']);
    assert("yrs"@ =~= seq!['y', 'r', 's']);
    assert("y"@ =~= seq!['y']);
    assert("h"@.len() == 1 && "m"@.len() == 1 && "s"@.len() == 1);
    assert("h"@[0] == 'h' && "m"@[0] == 'm' && "s"@[0] == 's');
    assert(unit_ticks("s"@) == Some(NANOS_PER_SECOND as nat));
    assert(unit_ticks("m"@) == Some(NANOS_PER_MINUTE as nat));
    assert(unit_ticks("h"@) == Some(NANOS_PER_HOUR as nat));
    assert("year"@.push('s') =~= "years"@);
    assert("month"@.push('s') =~= "months"@);
    assert("day"@.push('s') =~= "days"@);
}

/// A between-token state with a completed token behind it.
pub open spec fn between_state(total: nat, seen: bool) -> GrammarState {
    GrammarState { phase: Phase::Between, total, num: 0, unit: Seq::empty(), seen }
}

/// What holds of a partially built compact rendering: it is empty with
/// nothing counted, or it is a complete token list whose value is `total`,
/// it still parses when another token follows a space, it starts with a
/// digit, and it ends in a unit character that is neither `o` nor a
/// whitespace character.
pub open spec fn body_ok(body: Seq<char>, total: nat) -> bool {
    if body.len() == 0 {
        total == 0
    } else {
        &&& (run(init_state(), body) matches Some(st) && finalize(st) == Some(total))
        &&& run(init_state(), body + seq![' ']) == Some(between_state(total, true))
        &&& digit(body[0])
        &&& alpha(body.last())
        &&& body.last() != 'o'
    }
}

/// Appending one rendered component to a well-formed compact rendering
/// keeps it well formed and adds the component's ticks.
proof fn lemma_append_item_ok(
    body: Seq<char>,
    total: nat,
    n: nat,
    label: Seq<char>,
    plural: bool,
    mult: nat,
)
    requires
        body_ok(body, total),
        n <= u64::MAX,
        total + n * mult <= u64::MAX,
        unit_ticks(label) == Some(mult),
        plural && n > 1 ==> unit_ticks(label.push('s')) == Some(mult),
        label.len() > 0,
        forall|i: int| 0 <= i < label.len() ==> alpha(#[trigger] label[i]),
        label.last() != 'o',
        label.last() != 's' || !plural,
    ensures
        body_ok(
            append_item(body, n, label, plural),
            if n == 0 {
                total
            } else {
                total + n * mult
            },
        ),
{
    if n == 0 {
        return ;
    }
    let eff: Seq<char> = if plural && n > 1 {
        label.push('s')
    } else {
        label
    };
    assert(unit_ticks(eff) == Some(mult));
    assert(alpha('s')) by {
        assert('s' as u32 == 115);
    }
    assert(forall|i: int| 0 <= i < eff.len() ==> alpha(#[trigger] eff[i]));
    assert(eff.last() != 'o');
    let item = dec_chars(n) + eff;
    let new_body = append_item(body, n, label, plural);
    lemma_dec_shape(n);
    assert(item[0] == dec_chars(n)[0]);
    assert(item.last() == eff.last());
    let start: GrammarState = if body.len() == 0 {
        init_state()
    } else {
        between_state(total, true)
    };
    // Run the automaton over the new component from the between-token state.
    lemma_run_dec(start, n);
    let st_digits = GrammarState { phase: Phase::InDigits, num: n, ..start };
    lemma_run_unit(st_digits, eff);
    let st_unit = GrammarState { phase: Phase::InUnit, unit: eff, ..st_digits };
    lemma_run_append(start, dec_chars(n), eff);
    assert(run(start, item) == Some(st_unit));
    let closed = between_state(total + n * mult, true);
    assert(close_token(st_unit) == Some(closed)) by {
        assert(st_unit.total + st_unit.num * mult == total + n * mult);
        assert(between_state(total + n * mult, true) =~= GrammarState {
            phase: Phase::Between,
            total: st_unit.total + st_unit.num * mult,
            num: 0,
            unit: Seq::empty(),
            seen: true,
        });
    }
    assert(finalize(st_unit) == Some(total + n * mult));
    assert(space(' '));
    assert(step(st_unit, ' ') == Some(closed)) by {
        assert(!alpha(' ')) by {
            assert(' ' as u32 == 32);
        }
    }
    lemma_run_one(st_unit, ' ');
    if body.len() == 0 {
        assert(new_body =~= item);
        assert(run(init_state(), new_body) == Some(st_unit));
        lemma_run_append(init_state(), new_body, seq![' ']);
        assert(run(init_state(), new_body + seq![' ']) == Some(closed));
    } else {
        assert(new_body =~= (body + seq![' ']) + item);
        lemma_run_append(init_state(), body + seq![' '], item);
        assert(run(init_state(), new_body) == Some(st_unit));
        lemma_run_append(init_state(), new_body, seq![' ']);
        assert(run(init_state(), new_body + seq![' ']) == Some(closed));
        assert(new_body[0] == body[0]);
    }
    assert(new_body.last() == eff.last());
}

/// `0s` is in the grammar and counts zero ticks.
proof fn lemma_zero_body()
    ensures
        grammar_ticks("0s"@) == Some(0 as nat),
        trim_front("0s"@) == "0s"@,
        trim_back("0s"@) == "0s"@,
        "0s"@.len() > 0,
        digit("0s"@[0]),
        alpha("0s"@.last()),
        "0s"@.last() != 'o',
{
    reveal_strlit("0s");
    reveal_strlit("s");
    lemma_format_labels();
    let st0 = init_state();
    lemma_run_one(st0, '0');
    let st1 = GrammarState { phase: Phase::InDigits, num: 0, ..st0 };
    assert(digit('0') && digit_val('0') == 0) by {
        assert('0' as u32 == 48);
    }
    assert(step(st0, '0') == Some(st1));
    lemma_run_unit(st1, seq!['s']);
    let st2 = GrammarState { phase: Phase::InUnit, unit: seq!['s'], ..st1 };
    assert("0s"@ =~= seq!['0'] + seq!['s']);
    lemma_run_append(st0, seq!['0'], seq!['s']);
    assert(run(st0, "0s"@) == Some(st2));
    assert(seq!['s'] =~= "s"@);
    assert(unit_ticks(st2.unit) == Some(NANOS_PER_SECOND as nat));
    assert(st2.num == 0 && st2.total == 0);
    assert(st2.total + st2.num * (NANOS_PER_SECOND as nat) == 0) by (nonlinear_arith)
        requires
            st2.num == 0 && st2.total == 0,
    ;
    assert(finalize(st2) == Some(0 as nat));
    assert(!space("0s"@[0]));
    assert(!space("0s"@.last()));
}

/// The compact rendering of any magnitude is a well-formed token list whose
/// value under the grammar is exactly that magnitude.
#[verifier::rlimit(100)]
proof fn lemma_friendly_body_reparses(mag: nat)
    requires
        mag <= u64::MAX,
    ensures
        grammar_ticks(friendly_body_chars(mag)) == Some(mag),
        friendly_body_chars(mag).len() > 0,
        digit(friendly_body_chars(mag)[0]),
        alpha(friendly_body_chars(mag).last()),
        friendly_body_chars(mag).last() != 'o',
{
    lemma_format_labels();
    let sn = NANOS_PER_SECOND as nat;
    let secs = mag / sn;
    let subns = mag % sn;
    let years = secs / (SECS_PER_YEAR as nat);
    let ydays = secs % (SECS_PER_YEAR as nat);
    let months = ydays / (SECS_PER_MONTH as nat);
    let mdays = ydays % (SECS_PER_MONTH as nat);
    let days = mdays / (SECS_PER_DAY as nat);
    let day_secs = mdays % (SECS_PER_DAY as nat);
    let hours = day_secs / (SECS_PER_HOUR as nat);
    let hour_secs = day_secs % (SECS_PER_HOUR as nat);
    let minutes = hour_secs / (SECS_PER_MINUTE as nat);
    let seconds = hour_secs % (SECS_PER_MINUTE as nat);
    let millis = subns / (NANOS_PER_MILLISECOND as nat);
    let sub_ms = subns % (NANOS_PER_MILLISECOND as nat);
    let micros = sub_ms / (NANOS_PER_MICROSECOND as nat);
    let nanos = sub_ms % (NANOS_PER_MICROSECOND as nat);
    let t1 = years * (NANOS_PER_YEAR as nat);
    let t2 = t1 + months * (NANOS_PER_MONTH as nat);
    let t3 = t2 + days * (NANOS_PER_DAY as nat);
    let t4 = t3 + hours * (NANOS_PER_HOUR as nat);
    let t5 = t4 + minutes * (NANOS_PER_MINUTE as nat);
    let t6 = t5 + seconds * sn;
    let t7 = t6 + millis * (NANOS_PER_MILLISECOND as nat);
    let t8 = t7 + micros * (NANOS_PER_MICROSECOND as nat);
    let t9 = t8 + nanos * 1;
    assert(t9 == mag && t1 <= mag && t2 <= mag && t3 <= mag && t4 <= mag && t5 <= mag && t6
        <= mag && t7 <= mag && t8 <= mag && years <= mag && months <= mag && days <= mag && hours
        <= mag && minutes <= mag && seconds <= mag && millis <= mag && micros <= mag && nanos
        <= mag) by (nonlinear_arith)
        requires
            sn == 1_000_000_000,
            secs == mag / sn && subns == mag % sn,
            years == secs / 31_557_600 && ydays == secs % 31_557_600,
            months == ydays / 2_630_016 && mdays == ydays % 2_630_016,
            days == mdays / 86_400 && day_secs == mdays % 86_400,
            hours == day_secs / 3_600 && hour_secs == day_secs % 3_600,
            minutes == hour_secs / 60 && seconds == hour_secs % 60,
            millis == subns / 1_000_000 && sub_ms == subns % 1_000_000,
            micros == sub_ms / 1_000 && nanos == sub_ms % 1_000,
            t1 == years * 31_557_600_000_000_000,
            t2 == t1 + months * 2_630_016_000_000_000,
            t3 == t2 + days * 86_400_000_000_000,
            t4 == t3 + hours * 3_600_000_000_000,
            t5 == t4 + minutes * 60_000_000_000,
            t6 == t5 + seconds * 1_000_000_000,
            t7 == t6 + millis * 1_000_000,
            t8 == t7 + micros * 1_000,
            t9 == t8 + nanos * 1,
    ;
    let b0 = Seq::<char>::empty();
    assert(body_ok(b0, 0));
    lemma_append_item_ok(b0, 0, years, "year"@, true, NANOS_PER_YEAR as nat);
    let b1 = append_item(b0, years, "year"@, true);
    lemma_append_item_ok(b1, t1, months, "month"@, true, NANOS_PER_MONTH as nat);
    let b2 = append_item(b1, months, "month"@, true);
    lemma_append_item_ok(b2, t2, days, "day"@, true, NANOS_PER_DAY as nat);
    let b3 = append_item(b2, days, "day"@, true);
    lemma_append_item_ok(b3, t3, hours, "h"@, false, NANOS_PER_HOUR as nat);
    let b4 = append_item(b3, hours, "h"@, false);
    lemma_append_item_ok(b4, t4, minutes, "m"@, false, NANOS_PER_MINUTE as nat);
    let b5 = append_item(b4, minutes, "m"@, false);
    lemma_append_item_ok(b5, t5, seconds, "s"@, false, NANOS_PER_SECOND as nat);
    let b6 = append_item(b5, seconds, "s"@, false);
    lemma_append_item_ok(b6, t6, millis, "ms"@, false, NANOS_PER_MILLISECOND as nat);
    let b7 = append_item(b6, millis, "ms"@, false);
    lemma_append_item_ok(b7, t7, micros, "us"@, false, NANOS_PER_MICROSECOND as nat);
    let b8 = append_item(b7, micros, "us"@, false);
    lemma_append_item_ok(b8, t8, nanos, "ns"@, false, 1 as nat);
    let b9 = append_item(b8, nanos, "ns"@, false);
    assert(body_ok(b9, t9) || (b9.len() == 0 && t9 == 0));
    if b9.len() == 0 {
        assert(mag == 0);
        lemma_zero_body();
        assert(friendly_body_chars(mag) == "0s"@);
    } else {
        assert(friendly_body_chars(mag) == b9);
    }
}

/// Pluralization in the coarse hours-and-minutes display: a rendered
/// component is singular exactly when its count is one; any count above one
/// appends an `s` to the unit name.
pub proof fn lemma_pluralization(prev: Seq<char>, first: bool, n: nat, name: Seq<char>)
    requires
        n > 0,
        name.len() > 0,
        name.last() != 's',
    ensures
        ({
            let r = crate::format::rendered_item(prev, first, n, name);
            &&& r.len() > 0
            &&& (r.last() == 's' <==> n != 1)
        }),
{
}

/// Pluralization in the compact rendering: a pluralizable component is
/// singular exactly when its count is one.
pub proof fn lemma_pluralization_compact(body: Seq<char>, n: nat, label: Seq<char>)
    requires
        n > 0,
        label.len() > 0,
        label.last() != 's',
    ensures
        ({
            let r = append_item(body, n, label, true);
            &&& r.len() > 0
            &&& (r.last() == 's' <==> n != 1)
        }),
{
}

/// Reparsing a friendly rendering recovers the magnitude: for any duration,
/// the text `to_friendly_string` is specified to return trims to itself,
/// carries exactly the direction marker of the duration's own direction, and
/// its body is a duration expression whose value under the grammar is the
/// duration's own magnitude. Together with the contract of
/// [`BiDuration::parse`], parsing that text returns a duration of equal
/// magnitude (and of equal direction, up to zero normalizing to forward)
/// whenever the magnitude lies within the signed range.
#[verifier::rlimit(50)]
pub proof fn lemma_friendly_string_reparses(bd: BiDuration)
    ensures
        ({
            let s = friendly_chars(bd.magnitude(), bd.direction());
            let t = trimmed(s);
            &&& t == s
            &&& t.len() > 0
            &&& !(has_in_marker(t) && has_ago_marker(t))
            &&& parsed_direction(t) == bd.direction()
            &&& grammar_ticks(stripped_body(t)) == Some(bd.magnitude())
        }),
{
    let mag = bd.magnitude();
    assert(mag <= u64::MAX);
    lemma_friendly_body_reparses(mag);
    let body = friendly_body_chars(mag);
    let s = friendly_chars(mag, bd.direction());
    if bd.direction() is Forward {
        reveal_strlit("in ");
        assert(s =~= seq!['i', 'n', ' '] + body);
        assert(!space(s[0])) by {
            assert('i' as u32 == 105);
        }
        assert(trim_front(s) == s);
        assert(s.last() == body.last());
        assert(!space(s.last()));
        assert(trim_back(s) == s);
        assert(trimmed(s) == s);
        assert(has_in_marker(s)) by {
            assert(s[0] == 'i' && s[1] == 'n' && space(s[2]));
        }
        assert(!has_ago_marker(s)) by {
            assert(s[s.len() - 1] != 'o');
        }
        assert(parsed_direction(s) == bd.direction());
        // Stripping the marker leaves exactly the body.
        assert(s.subrange(2, s.len() as int) =~= seq![' '] + body);
        assert((seq![' '] + body).drop_first() =~= body);
        assert(trim_front(seq![' '] + body) == trim_front(body));
        assert(!space(body[0]));
        assert(trim_front(body) == body);
        assert(stripped_body(s) == body);
    } else {
        reveal_strlit(" ago");
        assert(s =~= body + seq![' ', 'a', 'g', 'o']);
        assert(s[0] == body[0]);
        assert(!space(s[0]));
        assert(trim_front(s) == s);
        assert(s.last() == 'o');
        assert(!space('o')) by {
            assert('o' as u32 == 111);
        }
        assert(trim_back(s) == s);
        assert(trimmed(s) == s);
        assert(has_ago_marker(s)) by {
            assert(s[s.len() - 3] == 'a' && s[s.len() - 2] == 'g' && s[s.len() - 1] == 'o');
            assert(space(s[s.len() - 4]));
        }
        assert(!has_in_marker(s)) by {
            assert(digit(s[0]));
            assert(s[0] != 'i') by {
                assert('i' as u32 == 105);
            }
        }
        assert(parsed_direction(s) == bd.direction());
        assert(s.subrange(0, s.len() - 3) =~= body + seq![' ']);
        assert((body + seq![' ']).last() == ' ');
        assert((body + seq![' ']).drop_last() =~= body);
        assert(trim_back(body + seq![' ']) == trim_back(body));
        assert(!space(body.last()));
        assert(trim_back(body) == body);
        assert(stripped_body(s) == body);
    }
}

} // verus!
