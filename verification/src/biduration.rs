//! A bidirectional duration: a signed span of time, parsed from human text
//! such as `in 1h 30m` or `1h 30m ago` and rendered back into human-readable
//! text and into arithmetic offsets against timestamps.

use vstd::prelude::*;

use crate::grammar::{
    grammar_ticks, has_ago_marker, has_in_marker, parsed_direction, stripped_body, trimmed,
};
use crate::parser::{is_space_char, parse_body, skip_spaces_back, skip_spaces_fwd};
use crate::text::{chars_vec, string_from_chars};

verus! {

/// Which way a duration points relative to a reference timestamp:
/// `Forward` is added to now to reach a future time, `Backward` is
/// subtracted from now to reach a past time.
#[derive(Debug, Clone, Copy, PartialEq, Eq, Hash, Structural)]
pub enum Direction {
    Forward,
    Backward,
}

/// An unsigned magnitude too large for the signed span.
#[derive(Debug, Clone, Copy, PartialEq, Eq, Structural)]
pub struct OutOfRangeError;

/// Why an input string failed to parse as a [`BiDuration`]. Each error
/// carries the offending text, so a caller can present a corrective prompt.
#[derive(Debug, Clone, PartialEq, Eq)]
pub enum BiDurationParseError {
    /// The input was empty or all whitespace: no words to read a direction from.
    InvalidDirection(String),
    /// Both the leading `in` and the trailing `ago` marker were present.
    BothDirections,
    /// The duration expression between the markers was not in the grammar
    /// (missing digits, unknown unit, empty body, or overflow while summing).
    InvalidDuration(String),
    /// The magnitude was parsed but does not fit the signed span.
    OutOfRange(OutOfRangeError),
}

/// A signed span of time, counted in elementary ticks of one nanosecond.
/// The sign is the sole carrier of direction: negative ticks point into the
/// past, and zero is directionless and treated as forward by convention.
/// The range (about 292 years either way) covers plausible human-entered
/// durations; anything larger is rejected at construction.
#[derive(Debug, Clone, Copy, PartialEq, Eq, Hash, Structural)]
pub struct BiDuration(pub i64);

impl View for BiDuration {
    type V = int;

    /// A bidirectional duration is modelled as its signed tick count.
    open spec fn view(&self) -> int {
        self.0 as int
    }
}

impl BiDuration {
    /// The unsigned size of the span. It always fits in an unsigned 64-bit
    /// tick count, because one fewer bit of range is consumed by the sign.
    pub open spec fn magnitude(&self) -> nat {
        if self.0 < 0 {
            (-(self.0 as int)) as nat
        } else {
            self.0 as nat
        }
    }

    /// The direction the sign encodes; zero counts as forward.
    pub open spec fn direction(&self) -> Direction {
        if self.0 < 0 {
            Direction::Backward
        } else {
            Direction::Forward
        }
    }

    /// Wrap an already-signed tick count; infallible.
    pub fn new(ticks: i64) -> (r: Self)
        ensures
            r@ == ticks as int,
    {
        BiDuration(ticks)
    }

    /// Combine an unsigned magnitude with a direction into a signed span.
    /// Fails with [`OutOfRangeError`] exactly when the magnitude exceeds the
    /// signed range, whatever the direction.
    pub fn new_std(duration: u64, direction: Direction) -> (r: Result<Self, OutOfRangeError>)
        ensures
            duration > i64::MAX as u64 <==> r is Err,
            r matches Ok(bd) ==> bd@ == (if direction is Forward {
                duration as int
            } else {
                -(duration as int)
            }),
    {
        if duration > 0x7fff_ffff_ffff_ffff {
            Err(OutOfRangeError)
        } else {
            match direction {
                Direction::Forward => Ok(BiDuration(duration as i64)),
                Direction::Backward => Ok(BiDuration(-(duration as i64))),
            }
        }
    }

    /// Split the signed span into an unsigned magnitude and a direction.
    /// Never fails: every magnitude fits the unsigned tick count.
    pub fn to_std_duration(&self) -> (r: (u64, Direction))
        ensures
            r.0 as nat == self.magnitude(),
            r.1 == self.direction(),
    {
        if self.0 < 0 {
            if self.0 == i64::MIN {
                (9_223_372_036_854_775_808u64, Direction::Backward)
            } else {
                ((-self.0) as u64, Direction::Backward)
            }
        } else {
            (self.0 as u64, Direction::Forward)
        }
    }

    /// Parse human text into a bidirectional duration.
    ///
    /// The input is tokenized on whitespace. A leading word `in` makes the
    /// direction explicitly forward; a trailing word `ago` makes it backward;
    /// both at once contradict each other and fail with `BothDirections`;
    /// neither means forward. An input with no words at all fails with
    /// `InvalidDirection`. The remaining words must form a duration
    /// expression of the grammar in [`crate::grammar`] (`1h 30m`); an
    /// expression outside the grammar, or one overflowing 64 bits of ticks
    /// while summing, fails with `InvalidDuration`, and a magnitude beyond
    /// the signed range fails with `OutOfRange`.
    pub fn parse(s: &str) -> (r: Result<BiDuration, BiDurationParseError>)
        ensures
            ({
                let t = trimmed(s@);
                let b = stripped_body(t);
                &&& (t.len() == 0 ==> (r matches Err(BiDurationParseError::InvalidDirection(orig))
                    && orig@ == s@))
                &&& (t.len() > 0 && has_in_marker(t) && has_ago_marker(t) ==> r matches Err(
                    BiDurationParseError::BothDirections,
                ))
                &&& (t.len() > 0 && !(has_in_marker(t) && has_ago_marker(t)) ==> (match grammar_ticks(
                    b,
                ) {
                    None => (r matches Err(BiDurationParseError::InvalidDuration(body)) && body@
                        == b),
                    Some(v) => {
                        if v > i64::MAX as nat {
                            r matches Err(BiDurationParseError::OutOfRange(OutOfRangeError))
                        } else if parsed_direction(t) is Forward {
                            (r matches Ok(bd) && bd@ == v)
                        } else {
                            (r matches Ok(bd) && bd@ == -(v as int))
                        }
                    },
                }))
            }),
    {
        let cs = chars_vec(s);
        let n = cs.len();
        proof {
            assert(cs@.subrange(0, n as int) =~= cs@);
        }
        let lo = skip_spaces_fwd(&cs, 0, n);
        let hi = skip_spaces_back(&cs, lo, n);
        let ghost t = trimmed(s@);
        proof {
            assert(t == cs@.subrange(lo as int, hi as int));
        }
        if lo == hi {
            return Err(BiDurationParseError::InvalidDirection(s.to_owned()));
        }
        let m = hi - lo;
        let has_in = m >= 2 && cs[lo] == 'i' && cs[lo + 1] == 'n' && (m == 2 || is_space_char(
            cs[lo + 2],
        ));
        let has_ago = m >= 3 && cs[hi - 3] == 'a' && cs[hi - 2] == 'g' && cs[hi - 1] == 'o' && (m
            == 3 || is_space_char(cs[hi - 4]));
        proof {
            assert(has_in == has_in_marker(t));
            assert(has_ago == has_ago_marker(t));
        }
        if has_in && has_ago {
            return Err(BiDurationParseError::BothDirections);
        }
        let (blo, bhi): (usize, usize) = if has_in {
            proof {
                assert(t.subrange(2, t.len() as int) =~= cs@.subrange(lo + 2 as int, hi as int));
            }
            let blo = skip_spaces_fwd(&cs, lo + 2, hi);
            (blo, hi)
        } else if has_ago {
            proof {
                assert(t.subrange(0, t.len() - 3) =~= cs@.subrange(lo as int, hi - 3 as int));
            }
            let bhi = skip_spaces_back(&cs, lo, hi - 3);
            (lo, bhi)
        } else {
            (lo, hi)
        };
        proof {
            assert(stripped_body(t) == cs@.subrange(blo as int, bhi as int));
        }
        let backward = has_ago && !has_in;
        match parse_body(&cs, blo, bhi) {
            None => {
                let mut bv: Vec<char> = Vec::new();
                let mut j = blo;
                proof {
                    assert(cs@.subrange(blo as int, blo as int) =~= Seq::<char>::empty());
                }
                while j < bhi
                    invariant
                        blo <= j <= bhi <= cs@.len(),
                        bv@ == cs@.subrange(blo as int, j as int),
                    decreases bhi - j,
                {
                    bv.push(cs[j]);
                    proof {
                        assert(cs@.subrange(blo as int, j + 1 as int) =~= cs@.subrange(
                            blo as int,
                            j as int,
                        ).push(cs@[j as int]));
                    }
                    j = j + 1;
                }
                Err(BiDurationParseError::InvalidDuration(string_from_chars(&bv)))
            },
            Some(v) => {
                if v > 0x7fff_ffff_ffff_ffff {
                    Err(BiDurationParseError::OutOfRange(OutOfRangeError))
                } else if backward {
                    Ok(BiDuration(-(v as i64)))
                } else {
                    Ok(BiDuration(v as i64))
                }
            },
        }
    }

    /// Shift a timestamp (a signed tick count since some epoch) by this span:
    /// positive spans move forward in time, negative spans backward.
    pub fn add_to_timestamp(&self, timestamp: i64) -> (r: i64)
        requires
            i64::MIN <= timestamp + self@ <= i64::MAX,
        ensures
            r == timestamp + self@,
    {
        timestamp + self.0
    }
}

/// Round trip: a span built from a magnitude and a direction splits back
/// into the same magnitude and the same direction, except that a zero
/// magnitude always normalizes to `Forward`.
pub proof fn lemma_std_round_trip(duration: u64, direction: Direction, bd: BiDuration)
    requires
        duration <= i64::MAX as u64,
        bd@ == (if direction is Forward {
            duration as int
        } else {
            -(duration as int)
        }),
    ensures
        bd.magnitude() == duration as nat,
        bd.direction() == (if duration == 0 {
            Direction::Forward
        } else {
            direction
        }),
{
}

/// Shifting a timestamp by a zero-magnitude span is the identity.
pub proof fn lemma_shift_zero(bd: BiDuration, timestamp: i64)
    requires
        bd.magnitude() == 0,
    ensures
        timestamp + bd@ == timestamp,
{
}

/// Shifting forward and then backward by the same magnitude returns to the
/// original timestamp: a forward span and a backward span of one magnitude
/// cancel.
pub proof fn lemma_shift_inverse(fwd: BiDuration, bwd: BiDuration, timestamp: i64)
    requires
        fwd.magnitude() == bwd.magnitude(),
        fwd@ >= 0,
        bwd@ <= 0,
    ensures
        (timestamp + fwd@) + bwd@ == timestamp,
{
}

} // verus!
