use vstd::prelude::*;

use crate::config::History;

verus! {

/// Where a seek on the log source starts.
#[derive(Debug, Clone, PartialEq, Eq)]
pub enum Anchor {
    /// Before the oldest record.
    Head,
    /// After the newest record.
    Tail,
    /// Before the first record at or after this many microseconds since the epoch.
    Realtime(u64),
    /// At the record that a cursor names.
    Cursor(String),
}

/// Which way one step on the log source goes.
#[derive(Debug, Clone, Copy, PartialEq, Eq, Structural)]
pub enum Step {
    Forward,
    Backward,
}

/// A start position: an anchor, then up to `moves` steps in `direction`,
/// stopping early where the source has no more records.
#[derive(Debug, Clone, PartialEq, Eq)]
pub struct SeekPlan {
    pub anchor: Anchor,
    pub moves: u64,
    pub direction: Step,
}

#[derive(Debug, Clone, Copy, PartialEq, Eq, Structural)]
pub enum SeekError {
    /// The history value cannot be read as a span or an instant, or writes a
    /// span with an exponent of more than three digits.
    InvalidSeekTarget,
}

/// What `parse_duration::parse` gives for `s`: whole seconds and nanoseconds.
pub uninterp spec fn span_of(s: Seq<char>) -> Option<(int, int)>;

/// What chrono reads from `s` as an RFC 3339 instant, in microseconds since
/// the epoch.
pub uninterp spec fn instant_of(s: Seq<char>) -> Option<int>;

pub open spec fn is_exponent_mark(c: char) -> bool {
    c == 'e' || c == 'E'
}

pub open spec fn is_digit(c: char) -> bool {
    '0' <= c && c <= '9'
}

/// Whether four digits start at `j`.
pub open spec fn four_digits_at(s: Seq<char>, j: int) -> bool {
    0 <= j && j + 4 <= s.len() && is_digit(s[j]) && is_digit(s[j + 1]) && is_digit(s[j + 2])
        && is_digit(s[j + 3])
}

/// Whether an exponent of more than three digits starts at `i`: an `e`,
/// perhaps a sign, and four digits or more.
pub open spec fn long_exponent_at(s: Seq<char>, i: int) -> bool {
    &&& 0 <= i < s.len()
    &&& is_exponent_mark(s[i])
    &&& (four_digits_at(s, i + 1) || (i + 1 < s.len() && (s[i + 1] == '+' || s[i + 1] == '-')
        && four_digits_at(s, i + 2)))
}

/// Whether every exponent that `s` may hold has at most three digits, so
/// that the powers of ten the span parser builds stay small.
pub open spec fn exponents_short(s: Seq<char>) -> bool {
    forall|i: int| 0 <= i < s.len() ==> !#[trigger] long_exponent_at(s, i)
}

fn digit(c: char) -> (r: bool)
    ensures
        r == is_digit(c),
{
    '0' <= c && c <= '9'
}

fn four_digits(v: &Vec<char>, j: usize) -> (r: bool)
    ensures
        r == four_digits_at(v@, j as int),
{
    j < v.len() && v.len() - j >= 4 && digit(v[j]) && digit(v[j + 1]) && digit(v[j + 2]) && digit(
        v[j + 3],
    )
}

/// Whether every exponent in `s` has at most three digits.
pub fn has_short_exponents(s: &str) -> (r: bool)
    ensures
        r == exponents_short(s@),
{
    let v = crate::text::chars_of(s);
    let mut i: usize = 0;
    while i < v.len()
        invariant
            i <= v@.len(),
            v@ == s@,
            forall|k: int| 0 <= k < i ==> !#[trigger] long_exponent_at(s@, k),
        decreases v.len() - i,
    {
        if v[i] == 'e' || v[i] == 'E' {
            let signed = i + 1 < v.len() && (v[i + 1] == '+' || v[i + 1] == '-');
            if four_digits(&v, i + 1) || (signed && four_digits(&v, i + 2)) {
                assert(long_exponent_at(s@, i as int));
                return false;
            }
        }
        assert(!long_exponent_at(s@, i as int));
        i = i + 1;
    }
    true
}

/// Relies on `parse_duration::parse`, which builds a power of ten as large
/// as an exponent in the text and so needs exponents to be short; the
/// nanoseconds of a `std::time::Duration` are under one second.
#[verifier::external_body]
fn parse_span(s: &str) -> (r: Option<(u64, u32)>)
    requires
        exponents_short(s@),
    ensures
        span_of(s@) == match r {
            Some(p) => Some((p.0 as int, p.1 as int)),
            None => None::<(int, int)>,
        },
        r matches Some(p) ==> p.1 < 1_000_000_000,
{
    match parse_duration::parse(s) {
        Ok(d) => Some((d.as_secs(), d.subsec_nanos())),
        Err(_) => None,
    }
}

/// Relies on chrono's `FromStr` for `DateTime<Utc>` (relaxed RFC 3339) and
/// `timestamp_micros`.
#[verifier::external_body]
fn parse_instant(s: &str) -> (r: Option<i64>)
    ensures
        instant_of(s@) == match r {
            Some(t) => Some(t as int),
            None => None::<int>,
        },
{
    match s.parse::<chrono::DateTime<chrono::Utc>>() {
        Ok(d) => Some(d.timestamp_micros()),
        Err(_) => None,
    }
}

pub open spec fn plan(anchor: Anchor, moves: int, direction: Step) -> SeekPlan {
    SeekPlan { anchor, moves: moves as u64, direction }
}

/// The plan for a number of records: forward from before the oldest when
/// positive, back from after the newest to the newest and then `|n|` more
/// when negative, the newest when zero.
pub open spec fn count_plan(n: i64) -> SeekPlan {
    if n > 0 {
        plan(Anchor::Head, n as int, Step::Forward)
    } else {
        plan(Anchor::Tail, 1 - n, Step::Backward)
    }
}

/// The plan for the instant `t` microseconds after the epoch: the first
/// record at or after it, which for an instant before the epoch is the
/// oldest record.
pub open spec fn instant_plan(t: int) -> Result<SeekPlan, SeekError> {
    if t < 0 {
        Ok(plan(Anchor::Head, 1, Step::Forward))
    } else {
        Ok(plan(Anchor::Realtime(t as u64), 1, Step::Forward))
    }
}

/// The start plan of a history setting when no checkpoint exists.
pub open spec fn history_plan(h: History, now_micros: i64) -> Result<SeekPlan, SeekError> {
    match h {
        History::Duration(s) => if !exponents_short(s@) {
            Err(SeekError::InvalidSeekTarget)
        } else {
            match span_of(s@) {
            None => Err(SeekError::InvalidSeekTarget),
            Some(p) => if p.0 == 0 && p.1 == 0 {
                Ok(count_plan(0))
            } else {
                instant_plan(now_micros - (p.0 * 1_000_000 + p.1 / 1000))
            },
            }
        },
        History::Absolute(s) => match instant_of(s@) {
            None => Err(SeekError::InvalidSeekTarget),
            Some(t) => instant_plan(t),
        },
        History::Count(n) => Ok(count_plan(n)),
    }
}

fn realtime_plan(t: i128) -> (r: Result<SeekPlan, SeekError>)
    requires
        t <= i64::MAX,
    ensures
        r == instant_plan(t as int),
{
    if t < 0 {
        Ok(SeekPlan { anchor: Anchor::Head, moves: 1, direction: Step::Forward })
    } else {
        Ok(SeekPlan { anchor: Anchor::Realtime(t as u64), moves: 1, direction: Step::Forward })
    }
}

/// The start plan of a number of records.
pub fn plan_for_count(n: i64) -> (r: SeekPlan)
    ensures
        r == count_plan(n),
{
    if n > 0 {
        SeekPlan { anchor: Anchor::Head, moves: n as u64, direction: Step::Forward }
    } else {
        let back: u64 = if n == i64::MIN {
            (i64::MAX as u64) + 1
        } else {
            (-n) as u64
        };
        SeekPlan { anchor: Anchor::Tail, moves: back + 1, direction: Step::Backward }
    }
}

/// The start plan for a span back from `now_micros`, given as whole seconds
/// and nanoseconds: the newest record for an empty span, else the first
/// record at or after `now - span` (the oldest record when that instant
/// lies before the epoch).
pub fn plan_for_span(secs: u64, nanos: u32, now_micros: i64) -> (r: Result<SeekPlan, SeekError>)
    ensures
        r == (if secs == 0 && nanos == 0 {
            Ok(count_plan(0))
        } else {
            instant_plan(now_micros - (secs * 1_000_000 + nanos / 1000))
        }),
{
    if secs == 0 && nanos == 0 {
        Ok(plan_for_count(0))
    } else {
        let span: i128 = (secs as i128) * 1_000_000 + (nanos / 1000) as i128;
        realtime_plan(now_micros as i128 - span)
    }
}

/// The start plan for an instant given in microseconds since the epoch.
pub fn plan_for_instant(t: i64) -> (r: Result<SeekPlan, SeekError>)
    ensures
        r == instant_plan(t as int),
{
    realtime_plan(t as i128)
}

/// Resolves a history setting to a start plan, at the time `now_micros`.
pub fn resolve_history(h: &History, now_micros: i64) -> (r: Result<SeekPlan, SeekError>)
    ensures
        r == history_plan(*h, now_micros),
{
    match h {
        History::Duration(s) => if !has_short_exponents(s.as_str()) {
            Err(SeekError::InvalidSeekTarget)
        } else {
            match parse_span(s.as_str()) {
                None => Err(SeekError::InvalidSeekTarget),
                Some(p) => plan_for_span(p.0, p.1, now_micros),
            }
        },
        History::Absolute(s) => match parse_instant(s.as_str()) {
            None => Err(SeekError::InvalidSeekTarget),
            Some(t) => plan_for_instant(t),
        },
        History::Count(n) => Ok(plan_for_count(*n)),
    }
}

/// The plan at startup: the checkpoint when there is one, and the history
/// setting only when the checkpoint is empty.
pub fn start_plan(checkpoint: &str, h: &History, now_micros: i64) -> (r: Result<SeekPlan, SeekError>)
    ensures
        checkpoint@.len() > 0 ==> (r matches Ok(p) && p.anchor matches Anchor::Cursor(c) && c@
            == checkpoint@ && p.moves == 0 && p.direction == Step::Forward),
        checkpoint@.len() == 0 ==> r == history_plan(*h, now_micros),
{
    if checkpoint.unicode_len() > 0 {
        Ok(SeekPlan {
            anchor: Anchor::Cursor(String::from_str(checkpoint)),
            moves: 0,
            direction: Step::Forward,
        })
    } else {
        resolve_history(h, now_micros)
    }
}

/// Carries out the steps of a plan, one at a time, after its anchor: the
/// caller makes each step on the source and reports whether it moved.
#[derive(Debug)]
pub struct SeekWalk {
    pub remaining: u64,
    pub direction: Step,
    pub stopped: bool,
}

impl SeekWalk {
    pub fn new(p: &SeekPlan) -> (r: SeekWalk)
        ensures
            r.remaining == p.moves,
            r.direction == p.direction,
            !r.stopped,
    {
        SeekWalk { remaining: p.moves, direction: p.direction, stopped: false }
    }

    /// The next step to make, or `None` once the walk is over.
    pub fn next_step(&self) -> (r: Option<Step>)
        ensures
            r == (if !self.stopped && self.remaining > 0 {
                Some(self.direction)
            } else {
                None
            }),
    {
        if !self.stopped && self.remaining > 0 {
            Some(self.direction)
        } else {
            None
        }
    }

    /// Takes note of a step: one fewer to go when it moved; the walk ends
    /// when the source had no record that way.
    pub fn observe(&mut self, moved: bool)
        requires
            !old(self).stopped,
            old(self).remaining > 0,
        ensures
            final(self).direction == old(self).direction,
            moved ==> final(self).remaining == old(self).remaining - 1 && !final(self).stopped,
            !moved ==> final(self).remaining == old(self).remaining && final(self).stopped,
    {
        if moved {
            self.remaining = self.remaining - 1;
        } else {
            self.stopped = true;
        }
    }
}

/// Where `moves` steps in `direction` end on a source of `len` records, from
/// the index `pos` (`-1` is before the oldest, `len` after the newest): a
/// step that has no record to go to ends the walk.
pub open spec fn walk_end(pos: int, direction: Step, moves: nat, len: nat) -> int
    decreases moves,
{
    if moves == 0 {
        pos
    } else {
        match direction {
            Step::Forward => if pos + 1 < len {
                walk_end(pos + 1, direction, (moves - 1) as nat, len)
            } else {
                pos
            },
            Step::Backward => if pos - 1 >= 0 {
                walk_end(pos - 1, direction, (moves - 1) as nat, len)
            } else {
                pos
            },
        }
    }
}

proof fn lemma_forward_from(pos: int, moves: nat, len: nat)
    requires
        -1 <= pos < len,
    ensures
        walk_end(pos, Step::Forward, moves, len) == if pos + moves < len {
            pos + moves
        } else {
            len - 1
        },
    decreases moves,
{
    if moves > 0 && pos + 1 < len {
        lemma_forward_from(pos + 1, (moves - 1) as nat, len);
    }
}

proof fn lemma_backward_from(pos: int, moves: nat, len: nat)
    requires
        0 <= pos <= len,
        len > 0,
    ensures
        walk_end(pos, Step::Backward, moves, len) == if pos - moves >= 0 {
            pos - moves
        } else {
            0
        },
    decreases moves,
{
    if moves > 0 && pos - 1 >= 0 {
        lemma_backward_from(pos - 1, (moves - 1) as nat, len);
    }
}

/// On a source of `len > 0` records, a count plan lands on the `n`-th oldest
/// record for `n > 0` (the newest if there are fewer), on the record `|n|`
/// before the newest for `n < 0` (the oldest if there are fewer), and on the
/// newest for `n == 0`; indices count from the oldest, at `0`.
pub proof fn count_plan_lands(n: i64, len: nat)
    requires
        len > 0,
    ensures
        ({
            let p = count_plan(n);
            let start = if p.anchor is Head {
                -1
            } else {
                len as int
            };
            let end = walk_end(start, p.direction, p.moves as nat, len);
            &&& n > 0 ==> end == if n <= len {
                n - 1
            } else {
                len - 1
            }
            &&& n < 0 ==> end == if len - 1 + n >= 0 {
                len - 1 + n
            } else {
                0
            }
            &&& n == 0 ==> end == len - 1
        }),
{
    let p = count_plan(n);
    if n > 0 {
        lemma_forward_from(-1, p.moves as nat, len);
    } else {
        lemma_backward_from(len as int, p.moves as nat, len);
    }
}

} // verus!
