//! Choosing the candles of a dataset to backtest: the date window given on
//! the command line, and the timeframe a data file's name announces.

use vstd::prelude::*;
use crate::timeframe::TimeFrame;

verus! {

/// Midnight UTC of a "YYYY-MM-DD" date, in milliseconds since the epoch, as
/// chrono computes it; none when the text is not such a date.
pub uninterp spec fn date_millis(text: Seq<char>) -> Option<int>;

/// Parses `text` with chrono's `NaiveDate::parse_from_str` and the format
/// "%Y-%m-%d", then takes `and_hms_opt(0, 0, 0)`, `and_utc` and
/// `timestamp_millis`. The contract claims only that the outcome depends on
/// the text alone.
#[verifier::external_body]
fn parse_date(text: &str) -> (r: Option<i64>)
    ensures
        r matches Some(t) ==> date_millis(text@) == Some(t as int),
        r is None ==> date_millis(text@) is None,
{
    match chrono::NaiveDate::parse_from_str(text, "%Y-%m-%d") {
        Ok(date) => match date.and_hms_opt(0, 0, 0) {
            Some(midnight) => Some(midnight.and_utc().timestamp_millis()),
            None => None,
        },
        Err(_) => None,
    }
}

/// Why no candles can be backtested.
#[derive(Debug, Clone, PartialEq, Eq)]
pub enum DateWindowError {
    /// The date given is not "YYYY-MM-DD"; holds the text given.
    InvalidDate(String),
    /// No candle lies within the window.
    Empty,
}

/// Whether a timestamp lies within the window: not before `start` and not
/// after `end`, each only when given.
pub open spec fn in_window(ts: int, start: Option<int>, end: Option<int>) -> bool {
    (match start {
        Some(s) => ts >= s,
        None => true,
    }) && (match end {
        Some(e) => ts <= e,
        None => true,
    })
}

/// The positions of the timestamps within the window, in order.
pub open spec fn window_positions(ts: Seq<i64>, start: Option<int>, end: Option<int>) -> Seq<usize>
    decreases ts.len(),
{
    if ts.len() == 0 {
        Seq::empty()
    } else {
        let earlier = window_positions(ts.drop_last(), start, end);
        if in_window(ts.last() as int, start, end) {
            earlier.push((ts.len() - 1) as usize)
        } else {
            earlier
        }
    }
}

/// The bound a date text sets: none when no date is given.
pub open spec fn bound_of(text: Option<Seq<char>>) -> Option<int> {
    match text {
        Some(t) => date_millis(t),
        None => None,
    }
}

/// The text of a date argument, when one is given.
pub open spec fn text_of(text: Option<&str>) -> Option<Seq<char>> {
    match text {
        Some(t) => Some(t@),
        None => None,
    }
}

/// Whether a date argument is given and is not a date.
pub open spec fn invalid_date(text: Option<Seq<char>>) -> bool {
    text matches Some(t) && date_millis(t) is None
}

/// The positions of the candles to backtest: those whose timestamp is not
/// before the start date and not after the end date (midnight UTC of each),
/// each only when given. A date that does not parse is an error, the start
/// date checked first; no candle left is an error too.
pub fn date_window(start_date: Option<&str>, end_date: Option<&str>, timestamps: &[i64]) -> (r: Result<
    Vec<usize>,
    DateWindowError,
>)
    ensures
        invalid_date(text_of(start_date)) ==> (r matches Err(DateWindowError::InvalidDate(t))
            && Some(t@) == text_of(start_date)),
        !invalid_date(text_of(start_date)) && invalid_date(text_of(end_date)) ==> (r matches Err(
            DateWindowError::InvalidDate(t),
        ) && Some(t@) == text_of(end_date)),
        !invalid_date(text_of(start_date)) && !invalid_date(text_of(end_date)) ==> {
            let kept = window_positions(
                timestamps@,
                bound_of(text_of(start_date)),
                bound_of(text_of(end_date)),
            );
            &&& kept.len() == 0 ==> r == Err::<Vec<usize>, DateWindowError>(DateWindowError::Empty)
            &&& kept.len() > 0 ==> (r matches Ok(v) && v@ == kept)
        },
{
    let ghost sv = text_of(start_date);
    let ghost ev = text_of(end_date);
    let start: Option<i64> = match start_date {
        Some(s) => match parse_date(s) {
            Some(t) => Some(t),
            None => return Err(DateWindowError::InvalidDate(String::from_str(s))),
        },
        None => None,
    };
    let end: Option<i64> = match end_date {
        Some(e) => match parse_date(e) {
            Some(t) => Some(t),
            None => return Err(DateWindowError::InvalidDate(String::from_str(e))),
        },
        None => None,
    };
    let ghost sb = bound_of(sv);
    let ghost eb = bound_of(ev);
    proof {
        assert(sb == match start { Some(t) => Some(t as int), None => None::<int> });
        assert(eb == match end { Some(t) => Some(t as int), None => None::<int> });
    }
    let mut kept: Vec<usize> = Vec::new();
    let mut i: usize = 0;
    while i < timestamps.len()
        invariant
            i <= timestamps@.len(),
            sb == match start { Some(t) => Some(t as int), None => None::<int> },
            eb == match end { Some(t) => Some(t as int), None => None::<int> },
            kept@ == window_positions(timestamps@.take(i as int), sb, eb),
        decreases timestamps@.len() - i,
    {
        proof {
            assert(timestamps@.take(i + 1).drop_last() =~= timestamps@.take(i as int));
        }
        let ts = timestamps[i];
        let after_start = match start {
            Some(s) => ts >= s,
            None => true,
        };
        let before_end = match end {
            Some(e) => ts <= e,
            None => true,
        };
        if after_start && before_end {
            kept.push(i);
        }
        i = i + 1;
    }
    proof {
        assert(timestamps@.take(i as int) =~= timestamps@);
    }
    if kept.len() == 0 {
        Err(DateWindowError::Empty)
    } else {
        Ok(kept)
    }
}

/// Whether `pattern` occurs in `s` at position `i`.
pub open spec fn occurs_at(s: Seq<char>, pattern: Seq<char>, i: int) -> bool {
    0 <= i && i + pattern.len() <= s.len() && s.subrange(i, i + pattern.len()) == pattern
}

/// Whether `pattern` occurs in `s`.
pub open spec fn contains_text(s: Seq<char>, pattern: Seq<char>) -> bool {
    exists|i: int| #[trigger] occurs_at(s, pattern, i)
}

fn contains(s: &str, pattern: &str) -> (r: bool)
    ensures
        r == contains_text(s@, pattern@),
{
    let n = s.unicode_len();
    let m = pattern.unicode_len();
    if m > n {
        proof {
            assert forall|i: int| !#[trigger] occurs_at(s@, pattern@, i) by {}
        }
        return false;
    }
    if m == 0 {
        proof {
            assert(s@.subrange(0, 0) =~= pattern@);
            assert(occurs_at(s@, pattern@, 0));
        }
        return true;
    }
    let mut i: usize = 0;
    while i <= n - m
        invariant
            n == s@.len(),
            m == pattern@.len(),
            1 <= m <= n,
            i <= n - m + 1,
            forall|k: int| 0 <= k < i ==> !#[trigger] occurs_at(s@, pattern@, k),
        decreases n - m + 1 - i,
    {
        let mut j: usize = 0;
        let mut same = true;
        while j < m && same
            invariant
                n == s@.len(),
                m == pattern@.len(),
                i + m <= n,
                j <= m,
                same ==> forall|t: int| 0 <= t < j ==> s@[i + t] == pattern@[t],
                !same ==> !occurs_at(s@, pattern@, i as int),
            decreases m - j + (if same { 1int } else { 0int }),
        {
            if s.get_char(i + j) != pattern.get_char(j) {
                proof {
                    assert(s@.subrange(i as int, i + m)[j as int] == s@[i + j]);
                }
                same = false;
            } else {
                j = j + 1;
            }
        }
        if same {
            proof {
                assert(s@.subrange(i as int, i + m) =~= pattern@);
                assert(occurs_at(s@, pattern@, i as int));
            }
            return true;
        }
        i = i + 1;
    }
    proof {
        assert forall|k: int| !#[trigger] occurs_at(s@, pattern@, k) by {
            if 0 <= k && k + m <= n {
                assert(k < i);
            }
        }
    }
    false
}

/// The timeframe a data file's name announces: "_1h", "_4h", "_1d", "_15m"
/// or "_30m", looked for in that order; H1 when there is none.
pub open spec fn dataset_timeframe_of(path: Seq<char>) -> TimeFrame {
    if contains_text(path, "_1h"@) {
        TimeFrame::H1
    } else if contains_text(path, "_4h"@) {
        TimeFrame::H4
    } else if contains_text(path, "_1d"@) {
        TimeFrame::D1
    } else if contains_text(path, "_15m"@) {
        TimeFrame::M15
    } else if contains_text(path, "_30m"@) {
        TimeFrame::M30
    } else {
        TimeFrame::H1
    }
}

/// The timeframe label a data file's name announces: "1h", "4h" or "1d",
/// looked for as "_1h", "_4h", "_1d" in that order; "unknown" otherwise.
pub open spec fn dataset_timeframe_label_of(path: Seq<char>) -> Seq<char> {
    if contains_text(path, "_1h"@) {
        "1h"@
    } else if contains_text(path, "_4h"@) {
        "4h"@
    } else if contains_text(path, "_1d"@) {
        "1d"@
    } else {
        "unknown"@
    }
}

/// A code written into a name is found there.
pub proof fn lemma_code_found(before: Seq<char>, code: Seq<char>, after: Seq<char>)
    ensures
        contains_text(before + code + after, code),
{
    let s = before + code + after;
    assert(s.subrange(before.len() as int, (before.len() + code.len()) as int) =~= code);
    assert(occurs_at(s, code, before.len() as int));
}

/// Which timeframe a file name announces: the first of "_1h", "_4h", "_1d",
/// "_15m", "_30m" that it contains, in that order of priority, gives H1, H4,
/// D1, M15 or M30; a name with none of them is taken as hourly. The label
/// follows the first three codes and is "unknown" otherwise.
pub proof fn lemma_dataset_codes(p: Seq<char>)
    ensures
        contains_text(p, "_1h"@) ==> dataset_timeframe_of(p) == TimeFrame::H1,
        !contains_text(p, "_1h"@) && contains_text(p, "_4h"@) ==> dataset_timeframe_of(p) == TimeFrame::H4,
        !contains_text(p, "_1h"@) && !contains_text(p, "_4h"@) && contains_text(p, "_1d"@) ==> dataset_timeframe_of(p)
            == TimeFrame::D1,
        !contains_text(p, "_1h"@) && !contains_text(p, "_4h"@) && !contains_text(p, "_1d"@) && contains_text(
            p,
            "_15m"@,
        ) ==> dataset_timeframe_of(p) == TimeFrame::M15,
        !contains_text(p, "_1h"@) && !contains_text(p, "_4h"@) && !contains_text(p, "_1d"@) && !contains_text(
            p,
            "_15m"@,
        ) && contains_text(p, "_30m"@) ==> dataset_timeframe_of(p) == TimeFrame::M30,
        !contains_text(p, "_1h"@) && !contains_text(p, "_4h"@) && !contains_text(p, "_1d"@) && !contains_text(
            p,
            "_15m"@,
        ) && !contains_text(p, "_30m"@) ==> dataset_timeframe_of(p) == TimeFrame::H1,
        contains_text(p, "_1h"@) ==> dataset_timeframe_label_of(p) == "1h"@,
        !contains_text(p, "_1h"@) && contains_text(p, "_4h"@) ==> dataset_timeframe_label_of(p) == "4h"@,
        !contains_text(p, "_1h"@) && !contains_text(p, "_4h"@) && contains_text(p, "_1d"@) ==> dataset_timeframe_label_of(
            p,
        ) == "1d"@,
        !contains_text(p, "_1h"@) && !contains_text(p, "_4h"@) && !contains_text(p, "_1d"@) ==> dataset_timeframe_label_of(
            p,
        ) == "unknown"@,
{
}

/// The timeframe of a dataset, from its file name.
pub fn dataset_timeframe(path: &str) -> (r: TimeFrame)
    ensures
        r == dataset_timeframe_of(path@),
{
    if contains(path, "_1h") {
        TimeFrame::H1
    } else if contains(path, "_4h") {
        TimeFrame::H4
    } else if contains(path, "_1d") {
        TimeFrame::D1
    } else if contains(path, "_15m") {
        TimeFrame::M15
    } else if contains(path, "_30m") {
        TimeFrame::M30
    } else {
        TimeFrame::H1
    }
}

/// The timeframe label of a dataset, from its file name.
pub fn dataset_timeframe_label(path: &str) -> (r: &'static str)
    ensures
        r@ == dataset_timeframe_label_of(path@),
{
    if contains(path, "_1h") {
        "1h"
    } else if contains(path, "_4h") {
        "4h"
    } else if contains(path, "_1d") {
        "1d"
    } else {
        "unknown"
    }
}

} // verus!
