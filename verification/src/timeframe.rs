//! Candle timeframes: durations, textual codes and parsing.

use vstd::prelude::*;


verus! {

/// Error raised when a timeframe code cannot be parsed; holds the rejected input.
#[derive(Debug, Clone, PartialEq, Eq)]
pub enum TimeFrameError {
    Invalid(String),
}

/// Duration of a candle.
#[derive(Debug, Clone, Copy, PartialEq, Eq, Hash, Structural)]
pub enum TimeFrame {
    /// 1 minute
    M1,
    /// 5 minutes
    M5,
    /// 15 minutes
    M15,
    /// 30 minutes
    M30,
    /// 1 hour
    H1,
    /// 4 hours
    H4,
    /// 1 day
    D1,
    /// 1 week
    W1,
    /// 1 month (approximated as 30 days)
    MN1,
}

/// Duration of a timeframe in milliseconds.
pub open spec fn millis(tf: TimeFrame) -> int {
    match tf {
        TimeFrame::M1 => 60_000int,
        TimeFrame::M5 => 300_000int,
        TimeFrame::M15 => 900_000int,
        TimeFrame::M30 => 1_800_000int,
        TimeFrame::H1 => 3_600_000int,
        TimeFrame::H4 => 14_400_000int,
        TimeFrame::D1 => 86_400_000int,
        TimeFrame::W1 => 604_800_000int,
        TimeFrame::MN1 => 2_592_000_000int,
    }
}

/// Position of a timeframe in the ascending list M1 < M5 < ... < MN1.
pub open spec fn rank(tf: TimeFrame) -> nat {
    match tf {
        TimeFrame::M1 => 0,
        TimeFrame::M5 => 1,
        TimeFrame::M15 => 2,
        TimeFrame::M30 => 3,
        TimeFrame::H1 => 4,
        TimeFrame::H4 => 5,
        TimeFrame::D1 => 6,
        TimeFrame::W1 => 7,
        TimeFrame::MN1 => 8,
    }
}

/// The code used by exchange APIs ("1m", "4h", "1M", ...).
pub open spec fn api_code(tf: TimeFrame) -> Seq<char> {
    match tf {
        TimeFrame::M1 => "1m"@,
        TimeFrame::M5 => "5m"@,
        TimeFrame::M15 => "15m"@,
        TimeFrame::M30 => "30m"@,
        TimeFrame::H1 => "1h"@,
        TimeFrame::H4 => "4h"@,
        TimeFrame::D1 => "1d"@,
        TimeFrame::W1 => "1w"@,
        TimeFrame::MN1 => "1M"@,
    }
}

/// The code used in exported strategy file names (months are "1mo").
pub open spec fn file_code(tf: TimeFrame) -> Seq<char> {
    match tf {
        TimeFrame::M1 => "1m"@,
        TimeFrame::M5 => "5m"@,
        TimeFrame::M15 => "15m"@,
        TimeFrame::M30 => "30m"@,
        TimeFrame::H1 => "1h"@,
        TimeFrame::H4 => "4h"@,
        TimeFrame::D1 => "1d"@,
        TimeFrame::W1 => "1w"@,
        TimeFrame::MN1 => "1mo"@,
    }
}

/// The variant name, as `{:?}` prints it.
pub open spec fn debug_name(tf: TimeFrame) -> Seq<char> {
    match tf {
        TimeFrame::M1 => "M1"@,
        TimeFrame::M5 => "M5"@,
        TimeFrame::M15 => "M15"@,
        TimeFrame::M30 => "M30"@,
        TimeFrame::H1 => "H1"@,
        TimeFrame::H4 => "H4"@,
        TimeFrame::D1 => "D1"@,
        TimeFrame::W1 => "W1"@,
        TimeFrame::MN1 => "MN1"@,
    }
}

/// Lower-cases ASCII letters and keeps every other character.
pub open spec fn ascii_lower_char(c: char) -> char {
    if 'A' <= c && c <= 'Z' {
        ((c as u32) + 32) as char
    } else {
        c
    }
}

pub open spec fn ascii_lower(s: Seq<char>) -> Seq<char> {
    s.map_values(|c: char| ascii_lower_char(c))
}

/// The timeframe a (lower-cased) code names, if any.
pub open spec fn parse_code(s: Seq<char>) -> Option<TimeFrame> {
    let l = ascii_lower(s);
    if l == "1m"@ || l == "m1"@ {
        Some(TimeFrame::M1)
    } else if l == "5m"@ || l == "m5"@ {
        Some(TimeFrame::M5)
    } else if l == "15m"@ || l == "m15"@ {
        Some(TimeFrame::M15)
    } else if l == "30m"@ || l == "m30"@ {
        Some(TimeFrame::M30)
    } else if l == "1h"@ || l == "h1"@ {
        Some(TimeFrame::H1)
    } else if l == "4h"@ || l == "h4"@ {
        Some(TimeFrame::H4)
    } else if l == "1d"@ || l == "d1"@ {
        Some(TimeFrame::D1)
    } else if l == "1w"@ || l == "w1"@ {
        Some(TimeFrame::W1)
    } else if l == "1mo"@ || l == "mn1"@ {
        Some(TimeFrame::MN1)
    } else {
        None
    }
}

/// The nine timeframes in ascending order.
pub open spec fn all_timeframes() -> Seq<TimeFrame> {
    seq![
        TimeFrame::M1,
        TimeFrame::M5,
        TimeFrame::M15,
        TimeFrame::M30,
        TimeFrame::H1,
        TimeFrame::H4,
        TimeFrame::D1,
        TimeFrame::W1,
        TimeFrame::MN1,
    ]
}

fn ascii_lower_exec(c: char) -> (r: char)
    ensures
        r == ascii_lower_char(c),
{
    if 'A' <= c && c <= 'Z' {
        let code: u32 = (c as u32) + 32;
        proof {
            assert(code == (c as u32) + 32);
        }
        let r = char_from_ascii_letter(code);
        r
    } else {
        c
    }
}

fn char_from_ascii_letter(code: u32) -> (c: char)
    requires
        97 <= code <= 122,
    ensures
        c == (code as char),
{
    if code == 97 { 'a' } else if code == 98 { 'b' } else if code == 99 { 'c' }
    else if code == 100 { 'd' } else if code == 101 { 'e' } else if code == 102 { 'f' }
    else if code == 103 { 'g' } else if code == 104 { 'h' } else if code == 105 { 'i' }
    else if code == 106 { 'j' } else if code == 107 { 'k' } else if code == 108 { 'l' }
    else if code == 109 { 'm' } else if code == 110 { 'n' } else if code == 111 { 'o' }
    else if code == 112 { 'p' } else if code == 113 { 'q' } else if code == 114 { 'r' }
    else if code == 115 { 's' } else if code == 116 { 't' } else if code == 117 { 'u' }
    else if code == 118 { 'v' } else if code == 119 { 'w' } else if code == 120 { 'x' }
    else if code == 121 { 'y' } else { 'z' }
}

/// Whether `s`, with ASCII letters lower-cased, equals `lit`.
fn lower_equals(s: &str, lit: &str) -> (r: bool)
    ensures
        r == (ascii_lower(s@) == lit@),
{
    let n = s.unicode_len();
    let m = lit.unicode_len();
    if n != m {
        proof {
            assert(ascii_lower(s@).len() == s@.len());
        }
        return false;
    }
    let mut i: usize = 0;
    while i < n
        invariant
            n == s@.len(),
            m == lit@.len(),
            n == m,
            i <= n,
            forall|j: int| 0 <= j < i ==> ascii_lower_char(s@[j]) == lit@[j],
        decreases n - i,
    {
        let c = ascii_lower_exec(s.get_char(i));
        if c != lit.get_char(i) {
            proof {
                assert(ascii_lower(s@)[i as int] != lit@[i as int]);
            }
            return false;
        }
        i = i + 1;
    }
    proof {
        assert(ascii_lower(s@) =~= lit@);
    }
    true
}

impl TimeFrame {
    /// Duration in milliseconds (a month counts as 30 days).
    pub fn to_millis(&self) -> (r: i64)
        ensures
            r == millis(*self),
    {
        match self {
            TimeFrame::M1 => 60 * 1000,
            TimeFrame::M5 => 5 * 60 * 1000,
            TimeFrame::M15 => 15 * 60 * 1000,
            TimeFrame::M30 => 30 * 60 * 1000,
            TimeFrame::H1 => 60 * 60 * 1000,
            TimeFrame::H4 => 4 * 60 * 60 * 1000,
            TimeFrame::D1 => 24 * 60 * 60 * 1000,
            TimeFrame::W1 => 7 * 24 * 60 * 60 * 1000,
            TimeFrame::MN1 => 30 * 24 * 60 * 60 * 1000,
        }
    }

    /// Duration in seconds.
    pub fn to_seconds(&self) -> (r: i64)
        ensures
            r == millis(*self) / 1000,
    {
        self.to_millis() / 1000
    }

    /// The code used by exchange APIs.
    pub fn as_str(&self) -> (r: &'static str)
        ensures
            r@ == api_code(*self),
    {
        match self {
            TimeFrame::M1 => "1m",
            TimeFrame::M5 => "5m",
            TimeFrame::M15 => "15m",
            TimeFrame::M30 => "30m",
            TimeFrame::H1 => "1h",
            TimeFrame::H4 => "4h",
            TimeFrame::D1 => "1d",
            TimeFrame::W1 => "1w",
            TimeFrame::MN1 => "1M",
        }
    }

    /// The display text of a timeframe: its API code.
    pub fn to_string(&self) -> (r: String)
        ensures
            r@ == api_code(*self),
    {
        String::from_str(self.as_str())
    }

    /// The variant name, as `{:?}` prints it.
    pub fn debug_str(&self) -> (r: &'static str)
        ensures
            r@ == debug_name(*self),
    {
        match self {
            TimeFrame::M1 => "M1",
            TimeFrame::M5 => "M5",
            TimeFrame::M15 => "M15",
            TimeFrame::M30 => "M30",
            TimeFrame::H1 => "H1",
            TimeFrame::H4 => "H4",
            TimeFrame::D1 => "D1",
            TimeFrame::W1 => "W1",
            TimeFrame::MN1 => "MN1",
        }
    }

    /// Parses a code, ignoring the case of ASCII letters: "1m"/"m1", "5m"/"m5",
    /// "15m"/"m15", "30m"/"m30", "1h"/"h1", "4h"/"h4", "1d"/"d1", "1w"/"w1",
    /// "1mo"/"mn1". Anything else is rejected with the input in the error.
    pub fn from_str(s: &str) -> (r: Result<TimeFrame, TimeFrameError>)
        ensures
            parse_code(s@) matches Some(tf) ==> r == Ok::<TimeFrame, TimeFrameError>(tf),
            parse_code(s@) is None ==> (r matches Err(TimeFrameError::Invalid(t)) && t@ == s@),
    {
        if lower_equals(s, "1m") || lower_equals(s, "m1") {
            Ok(TimeFrame::M1)
        } else if lower_equals(s, "5m") || lower_equals(s, "m5") {
            Ok(TimeFrame::M5)
        } else if lower_equals(s, "15m") || lower_equals(s, "m15") {
            Ok(TimeFrame::M15)
        } else if lower_equals(s, "30m") || lower_equals(s, "m30") {
            Ok(TimeFrame::M30)
        } else if lower_equals(s, "1h") || lower_equals(s, "h1") {
            Ok(TimeFrame::H1)
        } else if lower_equals(s, "4h") || lower_equals(s, "h4") {
            Ok(TimeFrame::H4)
        } else if lower_equals(s, "1d") || lower_equals(s, "d1") {
            Ok(TimeFrame::D1)
        } else if lower_equals(s, "1w") || lower_equals(s, "w1") {
            Ok(TimeFrame::W1)
        } else if lower_equals(s, "1mo") || lower_equals(s, "mn1") {
            Ok(TimeFrame::MN1)
        } else {
            Err(TimeFrameError::Invalid(String::from_str(s)))
        }
    }

    /// All timeframes, from the shortest to the longest.
    pub fn all() -> (r: Vec<TimeFrame>)
        ensures
            r@ == all_timeframes(),
    {
        vec![
            TimeFrame::M1,
            TimeFrame::M5,
            TimeFrame::M15,
            TimeFrame::M30,
            TimeFrame::H1,
            TimeFrame::H4,
            TimeFrame::D1,
            TimeFrame::W1,
            TimeFrame::MN1,
        ]
    }
}

/// The code of a timeframe in exported strategy file names.
pub fn timeframe_to_str(tf: TimeFrame) -> (r: &'static str)
    ensures
        r@ == file_code(tf),
{
    match tf {
        TimeFrame::M1 => "1m",
        TimeFrame::M5 => "5m",
        TimeFrame::M15 => "15m",
        TimeFrame::M30 => "30m",
        TimeFrame::H1 => "1h",
        TimeFrame::H4 => "4h",
        TimeFrame::D1 => "1d",
        TimeFrame::W1 => "1w",
        TimeFrame::MN1 => "1mo",
    }
}

} // verus!

verus! {

proof fn reveal_codes()
    ensures
        "1m"@ == seq!['1', 'm'],
        "m1"@ == seq!['m', '1'],
        "5m"@ == seq!['5', 'm'],
        "m5"@ == seq!['m', '5'],
        "15m"@ == seq!['1', '5', 'm'],
        "m15"@ == seq!['m', '1', '5'],
        "30m"@ == seq!['3', '0', 'm'],
        "m30"@ == seq!['m', '3', '0'],
        "1h"@ == seq!['1', 'h'],
        "h1"@ == seq!['h', '1'],
        "4h"@ == seq!['4', 'h'],
        "h4"@ == seq!['h', '4'],
        "1d"@ == seq!['1', 'd'],
        "d1"@ == seq!['d', '1'],
        "1w"@ == seq!['1', 'w'],
        "w1"@ == seq!['w', '1'],
        "1mo"@ == seq!['1', 'm', 'o'],
        "mn1"@ == seq!['m', 'n', '1'],
        "1M"@ == seq!['1', 'M'],
{
    reveal_strlit("1m");
    reveal_strlit("m1");
    reveal_strlit("5m");
    reveal_strlit("m5");
    reveal_strlit("15m");
    reveal_strlit("m15");
    reveal_strlit("30m");
    reveal_strlit("m30");
    reveal_strlit("1h");
    reveal_strlit("h1");
    reveal_strlit("4h");
    reveal_strlit("h4");
    reveal_strlit("1d");
    reveal_strlit("d1");
    reveal_strlit("1w");
    reveal_strlit("w1");
    reveal_strlit("1mo");
    reveal_strlit("mn1");
    reveal_strlit("1M");
}

/// Parsing the API code of any timeframe but the month gives that timeframe
/// back. The month's API code "1M" lower-cases to "1m" and parses as one
/// minute (see `lemma_month_api_code_parses_as_minute`).
pub proof fn lemma_api_code_round_trip(tf: TimeFrame)
    requires
        tf != TimeFrame::MN1,
    ensures
        parse_code(api_code(tf)) == Some(tf),
{
    reveal_codes();
    assert(ascii_lower(api_code(tf)) =~= api_code(tf));
}

/// The month's API code "1M" parses as one minute.
pub proof fn lemma_month_api_code_parses_as_minute()
    ensures
        parse_code(api_code(TimeFrame::MN1)) == Some(TimeFrame::M1),
{
    reveal_codes();
    assert(ascii_lower(api_code(TimeFrame::MN1)) =~= "1m"@);
}

/// Parsing the file-name code of any timeframe gives that timeframe back.
pub proof fn lemma_file_code_round_trip(tf: TimeFrame)
    ensures
        parse_code(file_code(tf)) == Some(tf),
{
    reveal_codes();
    assert(ascii_lower(file_code(tf)) =~= file_code(tf));
}

/// Timeframes ordered by rank are ordered by duration, and the other way round.
pub proof fn lemma_rank_orders_durations(a: TimeFrame, b: TimeFrame)
    ensures
        rank(a) < rank(b) <==> millis(a) < millis(b),
        rank(a) == rank(b) <==> a == b,
{
}

/// Every duration is a whole number of seconds.
pub proof fn lemma_millis_whole_seconds(tf: TimeFrame)
    ensures
        millis(tf) % 1000 == 0,
        (millis(tf) / 1000) * 1000 == millis(tf),
        millis(tf) > 0,
{
}

/// `all_timeframes` lists every timeframe exactly once, in ascending duration.
pub proof fn lemma_all_timeframes_complete(tf: TimeFrame)
    ensures
        all_timeframes().len() == 9,
        all_timeframes()[rank(tf) as int] == tf,
        forall|i: int, j: int|
            0 <= i < j < 9 ==> millis(#[trigger] all_timeframes()[i]) < millis(#[trigger] all_timeframes()[j]),
{
}

} // verus!
