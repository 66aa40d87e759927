use std::path::PathBuf;
use std::time::Duration;
use vstd::prelude::*;

verus! {

/// `std::path::PathBuf`, carried through as it is: the library never looks
/// inside a path.
#[verifier::external_type_specification]
#[verifier::external_body]
pub struct ExPathBuf(PathBuf);

/// Settings of the whole program, as given on the command line.
#[derive(Debug)]
pub struct Args {
    /// Show the UI in fullscreen mode.
    pub fullscreen: bool,
    pub video: VideoParams,
    pub trigger: TriggerParams,
    /// Output folder for snapshots.
    pub output: PathBuf,
    /// Filename template for snapshots.
    pub filename: String,
    /// One or more images to use as countdown overlays.
    pub countdown: Option<Vec<PathBuf>>,
    /// Image to overlay the snapshot with while frozen.
    pub mugshot: Option<PathBuf>,
    /// How long the frozen snapshot is shown before the trigger timer restarts.
    pub freeze: Duration,
}

/// Timing of the autonomous trigger.
#[derive(Debug, Clone, Copy)]
pub struct TriggerParams {
    /// Time until the countdown starts; `None` disables autonomous triggering.
    pub timeout: Option<Duration>,
    /// Time between two countdown steps.
    pub timeout_between: Duration,
}

/// Camera settings.
#[derive(Debug, Clone, Copy)]
pub struct VideoParams {
    /// Video capture device.
    pub device: i32,
    /// Frame width of the live preview.
    pub video_width: u32,
    /// Frame width of a snapshot.
    pub snapshot_width: u32,
    /// Frames per second of the live preview.
    pub frame_rate: u32,
}

/// What `parse_duration::parse` gives for a text: the duration, or `None`
/// where it reports an error.
pub uninterp spec fn duration_text(s: Seq<char>) -> Option<Duration>;

/// Whether a duration spans no time.
pub uninterp spec fn duration_is_zero(d: Duration) -> bool;

/// Relies on std's `Duration::is_zero`: true exactly when the duration spans
/// no time, so a duration is positive where it is false.
pub assume_specification[ core::time::Duration::is_zero ](d: &Duration) -> (r: bool)
    ensures
        r == duration_is_zero(*d),
;

pub const PARSE_FAILED: &'static str = "Failed parsing duration";

pub const NOT_POSITIVE: &'static str = "Must be > 0";

/// Number of exponent digits from which a duration text is refused.
pub const EXPONENT_DIGITS_REFUSED: usize = 5;

pub open spec fn is_ascii_digit(c: char) -> bool {
    '0' <= c <= '9'
}

/// Where the digits of an exponent whose `e` stands at `i` begin: after
/// the sign, if there is one.
pub open spec fn exponent_start(s: Seq<char>, i: int) -> int {
    if i + 1 < s.len() && (s[i + 1] == '+' || s[i + 1] == '-') {
        i + 2
    } else {
        i + 1
    }
}

/// An `e` or `E` at `i` followed, after an optional sign, by at least
/// `EXPONENT_DIGITS_REFUSED` ASCII digits.
pub open spec fn long_exponent_at(s: Seq<char>, i: int) -> bool {
    &&& 0 <= i < s.len()
    &&& (s[i] == 'e' || s[i] == 'E')
    &&& exponent_start(s, i) + EXPONENT_DIGITS_REFUSED <= s.len()
    &&& forall|k: int|
        0 <= k < EXPONENT_DIGITS_REFUSED ==> is_ascii_digit(#[trigger] s[exponent_start(s, i) + k])
}

/// The text holds no exponent of `EXPONENT_DIGITS_REFUSED` digits or more.
/// The parser raises ten to the exponent, so it would not finish on such a
/// text in any useful time.
pub open spec fn short_exponents(s: Seq<char>) -> bool {
    forall|i: int| 0 <= i < s.len() ==> !#[trigger] long_exponent_at(s, i)
}

/// What a duration option accepts, given what the parser made of its text.
pub open spec fn checked_duration(parsed: Option<Duration>) -> Result<Duration, &'static str> {
    match parsed {
        None => Err(PARSE_FAILED),
        Some(d) => if duration_is_zero(d) {
            Err(NOT_POSITIVE)
        } else {
            Ok(d)
        },
    }
}

/// Relies on `parse_duration::parse`: the duration a text denotes, or `None`
/// where it reports an error; the same text always gives the same result.
/// Texts with long exponents are left out (see `short_exponents`).
#[verifier::external_body]
fn parse_duration_text(s: &str) -> (r: Option<Duration>)
    requires
        short_exponents(s@),
    ensures
        r == duration_text(s@),
{
    parse_duration::parse(s).ok()
}

/// Accepts a parsed duration if it is positive.
pub fn check_duration(parsed: Option<Duration>) -> (r: Result<Duration, &'static str>)
    ensures
        r == checked_duration(parsed),
{
    match parsed {
        None => Err(PARSE_FAILED),
        Some(d) => if d.is_zero() {
            Err(NOT_POSITIVE)
        } else {
            Ok(d)
        },
    }
}

fn long_exponent_at_exec(s: &str, len: usize, i: usize) -> (r: bool)
    requires
        len == s@.len(),
        i < len,
    ensures
        r == long_exponent_at(s@, i as int),
{
    let c = s.get_char(i);
    if c != 'e' && c != 'E' {
        return false;
    }
    let mut j = i + 1;
    if j < len {
        let sign = s.get_char(j);
        if sign == '+' || sign == '-' {
            j = j + 1;
        }
    }
    assert(j == exponent_start(s@, i as int));
    if len - j < EXPONENT_DIGITS_REFUSED {
        return false;
    }
    let mut k: usize = 0;
    while k < EXPONENT_DIGITS_REFUSED
        invariant
            len == s@.len(),
            j == exponent_start(s@, i as int),
            j + EXPONENT_DIGITS_REFUSED <= len,
            0 <= k <= EXPONENT_DIGITS_REFUSED,
            forall|m: int| 0 <= m < k ==> is_ascii_digit(#[trigger] s@[j + m]),
        decreases EXPONENT_DIGITS_REFUSED - k,
    {
        let d = s.get_char(j + k);
        if !('0' <= d && d <= '9') {
            assert(!is_ascii_digit(s@[exponent_start(s@, i as int) + k as int]));
            return false;
        }
        k += 1;
    }
    true
}

/// Whether a duration text has only short exponents.
pub fn has_short_exponents(s: &str) -> (r: bool)
    ensures
        r == short_exponents(s@),
{
    let len = s.unicode_len();
    let mut i: usize = 0;
    while i < len
        invariant
            len == s@.len(),
            0 <= i <= len,
            forall|m: int| 0 <= m < i ==> !#[trigger] long_exponent_at(s@, m),
        decreases len - i,
    {
        if long_exponent_at_exec(s, len, i) {
            return false;
        }
        i += 1;
    }
    true
}

/// Parses a positive duration such as `3s` or `1 min 30 s`. Texts that the
/// parser refuses, and texts with exponents of five digits or more, give
/// `PARSE_FAILED`; a duration of zero gives `NOT_POSITIVE`.
pub fn parse_duration(s: &str) -> (r: Result<Duration, &'static str>)
    ensures
        r == (if short_exponents(s@) {
            checked_duration(duration_text(s@))
        } else {
            Err(PARSE_FAILED)
        }),
{
    if !has_short_exponents(s) {
        return Err(PARSE_FAILED);
    }
    check_duration(parse_duration_text(s))
}

} // verus!
