//! Durations in whole seconds and the way configuration texts write them.

use crate::error::{result_view, ConfigError, ErrorKind, ErrorView};
use crate::text::{
    chars_of, decimal_of, decimal_text, lemma_decimal_round_trip, parse_number, parse_unsigned,
    slice_of, string_of,
};
use vstd::prelude::*;

verus! {

/// A span of whole seconds, which texts write as a count with a unit: `90s`, `5m`, `2h`,
/// or as a bare count of seconds.
#[derive(Clone, Copy, Debug, PartialEq, Eq, Structural)]
pub struct HumanDuration {
    pub secs: u64,
}

impl View for HumanDuration {
    type V = HumanDuration;

    open spec fn view(&self) -> HumanDuration {
        *self
    }
}

impl HumanDuration {
    /// The span of `secs` seconds.
    pub fn from_secs(secs: u64) -> (d: HumanDuration)
        ensures
            d.secs == secs,
    {
        HumanDuration { secs }
    }

    /// The seconds in the span.
    pub fn as_secs(&self) -> (secs: u64)
        ensures
            secs == self.secs,
    {
        self.secs
    }
}

/// The seconds in one unit: 60 for `m`, 3600 for `h`, else 1.
pub open spec fn unit_seconds(s: Seq<char>) -> nat {
    if s.len() > 0 && s.last() == 'm' {
        60
    } else if s.len() > 0 && s.last() == 'h' {
        3600
    } else {
        1
    }
}

/// The count in a duration text: the text without its unit letter.
pub open spec fn count_text(s: Seq<char>) -> Seq<char> {
    if s.len() > 0 && (s.last() == 's' || s.last() == 'm' || s.last() == 'h') {
        s.drop_last()
    } else {
        s
    }
}

/// The seconds that a duration text stands for: an unsigned decimal count, then `s`, `m`,
/// `h` or nothing. `None` where the count is no number or the seconds exceed 64 bits.
pub open spec fn duration_seconds(s: Seq<char>) -> Option<nat> {
    match parse_unsigned(count_text(s), u64::MAX as nat) {
        Some(n) => if n * unit_seconds(s) <= u64::MAX {
            Some(n * unit_seconds(s))
        } else {
            None
        },
        None => None,
    }
}

/// The duration that a text stands for, or the error that carries the count that could
/// not be read.
pub open spec fn duration_of_text(s: Seq<char>) -> Result<HumanDuration, ErrorView> {
    match duration_seconds(s) {
        Some(n) => Ok(HumanDuration { secs: n as u64 }),
        None => Err((ErrorKind::Duration, count_text(s))),
    }
}

/// The text for a span of `secs` seconds: in hours where they are whole, else in minutes
/// where they are whole, else in seconds.
pub open spec fn duration_text(secs: nat) -> Seq<char> {
    if secs % 3600 == 0 {
        decimal_text(secs / 3600).push('h')
    } else if secs % 60 == 0 {
        decimal_text(secs / 60).push('m')
    } else {
        decimal_text(secs).push('s')
    }
}

/// Reads a duration: a count of seconds, or a count followed by `s`, `m` or `h`.
///
/// The error carries the count that could not be read.
pub fn parse_duration_sec(arg: &str) -> (res: Result<HumanDuration, ConfigError>)
    ensures
        result_view(res) == duration_of_text(arg@),
{
    let chars = chars_of(arg);
    let n = chars.len();
    let mut unit: u64 = 1;
    let mut end: usize = n;
    if n > 0 {
        let last = chars[n - 1];
        if last == 's' {
            end = n - 1;
        } else if last == 'm' {
            end = n - 1;
            unit = 60;
        } else if last == 'h' {
            end = n - 1;
            unit = 3600;
        }
    }
    let count = slice_of(&chars, 0, end);
    assert(count@ == count_text(arg@));
    let secs = match parse_number(&count, u64::MAX) {
        Some(v) => v.checked_mul(unit),
        None => None,
    };
    match secs {
        Some(secs) => Ok(HumanDuration { secs }),
        None => Err(ConfigError::new(ErrorKind::Duration, string_of(&count))),
    }
}

/// Writes a duration in the largest unit that divides it.
pub fn serialize_duration(duration: &HumanDuration) -> (out: String)
    ensures
        out@ == duration_text(duration.secs as nat),
{
    let secs = duration.secs;
    let mut chars: Vec<char>;
    if secs % 3600 == 0 {
        chars = decimal_of(secs / 3600);
        chars.push('h');
    } else if secs % 60 == 0 {
        chars = decimal_of(secs / 60);
        chars.push('m');
    } else {
        chars = decimal_of(secs);
        chars.push('s');
    }
    string_of(&chars)
}

/// Reads a duration as [`parse_duration_sec`] does.
pub fn deserialize_duration(text: &str) -> (res: Result<HumanDuration, ConfigError>)
    ensures
        result_view(res) == duration_of_text(text@),
{
    parse_duration_sec(text)
}

/// Writes a duration that may be absent.
pub fn serialize_option_duration(duration: &Option<HumanDuration>) -> (out: Option<String>)
    ensures
        match *duration {
            Some(d) => out matches Some(t) && t@ == duration_text(d.secs as nat),
            None => out is None,
        },
{
    match duration {
        Some(d) => Some(serialize_duration(d)),
        None => None,
    }
}

/// Reads a duration that may be absent.
pub fn deserialize_option_duration(text: Option<&str>) -> (res: Result<
    Option<HumanDuration>,
    ConfigError,
>)
    ensures
        match text {
            None => res == Ok::<Option<HumanDuration>, ConfigError>(None),
            Some(t) => match duration_of_text(t@) {
                Ok(d) => res == Ok::<Option<HumanDuration>, ConfigError>(Some(d)),
                Err(e) => res is Err && res->Err_0@ == e,
            },
        },
{
    match text {
        Some(t) => match parse_duration_sec(t) {
            Ok(d) => Ok(Some(d)),
            Err(e) => Err(e),
        },
        None => Ok(None),
    }
}

/// Every duration is read back from the text that it is written as.
pub proof fn lemma_duration_round_trip(secs: u64)
    ensures
        duration_seconds(duration_text(secs as nat)) == Some(secs as nat),
        duration_of_text(duration_text(secs as nat)) == Ok::<HumanDuration, ErrorView>(
            HumanDuration { secs },
        ),
{
    let n = secs as nat;
    let t = duration_text(n);
    if n % 3600 == 0 {
        lemma_decimal_round_trip(n / 3600, u64::MAX as nat);
        assert(t.last() == 'h');
        assert(count_text(t) == decimal_text(n / 3600));
        assert((n / 3600) * 3600 == n);
    } else if n % 60 == 0 {
        lemma_decimal_round_trip(n / 60, u64::MAX as nat);
        assert(t.last() == 'm');
        assert(count_text(t) == decimal_text(n / 60));
        assert((n / 60) * 60 == n);
    } else {
        lemma_decimal_round_trip(n, u64::MAX as nat);
        assert(t.last() == 's');
        assert(count_text(t) == decimal_text(n));
    }
}

} // verus!
