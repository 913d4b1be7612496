//! Times of day as the shell writes them, at the UTC offset of local time.

use vstd::prelude::*;

verus! {

/// The `strftime` formats the shell writes times in: the bar's clock, and
/// the times of arrival of notifications.
pub open spec fn known_format(format: Seq<char>) -> bool {
    ||| format == "%c"@
    ||| format == "%H:%M"@
    ||| format == "%H:%S"@
    ||| format == "%a %H:%M"@
    ||| format == "%a %h %e"@
}

/// An ASCII digit.
pub open spec fn is_digit(c: char) -> bool {
    '0' <= c <= '9'
}

/// An ASCII letter.
pub open spec fn is_letter(c: char) -> bool {
    ('a' <= c <= 'z') || ('A' <= c <= 'Z')
}

/// The number the digits at `at` and `at + 1` of `t` spell is at most `max`.
pub open spec fn two_digits(t: Seq<char>, at: int, max: int) -> bool {
    &&& is_digit(t[at])
    &&& is_digit(t[at + 1])
    &&& (t[at] as int - '0' as int) * 10 + (t[at + 1] as int - '0' as int) <= max
}

/// Three letters at `at`: an abbreviated weekday or month name.
pub open spec fn three_letters(t: Seq<char>, at: int) -> bool {
    is_letter(t[at]) && is_letter(t[at + 1]) && is_letter(t[at + 2])
}

/// A day of the month at `at`, padded with a space: ` 1` to ` 9`, `10` to
/// `31`.
pub open spec fn day_field(t: Seq<char>, at: int) -> bool {
    ||| t[at] == ' ' && is_digit(t[at + 1]) && t[at + 1] != '0'
    ||| two_digits(t, at, 31) && t[at] != '0'
}

/// Hours `00` to `23`, a `:`, and a second field up to `max` at `at`.
pub open spec fn hour_and(t: Seq<char>, at: int, max: int) -> bool {
    two_digits(t, at, 23) && t[at + 2] == ':' && two_digits(t, at + 3, max)
}

/// A time written as `%H:%M`, hours `00`-`23` and minutes `00`-`59`, as in
/// `00:34`.
pub open spec fn hour_minute_text(t: Seq<char>) -> bool {
    t.len() == 5 && hour_and(t, 0, 59)
}

/// A time written as `%H:%S`, hours and seconds `00`-`60`.
pub open spec fn hour_second_text(t: Seq<char>) -> bool {
    t.len() == 5 && hour_and(t, 0, 60)
}

/// A time written as `%a %H:%M`, as in `Sun 00:34`.
pub open spec fn weekday_time_text(t: Seq<char>) -> bool {
    t.len() == 9 && three_letters(t, 0) && t[3] == ' ' && hour_and(t, 4, 59)
}

/// A date written as `%a %h %e`, as in `Sun Jul  8`.
pub open spec fn weekday_date_text(t: Seq<char>) -> bool {
    t.len() == 10 && three_letters(t, 0) && t[3] == ' ' && three_letters(t, 4) && t[7] == ' '
        && day_field(t, 8)
}

/// A date and time written as `%c`, that is `%a %h %e %H:%M:%S %Y` with a
/// four-digit year, as in `Sun Jul  8 00:34:60 2001`.
pub open spec fn date_time_text(t: Seq<char>) -> bool {
    &&& t.len() == 24
    &&& three_letters(t, 0) && t[3] == ' ' && three_letters(t, 4) && t[7] == ' '
    &&& day_field(t, 8) && t[10] == ' '
    &&& hour_and(t, 11, 59) && t[16] == ':' && two_digits(t, 17, 60)
    &&& t[19] == ' '
    &&& forall|i: int| 20 <= i < 24 ==> is_digit(#[trigger] t[i])
}

/// What a time written in one of the shell's formats looks like, as
/// `chrono` documents its fields: `%H` is the hour `00`-`23`, `%M` the minute
/// `00`-`59`, `%S` the second `00`-`60`, `%a` and `%h` three letters, `%e`
/// the day of the month padded with a space, and `%c` is
/// `%a %h %e %H:%M:%S %Y`.
pub open spec fn written_as(t: Seq<char>, format: Seq<char>) -> bool {
    ||| format == "%H:%M"@ && hour_minute_text(t)
    ||| format == "%H:%S"@ && hour_second_text(t)
    ||| format == "%a %H:%M"@ && weekday_time_text(t)
    ||| format == "%a %h %e"@ && weekday_date_text(t)
    ||| format == "%c"@ && date_time_text(t)
}

/// A UTC offset in seconds that `chrono` takes: less than a day either way.
pub open spec fn valid_offset(offset: i32) -> bool {
    -86_400 < offset < 86_400
}

/// The time `time` (nanoseconds since the Unix epoch), at `offset` seconds
/// east of UTC, written in `format`.
pub uninterp spec fn formatted(time: i64, offset: i32, format: Seq<char>) -> Seq<char>;

/// The time `time` (nanoseconds since the Unix epoch), at `offset` seconds
/// east of UTC, written in `format`.
///
/// Trusted: `DateTime::<Utc>::from_timestamp_nanos`, `with_timezone` to
/// `FixedOffset::east_opt(offset)` and `format(..).to_string()` of `chrono`.
/// At a fixed offset, and with the English names of `chrono`'s default
/// features, the text depends on the three arguments alone; it is named
/// [`formatted`]. Its shape is stated as `chrono` documents the fields:
/// two-digit hours, minutes and seconds, three-letter weekday and month
/// names, a space-padded day, and for `%c` the layout `%a %b %e %H:%M:%S %Y`;
/// the years that a timestamp in nanoseconds reaches, 1677 to 2262, have four
/// digits. `east_opt` refuses an offset of a day or more, and `to_string`
/// panics on a format that `chrono` cannot read, so only valid offsets and
/// the shell's own formats are admitted.
#[verifier::external_body]
pub(crate) fn format_at(time: i64, offset: i32, format: &str) -> (text: String)
    requires
        valid_offset(offset),
        known_format(format@),
    ensures
        text@ == formatted(time, offset, format@),
        written_as(text@, format@),
{
    let zone = chrono::FixedOffset::east_opt(offset).unwrap();
    chrono::DateTime::<chrono::Utc>::from_timestamp_nanos(time)
        .with_timezone(&zone)
        .format(format)
        .to_string()
}

/// The format of the bar's clock: the full date and time while the pointer
/// is on it, hours and minutes otherwise.
pub fn clock_format(hovered: bool) -> (format: &'static str)
    ensures
        format@ == (if hovered { "%c"@ } else { "%H:%M"@ }),
{
    if hovered {
        "%c"
    } else {
        "%H:%M"
    }
}

/// The text of the bar's clock at `now` (nanoseconds since the Unix epoch)
/// where local time is `offset` seconds east of UTC: the date and time in
/// full while the pointer is on it, as in `Sun Jul  8 00:34:59 2001`, the
/// hours and minutes otherwise, as in `00:34`.
pub fn clock_text(now: i64, offset: i32, hovered: bool) -> (text: String)
    requires
        valid_offset(offset),
    ensures
        text@ == formatted(now, offset, if hovered { "%c"@ } else { "%H:%M"@ }),
        hovered ==> date_time_text(text@),
        !hovered ==> hour_minute_text(text@),
{
    let text = format_at(now, offset, clock_format(hovered));
    proof {
        reveal_strlit("%c");
        reveal_strlit("%H:%M");
        reveal_strlit("%H:%S");
        reveal_strlit("%a %H:%M");
        reveal_strlit("%a %h %e");
        assert("%c"@.len() == 2 && "%H:%M"@.len() == 5 && "%H:%S"@.len() == 5);
        assert("%a %H:%M"@.len() == 8 && "%a %h %e"@.len() == 8);
        assert("%H:%M"@[4] != "%H:%S"@[4]);
    }
    text
}

} // verus!
