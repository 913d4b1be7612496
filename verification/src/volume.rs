//! The audio volume shown in the bar, read from the output of
//! `wpctl get-volume @DEFAULT_AUDIO_SINK@`.

use vstd::prelude::*;
use crate::text::{seq_contains, str_contains, chars_of};

verus! {

#[derive(Debug, Copy, Clone, PartialEq, Eq)]
pub struct VolumeInfo {
    /// The volume in percent.
    pub volume: u32,
    /// The name of the icon that shows it.
    pub icon: &'static str,
}

/// Whether `c` is a numeric character in Unicode's sense (a decimal digit,
/// a letter-like number or another number).
pub uninterp spec fn char_is_numeric(c: char) -> bool;

/// Whether `c` is numeric.
///
/// Trusted: `char::is_numeric` of std. Its result is named
/// [`char_is_numeric`]; its documentation gives its meaning through the
/// Unicode general categories `Nd`, `Nl` and `No`, of which the only ASCII
/// members are the digits `0` to `9`, and that is all this contract states.
#[verifier::external_body]
fn is_numeric(c: char) -> (b: bool)
    ensures
        b == char_is_numeric(c),
        (c as u32) < 128 ==> (b <==> ('0' <= c <= '9')),
{
    c.is_numeric()
}

/// The numeric characters of `s`, in order.
pub open spec fn numeric_chars(s: Seq<char>) -> Seq<char> {
    s.filter(|c: char| char_is_numeric(c))
}

pub open spec fn is_ascii_digit(c: char) -> bool {
    '0' <= c <= '9'
}

/// Of the ASCII characters of `s`, exactly the digits `0` to `9` are
/// numeric.
pub open spec fn ascii_numeric_rule(s: Seq<char>) -> bool {
    forall|i: int|
        0 <= i < s.len() && (s[i] as u32) < 128 ==> (char_is_numeric(#[trigger] s[i])
            <==> is_ascii_digit(s[i]))
}

/// The number that the decimal digits `ds` spell.
pub open spec fn decimal_value(ds: Seq<char>) -> nat
    decreases ds.len(),
{
    if ds.len() == 0 {
        0
    } else {
        decimal_value(ds.drop_last()) * 10 + (ds.last() as nat - '0' as nat) as nat
    }
}

/// The number that a string of digits spells when read as a `u32`: only
/// ASCII digits, at least one, and not more than `u32::MAX`.
pub open spec fn spec_parse_u32(ds: Seq<char>) -> Option<u32> {
    if ds.len() > 0 && (forall|i: int| 0 <= i < ds.len() ==> is_ascii_digit(#[trigger] ds[i]))
        && decimal_value(ds) <= u32::MAX {
        Some(decimal_value(ds) as u32)
    } else {
        None
    }
}

/// The icon for a volume: muted, or low up to a third, medium up to two
/// thirds, high above.
pub open spec fn spec_volume_icon(volume: u32, muted: bool) -> Seq<char> {
    if muted {
        "audio-volume-muted"@
    } else if volume <= 33 {
        "audio-volume-low"@
    } else if volume <= 66 {
        "audio-volume-medium"@
    } else {
        "audio-volume-high"@
    }
}

/// The icon for a volume.
pub fn icon(volume: u32, muted: bool) -> (name: &'static str)
    ensures
        name@ == spec_volume_icon(volume, muted),
{
    if muted {
        "audio-volume-muted"
    } else if volume <= 33 {
        "audio-volume-low"
    } else if volume <= 66 {
        "audio-volume-medium"
    } else {
        "audio-volume-high"
    }
}

/// What the output of `wpctl get-volume` says: all its numeric characters
/// read together as the volume in percent (`Volume: 0.45` is 45), muted if
/// it mentions `MUTED`; nothing if those characters are not a `u32`.
pub open spec fn spec_volume_info(stdout: Seq<char>) -> Option<(u32, Seq<char>)> {
    match spec_parse_u32(numeric_chars(stdout)) {
        Some(v) => Some((v, spec_volume_icon(v, seq_contains(stdout, "MUTED"@)))),
        None => None,
    }
}

/// Digits that no prefix of a `u32` can extend: a character that is not an
/// ASCII digit, or a value already too large.
pub open spec fn not_a_u32(ds: Seq<char>) -> bool {
    (exists|k: int| 0 <= k < ds.len() && !is_ascii_digit(#[trigger] ds[k])) || decimal_value(ds)
        > u32::MAX
}

proof fn lemma_not_a_u32_push(ds: Seq<char>, c: char)
    requires
        not_a_u32(ds),
    ensures
        not_a_u32(ds.push(c)),
{
    let e = ds.push(c);
    assert(e.drop_last() =~= ds);
    if exists|k: int| 0 <= k < ds.len() && !is_ascii_digit(#[trigger] ds[k]) {
        let k = choose|k: int| 0 <= k < ds.len() && !is_ascii_digit(#[trigger] ds[k]);
        assert(e[k] == ds[k]);
    } else if !is_ascii_digit(c) {
        assert(e[ds.len() as int] == c);
    }
}

proof fn lemma_filter_push(s: Seq<char>, i: int)
    requires
        0 <= i < s.len(),
    ensures
        numeric_chars(s.take(i + 1)) == if char_is_numeric(s[i]) {
            numeric_chars(s.take(i)).push(s[i])
        } else {
            numeric_chars(s.take(i))
        },
{
    assert(s.take(i + 1).drop_last() =~= s.take(i));
    reveal_with_fuel(Seq::filter, 1);
}

/// The numeric characters of `s`, in order.
pub fn numeric_chars_of(s: &str) -> (digits: Vec<char>)
    ensures
        digits@ == numeric_chars(s@),
        ascii_numeric_rule(s@),
{
    let chars = chars_of(s);
    let mut digits: Vec<char> = Vec::new();
    let mut i: usize = 0;
    while i < chars.len()
        invariant
            i <= chars.len(),
            chars@ == s@,
            digits@ == numeric_chars(chars@.take(i as int)),
            forall|k: int|
                0 <= k < i && (chars@[k] as u32) < 128 ==> (char_is_numeric(#[trigger] chars@[k])
                    <==> is_ascii_digit(chars@[k])),
        decreases chars.len() - i,
    {
        proof {
            lemma_filter_push(chars@, i as int);
        }
        if is_numeric(chars[i]) {
            digits.push(chars[i]);
        }
        i = i + 1;
    }
    assert(chars@.take(chars.len() as int) =~= s@);
    digits
}

/// The number that a string of digits spells as a `u32`, if it does.
pub fn parse_u32(ds: &Vec<char>) -> (n: Option<u32>)
    ensures
        n == spec_parse_u32(ds@),
{
    let mut value: u32 = 0;
    let mut valid = true;
    let mut i: usize = 0;
    while i < ds.len()
        invariant
            i <= ds.len(),
            valid ==> (forall|k: int| 0 <= k < i ==> is_ascii_digit(#[trigger] ds@.take(i as int)[k])),
            valid ==> decimal_value(ds@.take(i as int)) <= u32::MAX,
            valid ==> value == decimal_value(ds@.take(i as int)),
            !valid ==> not_a_u32(ds@.take(i as int)),
        decreases ds.len() - i,
    {
        let c = ds[i];
        let ghost before = ds@.take(i as int);
        let ghost after = ds@.take(i + 1);
        assert(after =~= before.push(c));
        assert(after.drop_last() =~= before);
        proof {
            if !valid {
                lemma_not_a_u32_push(before, c);
            }
        }
        if valid {
            if '0' <= c && c <= '9' {
                let d = (c as u32) - ('0' as u32);
                if value <= (u32::MAX - d) / 10 {
                    value = value * 10 + d;
                } else {
                    valid = false;
                }
            } else {
                valid = false;
                assert(after[before.len() as int] == c);
            }
        }
        i = i + 1;
    }
    assert(ds@.take(ds.len() as int) =~= ds@);
    if valid && ds.len() > 0 {
        Some(value)
    } else {
        None
    }
}

/// The volume shown by the numeric characters of the output of
/// `wpctl get-volume` and whether it says `MUTED`.
pub fn volume_from_digits(digits: &Vec<char>, muted: bool) -> (info: Option<VolumeInfo>)
    ensures
        match (info, spec_parse_u32(digits@)) {
            (Some(i), Some(v)) => i.volume == v && i.icon@ == spec_volume_icon(v, muted),
            (None, None) => true,
            _ => false,
        },
{
    match parse_u32(digits) {
        Some(volume) => Some(VolumeInfo { volume, icon: icon(volume, muted) }),
        None => None,
    }
}

/// The volume that the output of `wpctl get-volume` shows, if it shows one.
pub fn volume_info_from_output(stdout: &str) -> (info: Option<VolumeInfo>)
    ensures
        ascii_numeric_rule(stdout@),
        match (info, spec_volume_info(stdout@)) {
            (Some(i), Some((v, name))) => i.volume == v && i.icon@ == name,
            (None, None) => true,
            _ => false,
        },
{
    let digits = numeric_chars_of(stdout);
    let muted = str_contains(stdout, "MUTED");
    volume_from_digits(&digits, muted)
}

} // verus!
