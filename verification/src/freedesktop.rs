//! Icon names and paths as the freedesktop icon lookup is given them, and
//! how desktop entries are matched to applications.

use vstd::prelude::*;
use rand::Rng;
use crate::text::{chars_of, matches_at, push_char, push_str, str_eq, string_of};

verus! {

/// `s` with each occurrence of `from` replaced by `to`, the occurrences taken
/// from left to right without overlapping.
pub open spec fn replace_all(s: Seq<char>, from: Seq<char>, to: Seq<char>) -> Seq<char>
    decreases s.len(),
{
    if from.len() == 0 || s.len() == 0 {
        s
    } else if matches_at(s, from, 0) {
        to + replace_all(s.skip(from.len() as int), from, to)
    } else {
        seq![s[0]] + replace_all(s.drop_first(), from, to)
    }
}

/// Appends the characters `v[lo..hi]`.
fn push_range(out: &mut String, v: &Vec<char>, lo: usize, hi: usize)
    requires
        lo <= hi <= v.len(),
    ensures
        final(out)@ == old(out)@ + v@.subrange(lo as int, hi as int),
{
    let mut i = lo;
    while i < hi
        invariant
            lo <= i <= hi <= v.len(),
            out@ == old(out)@ + v@.subrange(lo as int, i as int),
        decreases hi - i,
    {
        push_char(out, v[i]);
        i = i + 1;
        assert(out@ =~= old(out)@ + v@.subrange(lo as int, i as int));
    }
}

/// `s` with each occurrence of `from` (not empty) replaced by `to`.
pub fn replace(s: &str, from: &str, to: &str) -> (r: String)
    requires
        from@.len() > 0,
    ensures
        r@ == replace_all(s@, from@, to@),
{
    let sv = chars_of(s);
    let fv = chars_of(from);
    let tv = chars_of(to);
    let mut out = String::new();
    let mut i: usize = 0;
    assert(sv@.skip(0) =~= sv@);
    assert(out@ + replace_all(s@, from@, to@) =~= replace_all(s@, from@, to@));
    while i < sv.len()
        invariant
            i <= sv.len(),
            sv@ == s@,
            fv@ == from@,
            tv@ == to@,
            fv@.len() > 0,
            replace_all(s@, from@, to@) == out@ + replace_all(sv@.skip(i as int), from@, to@),
        decreases sv.len() - i,
    {
        let ghost rest = sv@.skip(i as int);
        if crate::text::matches_at_exec(&sv, &fv, i) {
            assert(matches_at(rest, fv@, 0)) by {
                assert(rest.subrange(0, fv@.len() as int) =~= sv@.subrange(i as int, i + fv@.len()));
            }
            assert(rest.skip(fv@.len() as int) =~= sv@.skip(i + fv@.len()));
            let ghost before = out@;
            push_range(&mut out, &tv, 0, tv.len());
            assert(tv@.subrange(0, tv@.len() as int) =~= tv@);
            let ghost r = replace_all(sv@.skip(i + fv@.len()), from@, to@);
            assert(before + (tv@ + r) =~= out@ + r);
            i = i + fv.len();
        } else {
            assert(!matches_at(rest, fv@, 0)) by {
                if matches_at(rest, fv@, 0) {
                    assert(rest.subrange(0, fv@.len() as int) =~= sv@.subrange(i as int, i + fv@.len()));
                }
            }
            assert(rest.drop_first() =~= sv@.skip(i + 1));
            assert(rest[0] == sv@[i as int]);
            let ghost before = out@;
            push_char(&mut out, sv[i]);
            let ghost r = replace_all(sv@.skip(i + 1), from@, to@);
            assert(before + (seq![sv@[i as int]] + r) =~= out@ + r);
            i = i + 1;
        }
    }
    assert(sv@.skip(i as int).len() == 0);
    assert(out@ + sv@.skip(i as int) =~= out@);
    out
}

/// What an icon given by name or path is looked up as on disk first: the
/// path without any `file://` in it, which applications are meant to put
/// before paths but often do not.
pub fn icon_path_candidate(icon_name_or_path: &str) -> (path: String)
    ensures
        path@ == replace_all(icon_name_or_path@, "file://"@, Seq::<char>::empty()),
{
    let pattern = "file://";
    let empty = "";
    proof {
        reveal_strlit("file://");
        reveal_strlit("");
        assert(empty@ =~= Seq::<char>::empty());
        assert(pattern@.len() == 7);
    }
    replace(icon_name_or_path, pattern, empty)
}

/// A string without the pattern is left as it is.
pub proof fn law_replace_without_match(s: Seq<char>, from: Seq<char>, to: Seq<char>)
    requires
        from.len() > 0,
        forall|i: int| !matches_at(s, from, i),
    ensures
        replace_all(s, from, to) == s,
    decreases s.len(),
{
    if s.len() > 0 {
        assert forall|i: int| !matches_at(s.drop_first(), from, i) by {
            if matches_at(s.drop_first(), from, i) {
                assert(s.subrange(i + 1, i + 1 + from.len()) =~= s.drop_first().subrange(i, i + from.len()));
                assert(matches_at(s, from, i + 1));
            }
        }
        law_replace_without_match(s.drop_first(), from, to);
        assert(seq![s[0]] + s.drop_first() =~= s);
    }
}

/// `s` in lower case.
pub uninterp spec fn lowercase(s: Seq<char>) -> Seq<char>;

/// `s` in lower case.
///
/// Trusted: `str::to_lowercase` of std, which maps each character to its
/// lowercase form by the Unicode tables of std. It depends on the string
/// alone and is named [`lowercase`].
#[verifier::external_body]
fn to_lowercase(s: &str) -> (r: String)
    ensures
        r@ == lowercase(s@),
{
    s.to_lowercase()
}

/// Whether the desktop entry with id `appid` is the one a notification
/// names: the two are equal once both are in lower case.
pub fn same_app_id(appid: &str, name: &str) -> (same: bool)
    ensures
        same == (lowercase(appid@) == lowercase(name@)),
{
    let a = to_lowercase(appid);
    let b = to_lowercase(name);
    str_eq(a.as_str(), b.as_str())
}

/// An ASCII letter or digit.
pub open spec fn ascii_alphanumeric(c: char) -> bool {
    ||| 'a' <= c <= 'z'
    ||| 'A' <= c <= 'Z'
    ||| '0' <= c <= '9'
}

/// Eight random ASCII letters and digits.
///
/// Trusted: `rand::thread_rng().sample_iter(&Alphanumeric)` of `rand`,
/// eight samples turned into characters. `Alphanumeric` samples bytes from
/// `A-Z`, `a-z` and `0-9`; which ones come out is chance, so only that shape
/// is stated.
#[verifier::external_body]
fn random_name() -> (name: String)
    ensures
        name@.len() == 8,
        forall|i: int| 0 <= i < 8 ==> ascii_alphanumeric(#[trigger] name@[i]),
{
    rand::thread_rng().sample_iter(&rand::distributions::Alphanumeric).take(8).map(char::from).collect()
}

/// The path of a temporary PNG image named `name`.
pub open spec fn spec_tmp_png_path(name: Seq<char>) -> Seq<char> {
    "/tmp/"@ + name + ".png"@
}

/// The path of a temporary PNG image named `name`: `/tmp/<name>.png`.
pub fn tmp_png_path_for(name: &str) -> (path: String)
    ensures
        path@ == spec_tmp_png_path(name@),
{
    let mut path = String::new();
    push_str(&mut path, "/tmp/");
    push_str(&mut path, name);
    push_str(&mut path, ".png");
    assert(path@ =~= spec_tmp_png_path(name@));
    path
}

/// A path for a temporary PNG image: `/tmp/`, eight random letters and
/// digits, and `.png`.
pub fn tmp_png_path() -> (path: String)
    ensures
        exists|name: Seq<char>|
            {
                &&& name.len() == 8
                &&& forall|i: int| 0 <= i < 8 ==> ascii_alphanumeric(#[trigger] name[i])
                &&& path@ == spec_tmp_png_path(name)
            },
{
    let name = random_name();
    tmp_png_path_for(name.as_str())
}

#[verifier::external_type_specification]
#[verifier::external_body]
pub struct ExDynamicImage(image::DynamicImage);

/// The RGBA image of `width` by `height` pixels whose bytes are `data`, if
/// `data` holds enough bytes for it.
///
/// Trusted: `ImageBuffer::<Rgba<u8>, Vec<u8>>::from_raw` of `image`, wrapped
/// as `DynamicImage::ImageRgba8`. It gives an image exactly when four bytes
/// per pixel fit in `data`: it computes `4 * width * height` with checked
/// multiplication and compares it with the length, and an overflow, which
/// happens only when the product exceeds any length, gives no image.
#[verifier::external_body]
fn rgba_from_raw(width: u32, height: u32, data: Vec<u8>) -> (image: Option<image::DynamicImage>)
    ensures
        image is Some <==> 4 * width * height <= data@.len(),
{
    image::RgbaImage::from_raw(width, height, data).map(image::DynamicImage::ImageRgba8)
}

/// The RGB image of `width` by `height` pixels whose bytes are `data`, if
/// `data` holds enough bytes for it.
///
/// Trusted: `ImageBuffer::<Rgb<u8>, Vec<u8>>::from_raw` of `image`, wrapped
/// as `DynamicImage::ImageRgb8`; as for [`rgba_from_raw`] with three bytes
/// per pixel.
#[verifier::external_body]
fn rgb_from_raw(width: u32, height: u32, data: Vec<u8>) -> (image: Option<image::DynamicImage>)
    ensures
        image is Some <==> 3 * width * height <= data@.len(),
{
    image::RgbImage::from_raw(width, height, data).map(image::DynamicImage::ImageRgb8)
}

/// The image that raw pixel data describes: four bytes per pixel with an
/// alpha channel, three without; none if `data` is too short for
/// `width` by `height` pixels.
pub fn image_from_data(width: u32, height: u32, alpha: bool, data: Vec<u8>) -> (image: Option<
    image::DynamicImage,
>)
    ensures
        image is Some <==> (if alpha {
            4int
        } else {
            3int
        }) * width * height <= data@.len(),
{
    if alpha {
        rgba_from_raw(width, height, data)
    } else {
        rgb_from_raw(width, height, data)
    }
}

} // verus!
