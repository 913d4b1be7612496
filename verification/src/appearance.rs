//! What the shell's windows show, apart from drawing it: the colours of the
//! bar's workspace buttons and of notifications, the labels of the
//! indicators, which icons are vector images, and how the launcher marks its
//! selected row.

use vstd::prelude::*;
use crate::notification::Urgency;
use crate::sway::WorkspaceInfo;
use crate::text::{chars_of, decimal, push_char, push_decimal, push_str};

verus! {

/// A colour of the theme's palette.
#[derive(Debug, Clone, Copy, PartialEq, Eq, Structural)]
pub enum PaletteColor {
    Background,
    Text,
    Primary,
    Danger,
}

/// The colours of a button: its fill, if any, and its border.
#[derive(Debug, Clone, Copy, PartialEq, Eq, Structural)]
pub struct ButtonColors {
    pub background: Option<PaletteColor>,
    pub border: PaletteColor,
}

/// A workspace button is filled red when a window on it wants attention, in
/// the primary colour when it has the focus, in the text colour when it has
/// windows, and not at all otherwise; its border is red when urgent, in the
/// primary colour when it is focused or shown, in the text colour otherwise.
pub open spec fn spec_workspace_button(info: WorkspaceInfo) -> ButtonColors {
    ButtonColors {
        background: if info.urgent {
            Some(PaletteColor::Danger)
        } else if info.focused {
            Some(PaletteColor::Primary)
        } else if info.nonempty {
            Some(PaletteColor::Text)
        } else {
            None
        },
        border: if info.urgent {
            PaletteColor::Danger
        } else if info.focused || info.visible {
            PaletteColor::Primary
        } else {
            PaletteColor::Text
        },
    }
}

/// The colours of a workspace button.
pub fn workspace_button_colors(info: &WorkspaceInfo) -> (colors: ButtonColors)
    ensures
        colors == spec_workspace_button(*info),
{
    let background = if info.urgent {
        Some(PaletteColor::Danger)
    } else if info.focused {
        Some(PaletteColor::Primary)
    } else if info.nonempty {
        Some(PaletteColor::Text)
    } else {
        None
    };
    let border = if info.urgent {
        PaletteColor::Danger
    } else if info.focused || info.visible {
        PaletteColor::Primary
    } else {
        PaletteColor::Text
    };
    ButtonColors { background, border }
}

/// The border of a notification: red for a critical one, in the text colour
/// otherwise.
pub fn notification_border(urgency: Urgency) -> (color: PaletteColor)
    ensures
        color == (if urgency == Urgency::Critical {
            PaletteColor::Danger
        } else {
            PaletteColor::Text
        }),
{
    if urgency == Urgency::Critical {
        PaletteColor::Danger
    } else {
        PaletteColor::Text
    }
}

/// `s` right-aligned in a field of `width` characters.
pub open spec fn padded(s: Seq<char>, width: nat) -> Seq<char> {
    if s.len() < width {
        Seq::new((width - s.len()) as nat, |i: int| ' ') + s
    } else {
        s
    }
}

proof fn lemma_decimal_len(n: nat)
    ensures
        n < 10 ==> decimal(n).len() == 1,
        10 <= n < 100 ==> decimal(n).len() == 2,
        n >= 100 ==> decimal(n).len() >= 3,
    decreases n,
{
    if n >= 10 {
        lemma_decimal_len(n / 10);
    }
}

/// The charge shown beside the battery icon, as in `87%`.
pub fn charge_label(charge: u32) -> (label: String)
    ensures
        label@ == decimal(charge as nat).push('%'),
{
    let mut label = String::new();
    push_decimal(&mut label, charge as u64);
    push_char(&mut label, '%');
    label
}

/// The volume shown beside the volume icon: the percentage right-aligned in
/// three places, as in ` 45%`.
pub fn volume_label(volume: u32) -> (label: String)
    ensures
        label@ == padded(decimal(volume as nat), 3).push('%'),
{
    let mut label = String::new();
    if volume < 10 {
        push_char(&mut label, ' ');
        push_char(&mut label, ' ');
    } else if volume < 100 {
        push_char(&mut label, ' ');
    }
    let ghost prefix = label@;
    push_decimal(&mut label, volume as u64);
    push_char(&mut label, '%');
    proof {
        lemma_decimal_len(volume as nat);
        let d = decimal(volume as nat);
        if volume < 10 {
            assert(prefix =~= Seq::new(2, |i: int| ' '));
        } else if volume < 100 {
            assert(prefix =~= Seq::new(1, |i: int| ' '));
        } else {
            assert(prefix =~= Seq::<char>::empty());
        }
        assert(label@ =~= padded(d, 3).push('%'));
    }
    label
}

/// The extension of the file name of `path`, if it has one.
pub uninterp spec fn extension_of(path: Seq<char>) -> Option<Seq<char>>;

/// The extension of the file name of `path`.
///
/// Trusted: `std::path::Path::extension`, which gives the part of the file
/// name after its last `.`, if the name has a `.` that is not its first
/// character. It depends on the path alone and is named [`extension_of`].
#[verifier::external_body]
fn path_extension(path: &str) -> (ext: Option<String>)
    ensures
        match ext {
            Some(e) => extension_of(path@) == Some(e@),
            None => extension_of(path@) is None,
        },
{
    std::path::Path::new(path).extension().map(|e| e.to_string_lossy().into_owned())
}

/// Whether the icon at `path` is a vector image, drawn as SVG rather than as
/// a raster image: whether its extension is `svg`.
pub fn is_svg(path: &str) -> (svg: bool)
    ensures
        svg == (extension_of(path@) == Some(seq!['s', 'v', 'g'])),
{
    match path_extension(path) {
        Some(ext) => {
            let cs = chars_of(ext.as_str());
            let svg = cs.len() == 3 && cs[0] == 's' && cs[1] == 'v' && cs[2] == 'g';
            proof {
                if svg {
                    assert(ext@ =~= seq!['s', 'v', 'g']);
                }
            }
            svg
        },
        None => false,
    }
}

/// The height asked of the notification window for notifications that
/// measure `height` pixels (rounded up): kept between 1 and 2000.
pub fn window_height(height: u32) -> (h: u32)
    ensures
        h == (if height < 1 { 1 } else if height > 2000 { 2000 } else { height }),
{
    if height < 1 {
        1
    } else if height > 2000 {
        2000
    } else {
        height
    }
}

/// The comment shown after a desktop entry's name, in brackets.
pub fn desktop_entry_comment(comment: Option<&str>) -> (shown: Option<String>)
    ensures
        match comment {
            Some(c) => shown matches Some(s) && s@ == seq![' ', '('] + c@ + seq![')'],
            None => shown is None,
        },
{
    match comment {
        Some(c) => {
            let mut s = String::new();
            push_char(&mut s, ' ');
            push_char(&mut s, '(');
            push_str(&mut s, c);
            push_char(&mut s, ')');
            assert(s@ =~= seq![' ', '('] + c@ + seq![')']);
            Some(s)
        },
        None => None,
    }
}

/// The text shown before a file's name in the launcher: the directory it is
/// in, if any, and a `/`.
pub fn dir_entry_prefix(parent: Option<&str>) -> (prefix: String)
    ensures
        prefix@ == match parent {
            Some(p) => p@.push('/'),
            None => seq!['/'],
        },
{
    let mut s = String::new();
    match parent {
        Some(p) => push_str(&mut s, p),
        None => {},
    }
    push_char(&mut s, '/');
    proof {
        if parent is None {
            assert(s@ =~= seq!['/']);
        }
    }
    s
}

/// The rows of the launcher's list that are laid out: those up to 25 rows
/// past the selected one.
pub fn rows_to_lay_out(entries: usize, selected: usize) -> (n: usize)
    requires
        selected + 25 <= usize::MAX,
    ensures
        n == (if entries < selected + 25 { entries as int } else { selected + 25 }),
{
    if entries < selected + 25 {
        entries
    } else {
        selected + 25
    }
}

/// The colours of a row of the launcher's list: the selected row is drawn
/// inverted, with its text and vector icon in the background colour on the
/// text colour; the others in the theme's colours.
#[derive(Debug, Clone, Copy, PartialEq, Eq, Structural)]
pub struct RowColors {
    pub text: Option<PaletteColor>,
    pub background: Option<PaletteColor>,
    pub icon: Option<PaletteColor>,
}

/// The colours of row `row` when row `selected` is selected.
pub fn row_colors(row: usize, selected: usize) -> (colors: RowColors)
    ensures
        row == selected ==> colors == (RowColors {
            text: Some(PaletteColor::Background),
            background: Some(PaletteColor::Text),
            icon: Some(PaletteColor::Background),
        }),
        row != selected ==> colors == (RowColors { text: None, background: None, icon: None }),
{
    if row == selected {
        RowColors {
            text: Some(PaletteColor::Background),
            background: Some(PaletteColor::Text),
            icon: Some(PaletteColor::Background),
        }
    } else {
        RowColors { text: None, background: None, icon: None }
    }
}

} // verus!
