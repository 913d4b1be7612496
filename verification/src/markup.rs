//! The body markup of desktop notifications: a small subset of HTML
//! (`<b>`, `<i>`, `<u>`, `<a href="...">`, `<img src="..." alt="..."/>`)
//! parsed into a tree, then flattened into styled text spans and images.
//!
//! The grammar is incremental: a construct that runs into the end of its
//! input before it can be recognised reports that more input is needed
//! (`Incomplete`) and stops the whole parse, while a construct that does not
//! match (`Mismatch`) lets the next alternative be tried.

use vstd::prelude::*;
use crate::text::{find_in, lemma_find_in, matches_at, string_of, find_exec, chars_of};

verus! {

// ---------------------------------------------------------------------------
// Parsed markup
// ---------------------------------------------------------------------------

/// A node of parsed markup.
#[derive(Debug, PartialEq, Eq)]
pub enum MarkupTag {
    Bold(Vec<MarkupTag>),
    Italic(Vec<MarkupTag>),
    Underline(Vec<MarkupTag>),
    Hyperlink { href: String, children: Vec<MarkupTag> },
    Image { src: String, alt: String },
    Text(String),
}

/// The mathematical value of a [`MarkupTag`].
pub enum Markup {
    Bold(Seq<Markup>),
    Italic(Seq<Markup>),
    Underline(Seq<Markup>),
    Hyperlink { href: Seq<char>, children: Seq<Markup> },
    Image { src: Seq<char>, alt: Seq<char> },
    Text(Seq<char>),
}

pub open spec fn tag_view(t: MarkupTag) -> Markup
    decreases t,
{
    match t {
        MarkupTag::Bold(c) => Markup::Bold(tags_view(c@)),
        MarkupTag::Italic(c) => Markup::Italic(tags_view(c@)),
        MarkupTag::Underline(c) => Markup::Underline(tags_view(c@)),
        MarkupTag::Hyperlink { href, children } => Markup::Hyperlink {
            href: href@,
            children: tags_view(children@),
        },
        MarkupTag::Image { src, alt } => Markup::Image { src: src@, alt: alt@ },
        MarkupTag::Text(t) => Markup::Text(t@),
    }
}

pub open spec fn tags_view(ts: Seq<MarkupTag>) -> Seq<Markup>
    decreases ts,
{
    if ts.len() == 0 {
        Seq::empty()
    } else {
        seq![tag_view(ts[0])] + tags_view(ts.drop_first())
    }
}

impl View for MarkupTag {
    type V = Markup;

    open spec fn view(&self) -> Markup {
        tag_view(*self)
    }
}

// ---------------------------------------------------------------------------
// The grammar
// ---------------------------------------------------------------------------

/// The outcome of recognising a construct that starts at some index of the
/// input: its value and the index just past it, or why it was not recognised.
pub enum Scan<T> {
    Parsed(T, int),
    /// The input does not hold the construct here.
    Mismatch,
    /// The input ends before the construct could be recognised.
    Incomplete,
}

/// The executable counterpart of [`Scan`].
pub enum Step<T> {
    Parsed(T, usize),
    Mismatch,
    Incomplete,
}

impl<T: View> View for Step<T> {
    type V = Scan<T::V>;

    open spec fn view(&self) -> Scan<T::V> {
        match self {
            Step::Parsed(v, e) => Scan::Parsed(v@, *e as int),
            Step::Mismatch => Scan::Mismatch,
            Step::Incomplete => Scan::Incomplete,
        }
    }
}

/// Whitespace as the markup grammar skips it.
pub open spec fn is_space(c: char) -> bool {
    c == ' ' || c == '\t' || c == '\r' || c == '\n'
}

/// The index of the first non-whitespace character at or after `i`, or `hi`.
pub open spec fn ws_end(s: Seq<char>, i: int, hi: int) -> int
    decreases hi - i,
{
    if 0 <= i < hi && i < s.len() && is_space(s[i]) {
        ws_end(s, i + 1, hi)
    } else {
        i
    }
}

/// The literal `p` at index `i` of the window `s[..hi]`: present, absent, or
/// cut short by the end of the window.
pub open spec fn lit_scan(s: Seq<char>, p: Seq<char>, i: int, hi: int) -> Scan<()> {
    if hi - i >= p.len() {
        if s.subrange(i, i + p.len()) == p {
            Scan::Parsed((), i + p.len())
        } else {
            Scan::Mismatch
        }
    } else if s.subrange(i, hi) == p.subrange(0, hi - i) {
        Scan::Incomplete
    } else {
        Scan::Mismatch
    }
}

/// Everything from `i` up to the first occurrence of `p` in the window
/// (possibly nothing); the end of the scan is that occurrence.
pub open spec fn until_scan(s: Seq<char>, p: Seq<char>, i: int, hi: int) -> Scan<()> {
    match find_in(s, p, i, hi) {
        Some(k) => Scan::Parsed((), k),
        None => Scan::Incomplete,
    }
}

/// As [`until_scan`], but at least one character must come before `p`.
pub open spec fn until1_scan(s: Seq<char>, p: Seq<char>, i: int, hi: int) -> Scan<()> {
    match find_in(s, p, i, hi) {
        Some(k) => if k == i {
            Scan::Mismatch
        } else {
            Scan::Parsed((), k)
        },
        None => Scan::Incomplete,
    }
}

pub open spec fn lit_img() -> Seq<char> {
    seq!['<', 'i', 'm', 'g']
}

pub open spec fn lit_img_end() -> Seq<char> {
    seq!['/', '>']
}

pub open spec fn lit_link() -> Seq<char> {
    seq!['<', 'a']
}

pub open spec fn lit_link_end() -> Seq<char> {
    seq!['<', '/', 'a', '>']
}

pub open spec fn lit_src() -> Seq<char> {
    seq!['s', 'r', 'c']
}

pub open spec fn lit_alt() -> Seq<char> {
    seq!['a', 'l', 't']
}

pub open spec fn lit_href() -> Seq<char> {
    seq!['h', 'r', 'e', 'f']
}

pub open spec fn lit_close_open() -> Seq<char> {
    seq!['<', '/']
}

/// An attribute `name = "value"`, with whitespace allowed around every part;
/// the value holds at least one character and no quote.
pub open spec fn field_scan(s: Seq<char>, name: Seq<char>, i: int, hi: int) -> Scan<Seq<char>> {
    let a = ws_end(s, i, hi);
    match lit_scan(s, name, a, hi) {
        Scan::Parsed(_, a1) => {
            let b = ws_end(s, a1, hi);
            match lit_scan(s, seq!['='], b, hi) {
                Scan::Parsed(_, b1) => {
                    let c = ws_end(s, b1, hi);
                    match lit_scan(s, seq!['"'], c, hi) {
                        Scan::Parsed(_, c1) => match until1_scan(s, seq!['"'], c1, hi) {
                            Scan::Parsed(_, d) => Scan::Parsed(
                                s.subrange(c1, d),
                                ws_end(s, d + 1, hi),
                            ),
                            Scan::Mismatch => Scan::Mismatch,
                            Scan::Incomplete => Scan::Incomplete,
                        },
                        Scan::Mismatch => Scan::Mismatch,
                        Scan::Incomplete => Scan::Incomplete,
                    }
                },
                Scan::Mismatch => Scan::Mismatch,
                Scan::Incomplete => Scan::Incomplete,
            }
        },
        Scan::Mismatch => Scan::Mismatch,
        Scan::Incomplete => Scan::Incomplete,
    }
}

/// Field `n2` after field `n1`; the values in the order `(n1, n2)`.
pub open spec fn field_pair_scan(
    s: Seq<char>,
    n1: Seq<char>,
    n2: Seq<char>,
    i: int,
    hi: int,
) -> Scan<(Seq<char>, Seq<char>)> {
    match field_scan(s, n1, i, hi) {
        Scan::Parsed(v1, p1) => match field_scan(s, n2, p1, hi) {
            Scan::Parsed(v2, p2) => Scan::Parsed((v1, v2), p2),
            Scan::Mismatch => Scan::Mismatch,
            Scan::Incomplete => Scan::Incomplete,
        },
        Scan::Mismatch => Scan::Mismatch,
        Scan::Incomplete => Scan::Incomplete,
    }
}

/// The `src` and `alt` attributes of an image, in either order; the values in
/// the order `(src, alt)`.
pub open spec fn image_attrs_scan(s: Seq<char>, i: int, hi: int) -> Scan<(Seq<char>, Seq<char>)> {
    match field_scan(s, lit_src(), i, hi) {
        Scan::Parsed(_, _) => field_pair_scan(s, lit_src(), lit_alt(), i, hi),
        Scan::Mismatch => match field_pair_scan(s, lit_alt(), lit_src(), i, hi) {
            Scan::Parsed(v, e) => Scan::Parsed((v.1, v.0), e),
            Scan::Mismatch => Scan::Mismatch,
            Scan::Incomplete => Scan::Incomplete,
        },
        Scan::Incomplete => Scan::Incomplete,
    }
}

/// `<img src="..." alt="..."/>`
pub open spec fn image_scan(s: Seq<char>, i: int, hi: int) -> Scan<Markup> {
    match lit_scan(s, lit_img(), i, hi) {
        Scan::Parsed(_, p) => match image_attrs_scan(s, p, hi) {
            Scan::Parsed(v, q) => match lit_scan(s, lit_img_end(), q, hi) {
                Scan::Parsed(_, r) => Scan::Parsed(Markup::Image { src: v.0, alt: v.1 }, r),
                Scan::Mismatch => Scan::Mismatch,
                Scan::Incomplete => Scan::Incomplete,
            },
            Scan::Mismatch => Scan::Mismatch,
            Scan::Incomplete => Scan::Incomplete,
        },
        Scan::Mismatch => Scan::Mismatch,
        Scan::Incomplete => Scan::Incomplete,
    }
}

/// `<a href="...">children</a>`; the children end at the first `</a>`.
pub open spec fn hyperlink_scan(s: Seq<char>, i: int, hi: int) -> Scan<Markup>
    decreases hi - i, 0int,
{
    match lit_scan(s, lit_link(), i, hi) {
        Scan::Parsed(_, p) => match field_scan(s, lit_href(), p, hi) {
            Scan::Parsed(href, q) => match lit_scan(s, seq!['>'], q, hi) {
                Scan::Parsed(_, r) => match until_scan(s, lit_link_end(), r, hi) {
                    Scan::Parsed(_, m) => if i < r <= m && m <= hi {
                        match markup_scan(s, r, m) {
                            Scan::Parsed(children, _) => Scan::Parsed(
                                Markup::Hyperlink { href, children },
                                m + 4,
                            ),
                            Scan::Mismatch => Scan::Mismatch,
                            Scan::Incomplete => Scan::Incomplete,
                        }
                    } else {
                        Scan::Mismatch
                    },
                    Scan::Mismatch => Scan::Mismatch,
                    Scan::Incomplete => Scan::Incomplete,
                },
                Scan::Mismatch => Scan::Mismatch,
                Scan::Incomplete => Scan::Incomplete,
            },
            Scan::Mismatch => Scan::Mismatch,
            Scan::Incomplete => Scan::Incomplete,
        },
        Scan::Mismatch => Scan::Mismatch,
        Scan::Incomplete => Scan::Incomplete,
    }
}

/// The node a tag named `name` stands for: bold, underline or italic by the
/// tag's first letter, and for any other tag the raw text between the tags.
pub open spec fn tag_node(name: Seq<char>, children: Seq<Markup>, contents: Seq<char>) -> Markup {
    if name[0] == 'b' {
        Markup::Bold(children)
    } else if name[0] == 'u' {
        Markup::Underline(children)
    } else if name[0] == 'i' {
        Markup::Italic(children)
    } else {
        Markup::Text(contents)
    }
}

/// `<name>contents</name...>`: the contents end at the first `</name`, and the
/// closing tag runs to the next `>`.
pub open spec fn tag_scan(s: Seq<char>, i: int, hi: int) -> Scan<Markup>
    decreases hi - i, 0int,
{
    match lit_scan(s, seq!['<'], i, hi) {
        Scan::Parsed(_, a) => match until1_scan(s, seq!['>'], a, hi) {
            Scan::Parsed(_, k) => {
                let name = s.subrange(a, k);
                match until_scan(s, lit_close_open() + name, k + 1, hi) {
                    Scan::Parsed(_, m) => match until_scan(s, seq!['>'], m + 2, hi) {
                        Scan::Parsed(_, q) => if i < k + 1 <= m && m <= hi {
                            match markup_scan(s, k + 1, m) {
                                Scan::Parsed(children, _) => Scan::Parsed(
                                    tag_node(name, children, s.subrange(k + 1, m)),
                                    q + 1,
                                ),
                                Scan::Mismatch => Scan::Mismatch,
                                Scan::Incomplete => Scan::Incomplete,
                            }
                        } else {
                            Scan::Mismatch
                        },
                        Scan::Mismatch => Scan::Mismatch,
                        Scan::Incomplete => Scan::Incomplete,
                    },
                    Scan::Mismatch => Scan::Mismatch,
                    Scan::Incomplete => Scan::Incomplete,
                }
            },
            Scan::Mismatch => Scan::Mismatch,
            Scan::Incomplete => Scan::Incomplete,
        },
        Scan::Mismatch => Scan::Mismatch,
        Scan::Incomplete => Scan::Incomplete,
    }
}

/// Plain text up to the next `<`, or to the end of the window if there is none.
pub open spec fn text_scan(s: Seq<char>, i: int, hi: int) -> Scan<Markup> {
    match find_in(s, seq!['<'], i, hi) {
        Some(k) => Scan::Parsed(Markup::Text(s.subrange(i, k)), k),
        None => Scan::Parsed(Markup::Text(s.subrange(i, hi)), hi),
    }
}

/// One node: an image, a hyperlink, a tag, or text, the first that matches.
pub open spec fn element_scan(s: Seq<char>, i: int, hi: int) -> Scan<Markup>
    decreases hi - i, 1int,
{
    match image_scan(s, i, hi) {
        Scan::Mismatch => match hyperlink_scan(s, i, hi) {
            Scan::Mismatch => match tag_scan(s, i, hi) {
                Scan::Mismatch => text_scan(s, i, hi),
                other => other,
            },
            other => other,
        },
        other => other,
    }
}

/// The nodes of the whole window `s[lo..hi]`, one after another; a node that
/// takes up no input stops the parse.
pub open spec fn markup_scan(s: Seq<char>, lo: int, hi: int) -> Scan<Seq<Markup>>
    decreases hi - lo, 2int,
{
    if lo >= hi {
        Scan::Parsed(Seq::empty(), hi)
    } else {
        match element_scan(s, lo, hi) {
            Scan::Parsed(t, e) => if lo < e <= hi {
                match markup_scan(s, e, hi) {
                    Scan::Parsed(rest, _) => Scan::Parsed(seq![t] + rest, hi),
                    Scan::Mismatch => Scan::Mismatch,
                    Scan::Incomplete => Scan::Incomplete,
                }
            } else {
                Scan::Mismatch
            },
            Scan::Mismatch => Scan::Mismatch,
            Scan::Incomplete => Scan::Incomplete,
        }
    }
}

/// The markup that a whole text parses to, if it parses.
pub open spec fn spec_parse_markup(s: Seq<char>) -> Option<Seq<Markup>> {
    match markup_scan(s, 0, s.len() as int) {
        Scan::Parsed(tags, _) => Some(tags),
        _ => None,
    }
}

// ---------------------------------------------------------------------------
// Recognisers
// ---------------------------------------------------------------------------

fn ws_exec(s: &Vec<char>, i: usize, hi: usize) -> (r: usize)
    requires
        i <= hi <= s.len(),
    ensures
        r as int == ws_end(s@, i as int, hi as int),
        i <= r <= hi,
{
    let mut k = i;
    while k < hi && (s[k] == ' ' || s[k] == '\t' || s[k] == '\r' || s[k] == '\n')
        invariant
            i <= k <= hi <= s.len(),
            ws_end(s@, i as int, hi as int) == ws_end(s@, k as int, hi as int),
        decreases hi - k,
    {
        k = k + 1;
    }
    k
}

fn lit_exec(s: &Vec<char>, p: &Vec<char>, i: usize, hi: usize) -> (r: Step<()>)
    requires
        i <= hi <= s.len(),
    ensures
        r@ == lit_scan(s@, p@, i as int, hi as int),
        r matches Step::Parsed(_, e) ==> e == i + p.len(),
{
    let avail = hi - i;
    let n = if p.len() <= avail { p.len() } else { avail };
    let mut k: usize = 0;
    while k < n
        invariant
            avail == hi - i,
            n == (if p.len() <= avail { p.len() } else { avail }),
            i <= hi <= s.len(),
            k <= n,
            s@.subrange(i as int, i + k) == p@.subrange(0, k as int),
        decreases n - k,
    {
        if s[i + k] != p[k] {
            proof {
                if p.len() <= avail {
                    assert(s@.subrange(i as int, i + p.len())[k as int] != p@[k as int]);
                } else {
                    assert(s@.subrange(i as int, hi as int)[k as int] != p@.subrange(0, hi - i)[k as int]);
                }
            }
            return Step::Mismatch;
        }
        k = k + 1;
        assert(s@.subrange(i as int, i + k) =~= p@.subrange(0, k as int));
    }
    if p.len() <= avail {
        assert(p@.subrange(0, p.len() as int) =~= p@);
        Step::Parsed((), i + p.len())
    } else {
        Step::Incomplete
    }
}

fn until_exec(s: &Vec<char>, p: &Vec<char>, i: usize, hi: usize) -> (r: Step<()>)
    requires
        i <= hi <= s.len(),
    ensures
        r@ == until_scan(s@, p@, i as int, hi as int),
        r matches Step::Parsed(_, k) ==> i <= k && k + p.len() <= hi && matches_at(s@, p@, k as int),
{
    proof {
        lemma_find_in(s@, p@, i as int, hi as int);
    }
    match find_exec(s, p, i, hi) {
        Some(k) => Step::Parsed((), k),
        None => Step::Incomplete,
    }
}

fn until1_exec(s: &Vec<char>, p: &Vec<char>, i: usize, hi: usize) -> (r: Step<()>)
    requires
        i <= hi <= s.len(),
    ensures
        r@ == until1_scan(s@, p@, i as int, hi as int),
        r matches Step::Parsed(_, k) ==> i < k && k + p.len() <= hi && matches_at(s@, p@, k as int),
{
    proof {
        lemma_find_in(s@, p@, i as int, hi as int);
    }
    match find_exec(s, p, i, hi) {
        Some(k) => if k == i {
            Step::Mismatch
        } else {
            Step::Parsed((), k)
        },
        None => Step::Incomplete,
    }
}

fn field_exec(s: &Vec<char>, name: &Vec<char>, i: usize, hi: usize) -> (r: Step<String>)
    requires
        i <= hi <= s.len(),
    ensures
        r@ == field_scan(s@, name@, i as int, hi as int),
        r matches Step::Parsed(_, e) ==> i < e <= hi,
{
    let eq: Vec<char> = vec!['='];
    let quote: Vec<char> = vec!['"'];
    assert(eq@ == seq!['=']);
    assert(quote@ == seq!['"']);
    let a = ws_exec(s, i, hi);
    match lit_exec(s, name, a, hi) {
        Step::Parsed(_, a1) => {
            let b = ws_exec(s, a1, hi);
            match lit_exec(s, &eq, b, hi) {
                Step::Parsed(_, b1) => {
                    let c = ws_exec(s, b1, hi);
                    match lit_exec(s, &quote, c, hi) {
                        Step::Parsed(_, c1) => match until1_exec(s, &quote, c1, hi) {
                            Step::Parsed(_, d) => {
                                let value = string_of(s, c1, d);
                                let e = ws_exec(s, d + 1, hi);
                                Step::Parsed(value, e)
                            },
                            Step::Mismatch => Step::Mismatch,
                            Step::Incomplete => Step::Incomplete,
                        },
                        Step::Mismatch => Step::Mismatch,
                        Step::Incomplete => Step::Incomplete,
                    }
                },
                Step::Mismatch => Step::Mismatch,
                Step::Incomplete => Step::Incomplete,
            }
        },
        Step::Mismatch => Step::Mismatch,
        Step::Incomplete => Step::Incomplete,
    }
}

fn field_pair_exec(
    s: &Vec<char>,
    n1: &Vec<char>,
    n2: &Vec<char>,
    i: usize,
    hi: usize,
) -> (r: Step<(String, String)>)
    requires
        i <= hi <= s.len(),
    ensures
        r@ == field_pair_scan(s@, n1@, n2@, i as int, hi as int),
        r matches Step::Parsed(_, e) ==> i < e <= hi,
{
    match field_exec(s, n1, i, hi) {
        Step::Parsed(v1, p1) => match field_exec(s, n2, p1, hi) {
            Step::Parsed(v2, p2) => Step::Parsed((v1, v2), p2),
            Step::Mismatch => Step::Mismatch,
            Step::Incomplete => Step::Incomplete,
        },
        Step::Mismatch => Step::Mismatch,
        Step::Incomplete => Step::Incomplete,
    }
}

fn image_attrs_exec(s: &Vec<char>, i: usize, hi: usize) -> (r: Step<(String, String)>)
    requires
        i <= hi <= s.len(),
    ensures
        r@ == image_attrs_scan(s@, i as int, hi as int),
        r matches Step::Parsed(_, e) ==> i < e <= hi,
{
    let src: Vec<char> = vec!['s', 'r', 'c'];
    let alt: Vec<char> = vec!['a', 'l', 't'];
    assert(src@ == lit_src());
    assert(alt@ == lit_alt());
    match field_exec(s, &src, i, hi) {
        Step::Parsed(_, _) => field_pair_exec(s, &src, &alt, i, hi),
        Step::Mismatch => match field_pair_exec(s, &alt, &src, i, hi) {
            Step::Parsed(v, e) => Step::Parsed((v.1, v.0), e),
            Step::Mismatch => Step::Mismatch,
            Step::Incomplete => Step::Incomplete,
        },
        Step::Incomplete => Step::Incomplete,
    }
}

fn image_exec(s: &Vec<char>, i: usize, hi: usize) -> (r: Step<MarkupTag>)
    requires
        i <= hi <= s.len(),
    ensures
        r@ == image_scan(s@, i as int, hi as int),
        r matches Step::Parsed(_, e) ==> i < e <= hi,
{
    let open: Vec<char> = vec!['<', 'i', 'm', 'g'];
    let close: Vec<char> = vec!['/', '>'];
    assert(open@ == lit_img());
    assert(close@ == lit_img_end());
    match lit_exec(s, &open, i, hi) {
        Step::Parsed(_, p) => match image_attrs_exec(s, p, hi) {
            Step::Parsed(v, q) => match lit_exec(s, &close, q, hi) {
                Step::Parsed(_, r) => Step::Parsed(MarkupTag::Image { src: v.0, alt: v.1 }, r),
                Step::Mismatch => Step::Mismatch,
                Step::Incomplete => Step::Incomplete,
            },
            Step::Mismatch => Step::Mismatch,
            Step::Incomplete => Step::Incomplete,
        },
        Step::Mismatch => Step::Mismatch,
        Step::Incomplete => Step::Incomplete,
    }
}

proof fn lemma_tags_view_len(ts: Seq<MarkupTag>)
    ensures
        tags_view(ts).len() == ts.len(),
    decreases ts.len(),
{
    if ts.len() > 0 {
        lemma_tags_view_len(ts.drop_first());
    }
}

proof fn lemma_tags_view_push(ts: Seq<MarkupTag>, t: MarkupTag)
    ensures
        tags_view(ts.push(t)) == tags_view(ts).push(tag_view(t)),
    decreases ts.len(),
{
    if ts.len() == 0 {
        assert(ts.push(t).drop_first() =~= Seq::<MarkupTag>::empty());
        assert(tags_view(ts.push(t).drop_first()) == Seq::<Markup>::empty());
        assert(ts.push(t)[0] == t);
        assert(tags_view(ts.push(t)) =~= seq![tag_view(t)]);
        assert(tags_view(ts) == Seq::<Markup>::empty());
    } else {
        lemma_tags_view_push(ts.drop_first(), t);
        assert(ts.push(t).drop_first() =~= ts.drop_first().push(t));
        assert(tags_view(ts.push(t)) =~= tags_view(ts).push(tag_view(t)));
    }
}

/// The parse of a whole window, with the nodes already parsed placed in front.
pub open spec fn after_nodes(done: Seq<Markup>, rest: Scan<Seq<Markup>>) -> Scan<Seq<Markup>> {
    match rest {
        Scan::Parsed(r, e) => Scan::Parsed(done + r, e),
        Scan::Mismatch => Scan::Mismatch,
        Scan::Incomplete => Scan::Incomplete,
    }
}

/// The view of a parse of a sequence of nodes.
pub open spec fn nodes_view(r: Step<Vec<MarkupTag>>) -> Scan<Seq<Markup>> {
    match r {
        Step::Parsed(v, e) => Scan::Parsed(tags_view(v@), e as int),
        Step::Mismatch => Scan::Mismatch,
        Step::Incomplete => Scan::Incomplete,
    }
}

fn text_exec(s: &Vec<char>, i: usize, hi: usize) -> (r: Step<MarkupTag>)
    requires
        i <= hi <= s.len(),
    ensures
        r@ == text_scan(s@, i as int, hi as int),
        r matches Step::Parsed(_, e) ==> i <= e <= hi,
{
    let lt: Vec<char> = vec!['<'];
    assert(lt@ == seq!['<']);
    proof {
        lemma_find_in(s@, lt@, i as int, hi as int);
    }
    match find_exec(s, &lt, i, hi) {
        Some(k) => Step::Parsed(MarkupTag::Text(string_of(s, i, k)), k),
        None => Step::Parsed(MarkupTag::Text(string_of(s, i, hi)), hi),
    }
}

fn hyperlink_exec(s: &Vec<char>, i: usize, hi: usize) -> (r: Step<MarkupTag>)
    requires
        i <= hi <= s.len(),
    ensures
        r@ == hyperlink_scan(s@, i as int, hi as int),
        r matches Step::Parsed(_, e) ==> i < e <= hi,
    decreases hi - i, 0usize,
{
    let open: Vec<char> = vec!['<', 'a'];
    let href: Vec<char> = vec!['h', 'r', 'e', 'f'];
    let gt: Vec<char> = vec!['>'];
    let end: Vec<char> = vec!['<', '/', 'a', '>'];
    assert(open@ == lit_link());
    assert(href@ == lit_href());
    assert(gt@ == seq!['>']);
    assert(end@ == lit_link_end());
    match lit_exec(s, &open, i, hi) {
        Step::Parsed(_, p) => match field_exec(s, &href, p, hi) {
            Step::Parsed(h, q) => match lit_exec(s, &gt, q, hi) {
                Step::Parsed(_, r) => match until_exec(s, &end, r, hi) {
                    Step::Parsed(_, m) => if i < r && r <= m && m <= hi {
                        match markup_exec(s, r, m) {
                            Step::Parsed(children, _) => Step::Parsed(
                                MarkupTag::Hyperlink { href: h, children },
                                m + 4,
                            ),
                            Step::Mismatch => Step::Mismatch,
                            Step::Incomplete => Step::Incomplete,
                        }
                    } else {
                        Step::Mismatch
                    },
                    Step::Mismatch => Step::Mismatch,
                    Step::Incomplete => Step::Incomplete,
                },
                Step::Mismatch => Step::Mismatch,
                Step::Incomplete => Step::Incomplete,
            },
            Step::Mismatch => Step::Mismatch,
            Step::Incomplete => Step::Incomplete,
        },
        Step::Mismatch => Step::Mismatch,
        Step::Incomplete => Step::Incomplete,
    }
}

fn tag_exec(s: &Vec<char>, i: usize, hi: usize) -> (r: Step<MarkupTag>)
    requires
        i <= hi <= s.len(),
    ensures
        r@ == tag_scan(s@, i as int, hi as int),
        r matches Step::Parsed(_, e) ==> i < e <= hi,
    decreases hi - i, 0usize,
{
    let lt: Vec<char> = vec!['<'];
    let gt: Vec<char> = vec!['>'];
    assert(lt@ == seq!['<']);
    assert(gt@ == seq!['>']);
    match lit_exec(s, &lt, i, hi) {
        Step::Parsed(_, a) => match until1_exec(s, &gt, a, hi) {
            Step::Parsed(_, k) => {
                let mut end: Vec<char> = vec!['<', '/'];
                let mut j = a;
                while j < k
                    invariant
                        a <= j <= k <= s.len(),
                        end@ == lit_close_open() + s@.subrange(a as int, j as int),
                    decreases k - j,
                {
                    end.push(s[j]);
                    j = j + 1;
                    assert(end@ =~= lit_close_open() + s@.subrange(a as int, j as int));
                }
                match until_exec(s, &end, k + 1, hi) {
                    Step::Parsed(_, m) => match until_exec(s, &gt, m + 2, hi) {
                        Step::Parsed(_, q) => if i < k + 1 && k + 1 <= m && m <= hi {
                            match markup_exec(s, k + 1, m) {
                                Step::Parsed(children, _) => {
                                    let first = s[a];
                                    let node = if first == 'b' {
                                        MarkupTag::Bold(children)
                                    } else if first == 'u' {
                                        MarkupTag::Underline(children)
                                    } else if first == 'i' {
                                        MarkupTag::Italic(children)
                                    } else {
                                        MarkupTag::Text(string_of(s, k + 1, m))
                                    };
                                    Step::Parsed(node, q + 1)
                                },
                                Step::Mismatch => Step::Mismatch,
                                Step::Incomplete => Step::Incomplete,
                            }
                        } else {
                            Step::Mismatch
                        },
                        Step::Mismatch => Step::Mismatch,
                        Step::Incomplete => Step::Incomplete,
                    },
                    Step::Mismatch => Step::Mismatch,
                    Step::Incomplete => Step::Incomplete,
                }
            },
            Step::Mismatch => Step::Mismatch,
            Step::Incomplete => Step::Incomplete,
        },
        Step::Mismatch => Step::Mismatch,
        Step::Incomplete => Step::Incomplete,
    }
}

fn element_exec(s: &Vec<char>, i: usize, hi: usize) -> (r: Step<MarkupTag>)
    requires
        i <= hi <= s.len(),
    ensures
        r@ == element_scan(s@, i as int, hi as int),
    decreases hi - i, 1usize,
{
    match image_exec(s, i, hi) {
        Step::Mismatch => match hyperlink_exec(s, i, hi) {
            Step::Mismatch => match tag_exec(s, i, hi) {
                Step::Mismatch => text_exec(s, i, hi),
                other => other,
            },
            other => other,
        },
        other => other,
    }
}

fn markup_exec(s: &Vec<char>, lo: usize, hi: usize) -> (r: Step<Vec<MarkupTag>>)
    requires
        lo <= hi <= s.len(),
    ensures
        nodes_view(r) == markup_scan(s@, lo as int, hi as int),
    decreases hi - lo, 2usize,
{
    let mut tags: Vec<MarkupTag> = Vec::new();
    let mut pos = lo;
    while pos < hi
        invariant
            lo <= pos <= hi <= s.len(),
            markup_scan(s@, lo as int, hi as int) == after_nodes(
                tags_view(tags@),
                markup_scan(s@, pos as int, hi as int),
            ),
        decreases hi - pos,
    {
        match element_exec(s, pos, hi) {
            Step::Parsed(t, e) => {
                if !(pos < e && e <= hi) {
                    return Step::Mismatch;
                }
                proof {
                    lemma_tags_view_push(tags@, t);
                    assert(tags_view(tags@.push(t)) =~= tags_view(tags@) + seq![tag_view(t)]);
                }
                let ghost old_tags = tags@;
                tags.push(t);
                pos = e;
                proof {
                    let sc = markup_scan(s@, pos as int, hi as int);
                    match sc {
                        Scan::Parsed(r, e2) => {
                            assert(tags_view(old_tags) + (seq![tag_view(t)] + r) =~= tags_view(
                                tags@,
                            ) + r);
                        },
                        _ => {},
                    }
                }
            },
            Step::Mismatch => {
                return Step::Mismatch;
            },
            Step::Incomplete => {
                return Step::Incomplete;
            },
        }
    }
    assert(tags_view(tags@) + Seq::<Markup>::empty() =~= tags_view(tags@));
    Step::Parsed(tags, hi)
}

/// Why a text is not valid markup.
#[derive(Debug, Clone, Copy, PartialEq, Eq)]
pub enum MarkupError {
    /// Some part of the text is neither markup nor plain text.
    Mismatch,
    /// The text ends inside a construct that is not finished.
    Incomplete,
}

/// Parses a whole text into markup. On success the remainder is always empty.
pub fn parse_markup(input: &str) -> (r: Result<(&'static str, Vec<MarkupTag>), MarkupError>)
    ensures
        match (r, markup_scan(input@, 0, input@.len() as int)) {
            (Ok((rem, tags)), Scan::Parsed(t, _)) => rem@ == Seq::<char>::empty() && tags_view(tags@) == t,
            (Err(MarkupError::Mismatch), Scan::Mismatch) => true,
            (Err(MarkupError::Incomplete), Scan::Incomplete) => true,
            _ => false,
        },
{
    let chars = chars_of(input);
    match markup_exec(&chars, 0, chars.len()) {
        Step::Parsed(tags, _) => {
            let rem = "";
            proof {
                reveal_strlit("");
            }
            Ok((rem, tags))
        },
        Step::Mismatch => Err(MarkupError::Mismatch),
        Step::Incomplete => Err(MarkupError::Incomplete),
    }
}

// ---------------------------------------------------------------------------
// Styled text
// ---------------------------------------------------------------------------

#[derive(Copy, Clone, Debug, PartialEq, Eq)]
pub struct RichTextSpanStyle {
    pub bold: bool,
    pub italic: bool,
    pub underline: bool,
}

/// Text in one style.
#[derive(Clone, Debug, PartialEq, Eq)]
pub struct RichTextSpan {
    pub style: RichTextSpanStyle,
    pub text: String,
}

/// The mathematical value of a [`RichTextSpan`].
pub struct Span {
    pub style: RichTextSpanStyle,
    pub text: Seq<char>,
}

impl View for RichTextSpan {
    type V = Span;

    open spec fn view(&self) -> Span {
        Span { style: self.style, text: self.text@ }
    }
}

/// A piece of a body before runs of text are grouped: a span or an image.
#[derive(Clone, Debug, PartialEq, Eq)]
pub enum UngroupedBodyElement {
    Span(RichTextSpan),
    Image { src: String, alt: String },
}

/// The mathematical value of an [`UngroupedBodyElement`].
pub enum Piece {
    Span(Span),
    Image { src: Seq<char>, alt: Seq<char> },
}

impl View for UngroupedBodyElement {
    type V = Piece;

    open spec fn view(&self) -> Piece {
        match self {
            UngroupedBodyElement::Span(sp) => Piece::Span(sp@),
            UngroupedBodyElement::Image { src, alt } => Piece::Image { src: src@, alt: alt@ },
        }
    }
}

/// A block of a notification body: a paragraph of styled text, or an image.
#[derive(Clone, Debug, PartialEq, Eq)]
pub enum BodyElement {
    RichText(Vec<RichTextSpan>),
    Image { src: String, alt: String },
}

/// The mathematical value of a [`BodyElement`].
pub enum Block {
    RichText(Seq<Span>),
    Image { src: Seq<char>, alt: Seq<char> },
}

pub open spec fn spans_view(v: Seq<RichTextSpan>) -> Seq<Span> {
    v.map_values(|sp: RichTextSpan| sp@)
}

pub open spec fn pieces_view(v: Seq<UngroupedBodyElement>) -> Seq<Piece> {
    v.map_values(|e: UngroupedBodyElement| e@)
}

impl View for BodyElement {
    type V = Block;

    open spec fn view(&self) -> Block {
        match self {
            BodyElement::RichText(spans) => Block::RichText(spans_view(spans@)),
            BodyElement::Image { src, alt } => Block::Image { src: src@, alt: alt@ },
        }
    }
}

pub open spec fn blocks_view(v: Seq<BodyElement>) -> Seq<Block> {
    v.map_values(|b: BodyElement| b@)
}

/// No bold, no italic, no underline.
pub open spec fn plain_style() -> RichTextSpanStyle {
    RichTextSpanStyle { bold: false, italic: false, underline: false }
}

/// The pieces of a sequence of nodes drawn in `style`, in order.
pub open spec fn flatten_nodes(tree: Seq<Markup>, style: RichTextSpanStyle) -> Seq<Piece>
    decreases tree,
{
    if tree.len() == 0 {
        Seq::empty()
    } else {
        flatten_nodes(tree.drop_last(), style) + flatten_node(tree.last(), style)
    }
}

/// The pieces of one node drawn in `style`: bold, italic and underline add
/// their style to that of their children; a hyperlink keeps it.
pub open spec fn flatten_node(t: Markup, style: RichTextSpanStyle) -> Seq<Piece>
    decreases t,
{
    match t {
        Markup::Text(text) => seq![Piece::Span(Span { style, text })],
        Markup::Bold(c) => flatten_nodes(c, RichTextSpanStyle { bold: true, ..style }),
        Markup::Italic(c) => flatten_nodes(c, RichTextSpanStyle { italic: true, ..style }),
        Markup::Underline(c) => flatten_nodes(c, RichTextSpanStyle { underline: true, ..style }),
        Markup::Hyperlink { href: _, children } => flatten_nodes(children, style),
        Markup::Image { src, alt } => seq![Piece::Image { src, alt }],
    }
}

proof fn lemma_tags_view_index(ts: Seq<MarkupTag>, i: int)
    requires
        0 <= i < ts.len(),
    ensures
        tags_view(ts).len() == ts.len(),
        tags_view(ts)[i] == tag_view(ts[i]),
    decreases ts.len(),
{
    lemma_tags_view_len(ts);
    if i > 0 {
        lemma_tags_view_index(ts.drop_first(), i - 1);
    }
}

fn flatten_from(tree: &Vec<MarkupTag>, style: RichTextSpanStyle) -> (r: Vec<UngroupedBodyElement>)
    ensures
        pieces_view(r@) == flatten_nodes(tags_view(tree@), style),
    decreases tree,
{
    let mut out: Vec<UngroupedBodyElement> = Vec::new();
    let ghost tv = tags_view(tree@);
    proof {
        lemma_tags_view_len(tree@);
    }
    let mut i: usize = 0;
    while i < tree.len()
        invariant
            i <= tree.len(),
            tv == tags_view(tree@),
            tv.len() == tree.len(),
            pieces_view(out@) == flatten_nodes(tv.take(i as int), style),
        decreases tree.len() - i,
    {
        proof {
            lemma_tags_view_index(tree@, i as int);
            assert(tv.take(i + 1).drop_last() =~= tv.take(i as int));
            assert(tv.take(i + 1).last() == tag_view(tree@[i as int]));
        }
        let ghost before = out@;
        let ghost node = tag_view(tree@[i as int]);
        let ghost added: Seq<UngroupedBodyElement>;
        match &tree[i] {
            MarkupTag::Text(text) => {
                out.push(UngroupedBodyElement::Span(RichTextSpan { style, text: text.clone() }));
                proof {
                    added = seq![out@.last()];
                }
            },
            MarkupTag::Bold(children) => {
                let mut sub = flatten_from(children, RichTextSpanStyle { bold: true, ..style });
                proof {
                    added = sub@;
                }
                out.append(&mut sub);
            },
            MarkupTag::Italic(children) => {
                let mut sub = flatten_from(children, RichTextSpanStyle { italic: true, ..style });
                proof {
                    added = sub@;
                }
                out.append(&mut sub);
            },
            MarkupTag::Underline(children) => {
                let mut sub = flatten_from(
                    children,
                    RichTextSpanStyle { underline: true, ..style },
                );
                proof {
                    added = sub@;
                }
                out.append(&mut sub);
            },
            MarkupTag::Hyperlink { href: _, children } => {
                let mut sub = flatten_from(children, style);
                proof {
                    added = sub@;
                }
                out.append(&mut sub);
            },
            MarkupTag::Image { src, alt } => {
                out.push(UngroupedBodyElement::Image { src: src.clone(), alt: alt.clone() });
                proof {
                    added = seq![out@.last()];
                }
            },
        }
        proof {
            assert(out@ =~= before + added);
            assert(pieces_view(added) =~= flatten_node(node, style));
            assert(pieces_view(out@) =~= pieces_view(before) + pieces_view(added));
        }
        i = i + 1;
        proof {
            assert(pieces_view(out@) =~= flatten_nodes(tv.take(i as int), style));
        }
    }
    assert(tv.take(tree.len() as int) =~= tv);
    out
}

/// The pieces of a parsed body, starting from plain text.
/// The elements of a markup tree drawn in `style`: each text in the style
/// of the tags around it, and the images.
pub fn flatten_traverser(tree: Vec<MarkupTag>, style: RichTextSpanStyle) -> (r: Vec<
    UngroupedBodyElement,
>)
    ensures
        pieces_view(r@) == flatten_nodes(tags_view(tree@), style),
{
    flatten_from(&tree, style)
}

pub fn flatten(tree: Vec<MarkupTag>) -> (r: Vec<UngroupedBodyElement>)
    ensures
        pieces_view(r@) == flatten_nodes(tags_view(tree@), plain_style()),
{
    flatten_traverser(tree, RichTextSpanStyle { bold: false, italic: false, underline: false })
}

/// A finished run of spans, as the blocks it adds: none if it is empty.
pub open spec fn close_run(run: Seq<Span>) -> Seq<Block> {
    if run.len() > 0 {
        seq![Block::RichText(run)]
    } else {
        Seq::empty()
    }
}

/// Blocks of `pieces`, where `run` holds the spans read since the last image.
pub open spec fn group_from(pieces: Seq<Piece>, run: Seq<Span>) -> Seq<Block>
    decreases pieces.len(),
{
    if pieces.len() == 0 {
        close_run(run)
    } else {
        match pieces[0] {
            Piece::Span(sp) => group_from(pieces.drop_first(), run.push(sp)),
            Piece::Image { src, alt } => close_run(run) + seq![Block::Image { src, alt }]
                + group_from(pieces.drop_first(), Seq::empty()),
        }
    }
}

/// Consecutive spans gathered into one paragraph; images stand alone.
pub open spec fn spec_group(pieces: Seq<Piece>) -> Seq<Block> {
    group_from(pieces, Seq::empty())
}

/// Gathers runs of spans into paragraphs, between images.
pub fn group(elements: Vec<UngroupedBodyElement>) -> (r: Vec<BodyElement>)
    ensures
        blocks_view(r@) == spec_group(pieces_view(elements@)),
{
    let ghost pieces = pieces_view(elements@);
    let mut grouped: Vec<BodyElement> = Vec::new();
    let mut run: Vec<RichTextSpan> = Vec::new();
    let mut i: usize = 0;
    assert(pieces.skip(0) =~= pieces);
    assert(blocks_view(grouped@) =~= Seq::<Block>::empty());
    assert(spans_view(run@) =~= Seq::<Span>::empty());
    assert(Seq::<Block>::empty() + spec_group(pieces) =~= spec_group(pieces));
    while i < elements.len()
        invariant
            i <= elements.len(),
            pieces == pieces_view(elements@),
            spec_group(pieces) == blocks_view(grouped@) + group_from(
                pieces.skip(i as int),
                spans_view(run@),
            ),
        decreases elements.len() - i,
    {
        assert(pieces.skip(i as int)[0] == elements@[i as int]@);
        assert(pieces.skip(i as int).drop_first() =~= pieces.skip(i + 1));
        let ghost g0 = blocks_view(grouped@);
        let ghost r0 = spans_view(run@);
        match &elements[i] {
            UngroupedBodyElement::Span(span) => {
                run.push(RichTextSpan { style: span.style, text: span.text.clone() });
                assert(spans_view(run@) =~= r0.push(span@));
            },
            UngroupedBodyElement::Image { src, alt } => {
                if run.len() > 0 {
                    grouped.push(BodyElement::RichText(run));
                }
                run = Vec::new();
                grouped.push(BodyElement::Image { src: src.clone(), alt: alt.clone() });
                assert(spans_view(run@) =~= Seq::<Span>::empty());
                assert(blocks_view(grouped@) =~= g0 + close_run(r0) + seq![
                    Block::Image { src: src@, alt: alt@ },
                ]);
                assert(g0 + (close_run(r0) + seq![Block::Image { src: src@, alt: alt@ }]
                    + group_from(pieces.skip(i + 1), Seq::empty())) =~= blocks_view(grouped@)
                    + group_from(pieces.skip(i + 1), Seq::empty()));
            },
        }
        i = i + 1;
    }
    assert(pieces.skip(i as int).len() == 0);
    let ghost g0 = blocks_view(grouped@);
    let ghost r0 = spans_view(run@);
    if run.len() > 0 {
        grouped.push(BodyElement::RichText(run));
        assert(blocks_view(grouped@) =~= g0 + close_run(r0));
    } else {
        assert(g0 + close_run(r0) =~= g0);
    }
    grouped
}

/// What a notification body shows: the blocks of its markup, or, when it is
/// not valid markup, the whole text as one plain paragraph.
pub open spec fn spec_markup(text: Seq<char>) -> Seq<Block> {
    match spec_parse_markup(text) {
        Some(tags) => spec_group(flatten_nodes(tags, plain_style())),
        None => seq![Block::RichText(seq![Span { style: plain_style(), text }])],
    }
}

/// The blocks a notification body is shown as.
pub fn markup(text: String) -> (r: Vec<BodyElement>)
    ensures
        blocks_view(r@) == spec_markup(text@),
{
    let chars = chars_of(text.as_str());
    match markup_exec(&chars, 0, chars.len()) {
        Step::Parsed(tags, _) => group(flatten(tags)),
        _ => {
            let style = RichTextSpanStyle { bold: false, italic: false, underline: false };
            let r = vec![BodyElement::RichText(vec![RichTextSpan { style, text }])];
            assert(blocks_view(r@) =~= spec_markup(text@)) by {
                assert(spans_view(r@[0]->0@) =~= seq![Span { style: plain_style(), text: text@ }]);
            }
            r
        },
    }
}

// ---------------------------------------------------------------------------
// Laws
// ---------------------------------------------------------------------------

/// The pieces a block is made of.
pub open spec fn block_pieces(b: Block) -> Seq<Piece> {
    match b {
        Block::RichText(spans) => spans.map_values(|sp: Span| Piece::Span(sp)),
        Block::Image { src, alt } => seq![Piece::Image { src, alt }],
    }
}

/// The pieces of a sequence of blocks, in order.
pub open spec fn ungroup(blocks: Seq<Block>) -> Seq<Piece>
    decreases blocks.len(),
{
    if blocks.len() == 0 {
        Seq::empty()
    } else {
        ungroup(blocks.drop_last()) + block_pieces(blocks.last())
    }
}

proof fn lemma_ungroup_concat(a: Seq<Block>, b: Seq<Block>)
    ensures
        ungroup(a + b) == ungroup(a) + ungroup(b),
    decreases b.len(),
{
    if b.len() == 0 {
        assert(a + b =~= a);
        assert(ungroup(a) + ungroup(b) =~= ungroup(a));
    } else {
        lemma_ungroup_concat(a, b.drop_last());
        assert((a + b).drop_last() =~= a + b.drop_last());
        assert((a + b).last() == b.last());
        assert(ungroup(a + b) =~= ungroup(a) + ungroup(b));
    }
}

proof fn lemma_ungroup_group_from(pieces: Seq<Piece>, run: Seq<Span>)
    ensures
        ungroup(group_from(pieces, run)) == run.map_values(|sp: Span| Piece::Span(sp)) + pieces,
    decreases pieces.len(),
{
    let spans = run.map_values(|sp: Span| Piece::Span(sp));
    if pieces.len() == 0 {
        if run.len() > 0 {
            assert(seq![Block::RichText(run)].drop_last() =~= Seq::<Block>::empty());
            assert(ungroup(Seq::<Block>::empty()) == Seq::<Piece>::empty());
            assert(ungroup(seq![Block::RichText(run)]) =~= spans);
        } else {
            assert(ungroup(Seq::<Block>::empty()) == Seq::<Piece>::empty());
        }
        assert(spans + pieces =~= spans);
        assert(run.len() == 0 ==> spans =~= Seq::<Piece>::empty());
    } else {
        match pieces[0] {
            Piece::Span(sp) => {
                lemma_ungroup_group_from(pieces.drop_first(), run.push(sp));
                assert(run.push(sp).map_values(|sp: Span| Piece::Span(sp)) + pieces.drop_first()
                    =~= spans + pieces);
            },
            Piece::Image { src, alt } => {
                let img = seq![Block::Image { src, alt }];
                let rest = group_from(pieces.drop_first(), Seq::empty());
                lemma_ungroup_group_from(pieces.drop_first(), Seq::empty());
                lemma_ungroup_concat(close_run(run) + img, rest);
                lemma_ungroup_concat(close_run(run), img);
                assert(img.drop_last() =~= Seq::<Block>::empty());
                assert(ungroup(Seq::<Block>::empty()) == Seq::<Piece>::empty());
                assert(ungroup(img) =~= seq![Piece::Image { src, alt }]);
                if run.len() > 0 {
                    assert(seq![Block::RichText(run)].drop_last() =~= Seq::<Block>::empty());
                    assert(ungroup(close_run(run)) =~= spans);
                } else {
                    assert(ungroup(close_run(run)) =~= spans);
                }
                assert(Seq::<Span>::empty().map_values(|sp: Span| Piece::Span(sp))
                    =~= Seq::<Piece>::empty());
                assert(spans + seq![Piece::Image { src, alt }] + (Seq::<Piece>::empty()
                    + pieces.drop_first()) =~= spans + pieces);
            },
        }
    }
}

/// Grouping loses, adds and reorders nothing: taking the blocks apart again
/// gives back the pieces they were made from.
pub proof fn law_group_keeps_pieces(pieces: Seq<Piece>)
    ensures
        ungroup(spec_group(pieces)) == pieces,
{
    lemma_ungroup_group_from(pieces, Seq::empty());
    assert(Seq::<Span>::empty().map_values(|sp: Span| Piece::Span(sp)) + pieces =~= pieces);
}

/// Whether every paragraph in `blocks` has text, and no paragraph directly
/// follows another.
pub open spec fn well_grouped(blocks: Seq<Block>) -> bool {
    &&& forall|i: int| 0 <= i < blocks.len() ==> (#[trigger] blocks[i] matches Block::RichText(sp)
        ==> sp.len() > 0)
    &&& forall|i: int|
        0 <= i < blocks.len() - 1 ==> !(#[trigger] blocks[i] is RichText && blocks[i + 1] is RichText)
}

proof fn lemma_group_from_well_grouped(pieces: Seq<Piece>, run: Seq<Span>)
    ensures
        well_grouped(group_from(pieces, run)),
        run.len() > 0 ==> group_from(pieces, run).len() > 0 && group_from(pieces, run)[0] is RichText,
        group_from(pieces, run).len() > 0 && group_from(pieces, run)[0] is RichText ==> (
        run.len() > 0 || (pieces.len() > 0 && pieces[0] is Span)),
    decreases pieces.len(),
{
    if pieces.len() > 0 {
        match pieces[0] {
            Piece::Span(sp) => {
                lemma_group_from_well_grouped(pieces.drop_first(), run.push(sp));
            },
            Piece::Image { src, alt } => {
                let rest = group_from(pieces.drop_first(), Seq::empty());
                lemma_group_from_well_grouped(pieces.drop_first(), Seq::empty());
                let head = close_run(run) + seq![Block::Image { src, alt }];
                let all = head + rest;
                assert(all == group_from(pieces, run));
                assert forall|i: int| 0 <= i < all.len() implies (#[trigger] all[i] matches Block::RichText(
                    sp,
                ) ==> sp.len() > 0) by {
                    if i >= head.len() {
                        assert(all[i] == rest[i - head.len()]);
                    }
                }
                assert forall|i: int| 0 <= i < all.len() - 1 implies !(#[trigger] all[i] is RichText
                    && all[i + 1] is RichText) by {
                    if i >= head.len() {
                        assert(all[i] == rest[i - head.len()]);
                        assert(all[i + 1] == rest[i + 1 - head.len()]);
                    } else if i == head.len() - 1 {
                    } else {
                        assert(all[i + 1] == head[i + 1]);
                    }
                }
            },
        }
    }
}

/// Grouped bodies have no empty paragraphs, and two paragraphs are always
/// separated by an image.
pub proof fn law_group_well_formed(pieces: Seq<Piece>)
    ensures
        well_grouped(spec_group(pieces)),
{
    lemma_group_from_well_grouped(pieces, Seq::empty());
}

/// Every body, valid markup or not, is shown as paragraphs that each have
/// text and never directly follow one another, with the images between.
pub proof fn law_markup_well_grouped(text: Seq<char>)
    ensures
        well_grouped(spec_markup(text)),
{
    match spec_parse_markup(text) {
        Some(tags) => law_group_well_formed(flatten_nodes(tags, plain_style())),
        None => {},
    }
}

/// Flattening goes node by node: the pieces of two lists of nodes one after
/// the other are those of the first list followed by those of the second,
/// an empty list has none, and a link contributes just the pieces of its
/// children, in the style around it.
pub proof fn law_flatten_by_node(a: Seq<Markup>, b: Seq<Markup>, style: RichTextSpanStyle)
    ensures
        flatten_nodes(a + b, style) == flatten_nodes(a, style) + flatten_nodes(b, style),
        flatten_nodes(Seq::empty(), style) == Seq::<Piece>::empty(),
        forall|href: Seq<char>, children: Seq<Markup>|
            #[trigger] flatten_nodes(seq![Markup::Hyperlink { href, children }], style)
                == flatten_nodes(children, style),
    decreases b.len(),
{
    if b.len() == 0 {
        assert(a + b =~= a);
        assert(flatten_nodes(a, style) + flatten_nodes(b, style) =~= flatten_nodes(a, style));
    } else {
        law_flatten_by_node(a, b.drop_last(), style);
        assert((a + b).drop_last() =~= a + b.drop_last());
        assert((a + b).last() == b.last());
        assert(flatten_nodes(a + b, style) =~= flatten_nodes(a, style) + flatten_nodes(b, style));
    }
    assert forall|href: Seq<char>, children: Seq<Markup>|
        #[trigger] flatten_nodes(seq![Markup::Hyperlink { href, children }], style)
            == flatten_nodes(children, style) by {
        let one = seq![Markup::Hyperlink { href, children }];
        assert(one.drop_last() =~= Seq::<Markup>::empty());
        assert(one.len() == 1 && one.last() == Markup::Hyperlink { href, children });
        assert(flatten_nodes(one.drop_last(), style) == Seq::<Piece>::empty());
        assert(flatten_node(one.last(), style) == flatten_nodes(children, style));
        assert(flatten_nodes(one, style) =~= Seq::<Piece>::empty() + flatten_nodes(children, style));
    }
}

proof fn lemma_tags_view_concat(a: Seq<MarkupTag>, b: Seq<MarkupTag>)
    ensures
        tags_view(a + b) == tags_view(a) + tags_view(b),
    decreases a.len(),
{
    if a.len() == 0 {
        assert(a + b =~= b);
        assert(tags_view(a) + tags_view(b) =~= tags_view(b));
    } else {
        lemma_tags_view_concat(a.drop_first(), b);
        assert((a + b).drop_first() =~= a.drop_first() + b);
        assert((a + b)[0] == a[0]);
        assert(tags_view(a + b) =~= tags_view(a) + tags_view(b));
    }
}

/// Flattening trees of tags goes tag by tag: the elements of two lists of
/// tags one after the other are those of the first followed by those of the
/// second.
pub proof fn law_flatten_tags_by_node(a: Seq<MarkupTag>, b: Seq<MarkupTag>, style: RichTextSpanStyle)
    ensures
        flatten_nodes(tags_view(a + b), style) == flatten_nodes(tags_view(a), style)
            + flatten_nodes(tags_view(b), style),
        forall|x: Seq<UngroupedBodyElement>, y: Seq<UngroupedBodyElement>|
            #[trigger] pieces_view(x + y) == pieces_view(x) + pieces_view(y),
{
    lemma_tags_view_concat(a, b);
    law_flatten_by_node(tags_view(a), tags_view(b), style);
    assert forall|x: Seq<UngroupedBodyElement>, y: Seq<UngroupedBodyElement>|
        #[trigger] pieces_view(x + y) == pieces_view(x) + pieces_view(y) by {
        assert(pieces_view(x + y) =~= pieces_view(x) + pieces_view(y));
    }
}

/// Style `a` has every emphasis that style `b` has.
pub open spec fn has_style_of(a: RichTextSpanStyle, b: RichTextSpanStyle) -> bool {
    &&& b.bold ==> a.bold
    &&& b.italic ==> a.italic
    &&& b.underline ==> a.underline
}

/// Every span in `pieces` has at least the emphasis of `style`.
pub open spec fn all_spans_have(pieces: Seq<Piece>, style: RichTextSpanStyle) -> bool {
    forall|i: int| 0 <= i < pieces.len() ==> (#[trigger] pieces[i] matches Piece::Span(sp)
        ==> has_style_of(sp.style, style))
}

proof fn lemma_concat_spans_have(a: Seq<Piece>, b: Seq<Piece>, style: RichTextSpanStyle)
    requires
        all_spans_have(a, style),
        all_spans_have(b, style),
    ensures
        all_spans_have(a + b, style),
{
    assert forall|i: int| 0 <= i < (a + b).len() implies (#[trigger] (a + b)[i] matches Piece::Span(
        sp,
    ) ==> has_style_of(sp.style, style)) by {
        if i >= a.len() {
            assert((a + b)[i] == b[i - a.len()]);
        } else {
            assert((a + b)[i] == a[i]);
        }
    }
}

proof fn lemma_style_weaken(pieces: Seq<Piece>, strong: RichTextSpanStyle, weak: RichTextSpanStyle)
    requires
        all_spans_have(pieces, strong),
        has_style_of(strong, weak),
    ensures
        all_spans_have(pieces, weak),
{
    assert forall|i: int| 0 <= i < pieces.len() implies (#[trigger] pieces[i] matches Piece::Span(
        sp,
    ) ==> has_style_of(sp.style, weak)) by {
        if let Piece::Span(sp) = pieces[i] {
            assert(has_style_of(sp.style, strong));
        }
    }
}

proof fn lemma_nodes_keep_style(tree: Seq<Markup>, style: RichTextSpanStyle)
    ensures
        all_spans_have(flatten_nodes(tree, style), style),
    decreases tree,
{
    if tree.len() > 0 {
        lemma_nodes_keep_style(tree.drop_last(), style);
        lemma_node_keeps_style(tree.last(), style);
        lemma_concat_spans_have(
            flatten_nodes(tree.drop_last(), style),
            flatten_node(tree.last(), style),
            style,
        );
    }
}

proof fn lemma_node_keeps_style(t: Markup, style: RichTextSpanStyle)
    ensures
        all_spans_have(flatten_node(t, style), style),
    decreases t,
{
    match t {
        Markup::Bold(c) => {
            let st = RichTextSpanStyle { bold: true, ..style };
            lemma_nodes_keep_style(c, st);
            lemma_style_weaken(flatten_nodes(c, st), st, style);
        },
        Markup::Italic(c) => {
            let st = RichTextSpanStyle { italic: true, ..style };
            lemma_nodes_keep_style(c, st);
            lemma_style_weaken(flatten_nodes(c, st), st, style);
        },
        Markup::Underline(c) => {
            let st = RichTextSpanStyle { underline: true, ..style };
            lemma_nodes_keep_style(c, st);
            lemma_style_weaken(flatten_nodes(c, st), st, style);
        },
        Markup::Hyperlink { href: _, children } => {
            lemma_nodes_keep_style(children, style);
        },
        _ => {},
    }
}

/// Emphasis is inherited: every span drawn from nodes in some style has at
/// least that style's emphasis, so text nested inside `<b>` is bold, inside
/// `<i>` italic, and inside `<u>` underlined, whatever encloses it.
pub proof fn law_nested_text_keeps_style(tree: Seq<Markup>, style: RichTextSpanStyle)
    ensures
        all_spans_have(flatten_nodes(tree, style), style),
        all_spans_have(flatten_node(Markup::Bold(tree), style), RichTextSpanStyle { bold: true, ..style }),
        all_spans_have(flatten_node(Markup::Italic(tree), style), RichTextSpanStyle { italic: true, ..style }),
        all_spans_have(
            flatten_node(Markup::Underline(tree), style),
            RichTextSpanStyle { underline: true, ..style },
        ),
{
    lemma_nodes_keep_style(tree, style);
    lemma_nodes_keep_style(tree, RichTextSpanStyle { bold: true, ..style });
    lemma_nodes_keep_style(tree, RichTextSpanStyle { italic: true, ..style });
    lemma_nodes_keep_style(tree, RichTextSpanStyle { underline: true, ..style });
}

/// Text without a `<` is plain text: it parses to one text node (none if it
/// is empty), and a body made of it is shown as one plain paragraph, just as
/// a body that is not valid markup is.
#[verifier::spinoff_prover]
#[verifier::rlimit(30)]
pub proof fn law_plain_text(text: Seq<char>)
    requires
        !text.contains('<'),
    ensures
        text.len() > 0 ==> spec_parse_markup(text) == Some(seq![Markup::Text(text)]),
        text.len() == 0 ==> spec_parse_markup(text) == Some(Seq::<Markup>::empty()),
        text.len() > 0 ==> spec_markup(text) == seq![
            Block::RichText(seq![Span { style: plain_style(), text }]),
        ],
{
    let n = text.len() as int;
    if n > 0 {
        assert(text[0] != '<');
        assert(lit_scan(text, lit_img(), 0, n) == Scan::<()>::Mismatch) by {
            if n >= 4 {
                assert(text.subrange(0, 4)[0] != lit_img()[0]);
            } else {
                assert(text.subrange(0, n)[0] != lit_img().subrange(0, n)[0]);
            }
        }
        assert(lit_scan(text, lit_link(), 0, n) == Scan::<()>::Mismatch) by {
            if n >= 2 {
                assert(text.subrange(0, 2)[0] != lit_link()[0]);
            } else {
                assert(text.subrange(0, n)[0] != lit_link().subrange(0, n)[0]);
            }
        }
        assert(lit_scan(text, seq!['<'], 0, n) == Scan::<()>::Mismatch) by {
            assert(text.subrange(0, 1)[0] != seq!['<'][0]);
        }
        lemma_find_in(text, seq!['<'], 0, n);
        assert(find_in(text, seq!['<'], 0, n) is None) by {
            if let Some(k) = find_in(text, seq!['<'], 0, n) {
                assert(text.subrange(k, k + 1)[0] == '<');
                assert(text[k] == '<');
            }
        }
        assert(text.subrange(0, n) =~= text);
        assert(element_scan(text, 0, n) == Scan::Parsed(Markup::Text(text), n));
        assert(markup_scan(text, n, n) == Scan::Parsed(Seq::<Markup>::empty(), n));
        assert(seq![Markup::Text(text)] + Seq::<Markup>::empty() =~= seq![Markup::Text(text)]);
        let pieces = flatten_nodes(seq![Markup::Text(text)], plain_style());
        assert(seq![Markup::Text(text)].drop_last() =~= Seq::<Markup>::empty());
        assert(flatten_nodes(Seq::<Markup>::empty(), plain_style()) == Seq::<Piece>::empty());
        assert(seq![Markup::Text(text)].last() == Markup::Text(text));
        assert(seq![Markup::Text(text)].len() == 1);
        assert(pieces == flatten_nodes(seq![Markup::Text(text)].drop_last(), plain_style())
            + flatten_node(Markup::Text(text), plain_style()));
        assert(flatten_node(Markup::Text(text), plain_style()) == seq![
            Piece::Span(Span { style: plain_style(), text }),
        ]);
        assert(pieces =~= seq![Piece::Span(Span { style: plain_style(), text })]);
        let sp = Span { style: plain_style(), text };
        assert(pieces.drop_first() =~= Seq::<Piece>::empty());
        assert(group_from(pieces, Seq::empty()) == group_from(Seq::<Piece>::empty(), seq![sp])) by {
            assert(Seq::<Span>::empty().push(sp) =~= seq![sp]);
        }
    }
}

/// Flattening draws a text in exactly the style around it, and each
/// emphasis tag adds its own emphasis, and no other, to the style of its
/// children: with `law_flatten_by_node`, the style of every span is the
/// style it started from together with the emphases of the tags enclosing
/// it, and nothing more.
pub proof fn law_flatten_styles(text: Seq<char>, children: Seq<Markup>, style: RichTextSpanStyle)
    ensures
        flatten_nodes(seq![Markup::Text(text)], style) == seq![Piece::Span(Span { style, text })],
        flatten_nodes(seq![Markup::Bold(children)], style) == flatten_nodes(
            children,
            RichTextSpanStyle { bold: true, italic: style.italic, underline: style.underline },
        ),
        flatten_nodes(seq![Markup::Italic(children)], style) == flatten_nodes(
            children,
            RichTextSpanStyle { bold: style.bold, italic: true, underline: style.underline },
        ),
        flatten_nodes(seq![Markup::Underline(children)], style) == flatten_nodes(
            children,
            RichTextSpanStyle { bold: style.bold, italic: style.italic, underline: true },
        ),
{
    assert forall|node: Markup| #[trigger] flatten_nodes(seq![node], style) == flatten_node(node, style) by {
        let one = seq![node];
        assert(one.drop_last() =~= Seq::<Markup>::empty());
        assert(one.last() == node);
        assert(flatten_nodes(one.drop_last(), style) == Seq::<Piece>::empty());
        assert(flatten_nodes(one, style) =~= flatten_node(node, style));
    }
    assert(flatten_nodes(seq![Markup::Text(text)], style) == flatten_node(Markup::Text(text), style));
    assert(flatten_nodes(seq![Markup::Bold(children)], style) == flatten_node(Markup::Bold(children), style));
    assert(flatten_nodes(seq![Markup::Italic(children)], style) == flatten_node(
        Markup::Italic(children),
        style,
    ));
    assert(flatten_nodes(seq![Markup::Underline(children)], style) == flatten_node(
        Markup::Underline(children),
        style,
    ));
}

} // verus!
