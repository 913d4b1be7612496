use vstd::prelude::*;

verus! {

broadcast use vstd::string::group_string_axioms;

/// `p` occurs in `s` starting at index `i`.
pub open spec fn matches_at(s: Seq<char>, p: Seq<char>, i: int) -> bool {
    0 <= i && i + p.len() <= s.len() && s.subrange(i, i + p.len()) == p
}

/// `p` occurs somewhere in `s`.
pub open spec fn seq_contains(s: Seq<char>, p: Seq<char>) -> bool {
    exists|i: int| matches_at(s, p, i)
}

/// The first index `k` with `i <= k` at which `p` occurs in `s` and ends no
/// later than `hi`.
pub open spec fn find_in(s: Seq<char>, p: Seq<char>, i: int, hi: int) -> Option<int>
    decreases hi - i,
{
    if i < 0 || i + p.len() > hi || hi > s.len() {
        None
    } else if p.len() == 0 || s.subrange(i, i + p.len()) == p {
        Some(i)
    } else {
        find_in(s, p, i + 1, hi)
    }
}

/// What `find_in` returns: the first occurrence in the window, or none at all.
pub proof fn lemma_find_in(s: Seq<char>, p: Seq<char>, i: int, hi: int)
    requires
        0 <= i,
        hi <= s.len(),
    ensures
        find_in(s, p, i, hi) matches Some(k) ==> {
            &&& i <= k
            &&& k + p.len() <= hi
            &&& matches_at(s, p, k)
            &&& forall|j: int| i <= j < k ==> !matches_at(s, p, j)
        },
        find_in(s, p, i, hi) is None ==> forall|j: int|
            i <= j && j + p.len() <= hi ==> !matches_at(s, p, j),
    decreases hi - i,
{
    if i + p.len() <= hi && p.len() > 0 && s.subrange(i, i + p.len()) != p {
        lemma_find_in(s, p, i + 1, hi);
    } else if i + p.len() <= hi && p.len() == 0 {
        assert(s.subrange(i, i) =~= p);
    }
}

/// Appends one character to a string.
///
/// Trusted: `String::push` of std, which by its documentation appends the
/// given char to the end of the string.
#[verifier::external_body]
pub(crate) fn push_char(s: &mut String, c: char)
    ensures
        final(s)@ == old(s)@.push(c),
{
    s.push(c)
}

/// Appends the characters of `suffix` to `s`.
pub(crate) fn push_str(s: &mut String, suffix: &str)
    ensures
        final(s)@ == old(s)@ + suffix@,
{
    let cs = chars_of(suffix);
    let mut i: usize = 0;
    while i < cs.len()
        invariant
            i <= cs.len(),
            cs@ == suffix@,
            s@ == old(s)@ + cs@.take(i as int),
        decreases cs.len() - i,
    {
        push_char(s, cs[i]);
        i = i + 1;
        assert(s@ =~= old(s)@ + cs@.take(i as int));
    }
    assert(cs@.take(cs.len() as int) =~= cs@);
}

/// The characters of a string.
pub fn chars_of(s: &str) -> (v: Vec<char>)
    ensures
        v@ == s@,
{
    let mut v: Vec<char> = Vec::new();
    for c in it: s.chars()
        invariant
            v@ == it.seq().take(it.index()),
    {
        v.push(c);
    }
    v
}

/// The string made of the characters `s[lo..hi]`.
pub fn string_of(s: &Vec<char>, lo: usize, hi: usize) -> (r: String)
    requires
        lo <= hi <= s.len(),
    ensures
        r@ == s@.subrange(lo as int, hi as int),
{
    let mut r = String::new();
    let mut i = lo;
    while i < hi
        invariant
            lo <= i <= hi <= s.len(),
            r@ == s@.subrange(lo as int, i as int),
        decreases hi - i,
    {
        push_char(&mut r, s[i]);
        i = i + 1;
        assert(r@ =~= s@.subrange(lo as int, i as int));
    }
    r
}

/// Whether `p` occurs in `s` at index `i`.
pub fn matches_at_exec(s: &Vec<char>, p: &Vec<char>, i: usize) -> (b: bool)
    requires
        i <= s.len(),
    ensures
        b == matches_at(s@, p@, i as int),
{
    if p.len() > s.len() - i {
        return false;
    }
    let mut k: usize = 0;
    while k < p.len()
        invariant
            i + p.len() <= s.len(),
            k <= p.len(),
            s@.subrange(i as int, i + k) == p@.subrange(0, k as int),
        decreases p.len() - k,
    {
        if s[i + k] != p[k] {
            assert(s@.subrange(i as int, i + p.len())[k as int] != p@[k as int]);
            return false;
        }
        k = k + 1;
        assert(s@.subrange(i as int, i + k) =~= p@.subrange(0, k as int));
    }
    assert(p@.subrange(0, p.len() as int) =~= p@);
    true
}

/// The first occurrence of `p` in `s` at or after `i` that ends by `hi`.
pub fn find_exec(s: &Vec<char>, p: &Vec<char>, i: usize, hi: usize) -> (r: Option<usize>)
    requires
        i <= hi <= s.len(),
    ensures
        r matches Some(k) ==> find_in(s@, p@, i as int, hi as int) == Some(k as int),
        r is None ==> find_in(s@, p@, i as int, hi as int) is None,
{
    let mut k = i;
    while p.len() <= hi - k
        invariant
            i <= k <= hi,
            hi <= s.len(),
            find_in(s@, p@, i as int, hi as int) == find_in(s@, p@, k as int, hi as int),
        decreases hi + 1 - k,
    {
        if matches_at_exec(s, p, k) {
            return Some(k);
        }
        assert(p@.len() > 0) by {
            if p@.len() == 0 {
                assert(s@.subrange(k as int, k as int) =~= p@);
            }
        }
        k = k + 1;
    }
    None
}

/// Whether `p` occurs anywhere in `s`.
pub fn str_contains(s: &str, p: &str) -> (b: bool)
    ensures
        b == seq_contains(s@, p@),
{
    let sv = chars_of(s);
    let pv = chars_of(p);
    let r = find_exec(&sv, &pv, 0, sv.len());
    proof {
        lemma_find_in(sv@, pv@, 0, sv@.len() as int);
    }
    match r {
        Some(k) => {
            assert(matches_at(s@, p@, k as int));
            true
        },
        None => {
            assert forall|j: int| !matches_at(s@, p@, j) by {
                if 0 <= j && j + p@.len() <= s@.len() {
                }
            }
            false
        },
    }
}

/// Whether two strings hold the same characters.
pub fn str_eq(a: &str, b: &str) -> (eq: bool)
    ensures
        eq == (a@ == b@),
{
    let av = chars_of(a);
    let bv = chars_of(b);
    if av.len() != bv.len() {
        return false;
    }
    let mut i: usize = 0;
    while i < av.len()
        invariant
            av.len() == bv.len(),
            i <= av.len(),
            av@ == a@,
            bv@ == b@,
            av@.take(i as int) == bv@.take(i as int),
        decreases av.len() - i,
    {
        if av[i] != bv[i] {
            return false;
        }
        i = i + 1;
        assert(av@.take(i as int) =~= bv@.take(i as int)) by {
            assert(av@.take(i - 1) == bv@.take(i - 1));
            assert forall|k: int| 0 <= k < i implies av@.take(i as int)[k] == bv@.take(i as int)[k] by {
                if k < i - 1 {
                    assert(av@.take(i - 1)[k] == bv@.take(i - 1)[k]);
                }
            }
        }
    }
    assert(av@.take(av.len() as int) =~= av@);
    assert(bv@.take(bv.len() as int) =~= bv@);
    true
}

/// The ASCII digit for `d`, which must be below ten.
pub open spec fn digit_char(d: nat) -> char {
    ('0' as u32 + d) as char
}

/// The decimal digits of `n`, most significant first, without leading zeros
/// (`0` is the one digit `0`).
pub open spec fn decimal(n: nat) -> Seq<char>
    decreases n,
{
    if n < 10 {
        seq![digit_char(n)]
    } else {
        decimal(n / 10).push(digit_char(n % 10))
    }
}

/// The decimal form of an integer, with a `-` in front if it is negative.
pub open spec fn signed_decimal(n: int) -> Seq<char> {
    if n < 0 {
        seq!['-'] + decimal((-n) as nat)
    } else {
        decimal(n as nat)
    }
}

pub(crate) fn push_decimal(s: &mut String, n: u64)
    ensures
        final(s)@ == old(s)@ + decimal(n as nat),
    decreases n,
{
    if n >= 10 {
        push_decimal(s, n / 10);
    }
    let d = (n % 10) as u32;
    let c = char_from_digit(d);
    push_char(s, c);
    proof {
        if n >= 10 {
            assert(old(s)@ + decimal(n as nat) =~= old(s)@ + decimal((n / 10) as nat) + seq![c]);
        } else {
            assert(old(s)@ + decimal(n as nat) =~= old(s)@.push(c));
        }
    }
}

fn char_from_digit(d: u32) -> (c: char)
    requires
        d < 10,
    ensures
        c == digit_char(d as nat),
{
    if d == 0 {
        '0'
    } else if d == 1 {
        '1'
    } else if d == 2 {
        '2'
    } else if d == 3 {
        '3'
    } else if d == 4 {
        '4'
    } else if d == 5 {
        '5'
    } else if d == 6 {
        '6'
    } else if d == 7 {
        '7'
    } else if d == 8 {
        '8'
    } else {
        '9'
    }
}

/// Appends the decimal form of `n` to `s`.
pub fn push_signed_decimal(s: &mut String, n: i64)
    ensures
        final(s)@ == old(s)@ + signed_decimal(n as int),
{
    if n < 0 {
        push_char(s, '-');
        let m: u64 = if n == i64::MIN {
            9223372036854775808u64
        } else {
            (-n) as u64
        };
        push_decimal(s, m);
        assert(old(s)@ + signed_decimal(n as int) =~= old(s)@.push('-') + decimal(m as nat));
    } else {
        push_decimal(s, n as u64);
    }
}

} // verus!
