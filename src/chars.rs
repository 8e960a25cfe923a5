//! Character classes of the surface syntax.
use vstd::prelude::*;

verus! {

/// Unicode `White_Space`: the characters that separate tokens.
pub open spec fn is_space(c: char) -> bool {
    ||| '\u{9}' <= c <= '\u{d}'
    ||| c == ' '
    ||| c == '\u{85}'
    ||| c == '\u{a0}'
    ||| c == '\u{1680}'
    ||| '\u{2000}' <= c <= '\u{200a}'
    ||| c == '\u{2028}'
    ||| c == '\u{2029}'
    ||| c == '\u{202f}'
    ||| c == '\u{205f}'
    ||| c == '\u{3000}'
}

/// An ASCII decimal digit.
pub open spec fn is_digit(c: char) -> bool {
    '0' <= c <= '9'
}

/// The value of a decimal digit.
pub open spec fn digit_value(c: char) -> int {
    (c as u32) - ('0' as u32)
}

/// A character that may stand in a symbol.
pub open spec fn is_ident(c: char) -> bool {
    ||| 'a' <= c <= 'z'
    ||| 'A' <= c <= 'Z'
    ||| is_digit(c)
    ||| c == '!' || c == '$' || c == '%' || c == '&' || c == '*' || c == '+'
    ||| c == '-' || c == '.' || c == '~' || c == '/' || c == ':' || c == '<'
    ||| c == '=' || c == '>' || c == '?' || c == '@' || c == '^' || c == '_'
}

pub fn space(c: char) -> (r: bool)
    ensures
        r == is_space(c),
{
    ('\u{9}' <= c && c <= '\u{d}') || c == ' ' || c == '\u{85}' || c == '\u{a0}' || c == '\u{1680}'
        || ('\u{2000}' <= c && c <= '\u{200a}') || c == '\u{2028}' || c == '\u{2029}'
        || c == '\u{202f}' || c == '\u{205f}' || c == '\u{3000}'
}

pub fn digit(c: char) -> (r: bool)
    ensures
        r == is_digit(c),
{
    '0' <= c && c <= '9'
}

pub fn ident(c: char) -> (r: bool)
    ensures
        r == is_ident(c),
{
    ('a' <= c && c <= 'z') || ('A' <= c && c <= 'Z') || ('0' <= c && c <= '9') || c == '!' || c
        == '$' || c == '%' || c == '&' || c == '*' || c == '+' || c == '-' || c == '.' || c == '~'
        || c == '/' || c == ':' || c == '<' || c == '=' || c == '>' || c == '?' || c == '@' || c
        == '^' || c == '_'
}

/// The classes of characters that the scanner consumes in runs.
#[derive(Clone, Copy, Debug, PartialEq, Eq)]
pub enum CharClass {
    Space,
    Digit,
    Ident,
}

pub open spec fn in_class(c: char, k: CharClass) -> bool {
    match k {
        CharClass::Space => is_space(c),
        CharClass::Digit => is_digit(c),
        CharClass::Ident => is_ident(c),
    }
}

pub fn member(c: char, k: CharClass) -> (r: bool)
    ensures
        r == in_class(c, k),
{
    match k {
        CharClass::Space => space(c),
        CharClass::Digit => digit(c),
        CharClass::Ident => ident(c),
    }
}

/// The end of the longest run of characters of class `k` in `s` that starts at `p`.
pub open spec fn run_end(s: Seq<char>, p: int, k: CharClass) -> int
    decreases s.len() - p,
{
    if 0 <= p < s.len() && in_class(s[p], k) {
        run_end(s, p + 1, k)
    } else {
        p
    }
}

pub proof fn lemma_run_end(s: Seq<char>, p: int, k: CharClass)
    requires
        0 <= p <= s.len(),
    ensures
        p <= run_end(s, p, k) <= s.len(),
        run_end(s, p, k) < s.len() ==> !in_class(s[run_end(s, p, k)], k),
        forall|i: int| p <= i < run_end(s, p, k) ==> in_class(#[trigger] s[i], k),
    decreases s.len() - p,
{
    if p < s.len() && in_class(s[p], k) {
        lemma_run_end(s, p + 1, k);
    }
}

/// The value of a sequence of decimal digits, most significant first.
pub open spec fn decimal(d: Seq<char>) -> int
    decreases d.len(),
{
    if d.len() == 0 {
        0
    } else {
        10 * decimal(d.drop_last()) + digit_value(d.last())
    }
}

/// A digit string is worth at least as much as any of its prefixes.
pub proof fn lemma_decimal_prefix(d: Seq<char>, k: int)
    requires
        0 <= k <= d.len(),
        forall|i: int| 0 <= i < d.len() ==> is_digit(#[trigger] d[i]),
    ensures
        0 <= decimal(d.subrange(0, k)) <= decimal(d),
    decreases d.len(),
{
    if d.len() > 0 {
        let e = d.drop_last();
        lemma_decimal_prefix(e, e.len() as int);
        assert(e.subrange(0, e.len() as int) =~= e);
        if k == d.len() {
            assert(d.subrange(0, k) =~= d);
        } else {
            assert(d.subrange(0, k) =~= e.subrange(0, k));
            lemma_decimal_prefix(e, k);
        }
    }
}

/// The characters of `s`, in order.
pub fn to_chars(s: &str) -> (r: Vec<char>)
    ensures
        r@ == s@,
{
    let mut out: Vec<char> = Vec::new();
    for c in it: s.chars()
        invariant
            out@ == it.seq().subrange(0, it.index() as int),
    {
        out.push(c);
    }
    out
}

} // verus!
