//! Character classes and scanning functions over character sequences:
//! white space, decimal digits, runs of white space, token boundaries,
//! and trimming.

use vstd::prelude::*;

verus! {

/// The Unicode white-space characters; trimming, token splitting and
/// the "skip white space" options all go by this set.
pub open spec fn is_ws(c: char) -> bool {
    ||| c == '\u{9}'
    ||| c == '\u{a}'
    ||| c == '\u{b}'
    ||| c == '\u{c}'
    ||| c == '\u{d}'
    ||| c == ' '
    ||| c == '\u{85}'
    ||| c == '\u{a0}'
    ||| c == '\u{1680}'
    ||| c == '\u{2000}'
    ||| c == '\u{2001}'
    ||| c == '\u{2002}'
    ||| c == '\u{2003}'
    ||| c == '\u{2004}'
    ||| c == '\u{2005}'
    ||| c == '\u{2006}'
    ||| c == '\u{2007}'
    ||| c == '\u{2008}'
    ||| c == '\u{2009}'
    ||| c == '\u{200a}'
    ||| c == '\u{2028}'
    ||| c == '\u{2029}'
    ||| c == '\u{202f}'
    ||| c == '\u{205f}'
    ||| c == '\u{3000}'
}

pub fn is_ws_char(c: char) -> (r: bool)
    ensures
        r == is_ws(c),
{
    c == '\u{9}' || c == '\u{a}' || c == '\u{b}' || c == '\u{c}' || c == '\u{d}' || c == ' '
        || c == '\u{85}' || c == '\u{a0}' || c == '\u{1680}' || c == '\u{2000}' || c == '\u{2001}'
        || c == '\u{2002}' || c == '\u{2003}' || c == '\u{2004}' || c == '\u{2005}'
        || c == '\u{2006}' || c == '\u{2007}' || c == '\u{2008}' || c == '\u{2009}'
        || c == '\u{200a}' || c == '\u{2028}' || c == '\u{2029}' || c == '\u{202f}'
        || c == '\u{205f}' || c == '\u{3000}'
}

/// The decimal digits, the only characters accepted in an
/// addressing-mention identifier.
pub open spec fn is_digit(c: char) -> bool {
    ||| c == '0'
    ||| c == '1'
    ||| c == '2'
    ||| c == '3'
    ||| c == '4'
    ||| c == '5'
    ||| c == '6'
    ||| c == '7'
    ||| c == '8'
    ||| c == '9'
}

pub fn is_digit_char(c: char) -> (r: bool)
    ensures
        r == is_digit(c),
{
    c == '0' || c == '1' || c == '2' || c == '3' || c == '4' || c == '5' || c == '6' || c == '7'
        || c == '8' || c == '9'
}

pub open spec fn all_digits(s: Seq<char>) -> bool {
    forall|k: int| 0 <= k < s.len() ==> is_digit(s[k])
}

/// The index of the first non-white-space character at or after `from`,
/// or `s.len()` if white space runs to the end.
pub open spec fn ws_end(s: Seq<char>, from: int) -> int
    decreases s.len() - from,
{
    if 0 <= from < s.len() && is_ws(s[from]) {
        ws_end(s, from + 1)
    } else {
        from
    }
}

pub proof fn lemma_ws_end_bounds(s: Seq<char>, from: int)
    requires
        0 <= from <= s.len(),
    ensures
        from <= ws_end(s, from) <= s.len(),
        forall|k: int| from <= k < ws_end(s, from) ==> is_ws(s[k]),
        ws_end(s, from) < s.len() ==> !is_ws(s[ws_end(s, from)]),
    decreases s.len() - from,
{
    if from < s.len() && is_ws(s[from]) {
        lemma_ws_end_bounds(s, from + 1);
    }
}

pub proof fn lemma_ws_end_pin(s: Seq<char>, from: int, i: int)
    requires
        0 <= from <= i <= s.len(),
        forall|k: int| from <= k < i ==> is_ws(s[k]),
        i < s.len() ==> !is_ws(s[i]),
    ensures
        ws_end(s, from) == i,
    decreases i - from,
{
    if from < i {
        lemma_ws_end_pin(s, from + 1, i);
    }
}

/// The index of the first white-space character at or after `from`, or
/// `s.len()`: the end of the token that starts at `from`.
pub open spec fn token_end(s: Seq<char>, from: int) -> int
    decreases s.len() - from,
{
    if 0 <= from < s.len() && !is_ws(s[from]) {
        token_end(s, from + 1)
    } else {
        from
    }
}

pub proof fn lemma_token_end_bounds(s: Seq<char>, from: int)
    requires
        0 <= from <= s.len(),
    ensures
        from <= token_end(s, from) <= s.len(),
    decreases s.len() - from,
{
    if from < s.len() && !is_ws(s[from]) {
        lemma_token_end_bounds(s, from + 1);
    }
}

pub proof fn lemma_token_end_pin(s: Seq<char>, from: int, i: int)
    requires
        0 <= from <= i <= s.len(),
        forall|k: int| from <= k < i ==> !is_ws(s[k]),
        i < s.len() ==> is_ws(s[i]),
    ensures
        token_end(s, from) == i,
    decreases i - from,
{
    if from < i {
        lemma_token_end_pin(s, from + 1, i);
    }
}

/// The index of the first `'>'` at or after `from`, or `s.len()`: the
/// closing delimiter of an addressing-mention tag.
pub open spec fn close_end(s: Seq<char>, from: int) -> int
    decreases s.len() - from,
{
    if 0 <= from < s.len() && s[from] != '>' {
        close_end(s, from + 1)
    } else {
        from
    }
}

pub proof fn lemma_close_end_bounds(s: Seq<char>, from: int)
    requires
        0 <= from <= s.len(),
    ensures
        from <= close_end(s, from) <= s.len(),
    decreases s.len() - from,
{
    if from < s.len() && s[from] != '>' {
        lemma_close_end_bounds(s, from + 1);
    }
}

/// The largest index `b <= upto` such that every character in
/// `[b, upto)` is white space: where trailing white space begins.
pub open spec fn ws_rbegin(s: Seq<char>, upto: int) -> int
    decreases upto,
{
    if 0 < upto <= s.len() && is_ws(s[upto - 1]) {
        ws_rbegin(s, upto - 1)
    } else {
        upto
    }
}

pub proof fn lemma_ws_rbegin_bounds(s: Seq<char>, upto: int)
    requires
        0 <= upto <= s.len(),
    ensures
        0 <= ws_rbegin(s, upto) <= upto,
        forall|k: int| ws_rbegin(s, upto) <= k < upto ==> is_ws(s[k]),
        ws_rbegin(s, upto) > 0 ==> !is_ws(s[ws_rbegin(s, upto) - 1]),
    decreases upto,
{
    if 0 < upto && is_ws(s[upto - 1]) {
        lemma_ws_rbegin_bounds(s, upto - 1);
    }
}

/// The sequence with leading and trailing white space removed.
pub open spec fn trim_v(s: Seq<char>) -> Seq<char> {
    let a = ws_end(s, 0);
    let b = ws_rbegin(s, s.len() as int);
    if a <= b {
        s.subrange(a, b)
    } else {
        Seq::empty()
    }
}

/// Whether the characters of `l` stand in `s` at position `pos`.
pub open spec fn lit_at(s: Seq<char>, pos: int, l: Seq<char>) -> bool {
    pos + l.len() <= s.len() && s.subrange(pos, pos + l.len()) == l
}

/// Character-wise string equality, decided over the views.
pub fn str_eq(a: &str, b: &str) -> (r: bool)
    ensures
        r == (a@ == b@),
{
    let al = a.unicode_len();
    let bl = b.unicode_len();
    if al != bl {
        return false;
    }
    let mut i: usize = 0;
    while i < al
        invariant
            al as nat == a@.len(),
            al as nat == b@.len(),
            i <= al,
            forall|k: int| 0 <= k < i ==> a@[k] == b@[k],
        decreases al - i,
    {
        if a.get_char(i) != b.get_char(i) {
            return false;
        }
        i += 1;
    }
    proof {
        assert(a@ =~= b@);
    }
    true
}

/// Whether `s` consists of decimal digits alone.
pub fn all_digits_str(s: &str) -> (r: bool)
    ensures
        r == all_digits(s@),
{
    let l = s.unicode_len();
    let mut i: usize = 0;
    while i < l
        invariant
            l as nat == s@.len(),
            i <= l,
            forall|k: int| 0 <= k < i ==> is_digit(s@[k]),
        decreases l - i,
    {
        if !is_digit_char(s.get_char(i)) {
            return false;
        }
        i += 1;
    }
    true
}

/// The slice of `s` with leading and trailing white space removed.
pub fn trim_str<'a>(s: &'a str) -> (r: &'a str)
    ensures
        r@ == trim_v(s@),
{
    let len = s.unicode_len();
    let mut a: usize = 0;
    while a < len && is_ws_char(s.get_char(a))
        invariant
            len as nat == s@.len(),
            a <= len,
            ws_end(s@, 0) == ws_end(s@, a as int),
            forall|k: int| 0 <= k < a ==> is_ws(s@[k]),
        decreases len - a,
    {
        a += 1;
    }
    let mut b: usize = len;
    while b > a && is_ws_char(s.get_char(b - 1))
        invariant
            len as nat == s@.len(),
            a <= b <= len,
            ws_rbegin(s@, len as int) == ws_rbegin(s@, b as int),
            forall|k: int| 0 <= k < a ==> is_ws(s@[k]),
            ws_end(s@, 0) == ws_end(s@, a as int),
            a < len ==> !is_ws(s@[a as int]),
        decreases b,
    {
        b -= 1;
    }
    proof {
        assert(ws_end(s@, 0) == a as int);
        if b > a {
            assert(ws_rbegin(s@, b as int) == b as int);
            assert(trim_v(s@) == s@.subrange(a as int, b as int));
        } else {
            // b == a: the remainder is empty either way.
            if a == 0 {
                assert(ws_rbegin(s@, 0) == 0);
                assert(trim_v(s@) =~= s@.subrange(0, 0));
            } else {
                assert(is_ws(s@[a - 1]));
                assert(ws_rbegin(s@, a as int) == ws_rbegin(s@, a - 1));
                lemma_ws_rbegin_bounds(s@, a - 1);
                assert(ws_rbegin(s@, len as int) < a as int);
                assert(trim_v(s@) =~= s@.subrange(a as int, a as int));
            }
        }
    }
    s.substring_char(a, b)
}

} // verus!
