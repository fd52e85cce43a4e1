//! A position-tracking view over an immutable text buffer, counting in
//! characters: peeking ahead, literal matching, white-space skipping,
//! addressing-tag extraction, and explicit save/restore of the position
//! for backtracking.

use vstd::prelude::*;

use crate::text::close_end;
use crate::text::is_ws_char;
use crate::text::lit_at;
use crate::text::token_end;
use crate::text::ws_end;

verus! {

/// Where `peek_for` stops: `n` characters past `pos`, or the end of the
/// buffer if it comes first.
pub open spec fn peek_for_v(s: Seq<char>, pos: int, n: int) -> Seq<char> {
    if pos + n <= s.len() {
        s.subrange(pos, pos + n)
    } else {
        s.subrange(pos, s.len() as int)
    }
}

/// An addressing-mention tag at `pos`: `<@`, an optional `!`, then the
/// captured characters up to the first `>`. On success, the capture and
/// the position just past the `>`.
pub open spec fn mention_parse(s: Seq<char>, pos: int) -> Option<(Seq<char>, int)> {
    if pos + 2 <= s.len() && s[pos] == '<' && s[pos + 1] == '@' {
        let d = if pos + 2 < s.len() && s[pos + 2] == '!' {
            pos + 3
        } else {
            pos + 2
        };
        let g = close_end(s, d);
        if g < s.len() {
            Option::Some((s.subrange(d, g), g + 1))
        } else {
            Option::None
        }
    } else {
        Option::None
    }
}

pub struct Cursor<'a> {
    pub text: &'a str,
    pub len: usize,
    pub off: usize,
}

impl<'a> Cursor<'a> {
    /// The cached length is the character count of the buffer and the
    /// offset never runs past the end.
    pub open spec fn wf(self) -> bool {
        self.len == self.text@.len() && self.off <= self.len
    }

    /// The text from the current offset to the end, as a view.
    pub open spec fn rest_v(self) -> Seq<char> {
        self.text@.subrange(self.off as int, self.text@.len() as int)
    }

    pub fn new(text: &'a str) -> (c: Cursor<'a>)
        ensures
            c.wf(),
            c.text == text,
            c.off == 0,
    {
        let len = text.unicode_len();
        Cursor { text, len, off: 0 }
    }

    /// A snapshot of the offset, for later `restore`.
    pub fn position(&self) -> (p: usize)
        ensures
            p == self.off,
    {
        self.off
    }

    /// Backtracks to a snapshot previously returned by `position`.
    pub fn restore(&mut self, p: usize)
        requires
            old(self).wf(),
            p <= old(self).len,
        ensures
            final(self).wf(),
            final(self).text == old(self).text,
            final(self).len == old(self).len,
            final(self).off == p,
    {
        self.off = p;
    }

    /// Advances past a maximal run of white space.
    pub fn skip_ws(&mut self)
        requires
            old(self).wf(),
        ensures
            final(self).wf(),
            final(self).text == old(self).text,
            final(self).len == old(self).len,
            final(self).off as int == ws_end(old(self).text@, old(self).off as int),
    {
        let t = self.text;
        let mut i = self.off;
        while i < self.len && is_ws_char(t.get_char(i))
            invariant
                self.wf(),
                t == self.text,
                self.off <= i <= self.len,
                ws_end(t@, self.off as int) == ws_end(t@, i as int),
            decreases self.len - i,
        {
            i += 1;
        }
        self.off = i;
    }

    /// The next `n` characters, without advancing; fewer if the buffer
    /// ends early.
    pub fn peek_for(&self, n: usize) -> (r: &'a str)
        requires
            self.wf(),
        ensures
            r@ == peek_for_v(self.text@, self.off as int, n as int),
    {
        let end = if n <= self.len - self.off {
            self.off + n
        } else {
            self.len
        };
        let t = self.text;
        t.substring_char(self.off, end)
    }

    /// The characters up to (not including) the next white space,
    /// without advancing.
    pub fn peek_token(&self) -> (r: &'a str)
        requires
            self.wf(),
        ensures
            r@ == self.text@.subrange(self.off as int, token_end(self.text@, self.off as int)),
    {
        let t = self.text;
        let mut i = self.off;
        while i < self.len && !is_ws_char(t.get_char(i))
            invariant
                self.wf(),
                t == self.text,
                self.off <= i <= self.len,
                token_end(t@, self.off as int) == token_end(t@, i as int),
            decreases self.len - i,
        {
            i += 1;
        }
        t.substring_char(self.off, i)
    }

    /// Advances by exactly `n` characters, already known to exist.
    pub fn advance(&mut self, n: usize)
        requires
            old(self).wf(),
            old(self).off + n <= old(self).len,
        ensures
            final(self).wf(),
            final(self).text == old(self).text,
            final(self).len == old(self).len,
            final(self).off == old(self).off + n,
    {
        self.off = self.off + n;
    }

    /// If the next characters equal `lit`, advances past them; otherwise
    /// leaves the offset unchanged.
    pub fn match_literal(&mut self, lit: &str) -> (r: bool)
        requires
            old(self).wf(),
        ensures
            final(self).wf(),
            final(self).text == old(self).text,
            final(self).len == old(self).len,
            r == lit_at(old(self).text@, old(self).off as int, lit@),
            r ==> final(self).off as int == old(self).off + lit@.len(),
            !r ==> final(self).off == old(self).off,
    {
        let ll = lit.unicode_len();
        if ll > self.len - self.off {
            return false;
        }
        let t = self.text;
        let mut i: usize = 0;
        while i < ll
            invariant
                *self == *old(self),
                self.wf(),
                t == self.text,
                ll as nat == lit@.len(),
                self.off + ll <= self.len,
                i <= ll,
                forall|k: int| 0 <= k < i ==> t@[self.off + k] == lit@[k],
            decreases ll - i,
        {
            if t.get_char(self.off + i) != lit.get_char(i) {
                proof {
                    let s = old(self).text@;
                    let pos = old(self).off as int;
                    if lit_at(s, pos, lit@) {
                        assert(s.subrange(pos, pos + lit@.len())[i as int] == lit@[i as int]);
                    }
                }
                return false;
            }
            i += 1;
        }
        proof {
            let s = old(self).text@;
            let pos = old(self).off as int;
            assert(s.subrange(pos, pos + lit@.len()) =~= lit@);
        }
        self.off = self.off + ll;
        true
    }

    /// Attempts to read an addressing-mention tag; on success advances
    /// past it and returns the captured characters, on failure leaves
    /// the offset unchanged.
    pub fn extract_mention(&mut self) -> (r: Option<&'a str>)
        requires
            old(self).wf(),
        ensures
            final(self).wf(),
            final(self).text == old(self).text,
            final(self).len == old(self).len,
            ({
                let m = mention_parse(old(self).text@, old(self).off as int);
                match m {
                    Option::Some(ie) => r is Some && r.unwrap()@ == ie.0
                        && final(self).off as int == ie.1,
                    Option::None => r is None && final(self).off == old(self).off,
                }
            }),
    {
        let t = self.text;
        if self.len - self.off < 2 {
            return Option::None;
        }
        if t.get_char(self.off) != '<' || t.get_char(self.off + 1) != '@' {
            return Option::None;
        }
        let mut d = self.off + 2;
        if d < self.len && t.get_char(d) == '!' {
            d = d + 1;
        }
        let mut g = d;
        while g < self.len && t.get_char(g) != '>'
            invariant
                self.wf(),
                t == self.text,
                d <= g <= self.len,
                close_end(t@, d as int) == close_end(t@, g as int),
            decreases self.len - g,
        {
            g += 1;
        }
        if g >= self.len {
            return Option::None;
        }
        let id = t.substring_char(d, g);
        self.off = g + 1;
        Option::Some(id)
    }

    /// All text from the current offset to the end.
    pub fn remainder(&self) -> (r: &'a str)
        requires
            self.wf(),
        ensures
            r@ == self.rest_v(),
    {
        let t = self.text;
        t.substring_char(self.off, self.len)
    }
}

} // verus!
