//! The prefix resolver: consumes leading white space, attempts an
//! addressing-mention match, then a prefix match (dynamic candidates
//! first, then the static list, in declared order), and returns the
//! classified prefix together with the remaining text.

use vstd::prelude::*;

use crate::cursor::Cursor;
use crate::cursor::mention_parse;
use crate::grammar::Configuration;
use crate::grammar::Prefix;
use crate::grammar::PrefixView;
use crate::text::all_digits;
use crate::text::all_digits_str;
use crate::text::lemma_close_end_bounds;
use crate::text::lemma_ws_end_bounds;
use crate::text::lit_at;
use crate::text::str_eq;
use crate::text::trim_str;
use crate::text::trim_v;
use crate::text::ws_end;

verus! {

/// The first dynamic candidate, from index `i` on, whose text stands at
/// `pos`; candidates that were not produced are skipped.
pub open spec fn dyn_scan(s: Seq<char>, pos: int, dyns: Seq<Option<String>>, i: int) -> Option<
    Seq<char>,
>
    decreases dyns.len() - i,
{
    if i < 0 || i >= dyns.len() {
        Option::None
    } else {
        match dyns[i] {
            Option::Some(p) => if lit_at(s, pos, p@) {
                Option::Some(p@)
            } else {
                dyn_scan(s, pos, dyns, i + 1)
            },
            Option::None => dyn_scan(s, pos, dyns, i + 1),
        }
    }
}

/// The first static prefix, from index `i` on, whose text stands at
/// `pos`. Declaration order is the tie-break: no longest-match rule.
pub open spec fn static_scan(s: Seq<char>, pos: int, ps: Seq<String>, i: int) -> Option<Seq<char>>
    decreases ps.len() - i,
{
    if i < 0 || i >= ps.len() {
        Option::None
    } else if lit_at(s, pos, ps[i]@) {
        Option::Some(ps[i]@)
    } else {
        static_scan(s, pos, ps, i + 1)
    }
}

/// The prefix the resolver accepts at `pos`: the first matching dynamic
/// candidate, else the first matching static prefix; nothing when no
/// prefixes are configured at all.
pub open spec fn chosen_prefix(
    s: Seq<char>,
    pos: int,
    config: Configuration,
    dyns: Seq<Option<String>>,
) -> Option<Seq<char>> {
    if config.prefixes@.len() == 0 && dyns.len() == 0 {
        Option::None
    } else {
        match dyn_scan(s, pos, dyns, 0) {
            Option::Some(p) => Option::Some(p),
            Option::None => static_scan(s, pos, config.prefixes@, 0),
        }
    }
}

/// The prefix-matching phase from position `pos`: on acceptance the
/// offset moves past the prefix, white space is optionally skipped, and
/// the remainder is trimmed.
pub open spec fn prefix_phase(
    s: Seq<char>,
    pos: int,
    config: Configuration,
    dyns: Seq<Option<String>>,
) -> (PrefixView, Seq<char>) {
    match chosen_prefix(s, pos, config, dyns) {
        Option::Some(p) => {
            let q = pos + p.len();
            let q2 = if config.with_whitespace.prefixes {
                ws_end(s, q)
            } else {
                q
            };
            (PrefixView::Punct(p), trim_v(s.subrange(q2, s.len() as int)))
        },
        Option::None => {
            let q2 = if config.with_whitespace.prefixes {
                ws_end(s, pos)
            } else {
                pos
            };
            (PrefixView::Absent, trim_v(s.subrange(q2, s.len() as int)))
        },
    }
}

/// The whole prefix resolution: leading white space, then the
/// addressing mention (whose tag, once read, is consumed even when its
/// identifier is rejected), then the prefix-matching phase.
pub open spec fn spec_parse_prefix(
    s: Seq<char>,
    config: Configuration,
    dyns: Seq<Option<String>>,
) -> (PrefixView, Seq<char>) {
    let a = ws_end(s, 0);
    match config.on_mention {
        Option::Some(m) => match mention_parse(s, a) {
            Option::Some(ie) => if all_digits(ie.0) && ie.0 == m@ {
                (PrefixView::Mention(ie.0), s.subrange(ws_end(s, ie.1), s.len() as int))
            } else {
                prefix_phase(s, ie.1, config, dyns)
            },
            Option::None => prefix_phase(s, a, config, dyns),
        },
        Option::None => prefix_phase(s, a, config, dyns),
    }
}

/// Tries each produced dynamic candidate in declared order against the
/// text at the cursor; first acceptance wins.
fn match_dynamic<'a>(
    cur: &Cursor<'a>,
    dyns: &Vec<Option<String>>,
) -> (r: Option<&'a str>)
    requires
        cur.wf(),
    ensures
        match r {
            Option::Some(pp) => dyn_scan(cur.text@, cur.off as int, dyns@, 0) == Option::Some(pp@)
                && lit_at(cur.text@, cur.off as int, pp@),
            Option::None => dyn_scan(cur.text@, cur.off as int, dyns@, 0) is None,
        },
{
    let n = dyns.len();
    let mut i: usize = 0;
    while i < n
        invariant
            cur.wf(),
            n == dyns@.len(),
            i <= n,
            dyn_scan(cur.text@, cur.off as int, dyns@, 0) == dyn_scan(
                cur.text@,
                cur.off as int,
                dyns@,
                i as int,
            ),
        decreases n - i,
    {
        match &dyns[i] {
            Option::Some(p) => {
                let pp = cur.peek_for(p.unicode_len());
                if str_eq(p.as_str(), pp) {
                    proof {
                        assert(pp@.len() == p@.len());
                        assert(cur.off + p@.len() <= cur.text@.len());
                        assert(cur.text@.subrange(cur.off as int, cur.off + p@.len()) == p@);
                    }
                    return Option::Some(pp);
                }
                proof {
                    if lit_at(cur.text@, cur.off as int, p@) {
                        assert(pp@ == p@);
                    }
                }
            },
            Option::None => {},
        }
        i += 1;
    }
    Option::None
}

/// Tries each static prefix in declared order against the text at the
/// cursor; first acceptance wins.
fn match_static<'a>(
    cur: &Cursor<'a>,
    prefixes: &Vec<String>,
) -> (r: Option<&'a str>)
    requires
        cur.wf(),
    ensures
        match r {
            Option::Some(pp) => static_scan(cur.text@, cur.off as int, prefixes@, 0)
                == Option::Some(pp@) && lit_at(cur.text@, cur.off as int, pp@),
            Option::None => static_scan(cur.text@, cur.off as int, prefixes@, 0) is None,
        },
{
    let n = prefixes.len();
    let mut i: usize = 0;
    while i < n
        invariant
            cur.wf(),
            n == prefixes@.len(),
            i <= n,
            static_scan(cur.text@, cur.off as int, prefixes@, 0) == static_scan(
                cur.text@,
                cur.off as int,
                prefixes@,
                i as int,
            ),
        decreases n - i,
    {
        let p = &prefixes[i];
        let pp = cur.peek_for(p.unicode_len());
        if str_eq(p.as_str(), pp) {
            proof {
                assert(pp@.len() == p@.len());
                assert(cur.off + p@.len() <= cur.text@.len());
                assert(cur.text@.subrange(cur.off as int, cur.off + p@.len()) == p@);
            }
            return Option::Some(pp);
        }
        proof {
            if lit_at(cur.text@, cur.off as int, p@) {
                assert(pp@ == p@);
            }
        }
        i += 1;
    }
    Option::None
}

/// Classifies the leading prefix of `msg` and returns it together with
/// the remaining text. Dynamic-prefix evaluators run outside this
/// engine; `dyns` holds, in declared order, the candidate each one
/// produced, if any.
pub fn parse_prefix<'a>(
    msg: &'a str,
    config: &Configuration,
    dyns: &Vec<Option<String>>,
) -> (r: (Prefix<'a>, &'a str))
    ensures
        (r.0@, r.1@) == spec_parse_prefix(msg@, *config, dyns@),
{
    let ghost s = msg@;
    let mut cur = Cursor::new(msg);
    cur.skip_ws();
    proof {
        lemma_ws_end_bounds(s, 0);
    }

    if let Option::Some(mention) = &config.on_mention {
        let ghost before = cur.off as int;
        if let Option::Some(id) = cur.extract_mention() {
            proof {
                let d = if before + 2 < s.len() && s[before + 2] == '!' {
                    before + 3
                } else {
                    before + 2
                };
                lemma_close_end_bounds(s, d);
            }
            if all_digits_str(id) && str_eq(mention.as_str(), id) {
                cur.skip_ws();
                proof {
                    lemma_ws_end_bounds(s, cur.off as int);
                }
                let rest = cur.remainder();
                return (Prefix::Mention(id), rest);
            }
        }
    }

    let mut accepted: Option<&'a str> = Option::None;
    if !config.prefixes.is_empty() || !dyns.is_empty() {
        accepted = match_dynamic(&cur, dyns);
        if accepted.is_none() {
            accepted = match_static(&cur, &config.prefixes);
        }
    }

    match accepted {
        Option::Some(pp) => {
            proof {
                assert(cur.off + pp@.len() <= cur.len);
            }
            cur.advance(pp.unicode_len());
            if config.with_whitespace.prefixes {
                cur.skip_ws();
                proof {
                    lemma_ws_end_bounds(s, cur.off as int);
                }
            }
            let rest = cur.remainder();
            (Prefix::Punct(pp), trim_str(rest))
        },
        Option::None => {
            if config.with_whitespace.prefixes {
                cur.skip_ws();
                proof {
                    lemma_ws_end_bounds(s, cur.off as int);
                }
            }
            let rest = cur.remainder();
            (Prefix::Absent, trim_str(rest))
        },
    }
}

} // verus!
