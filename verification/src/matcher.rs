//! The grammar matcher: a recursive-descent walk over the forest of
//! command groups and, within each, the forest of commands, trying
//! candidates in declared order with cursor backtracking, and the
//! builder that assembles the final invocation.

use vstd::prelude::*;

use crate::cursor::Cursor;
use crate::cursor::peek_for_v;
use crate::grammar::Command;
use crate::grammar::CommandGroup;
use crate::grammar::Configuration;
use crate::grammar::Invoke;
use crate::grammar::InvokeView;
use crate::grammar::Prefix;
use crate::grammar::PrefixView;
use crate::grammar::opt_str_view;
use crate::grammar::res_view;
use crate::text::lemma_token_end_bounds;
use crate::text::lemma_ws_end_bounds;
use crate::text::lit_at;
use crate::text::str_eq;
use crate::text::token_end;
use crate::text::ws_end;

verus! {

/// What `str::to_lowercase` returns: a function of the characters
/// alone, left without further interpretation.
pub uninterp spec fn lower_of(s: Seq<char>) -> Seq<char>;

/// Relies on str::to_lowercase: the lowercase form depends on the
/// characters alone.
#[verifier::external_body]
fn lowercase(s: &str) -> (r: String)
    ensures
        r@ == lower_of(s@),
{
    s.to_lowercase()
}

/// The text a name is compared as: lowercased in case-insensitive mode,
/// unchanged otherwise.
pub open spec fn fold_v(config: Configuration, s: Seq<char>) -> Seq<char> {
    if config.case_insensitive {
        lower_of(s)
    } else {
        s
    }
}

fn fold_text(config: &Configuration, s: &str) -> (r: String)
    ensures
        r@ == fold_v(*config, s@),
{
    if config.case_insensitive {
        lowercase(s)
    } else {
        s.to_owned()
    }
}

/// Membership of a text in a list of strings, by character content.
pub open spec fn contains_str(ss: Seq<String>, s: Seq<char>) -> bool {
    exists|k: int| 0 <= k < ss.len() && ss[k]@ == s
}

fn contains_str_vec(ss: &Vec<String>, s: &str) -> (r: bool)
    ensures
        r == contains_str(ss@, s@),
{
    let n = ss.len();
    let mut i: usize = 0;
    while i < n
        invariant
            n == ss@.len(),
            i <= n,
            forall|k: int| 0 <= k < i ==> ss@[k]@ != s@,
        decreases n - i,
    {
        if str_eq(ss[i].as_str(), s) {
            return true;
        }
        i += 1;
    }
    false
}

/// The window a name is compared against at `pos`: the next
/// whitespace-delimited token, or a window of exactly `n` characters,
/// by the configured matching mode.
pub open spec fn next_text_v(config: Configuration, s: Seq<char>, pos: int, n: int) -> Seq<char> {
    if config.by_space {
        s.subrange(pos, token_end(s, pos))
    } else {
        peek_for_v(s, pos, n)
    }
}

fn next_text<'m>(cur: &Cursor<'m>, config: &Configuration, n: usize) -> (r: &'m str)
    requires
        cur.wf(),
    ensures
        r@ == next_text_v(*config, cur.text@, cur.off as int, n as int),
{
    if config.by_space {
        cur.peek_token()
    } else {
        cur.peek_for(n)
    }
}

/// The outcome of matching one command node: the matched node and the
/// position after it, if any, and the diagnostic token state.
pub struct CmdOut {
    pub hit: Option<(Command, int)>,
    pub unrec: Option<Seq<char>>,
}

/// Matching a command node at `pos`: its name aliases in declared
/// order, then, once a name matched, its sub-commands depth-first; a
/// sub-command match supersedes the node itself.
pub open spec fn spec_command(
    s: Seq<char>,
    config: Configuration,
    c: Command,
    pos: int,
    unrec: Option<Seq<char>>,
) -> CmdOut
    decreases c, 2int, 0int,
{
    spec_command_names(s, config, c, pos, unrec, 0)
}

/// The alias loop from index `i` on. A name matches when the compared
/// window, folded by the case mode, equals it and is not disabled; a
/// failed comparison records the window as the diagnostic token.
pub open spec fn spec_command_names(
    s: Seq<char>,
    config: Configuration,
    c: Command,
    pos: int,
    unrec: Option<Seq<char>>,
    i: int,
) -> CmdOut
    decreases c, 1int, c.names@.len() - i,
{
    if i < 0 || i >= c.names@.len() {
        CmdOut { hit: Option::None, unrec }
    } else {
        let name = c.names@[i]@;
        let n = next_text_v(config, s, pos, name.len() as int);
        let f = fold_v(config, n);
        if f == name && !contains_str(config.disabled_commands@, f) {
            let p2 = pos + n.len();
            let p3 = if config.with_whitespace.commands {
                ws_end(s, p2)
            } else {
                p2
            };
            match spec_command_subs(s, config, c, p3, 0) {
                Option::Some(hp) => CmdOut { hit: Option::Some(hp), unrec: Option::None },
                Option::None => CmdOut { hit: Option::Some((c, p3)), unrec: Option::None },
            }
        } else {
            spec_command_names(s, config, c, pos, Option::Some(n), i + 1)
        }
    }
}

/// The sub-command loop from index `j` on: the first sub-command that
/// matches wins.
pub open spec fn spec_command_subs(
    s: Seq<char>,
    config: Configuration,
    c: Command,
    pos: int,
    j: int,
) -> Option<(Command, int)>
    decreases c, 0int, c.sub_commands@.len() - j,
{
    if j < 0 || j >= c.sub_commands@.len() {
        Option::None
    } else {
        let r = spec_command(s, config, c.sub_commands@[j], pos, Option::None);
        if r.hit is Some {
            r.hit
        } else {
            spec_command_subs(s, config, c, pos, j + 1)
        }
    }
}

/// The outcome of entering one group node: the matched group-prefix
/// text if any, the group that ended up active (a sub-group supersedes
/// its parent), and the position after the prefix.
pub struct GroupOut {
    pub gprefix: Option<Seq<char>>,
    pub group: CommandGroup,
    pub pos: int,
}

/// Entering a group at `pos`: its required prefixes in declared order;
/// a group without a match keeps the position unchanged. Group prefixes
/// are compared exactly, with no case folding and no disabled set.
pub open spec fn spec_group(s: Seq<char>, config: Configuration, g: CommandGroup, pos: int) -> GroupOut
    decreases g, 2int, 0int,
{
    spec_group_prefixes(s, config, g, pos, 0)
}

pub open spec fn spec_group_prefixes(
    s: Seq<char>,
    config: Configuration,
    g: CommandGroup,
    pos: int,
    i: int,
) -> GroupOut
    decreases g, 1int, g.prefixes@.len() - i,
{
    if i < 0 || i >= g.prefixes@.len() {
        GroupOut { gprefix: Option::None, group: g, pos }
    } else {
        let p = g.prefixes@[i]@;
        let pp = next_text_v(config, s, pos, p.len() as int);
        if p == pp {
            let p2 = pos + pp.len();
            let p3 = if config.with_whitespace.groups {
                ws_end(s, p2)
            } else {
                p2
            };
            spec_group_subs(s, config, g, pp, p3, 0)
        } else {
            spec_group_prefixes(s, config, g, pos, i + 1)
        }
    }
}

/// The sub-group loop once this group's own prefix matched: the first
/// sub-group that matches fully supersedes the parent.
pub open spec fn spec_group_subs(
    s: Seq<char>,
    config: Configuration,
    g: CommandGroup,
    pp: Seq<char>,
    pos: int,
    j: int,
) -> GroupOut
    decreases g, 0int, g.sub_groups@.len() - j,
{
    if j < 0 || j >= g.sub_groups@.len() {
        GroupOut { gprefix: Option::Some(pp), group: g, pos }
    } else {
        let r = spec_group(s, config, g.sub_groups@[j], pos);
        if r.gprefix is Some {
            r
        } else {
            spec_group_subs(s, config, g, pp, pos, j + 1)
        }
    }
}

/// Once a group's own prefix matched, the sub-group loop always ends
/// with a matched prefix: its base case keeps the parent's.
pub proof fn lemma_group_subs_some(
    s: Seq<char>,
    config: Configuration,
    g: CommandGroup,
    pp: Seq<char>,
    pos: int,
    j: int,
)
    ensures
        spec_group_subs(s, config, g, pp, pos, j).gprefix is Some,
    decreases g.sub_groups@.len() - j,
{
    if 0 <= j < g.sub_groups@.len() {
        let r = spec_group(s, config, g.sub_groups@[j], pos);
        if !(r.gprefix is Some) {
            lemma_group_subs_some(s, config, g, pp, pos, j + 1);
        }
    }
}

/// A group that did not match keeps the position unchanged and stands
/// for itself.
pub proof fn lemma_group_none(s: Seq<char>, config: Configuration, g: CommandGroup, pos: int, i: int)
    ensures
        spec_group_prefixes(s, config, g, pos, i).gprefix is None ==> spec_group_prefixes(
            s,
            config,
            g,
            pos,
            i,
        ) == (GroupOut { gprefix: Option::None, group: g, pos }),
    decreases g.prefixes@.len() - i,
{
    if 0 <= i < g.prefixes@.len() {
        let p = g.prefixes@[i]@;
        let pp = next_text_v(config, s, pos, p.len() as int);
        if p == pp {
            let p2 = pos + pp.len();
            let p3 = if config.with_whitespace.groups {
                ws_end(s, p2)
            } else {
                p2
            };
            lemma_group_subs_some(s, config, g, pp, p3, 0);
        } else {
            lemma_group_none(s, config, g, pos, i + 1);
        }
    }
}

/// The top-level walk over the groups from index `k` on, each tried
/// from position `pos0`; a group whose required prefix did not match is
/// abandoned and the position restored.
pub open spec fn spec_parse_groups(
    s: Seq<char>,
    config: Configuration,
    prefix: PrefixView,
    groups: Seq<CommandGroup>,
    pos0: int,
    k: int,
    unrec: Option<Seq<char>>,
) -> Result<InvokeView, Option<Seq<char>>>
    decreases groups.len() - k, 1int, 0int,
{
    if k < 0 || k >= groups.len() {
        Result::Err(unrec)
    } else {
        let go = spec_group(s, config, groups[k], pos0);
        if go.gprefix is None && groups[k].prefixes@.len() > 0 {
            spec_parse_groups(s, config, prefix, groups, pos0, k + 1, unrec)
        } else {
            spec_parse_cmds(s, config, prefix, groups, pos0, k, go, 0, unrec)
        }
    }
}

/// The command loop of the active group from index `m` on; when no
/// member command matches, the group's default command fires if and
/// only if the group's own prefix matched.
pub open spec fn spec_parse_cmds(
    s: Seq<char>,
    config: Configuration,
    prefix: PrefixView,
    groups: Seq<CommandGroup>,
    pos0: int,
    k: int,
    go: GroupOut,
    m: int,
    unrec: Option<Seq<char>>,
) -> Result<InvokeView, Option<Seq<char>>>
    decreases groups.len() - k, 0int, go.group.commands@.len() - m,
{
    if k < 0 || k >= groups.len() {
        Result::Err(unrec)
    } else if m < 0 || m >= go.group.commands@.len() {
        match go.group.default_command {
            Option::Some(d) => if go.gprefix is Some {
                Result::Ok(
                    InvokeView::Command {
                        prefix,
                        gprefix: go.gprefix,
                        group: go.group,
                        command: d,
                        args: s.subrange(go.pos, s.len() as int),
                    },
                )
            } else {
                spec_parse_groups(s, config, prefix, groups, pos0, k + 1, unrec)
            },
            Option::None => spec_parse_groups(s, config, prefix, groups, pos0, k + 1, unrec),
        }
    } else {
        let co = spec_command(s, config, go.group.commands@[m], go.pos, unrec);
        match co.hit {
            Option::Some(hp) => Result::Ok(
                InvokeView::Command {
                    prefix,
                    gprefix: go.gprefix,
                    group: go.group,
                    command: hp.0,
                    args: s.subrange(hp.1, s.len() as int),
                },
            ),
            Option::None => spec_parse_cmds(s, config, prefix, groups, pos0, k, go, m + 1, co.unrec),
        }
    }
}

/// The reserved help-alias scan: the first alias whose literal stands
/// at `pos`.
pub open spec fn help_scan(s: Seq<char>, pos: int, names: Seq<String>, i: int) -> Option<int>
    decreases names.len() - i,
{
    if i < 0 || i >= names.len() {
        Option::None
    } else if lit_at(s, pos, names[i]@) {
        Option::Some(i)
    } else {
        help_scan(s, pos, names, i + 1)
    }
}

pub open spec fn opt_vec_view(h: Option<&Vec<String>>) -> Option<Seq<String>> {
    match h {
        Option::Some(v) => Option::Some(v@),
        Option::None => Option::None,
    }
}

/// The whole command resolution on the text after prefix resolution:
/// leading white space, the help short-circuit, then the group walk.
pub open spec fn spec_parse_command(
    s: Seq<char>,
    prefix: PrefixView,
    groups: Seq<CommandGroup>,
    config: Configuration,
    help: Option<Seq<String>>,
) -> Result<InvokeView, Option<Seq<char>>> {
    let a = ws_end(s, 0);
    match help {
        Option::Some(names) => match help_scan(s, a, names, 0) {
            Option::Some(i) => {
                let e = a + names[i]@.len();
                let b = ws_end(s, e);
                Result::Ok(
                    InvokeView::Help {
                        prefix,
                        name: names[i]@,
                        args: s.subrange(b, s.len() as int),
                    },
                )
            },
            Option::None => spec_parse_groups(s, config, prefix, groups, a, 0, Option::None),
        },
        Option::None => spec_parse_groups(s, config, prefix, groups, a, 0, Option::None),
    }
}

/// Matches one command node at the cursor, advancing past the matched
/// name (and sub-command names) on success and recording the failed
/// window in `unrec` otherwise.
fn match_command<'m, 'g>(
    cur: &mut Cursor<'m>,
    unrec: &mut Option<&'m str>,
    c: &'g Command,
    config: &Configuration,
) -> (r: Option<&'g Command>)
    requires
        old(cur).wf(),
    ensures
        final(cur).wf(),
        final(cur).text == old(cur).text,
        final(cur).len == old(cur).len,
        ({
            let co = spec_command(
                old(cur).text@,
                *config,
                *c,
                old(cur).off as int,
                opt_str_view(*old(unrec)),
            );
            &&& opt_str_view(*final(unrec)) == co.unrec
            &&& match r {
                Option::Some(cc) => co.hit is Some && *cc == co.hit.unwrap().0
                    && final(cur).off as int == co.hit.unwrap().1,
                Option::None => co.hit is None && final(cur).off == old(cur).off,
            }
        }),
    decreases *c,
{
    let ghost s = cur.text@;
    let ghost pos = cur.off as int;
    let ghost unrec0 = opt_str_view(*unrec);
    let n_names = c.names.len();
    let mut i: usize = 0;
    while i < n_names
        invariant
            cur.wf(),
            cur.text == old(cur).text,
            cur.len == old(cur).len,
            cur.off == old(cur).off,
            s == cur.text@,
            pos == cur.off as int,
            unrec0 == opt_str_view(*old(unrec)),
            n_names == c.names@.len(),
            i <= n_names,
            spec_command_names(s, *config, *c, pos, unrec0, 0) == spec_command_names(
                s,
                *config,
                *c,
                pos,
                opt_str_view(*unrec),
                i as int,
            ),
        decreases n_names - i,
    {
        let name = &c.names[i];
        let n = next_text(cur, config, name.unicode_len());
        let f = fold_text(config, n);
        let matched = str_eq(f.as_str(), name.as_str()) && !contains_str_vec(
            &config.disabled_commands,
            f.as_str(),
        );
        if matched {
            proof {
                lemma_token_end_bounds(s, pos);
                assert(pos + n@.len() <= s.len());
            }
            cur.advance(n.unicode_len());
            if config.with_whitespace.commands {
                cur.skip_ws();
                proof {
                    lemma_ws_end_bounds(s, pos + n@.len());
                }
            }
            let ghost p3 = cur.off as int;
            proof {
                assert(spec_command_names(s, *config, *c, pos, opt_str_view(*unrec), i as int)
                    == match spec_command_subs(s, *config, *c, p3, 0) {
                    Option::Some(hp) => CmdOut { hit: Option::Some(hp), unrec: Option::None },
                    Option::None => CmdOut {
                        hit: Option::Some((*c, p3)),
                        unrec: Option::None,
                    },
                });
            }
            let n_subs = c.sub_commands.len();
            let mut j: usize = 0;
            while j < n_subs
                invariant
                    cur.wf(),
                    cur.text == old(cur).text,
                    cur.len == old(cur).len,
                    s == cur.text@,
                    cur.off as int == p3,
                    pos == old(cur).off as int,
                    unrec0 == opt_str_view(*old(unrec)),
                    n_subs == c.sub_commands@.len(),
                    j <= n_subs,
                    spec_command_subs(s, *config, *c, p3, 0) == spec_command_subs(
                        s,
                        *config,
                        *c,
                        p3,
                        j as int,
                    ),
                    spec_command_names(s, *config, *c, pos, unrec0, 0) == (match spec_command_subs(
                        s,
                        *config,
                        *c,
                        p3,
                        0,
                    ) {
                        Option::Some(hp) => CmdOut { hit: Option::Some(hp), unrec: Option::None },
                        Option::None => CmdOut {
                            hit: Option::Some((*c, p3)),
                            unrec: Option::None,
                        },
                    }),
                decreases n_subs - j,
            {
                let sub = &c.sub_commands[j];
                let mut tmp: Option<&'m str> = Option::None;
                let sr = match_command(cur, &mut tmp, sub, config);
                if let Option::Some(cc) = sr {
                    *unrec = Option::None;
                    return Option::Some(cc);
                }
                j += 1;
            }
            *unrec = Option::None;
            return Option::Some(c);
        }
        *unrec = Option::Some(n);
        i += 1;
    }
    Option::None
}

/// Enters one group node at the cursor: tries its required prefixes in
/// declared order, then its sub-groups depth-first; without a prefix
/// match the cursor is left where it stood.
fn match_group<'m, 'g>(
    cur: &mut Cursor<'m>,
    g: &'g CommandGroup,
    config: &Configuration,
) -> (r: (Option<&'m str>, &'g CommandGroup))
    requires
        old(cur).wf(),
    ensures
        final(cur).wf(),
        final(cur).text == old(cur).text,
        final(cur).len == old(cur).len,
        ({
            let go = spec_group(old(cur).text@, *config, *g, old(cur).off as int);
            &&& opt_str_view(r.0) == go.gprefix
            &&& *r.1 == go.group
            &&& final(cur).off as int == go.pos
        }),
    decreases *g,
{
    let ghost s = cur.text@;
    let ghost pos = cur.off as int;
    let np = g.prefixes.len();
    let mut i: usize = 0;
    while i < np
        invariant
            cur.wf(),
            cur.text == old(cur).text,
            cur.len == old(cur).len,
            cur.off == old(cur).off,
            s == cur.text@,
            pos == cur.off as int,
            np == g.prefixes@.len(),
            i <= np,
            spec_group_prefixes(s, *config, *g, pos, 0) == spec_group_prefixes(
                s,
                *config,
                *g,
                pos,
                i as int,
            ),
        decreases np - i,
    {
        let p = &g.prefixes[i];
        let pp = next_text(cur, config, p.unicode_len());
        if str_eq(p.as_str(), pp) {
            proof {
                lemma_token_end_bounds(s, pos);
                assert(pos + pp@.len() <= s.len());
            }
            cur.advance(pp.unicode_len());
            if config.with_whitespace.groups {
                cur.skip_ws();
                proof {
                    lemma_ws_end_bounds(s, pos + pp@.len());
                }
            }
            let ghost p3 = cur.off as int;
            proof {
                assert(spec_group_prefixes(s, *config, *g, pos, i as int) == spec_group_subs(
                    s,
                    *config,
                    *g,
                    pp@,
                    p3,
                    0,
                ));
            }
            let ns = g.sub_groups.len();
            let mut j: usize = 0;
            while j < ns
                invariant
                    cur.wf(),
                    cur.text == old(cur).text,
                    cur.len == old(cur).len,
                    s == cur.text@,
                    cur.off as int == p3,
                    pos == old(cur).off as int,
                    ns == g.sub_groups@.len(),
                    j <= ns,
                    spec_group_prefixes(s, *config, *g, pos, 0) == spec_group_subs(
                        s,
                        *config,
                        *g,
                        pp@,
                        p3,
                        j as int,
                    ),
                decreases ns - j,
            {
                let sub = &g.sub_groups[j];
                let x = match_group(cur, sub, config);
                if x.0.is_some() {
                    return x;
                }
                proof {
                    lemma_group_none(s, *config, *sub, p3, 0);
                }
                j += 1;
            }
            return (Option::Some(pp), g);
        }
        i += 1;
    }
    (Option::None, g)
}

/// Resolves the text after prefix classification against the grammar:
/// the help short-circuit first, then each top-level group in declared
/// order with backtracking, then each group's default command; on
/// failure, the last compared token, if any, as a diagnostic.
pub fn parse_command<'a, 'g>(
    msg: &'a str,
    prefix: Prefix<'a>,
    groups: &'g Vec<CommandGroup>,
    config: &Configuration,
    help_names: Option<&'g Vec<String>>,
) -> (r: Result<Invoke<'a, 'g>, Option<&'a str>>)
    ensures
        res_view(r) == spec_parse_command(
            msg@,
            prefix@,
            groups@,
            *config,
            opt_vec_view(help_names),
        ),
{
    let ghost s = msg@;
    let mut cur = Cursor::new(msg);
    cur.skip_ws();
    proof {
        lemma_ws_end_bounds(s, 0);
    }
    let ghost a = cur.off as int;

    if let Option::Some(names) = help_names {
        let nn = names.len();
        let mut i: usize = 0;
        while i < nn
            invariant
                cur.wf(),
                cur.text == msg,
                s == msg@,
                cur.off as int == a,
                a == ws_end(s, 0),
                nn == names@.len(),
                i <= nn,
                help_names == Option::Some(names),
                help_scan(s, a, names@, 0) == help_scan(s, a, names@, i as int),
            decreases nn - i,
        {
            let name = &names[i];
            if cur.match_literal(name.as_str()) {
                cur.skip_ws();
                proof {
                    lemma_ws_end_bounds(s, a + name@.len());
                }
                let args = cur.remainder();
                return Result::Ok(Invoke::Help { prefix, name, args });
            }
            i += 1;
        }
    }

    let pos0 = cur.position();
    let mut unrec: Option<&'a str> = Option::None;
    let ng = groups.len();
    let mut k: usize = 0;
    while k < ng
        invariant
            cur.wf(),
            cur.text == msg,
            s == msg@,
            cur.off == pos0,
            pos0 as int == a,
            pos0 <= cur.len,
            ng == groups@.len(),
            k <= ng,
            spec_parse_command(s, prefix@, groups@, *config, opt_vec_view(help_names))
                == spec_parse_groups(s, *config, prefix@, groups@, a, 0, Option::None),
            spec_parse_groups(s, *config, prefix@, groups@, a, 0, Option::None)
                == spec_parse_groups(s, *config, prefix@, groups@, a, k as int, opt_str_view(unrec)),
        decreases ng - k,
    {
        let g0 = &groups[k];
        let (gp, g) = match_group(&mut cur, g0, config);
        let ghost go = spec_group(s, *config, groups@[k as int], a);
        proof {
            lemma_group_none(s, *config, groups@[k as int], a, 0);
        }
        if gp.is_none() && g.prefixes.len() > 0 {
            cur.restore(pos0);
            k += 1;
            continue;
        }
        proof {
            assert(spec_parse_groups(s, *config, prefix@, groups@, a, k as int, opt_str_view(unrec))
                == spec_parse_cmds(
                s,
                *config,
                prefix@,
                groups@,
                a,
                k as int,
                go,
                0,
                opt_str_view(unrec),
            ));
        }
        let nc = g.commands.len();
        let mut m: usize = 0;
        while m < nc
            invariant
                cur.wf(),
                cur.text == msg,
                s == msg@,
                cur.off as int == go.pos,
                pos0 as int == a,
                pos0 <= cur.len,
                ng == groups@.len(),
                k < ng,
                nc == g.commands@.len(),
                m <= nc,
                *g == go.group,
                opt_str_view(gp) == go.gprefix,
                go == spec_group(s, *config, groups@[k as int], a),
                !(go.gprefix is None && groups@[k as int].prefixes@.len() > 0),
                spec_parse_command(s, prefix@, groups@, *config, opt_vec_view(help_names))
                    == spec_parse_groups(s, *config, prefix@, groups@, a, 0, Option::None),
                spec_parse_groups(s, *config, prefix@, groups@, a, 0, Option::None)
                    == spec_parse_cmds(
                    s,
                    *config,
                    prefix@,
                    groups@,
                    a,
                    k as int,
                    go,
                    m as int,
                    opt_str_view(unrec),
                ),
            decreases nc - m,
        {
            let cmd = &g.commands[m];
            if let Option::Some(c) = match_command(&mut cur, &mut unrec, cmd, config) {
                let args = cur.remainder();
                return Result::Ok(
                    Invoke::Command { prefix, gprefix: gp, group: g, command: c, args },
                );
            }
            m += 1;
        }
        if let Option::Some(d) = &g.default_command {
            if gp.is_some() {
                let args = cur.remainder();
                return Result::Ok(
                    Invoke::Command { prefix, gprefix: gp, group: g, command: d, args },
                );
            }
        }
        cur.restore(pos0);
        k += 1;
    }
    Result::Err(unrec)
}

} // verus!
