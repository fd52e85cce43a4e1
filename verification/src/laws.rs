//! General properties of the resolution engine, stated over the same
//! models that the executable functions are proved against.

use vstd::prelude::*;

use crate::grammar::CommandGroup;
use crate::grammar::Command;
use crate::grammar::Configuration;
use crate::grammar::InvokeView;
use crate::grammar::Invoke;
use crate::grammar::PrefixView;
use crate::grammar::res_view;
use crate::matcher::CmdOut;
use crate::matcher::contains_str;
use crate::matcher::fold_v;
use crate::matcher::next_text_v;
use crate::matcher::spec_command;
use crate::matcher::spec_command_names;
use crate::matcher::spec_command_subs;
use crate::matcher::spec_group;
use crate::matcher::GroupOut;
use crate::matcher::spec_parse_cmds;
use crate::matcher::spec_parse_command;
use crate::matcher::spec_parse_groups;
use crate::prefix::dyn_scan;
use crate::prefix::spec_parse_prefix;
use crate::prefix::static_scan;
use crate::text::is_ws;
use crate::text::lemma_ws_end_pin;
use crate::text::lemma_token_end_pin;
use crate::text::lit_at;
use crate::text::token_end;
use crate::text::trim_v;
use crate::text::ws_end;
use crate::text::ws_rbegin;

verus! {

/// Resolution is a pure function of the message, the classified
/// prefix, the grammar and the configuration: any two outcomes that
/// agree with the resolution model on the same inputs are identical,
/// so re-running resolution always yields the same result.
pub proof fn lemma_resolution_deterministic<'a, 'b, 'g, 'h>(
    r1: Result<Invoke<'a, 'g>, Option<&'a str>>,
    r2: Result<Invoke<'b, 'h>, Option<&'b str>>,
    s: Seq<char>,
    prefix: PrefixView,
    groups: Seq<CommandGroup>,
    config: Configuration,
    help: Option<Seq<String>>,
)
    requires
        res_view(r1) == spec_parse_command(s, prefix, groups, config, help),
        res_view(r2) == spec_parse_command(s, prefix, groups, config, help),
    ensures
        res_view(r1) == res_view(r2),
{
}

/// The index of the first prefix, from `i` on, whose text stands at
/// `pos`; the list's length when none does.
pub open spec fn first_lit_idx(s: Seq<char>, pos: int, ps: Seq<String>, i: int) -> int
    decreases ps.len() - i,
{
    if i < 0 || i >= ps.len() {
        ps.len() as int
    } else if lit_at(s, pos, ps[i]@) {
        i
    } else {
        first_lit_idx(s, pos, ps, i + 1)
    }
}

/// The static scan accepts exactly the first prefix in declaration
/// order whose text stands at the position.
pub proof fn lemma_static_scan_is_first(s: Seq<char>, pos: int, ps: Seq<String>, i: int)
    requires
        0 <= i <= ps.len(),
    ensures
        ({
            let w = first_lit_idx(s, pos, ps, i);
            &&& i <= w <= ps.len()
            &&& (w < ps.len() ==> lit_at(s, pos, ps[w]@) && static_scan(s, pos, ps, i)
                == Option::Some(ps[w]@))
            &&& (w == ps.len() ==> static_scan(s, pos, ps, i) is None)
            &&& forall|v: int| i <= v < w ==> !lit_at(s, pos, #[trigger] ps[v]@)
        }),
    decreases ps.len() - i,
{
    if i < ps.len() && !lit_at(s, pos, ps[i]@) {
        lemma_static_scan_is_first(s, pos, ps, i + 1);
    }
}

/// Declaration order is a strict tie-break: whenever an
/// earlier-declared prefix stands at the position, the scan accepts the
/// earliest one that does — never a later one, however much longer.
pub proof fn lemma_prefix_declaration_order(s: Seq<char>, pos: int, ps: Seq<String>, i: int)
    requires
        0 <= i < ps.len(),
        lit_at(s, pos, ps[i]@),
    ensures
        ({
            let w = first_lit_idx(s, pos, ps, 0);
            &&& 0 <= w <= i
            &&& lit_at(s, pos, ps[w]@)
            &&& static_scan(s, pos, ps, 0) == Option::Some(ps[w]@)
            &&& forall|v: int| 0 <= v < w ==> !lit_at(s, pos, #[trigger] ps[v]@)
        }),
{
    lemma_static_scan_is_first(s, pos, ps, 0);
}

/// The diagnostic-token state that matching threads along never
/// influences what matches: only the recorded token differs.
pub proof fn lemma_hit_unrec_independent(
    s: Seq<char>,
    config: Configuration,
    c: Command,
    pos: int,
    u1: Option<Seq<char>>,
    u2: Option<Seq<char>>,
)
    ensures
        spec_command(s, config, c, pos, u1).hit == spec_command(s, config, c, pos, u2).hit,
{
    assert(spec_command(s, config, c, pos, u1) == spec_command_names(s, config, c, pos, u1, 0));
    assert(spec_command(s, config, c, pos, u2) == spec_command_names(s, config, c, pos, u2, 0));
}

/// A command every one of whose aliases folds into the disabled set, or
/// fails to equal its compared window, matches nothing — whatever the
/// position and the diagnostic state. Sibling commands are unaffected:
/// the walk consults each command node through its own match alone.
pub proof fn lemma_disabled_command_unmatchable(
    s: Seq<char>,
    config: Configuration,
    c: Command,
    pos: int,
    unrec: Option<Seq<char>>,
)
    requires
        forall|i: int|
            #![trigger c.names@[i]]
            0 <= i < c.names@.len() ==> contains_str(
                config.disabled_commands@,
                fold_v(config, next_text_v(config, s, pos, c.names@[i]@.len() as int)),
            ),
    ensures
        spec_command(s, config, c, pos, unrec).hit is None,
{
    lemma_disabled_aux(s, config, c, pos, unrec, 0);
}

proof fn lemma_disabled_aux(
    s: Seq<char>,
    config: Configuration,
    c: Command,
    pos: int,
    unrec: Option<Seq<char>>,
    i: int,
)
    requires
        0 <= i,
        forall|v: int|
            #![trigger c.names@[v]]
            0 <= v < c.names@.len() ==> contains_str(
                config.disabled_commands@,
                fold_v(config, next_text_v(config, s, pos, c.names@[v]@.len() as int)),
            ),
    ensures
        spec_command_names(s, config, c, pos, unrec, i).hit is None,
    decreases c.names@.len() - i,
{
    if i < c.names@.len() {
        let name = c.names@[i]@;
        let n = next_text_v(config, s, pos, name.len() as int);
        lemma_disabled_aux(s, config, c, pos, Option::Some(n), i + 1);
    }
}

/// Walking the commands of an entered group when every member command
/// fails: the default command fires exactly when the group's own prefix
/// matched; otherwise the walk moves on to the remaining groups.
proof fn lemma_cmds_all_fail(
    s: Seq<char>,
    config: Configuration,
    prefix: PrefixView,
    groups: Seq<CommandGroup>,
    pos0: int,
    k: int,
    go: GroupOut,
    m: int,
    unrec: Option<Seq<char>>,
)
    requires
        0 <= k < groups.len(),
        0 <= m <= go.group.commands@.len(),
        forall|v: int|
            #![trigger go.group.commands@[v]]
            0 <= v < go.group.commands@.len() ==> spec_command(
                s,
                config,
                go.group.commands@[v],
                go.pos,
                Option::None,
            ).hit is None,
    ensures
        ({
            let r = spec_parse_cmds(s, config, prefix, groups, pos0, k, go, m, unrec);
            if go.group.default_command is Some && go.gprefix is Some {
                r == Result::<InvokeView, Option<Seq<char>>>::Ok(
                    InvokeView::Command {
                        prefix,
                        gprefix: go.gprefix,
                        group: go.group,
                        command: go.group.default_command.unwrap(),
                        args: s.subrange(go.pos, s.len() as int),
                    },
                )
            } else {
                exists|u2: Option<Seq<char>>| r == #[trigger] spec_parse_groups(
                    s,
                    config,
                    prefix,
                    groups,
                    pos0,
                    k + 1,
                    u2,
                )
            }
        }),
    decreases go.group.commands@.len() - m,
{
    if m < go.group.commands@.len() {
        let co = spec_command(s, config, go.group.commands@[m], go.pos, unrec);
        lemma_hit_unrec_independent(s, config, go.group.commands@[m], go.pos, unrec, Option::None);
        lemma_cmds_all_fail(s, config, prefix, groups, pos0, k, go, m + 1, co.unrec);
    } else {
        if !(go.group.default_command is Some && go.gprefix is Some) {
            assert(spec_parse_cmds(s, config, prefix, groups, pos0, k, go, m, unrec)
                == spec_parse_groups(s, config, prefix, groups, pos0, k + 1, unrec));
        }
    }
}

/// A default command fires if and only if the owning group's prefix
/// matched and no member command did: with the prefix matched the walk
/// stops at the default invocation; without it the walk moves on to the
/// remaining groups and this group produces nothing.
pub proof fn lemma_default_command(
    s: Seq<char>,
    config: Configuration,
    prefix: PrefixView,
    groups: Seq<CommandGroup>,
    pos0: int,
    k: int,
    unrec: Option<Seq<char>>,
)
    requires
        0 <= k < groups.len(),
        ({
            let go = spec_group(s, config, groups[k], pos0);
            forall|v: int|
                #![trigger go.group.commands@[v]]
                0 <= v < go.group.commands@.len() ==> spec_command(
                    s,
                    config,
                    go.group.commands@[v],
                    go.pos,
                    Option::None,
                ).hit is None
        }),
    ensures
        ({
            let go = spec_group(s, config, groups[k], pos0);
            let r = spec_parse_groups(s, config, prefix, groups, pos0, k, unrec);
            &&& (go.gprefix is Some && go.group.default_command is Some ==> r
                == Result::<InvokeView, Option<Seq<char>>>::Ok(
                InvokeView::Command {
                    prefix,
                    gprefix: go.gprefix,
                    group: go.group,
                    command: go.group.default_command.unwrap(),
                    args: s.subrange(go.pos, s.len() as int),
                },
            ))
            &&& (!(go.gprefix is Some && go.group.default_command is Some) ==> exists|
                u2: Option<Seq<char>>,
            |
                r == #[trigger] spec_parse_groups(s, config, prefix, groups, pos0, k + 1, u2))
        }),
{
    let go = spec_group(s, config, groups[k], pos0);
    if go.gprefix is None && groups[k].prefixes@.len() > 0 {
        assert(spec_parse_groups(s, config, prefix, groups, pos0, k, unrec)
            == spec_parse_groups(s, config, prefix, groups, pos0, k + 1, unrec));
    } else {
        lemma_cmds_all_fail(s, config, prefix, groups, pos0, k, go, 0, unrec);
    }
}

/// A message of the form "prefix, one space, command name" resolves to
/// that prefix and that command with empty arguments, whenever the
/// prefix is the one the static scan accepts there, the name (free of
/// white space) heads the first command of a prefix-less first group,
/// and neither mentions, dynamic candidates, case folding nor the
/// disabled set interfere.
pub proof fn lemma_static_prefix_resolves(
    msg: Seq<char>,
    config: Configuration,
    dyns: Seq<Option<String>>,
    groups: Seq<CommandGroup>,
    p: Seq<char>,
    name: Seq<char>,
)
    requires
        config.on_mention is None,
        dyns.len() == 0,
        !config.case_insensitive,
        config.prefixes@.len() > 0,
        static_scan(msg, 0, config.prefixes@, 0) == Option::Some(p),
        msg == p + seq![' '] + name,
        p.len() > 0,
        !is_ws(p[0]),
        name.len() > 0,
        forall|k: int| 0 <= k < name.len() ==> !is_ws(name[k]),
        groups.len() > 0,
        groups[0].prefixes@.len() == 0,
        groups[0].commands@.len() > 0,
        groups[0].commands@[0].names@.len() > 0,
        groups[0].commands@[0].names@[0]@ == name,
        groups[0].commands@[0].sub_commands@.len() == 0,
        !contains_str(config.disabled_commands@, name),
    ensures
        spec_parse_prefix(msg, config, dyns) == (PrefixView::Punct(p), name),
        spec_parse_command(name, PrefixView::Punct(p), groups, config, Option::None)
            == Result::<InvokeView, Option<Seq<char>>>::Ok(
            InvokeView::Command {
                prefix: PrefixView::Punct(p),
                gprefix: Option::None,
                group: groups[0],
                command: groups[0].commands@[0],
                args: Seq::<char>::empty(),
            },
        ),
{
    let pl = p.len() as int;
    let nl = name.len() as int;
    assert(msg.len() == pl + 1 + nl);
    assert(msg[0] == p[0]);
    assert(msg[pl] == ' ');
    assert forall|k: int| 0 <= k < nl implies msg[pl + 1 + k] == name[k] by {
        assert(msg[pl + 1 + k] == name[k]);
    }

    // The prefix resolver: no leading white space, no mention, the
    // static scan accepts p.
    assert(ws_end(msg, 0) == 0);
    assert(dyn_scan(msg, 0, dyns, 0) is None);

    // After the prefix: one space, then the name to the end.
    assert(is_ws(msg[pl]));
    assert(!is_ws(msg[pl + 1]));
    lemma_ws_end_pin(msg, pl, pl + 1);
    assert(ws_end(msg, pl) == pl + 1);

    assert(msg.subrange(pl + 1, msg.len() as int) =~= name);
    let t = msg.subrange(pl, msg.len() as int);
    assert(t.len() == 1 + nl);
    assert(t[0] == ' ');
    assert forall|k: int| 0 <= k < nl implies t[1 + k] == name[k] by {
        assert(t[1 + k] == msg[pl + 1 + k]);
    }

    // Trimming the remainder yields the bare name in either white-space
    // mode.
    assert(!is_ws(name[0]));
    assert(ws_end(name, 0) == 0);
    assert(!is_ws(name[nl - 1]));
    assert(ws_rbegin(name, nl) == nl);
    assert(trim_v(name) =~= name);

    assert(!is_ws(t[1]));
    lemma_ws_end_pin(t, 0, 1);
    assert(ws_end(t, 0) == 1);
    assert(!is_ws(t[t.len() - 1]));
    assert(ws_rbegin(t, t.len() as int) == t.len() as int);
    assert(t.subrange(1, t.len() as int) =~= name);
    assert(trim_v(t) =~= name);

    assert(spec_parse_prefix(msg, config, dyns) == (PrefixView::Punct(p), name));

    // The matcher: the name is the whole remaining text, whichever
    // matching mode is configured.
    assert(ws_end(name, nl) == nl);
    lemma_token_end_pin(name, 0, nl);
    assert(token_end(name, 0) == nl);
    assert(name.subrange(0, nl) =~= name);
    let n = next_text_v(config, name, 0, nl);
    assert(n == name);
    let cmd = groups[0].commands@[0];
    assert(fold_v(config, n) == name);
    assert(spec_command_subs(name, config, cmd, nl, 0) is None);
    assert(spec_command(name, config, cmd, 0, Option::None) == CmdOut {
        hit: Option::Some((cmd, nl)),
        unrec: Option::<Seq<char>>::None,
    });

    let go = spec_group(name, config, groups[0], 0);
    assert(go == GroupOut { gprefix: Option::<Seq<char>>::None, group: groups[0], pos: 0int });
    assert(name.subrange(nl, nl) =~= Seq::<char>::empty());
    assert(spec_parse_cmds(
        name,
        config,
        PrefixView::Punct(p),
        groups,
        0,
        0,
        go,
        0,
        Option::None,
    ) == Result::<InvokeView, Option<Seq<char>>>::Ok(
        InvokeView::Command {
            prefix: PrefixView::Punct(p),
            gprefix: Option::None,
            group: groups[0],
            command: cmd,
            args: Seq::<char>::empty(),
        },
    ));
}

} // verus!
