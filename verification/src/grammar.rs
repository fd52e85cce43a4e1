//! The grammar tree and the resolution results: per-resolution
//! configuration, command and group nodes, the classified prefix, and
//! the structured invocation.

use vstd::prelude::*;

verus! {

/// The per-category "skip white space after a match" options.
#[derive(Debug, Clone)]
pub struct WithWhiteSpace {
    /// After an accepted message prefix.
    pub prefixes: bool,
    /// After an accepted group prefix.
    pub groups: bool,
    /// After an accepted command name.
    pub commands: bool,
}

/// Immutable per-resolution settings. The grammar is read-only during a
/// single resolution.
#[derive(Debug, Clone)]
pub struct Configuration {
    /// Static prefix strings, tried in declared order.
    pub prefixes: Vec<String>,
    /// The addressing-mention identifier, if mention addressing is on.
    pub on_mention: Option<String>,
    /// Whether names are matched against the next whitespace-delimited
    /// token rather than a window of the name's exact character count.
    pub by_space: bool,
    /// Whether command names are compared after lowercasing the message
    /// text.
    pub case_insensitive: bool,
    /// Command names that must not match, checked against the compared
    /// (possibly lowercased) text.
    pub disabled_commands: Vec<String>,
    /// The white-space consumption options.
    pub with_whitespace: WithWhiteSpace,
}

/// A command node: name aliases tried in declared order, and
/// sub-commands tried depth-first once a name matched.
#[derive(Debug)]
pub struct Command {
    pub names: Vec<String>,
    pub sub_commands: Vec<Command>,
}

/// A group node: required prefixes (empty means always active), member
/// commands, sub-groups, and an optional default command for when the
/// group's prefix matched but no member command did.
#[derive(Debug)]
pub struct CommandGroup {
    pub prefixes: Vec<String>,
    pub commands: Vec<Command>,
    pub sub_groups: Vec<CommandGroup>,
    pub default_command: Option<Command>,
}

/// How the message addressed the engine: a punctuation prefix, an
/// addressing mention, or nothing.
#[derive(Debug, Clone, Copy, PartialEq, Eq)]
pub enum Prefix<'a> {
    Punct(&'a str),
    Mention(&'a str),
    Absent,
}

/// The structured result of a successful resolution.
#[derive(Debug)]
pub enum Invoke<'a, 'g> {
    Command {
        prefix: Prefix<'a>,
        /// The matched group-prefix text, if the group required one.
        gprefix: Option<&'a str>,
        group: &'g CommandGroup,
        command: &'g Command,
        args: &'a str,
    },
    Help { prefix: Prefix<'a>, name: &'g String, args: &'a str },
}

/// The view of a classified prefix: the same shape over character
/// sequences.
pub enum PrefixView {
    Punct(Seq<char>),
    Mention(Seq<char>),
    Absent,
}

impl View for Prefix<'_> {
    type V = PrefixView;

    open spec fn view(&self) -> PrefixView {
        match *self {
            Prefix::Punct(s) => PrefixView::Punct(s@),
            Prefix::Mention(s) => PrefixView::Mention(s@),
            Prefix::Absent => PrefixView::Absent,
        }
    }
}

/// The view of an invocation: grammar nodes by value, text by view.
pub enum InvokeView {
    Command {
        prefix: PrefixView,
        gprefix: Option<Seq<char>>,
        group: CommandGroup,
        command: Command,
        args: Seq<char>,
    },
    Help { prefix: PrefixView, name: Seq<char>, args: Seq<char> },
}

pub open spec fn opt_str_view(o: Option<&str>) -> Option<Seq<char>> {
    match o {
        Option::Some(s) => Option::Some(s@),
        Option::None => Option::None,
    }
}

impl View for Invoke<'_, '_> {
    type V = InvokeView;

    open spec fn view(&self) -> InvokeView {
        match *self {
            Invoke::Command { prefix, gprefix, group, command, args } => InvokeView::Command {
                prefix: prefix@,
                gprefix: opt_str_view(gprefix),
                group: *group,
                command: *command,
                args: args@,
            },
            Invoke::Help { prefix, name, args } => InvokeView::Help {
                prefix: prefix@,
                name: name@,
                args: args@,
            },
        }
    }
}

/// The view of a whole resolution outcome.
pub open spec fn res_view<'a, 'g>(r: Result<Invoke<'a, 'g>, Option<&'a str>>) -> Result<
    InvokeView,
    Option<Seq<char>>,
> {
    match r {
        Result::Ok(inv) => Result::Ok(inv@),
        Result::Err(u) => Result::Err(opt_str_view(u)),
    }
}

} // verus!
