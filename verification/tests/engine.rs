//! End-to-end scenarios for the resolution engine.

use textcmd::parse_command;
use textcmd::parse_prefix;
use textcmd::Command;
use textcmd::CommandGroup;
use textcmd::Configuration;
use textcmd::Invoke;
use textcmd::Prefix;
use textcmd::WithWhiteSpace;

fn config_with(prefixes: &[&str]) -> Configuration {
    Configuration {
        prefixes: prefixes.iter().map(|s| s.to_string()).collect(),
        on_mention: None,
        by_space: false,
        case_insensitive: false,
        disabled_commands: Vec::new(),
        with_whitespace: WithWhiteSpace { prefixes: false, groups: false, commands: false },
    }
}

fn command(names: &[&str]) -> Command {
    Command {
        names: names.iter().map(|s| s.to_string()).collect(),
        sub_commands: Vec::new(),
    }
}

fn plain_group(commands: Vec<Command>) -> CommandGroup {
    CommandGroup {
        prefixes: Vec::new(),
        commands,
        sub_groups: Vec::new(),
        default_command: None,
    }
}

fn no_dyns() -> Vec<Option<String>> {
    Vec::new()
}

#[test]
fn bang_ping_with_args() {
    let mut config = config_with(&["!"]);
    config.with_whitespace.commands = true;
    let groups = vec![plain_group(vec![command(&["ping"])])];
    let (prefix, rest) = parse_prefix("!ping now please", &config, &no_dyns());
    assert_eq!(prefix, Prefix::Punct("!"));
    assert_eq!(rest, "ping now please");
    match parse_command(rest, prefix, &groups, &config, None) {
        Ok(Invoke::Command { prefix, gprefix, group, command, args }) => {
            assert_eq!(prefix, Prefix::Punct("!"));
            assert!(gprefix.is_none());
            assert!(group.prefixes.is_empty());
            assert_eq!(command.names[0], "ping");
            assert_eq!(args, "now please");
        }
        _ => panic!("expected a command invocation"),
    }
}

#[test]
fn space_after_prefix_skipped() {
    let mut config = config_with(&["!"]);
    config.with_whitespace.prefixes = true;
    let groups = vec![plain_group(vec![command(&["ping"])])];
    let (prefix, rest) = parse_prefix("! ping", &config, &no_dyns());
    assert_eq!(prefix, Prefix::Punct("!"));
    assert_eq!(rest, "ping");
    match parse_command(rest, prefix, &groups, &config, None) {
        Ok(Invoke::Command { command, args, .. }) => {
            assert_eq!(command.names[0], "ping");
            assert_eq!(args, "");
        }
        _ => panic!("expected a command invocation"),
    }
}

#[test]
fn mention_prefix_matches() {
    let mut config = config_with(&["!"]);
    config.on_mention = Some("12345".to_string());
    let groups = vec![plain_group(vec![command(&["ping"])])];
    let (prefix, rest) = parse_prefix("<@12345> ping", &config, &no_dyns());
    assert_eq!(prefix, Prefix::Mention("12345"));
    assert_eq!(rest, "ping");
    match parse_command(rest, prefix, &groups, &config, None) {
        Ok(Invoke::Command { prefix, command, .. }) => {
            assert_eq!(prefix, Prefix::Mention("12345"));
            assert_eq!(command.names[0], "ping");
        }
        _ => panic!("expected a command invocation"),
    }
}

#[test]
fn mention_with_marker_matches() {
    let mut config = config_with(&[]);
    config.on_mention = Some("777".to_string());
    let (prefix, rest) = parse_prefix("<@!777> hello", &config, &no_dyns());
    assert_eq!(prefix, Prefix::Mention("777"));
    assert_eq!(rest, "hello");
}

#[test]
fn mention_wrong_id_falls_through() {
    let mut config = config_with(&[]);
    config.on_mention = Some("99999".to_string());
    let (prefix, rest) = parse_prefix("<@12345> ping", &config, &no_dyns());
    assert_eq!(prefix, Prefix::Absent);
    assert_eq!(rest, "ping");
}

#[test]
fn mention_non_numeric_rejected() {
    let mut config = config_with(&[]);
    config.on_mention = Some("12a45".to_string());
    let (prefix, _rest) = parse_prefix("<@12a45> ping", &config, &no_dyns());
    assert_eq!(prefix, Prefix::Absent);
}

#[test]
fn unknown_command_reports_token() {
    let mut config = config_with(&["!"]);
    config.by_space = true;
    let groups = vec![plain_group(vec![command(&["ping"])])];
    let (prefix, rest) = parse_prefix("!unknown", &config, &no_dyns());
    assert_eq!(prefix, Prefix::Punct("!"));
    match parse_command(rest, prefix, &groups, &config, None) {
        Err(tok) => assert_eq!(tok, Some("unknown")),
        _ => panic!("expected a failure"),
    }
}

#[test]
fn length_mode_reports_window_of_compared_length() {
    let config = config_with(&["!"]);
    let groups = vec![plain_group(vec![command(&["ping"])])];
    let (prefix, rest) = parse_prefix("!unknown", &config, &no_dyns());
    match parse_command(rest, prefix, &groups, &config, None) {
        Err(tok) => assert_eq!(tok, Some("unkn")),
        _ => panic!("expected a failure"),
    }
}

#[test]
fn no_comparison_no_token() {
    let mut config = config_with(&[]);
    config.by_space = true;
    let g = CommandGroup {
        prefixes: vec!["mod".to_string()],
        commands: vec![command(&["kick"])],
        sub_groups: Vec::new(),
        default_command: None,
    };
    let groups = vec![g];
    match parse_command("xyz", Prefix::Absent, &groups, &config, None) {
        Err(tok) => assert!(tok.is_none()),
        _ => panic!("expected a failure"),
    }
}

#[test]
fn case_insensitive_matches_upper() {
    let mut config = config_with(&[]);
    config.case_insensitive = true;
    let groups = vec![plain_group(vec![command(&["ping"])])];
    match parse_command("PING", Prefix::Absent, &groups, &config, None) {
        Ok(Invoke::Command { command, .. }) => assert_eq!(command.names[0], "ping"),
        _ => panic!("expected a command invocation"),
    }
}

#[test]
fn case_insensitive_folds_beyond_ascii() {
    let mut config = config_with(&[]);
    config.case_insensitive = true;
    let groups = vec![plain_group(vec![command(&["\u{e9}cho"])])];
    match parse_command("\u{c9}CHO", Prefix::Absent, &groups, &config, None) {
        Ok(Invoke::Command { command, .. }) => assert_eq!(command.names[0], "\u{e9}cho"),
        _ => panic!("expected a command invocation"),
    }
}

#[test]
fn case_sensitive_rejects_upper() {
    let config = config_with(&[]);
    let groups = vec![plain_group(vec![command(&["ping"])])];
    assert!(parse_command("PING", Prefix::Absent, &groups, &config, None).is_err());
}

#[test]
fn declaration_order_wins_over_length() {
    let config = config_with(&["!", "!!"]);
    let (prefix, rest) = parse_prefix("!!ping", &config, &no_dyns());
    assert_eq!(prefix, Prefix::Punct("!"));
    assert_eq!(rest, "!ping");

    let reordered = config_with(&["!!", "!"]);
    let (prefix, rest) = parse_prefix("!!ping", &reordered, &no_dyns());
    assert_eq!(prefix, Prefix::Punct("!!"));
    assert_eq!(rest, "ping");
}

#[test]
fn dynamic_candidate_beats_static_list() {
    let config = config_with(&["$"]);
    let dyns = vec![None, Some("$$".to_string())];
    let (prefix, rest) = parse_prefix("$$ping", &config, &dyns);
    assert_eq!(prefix, Prefix::Punct("$$"));
    assert_eq!(rest, "ping");
}

#[test]
fn dynamic_candidate_must_match_text() {
    let config = config_with(&["$"]);
    let dyns = vec![Some("%%".to_string())];
    let (prefix, rest) = parse_prefix("$ping", &config, &dyns);
    assert_eq!(prefix, Prefix::Punct("$"));
    assert_eq!(rest, "ping");
}

#[test]
fn disabled_command_unmatchable_sibling_unaffected() {
    let mut config = config_with(&[]);
    config.by_space = true;
    config.disabled_commands = vec!["ping".to_string()];
    let groups = vec![plain_group(vec![command(&["ping"]), command(&["pong"])])];
    assert!(parse_command("ping", Prefix::Absent, &groups, &config, None).is_err());
    match parse_command("pong", Prefix::Absent, &groups, &config, None) {
        Ok(Invoke::Command { command, .. }) => assert_eq!(command.names[0], "pong"),
        _ => panic!("expected a command invocation"),
    }
}

#[test]
fn sub_command_reachable_through_enabled_alias() {
    let mut config = config_with(&[]);
    config.by_space = true;
    config.with_whitespace.commands = true;
    config.disabled_commands = vec!["ping".to_string()];
    let parent = Command {
        names: vec!["ping".to_string(), "p".to_string()],
        sub_commands: vec![command(&["deep"])],
    };
    let groups = vec![plain_group(vec![parent])];
    match parse_command("p deep rest", Prefix::Absent, &groups, &config, None) {
        Ok(Invoke::Command { command, args, .. }) => {
            assert_eq!(command.names[0], "deep");
            assert_eq!(args, "rest");
        }
        _ => panic!("expected a command invocation"),
    }
}

#[test]
fn default_command_fires_only_with_group_prefix() {
    let mut config = config_with(&[]);
    config.by_space = true;
    config.with_whitespace.groups = true;
    let g = CommandGroup {
        prefixes: vec!["mod".to_string()],
        commands: vec![command(&["kick"])],
        sub_groups: Vec::new(),
        default_command: Some(command(&["usage"])),
    };
    let groups = vec![g];
    match parse_command("mod xyz", Prefix::Absent, &groups, &config, None) {
        Ok(Invoke::Command { gprefix, command, args, .. }) => {
            assert_eq!(gprefix, Some("mod"));
            assert_eq!(command.names[0], "usage");
            assert_eq!(args, "xyz");
        }
        _ => panic!("expected the default command"),
    }
    assert!(parse_command("xyz", Prefix::Absent, &groups, &config, None).is_err());
}

#[test]
fn sub_group_supersedes_parent() {
    let mut config = config_with(&[]);
    config.by_space = true;
    config.with_whitespace.groups = true;
    config.with_whitespace.commands = true;
    let sub = CommandGroup {
        prefixes: vec!["b".to_string()],
        commands: vec![command(&["c"])],
        sub_groups: Vec::new(),
        default_command: None,
    };
    let outer = CommandGroup {
        prefixes: vec!["a".to_string()],
        commands: vec![command(&["x"])],
        sub_groups: vec![sub],
        default_command: None,
    };
    let groups = vec![outer];
    match parse_command("a b c tail", Prefix::Absent, &groups, &config, None) {
        Ok(Invoke::Command { gprefix, group, command, args, .. }) => {
            assert_eq!(gprefix, Some("b"));
            assert_eq!(group.prefixes[0], "b");
            assert_eq!(command.names[0], "c");
            assert_eq!(args, "tail");
        }
        _ => panic!("expected a command invocation"),
    }
}

#[test]
fn help_alias_takes_precedence() {
    let config = config_with(&[]);
    let groups = vec![plain_group(vec![command(&["help"])])];
    let help = vec!["help".to_string()];
    match parse_command("help me", Prefix::Absent, &groups, &config, Some(&help)) {
        Ok(Invoke::Help { name, args, .. }) => {
            assert_eq!(name, "help");
            assert_eq!(args, "me");
        }
        _ => panic!("expected the help invocation"),
    }
}

#[test]
fn multi_word_name_by_length_mode() {
    let mut config = config_with(&[]);
    config.with_whitespace.commands = true;
    let groups = vec![plain_group(vec![command(&["two words"])])];
    match parse_command("two words now", Prefix::Absent, &groups, &config, None) {
        Ok(Invoke::Command { command, args, .. }) => {
            assert_eq!(command.names[0], "two words");
            assert_eq!(args, "now");
        }
        _ => panic!("expected a command invocation"),
    }
}

#[test]
fn empty_message_yields_no_prefix() {
    let config = config_with(&["!"]);
    let (prefix, rest) = parse_prefix("", &config, &no_dyns());
    assert_eq!(prefix, Prefix::Absent);
    assert_eq!(rest, "");
}

#[test]
fn resolution_is_repeatable() {
    let mut config = config_with(&["!"]);
    config.by_space = true;
    let groups = vec![plain_group(vec![command(&["ping"])])];
    let (p1, r1) = parse_prefix("!ping again", &config, &no_dyns());
    let (p2, r2) = parse_prefix("!ping again", &config, &no_dyns());
    assert_eq!(p1, p2);
    assert_eq!(r1, r2);
    let a = parse_command(r1, p1, &groups, &config, None);
    let b = parse_command(r2, p2, &groups, &config, None);
    match (a, b) {
        (
            Ok(Invoke::Command { prefix: pa, gprefix: ga, command: ca, args: aa, .. }),
            Ok(Invoke::Command { prefix: pb, gprefix: gb, command: cb, args: ab, .. }),
        ) => {
            assert_eq!(pa, pb);
            assert_eq!(ga, gb);
            assert_eq!(ca.names, cb.names);
            assert_eq!(aa, ab);
        }
        _ => panic!("expected two identical command invocations"),
    }
}
