//! A text-command resolution engine for chat-style messages.
//!
//! Given a raw message and a declarative grammar of prefixes, command
//! groups and commands (with nested sub-groups and sub-commands), the
//! engine decides whether the message invokes a command, which prefix
//! form triggered it, which group and command matched, and what trailing
//! argument text remains.

pub mod text;
pub mod cursor;
pub mod grammar;
pub mod prefix;
pub mod matcher;
pub mod laws;

pub use grammar::Command;
pub use grammar::CommandGroup;
pub use grammar::Configuration;
pub use grammar::Invoke;
pub use grammar::Prefix;
pub use grammar::WithWhiteSpace;
pub use prefix::parse_prefix;
pub use matcher::parse_command;
