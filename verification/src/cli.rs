//! The interactive command line.

use std::sync::Arc;

use vstd::prelude::*;

use crate::commands::diag::DiagCommand;
use crate::commands::get_info::GetInfoCommand;
use crate::commands::hello::HelloCommand;
use crate::commands::help::{self, HelpCommand};
use crate::commands::nodes::NodesCommand;
use crate::commands::pnp::PnpListCommand;
use crate::commands::{self, Command, CommandRegistry, Entry};
use crate::text;
use crate::transport::TransportHandle;

verus! {

/// Whether the registered command is called, describes itself and answers as
/// `command` does.
pub open spec fn acts_as<C: Command>(entry: Entry, command: C) -> bool {
    &&& entry.command.name_text() == command.name_text()
    &&& entry.command.description_text() == command.description_text()
    &&& forall|args: Seq<Seq<char>>, answer: Seq<char>|
        entry.command.may_answer(args, answer) == command.may_answer(args, answer)
}

/// The names of the built-in commands.
pub open spec fn is_built_in(name: Seq<char>) -> bool {
    ||| name == "diag"@
    ||| name == "get-info"@
    ||| name == "hello"@
    ||| name == "help"@
    ||| name == "nodes"@
    ||| name == "pnp-list"@
}

/// Register all built-in commands into the registry.
pub fn register_defaults(registry: &mut CommandRegistry, handles: Arc<Vec<TransportHandle>>)
    requires
        old(registry).is_valid(),
    ensures
        final(registry).is_valid(),
        forall|name: Seq<char>| #[trigger]
            final(registry).registered().contains_key(name) <==> {
                ||| is_built_in(name)
                ||| old(registry).registered().contains_key(name)
            },
        forall|name: Seq<char>|
            !is_built_in(name) && old(registry).registered().contains_key(name) ==> (
            #[trigger] final(registry).registered()[name]) == old(registry).registered()[name],
        acts_as(final(registry).registered()["diag"@], DiagCommand { handles }),
        acts_as(final(registry).registered()["get-info"@], GetInfoCommand { handles }),
        acts_as(final(registry).registered()["hello"@], HelloCommand),
        acts_as(final(registry).registered()["help"@], HelpCommand),
        acts_as(final(registry).registered()["nodes"@], NodesCommand { handles }),
        acts_as(final(registry).registered()["pnp-list"@], PnpListCommand { handles }),
{
    registry.register(Box::new(DiagCommand::new(handles.clone())));
    registry.register(Box::new(HelloCommand));
    registry.register(Box::new(HelpCommand));
    registry.register(Box::new(NodesCommand::new(handles.clone())));
    registry.register(Box::new(GetInfoCommand::new(handles.clone())));
    registry.register(Box::new(PnpListCommand::new(handles)));
    proof {
        reveal_strlit("diag");
        reveal_strlit("get-info");
        reveal_strlit("hello");
        reveal_strlit("help");
        reveal_strlit("nodes");
        reveal_strlit("pnp-list");
        assert("diag"@.len() == 4 && "help"@.len() == 4 && "diag"@[0] != "help"@[0]);
        assert("hello"@.len() == 5 && "nodes"@.len() == 5 && "hello"@[0] != "nodes"@[0]);
        assert("get-info"@.len() == 8 && "pnp-list"@.len() == 8 && "get-info"@[0]
            != "pnp-list"@[0]);
    }
}

/// What the REPL does about an input line.
pub enum ReplAction {
    /// Nothing; the line is blank.
    Ignore,
    /// Take leave and stop.
    Goodbye,
    /// Print an answer.
    Print(String),
}

/// What comes of an input line.
pub struct ReplStep {
    /// The line as it is remembered, without the whitespace around it.
    pub entry: String,
    pub action: ReplAction,
}

/// Whether `action` is what an input line asks for.
pub open spec fn is_asked_for(
    registry: &CommandRegistry,
    line: Seq<char>,
    action: ReplAction,
) -> bool {
    let trimmed = text::trim(line);
    if trimmed.len() == 0 {
        action is Ignore
    } else if trimmed == "quit"@ || trimmed == "exit"@ {
        action is Goodbye
    } else if trimmed == "help"@ {
        &&& action matches ReplAction::Print(answer)
        &&& exists|entries: Seq<(&str, &str)>| #[trigger]
            commands::is_list(entries, registry.registered()) && answer@ == text::trim_end(
                "Available commands:\n"@ + help::help_lines(entries),
            )
    } else {
        match action {
            ReplAction::Print(answer) => commands::dispatched(
                registry.registered(),
                trimmed,
                Some(answer),
            ),
            ReplAction::Ignore => commands::dispatched(registry.registered(), trimmed, None),
            ReplAction::Goodbye => false,
        }
    }
}

/// Decide what to do about an input line.
pub fn repl_step(registry: &CommandRegistry, line: &str) -> (step: ReplStep)
    requires
        registry.is_valid(),
    ensures
        step.entry@ == text::trim(line@),
        is_asked_for(registry, line@, step.action),
{
    let entry = text::trim_string(line);
    let trimmed = entry.as_str();
    proof {
        reveal_strlit("");
        assert(trimmed@.len() == 0 ==> trimmed@ =~= ""@);
    }
    let action = if text::same_text(trimmed, "") {
        ReplAction::Ignore
    } else if text::same_text(trimmed, "quit") || text::same_text(trimmed, "exit") {
        ReplAction::Goodbye
    } else if text::same_text(trimmed, "help") {
        let entries = registry.list();
        assert(commands::is_list(entries@, registry.registered()));
        ReplAction::Print(help::format_help(entries.as_slice()))
    } else {
        match registry.dispatch(trimmed) {
            Some(answer) => ReplAction::Print(answer),
            None => ReplAction::Ignore,
        }
    };
    ReplStep { entry, action }
}

// ─── laws ────────────────────────────────────────────────────────────────────

/// The REPL is left by the words `quit` and `exit`, with or without whitespace around
/// them, and by nothing else; a blank line does nothing; and any other line is answered.
pub proof fn lines_are_acted_on(
    registry: &CommandRegistry,
    before: Seq<char>,
    entry: Seq<char>,
    after: Seq<char>,
    action: ReplAction,
)
    requires
        is_asked_for(registry, before + entry + after, action),
        entry.len() > 0,
        !text::is_space(entry[0]),
        !text::is_space(entry.last()),
        forall|i: int| 0 <= i < before.len() ==> text::is_space(#[trigger] before[i]),
        forall|i: int| 0 <= i < after.len() ==> text::is_space(#[trigger] after[i]),
    ensures
        action is Goodbye <==> entry == "quit"@ || entry == "exit"@,
        !(action is Ignore),
        action matches ReplAction::Print(answer) ==> entry == "help"@ || commands::dispatched(
            registry.registered(),
            entry,
            Some(answer),
        ),
        entry == "help"@ ==> (action matches ReplAction::Print(answer) && forall|name: Seq<char>|
            #[trigger] registry.registered().contains_key(name) ==> exists|full: Seq<char>|
                answer@ == text::trim_end(full) && #[trigger] text::has_part(
                    full,
                    "  "@ + (text::pad_right(name, 16) + (" "@ + (
                    registry.registered()[name].command.description_text() + "\n"@))),
                )),
{
    text::whitespace_around_is_trimmed(before, entry, after);
    reveal_strlit("quit");
    reveal_strlit("exit");
    reveal_strlit("help");
    assert("help"@[0] != "quit"@[0] && "help"@[0] != "exit"@[0]);
    text::blank_has_no_words(entry);
    if entry == "help"@ {
        help_shows_commands(registry, action->Print_0@);
    }
}

proof fn help_shows_commands(registry: &CommandRegistry, answer: Seq<char>)
    requires
        exists|entries: Seq<(&str, &str)>| #[trigger]
            commands::is_list(entries, registry.registered()) && answer == text::trim_end(
                "Available commands:\n"@ + help::help_lines(entries),
            ),
    ensures
        forall|name: Seq<char>| #[trigger]
            registry.registered().contains_key(name) ==> exists|full: Seq<char>|
                answer == text::trim_end(full) && #[trigger] text::has_part(
                    full,
                    "  "@ + (text::pad_right(name, 16) + (" "@ + (
                    registry.registered()[name].command.description_text() + "\n"@))),
                ),
{
    let entries = choose|entries: Seq<(&str, &str)>| #[trigger]
        commands::is_list(entries, registry.registered()) && answer == text::trim_end(
            "Available commands:\n"@ + help::help_lines(entries),
        );
    let full = "Available commands:\n"@ + help::help_lines(entries);
    assert forall|name: Seq<char>| #[trigger] registry.registered().contains_key(name) implies exists|
        full: Seq<char>,
    |
        answer == text::trim_end(full) && #[trigger] text::has_part(
            full,
            "  "@ + (text::pad_right(name, 16) + (" "@ + (
            registry.registered()[name].command.description_text() + "\n"@))),
        ) by {
        let i = choose|i: int| 0 <= i < entries.len() && (#[trigger] entries[i]).0@ == name;
        help::commands_are_shown(entries, i);
        let part = "  "@ + (text::pad_right(name, 16) + (" "@ + (
        registry.registered()[name].command.description_text() + "\n"@)));
        text::ends_stay("Available commands:\n"@, help::help_lines(entries), part);
        assert(text::has_part(full, part));
    }
}

} // verus!
