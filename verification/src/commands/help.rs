//! The `help` command.

use vstd::prelude::*;

use crate::commands::Command;
use crate::text;

verus! {

/// Displays the list of available commands.
pub struct HelpCommand;

impl Command for HelpCommand {
    open spec fn name_text(&self) -> Seq<char> {
        "help"@
    }

    open spec fn description_text(&self) -> Seq<char> {
        "List available commands"@
    }

    open spec fn may_answer(&self, args: Seq<Seq<char>>, answer: Seq<char>) -> bool {
        answer == "Use the REPL to see available commands."@
    }

    fn name(&self) -> (name: &'static str) {
        "help"
    }

    fn description(&self) -> (description: &'static str) {
        "List available commands"
    }

    /// The REPL handles `help` itself, so that it can show the live registry
    /// listing.
    fn execute(&self, _args: &[&str]) -> (answer: String) {
        "Use the REPL to see available commands.".to_owned()
    }
}

/// The lines of the help text.
pub open spec fn help_lines(entries: Seq<(&str, &str)>) -> Seq<char>
    decreases entries.len(),
{
    if entries.len() == 0 {
        Seq::empty()
    } else {
        help_lines(entries.drop_last()) + "  "@ + text::pad_right(entries.last().0@, 16) + " "@
            + entries.last().1@ + "\n"@
    }
}

/// Generate the help text from a registry listing.
pub fn format_help(entries: &[(&str, &str)]) -> (output: String)
    ensures
        output@ == text::trim_end("Available commands:\n"@ + help_lines(entries@)),
{
    let mut output = String::new();
    output.append("Available commands:\n");
    let mut i: usize = 0;
    assert(entries@.take(0) =~= Seq::<(&str, &str)>::empty());
    assert(output@ =~= "Available commands:\n"@ + help_lines(entries@.take(0)));
    while i < entries.len()
        invariant
            i <= entries@.len(),
            output@ == "Available commands:\n"@ + help_lines(entries@.take(i as int)),
        decreases entries@.len() - i,
    {
        let ghost before = output@;
        let (name, description) = entries[i];
        output.append("  ");
        text::push_padded(&mut output, name, 16);
        output.append(" ");
        output.append(description);
        output.append("\n");
        proof {
            assert(entries@.take(i + 1).drop_last() =~= entries@.take(i as int));
            assert(entries@.take(i + 1).last() == entries@[i as int]);
            assert(output@ =~= "Available commands:\n"@ + help_lines(entries@.take(i + 1)));
        }
        i = i + 1;
    }
    assert(entries@.take(i as int) =~= entries@);
    text::trim_end_string(output.as_str())
}

/// The help text shows each command on a line with its name and description.
pub proof fn commands_are_shown(entries: Seq<(&str, &str)>, i: int)
    requires
        0 <= i < entries.len(),
    ensures
        text::has_part(
            help_lines(entries),
            "  "@ + (text::pad_right(entries[i].0@, 16) + (" "@ + (entries[i].1@ + "\n"@))),
        ),
    decreases entries.len(),
{
    let before = help_lines(entries.drop_last());
    let a = "  "@;
    let b = text::pad_right(entries.last().0@, 16);
    let c = " "@;
    let d = entries.last().1@;
    let e = "\n"@;
    let part = "  "@ + (text::pad_right(entries[i].0@, 16) + (" "@ + (entries[i].1@ + "\n"@)));
    if i == entries.len() - 1 {
        regrouped(before, a, b, c, d, e);
        text::texts_have_themselves(part);
        text::ends_stay(before, part, part);
    } else {
        commands_are_shown(entries.drop_last(), i);
        text::parts_stay(before, a, part);
        text::parts_stay(before + a, b, part);
        text::parts_stay(before + a + b, c, part);
        text::parts_stay(before + a + b + c, d, part);
        text::parts_stay(before + a + b + c + d, e, part);
    }
}

proof fn regrouped(
    before: Seq<char>,
    a: Seq<char>,
    b: Seq<char>,
    c: Seq<char>,
    d: Seq<char>,
    e: Seq<char>,
)
    ensures
        before + a + b + c + d + e == before + (a + (b + (c + (d + e)))),
{
    assert(before + a + b + c + d + e =~= before + (a + (b + (c + (d + e)))));
}

} // verus!
