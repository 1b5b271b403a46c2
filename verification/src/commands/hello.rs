//! The `hello` command.

use vstd::prelude::*;

use crate::commands::Command;

verus! {

/// Prints a friendly "hello" message.
pub struct HelloCommand;

impl Command for HelloCommand {
    open spec fn name_text(&self) -> Seq<char> {
        "hello"@
    }

    open spec fn description_text(&self) -> Seq<char> {
        "Print a greeting"@
    }

    open spec fn may_answer(&self, args: Seq<Seq<char>>, answer: Seq<char>) -> bool {
        answer == "hello"@
    }

    fn name(&self) -> (name: &'static str) {
        "hello"
    }

    fn description(&self) -> (description: &'static str) {
        "Print a greeting"
    }

    fn execute(&self, _args: &[&str]) -> (answer: String) {
        "hello".to_owned()
    }
}

} // verus!
