//! The commands of the REPL.

pub mod diag;
pub mod get_info;
pub mod hello;
pub mod help;
pub mod nodes;
pub mod pnp;
pub mod select;

use vstd::prelude::*;

use crate::text;

verus! {

/// A command that can be registered with and executed via the [`CommandRegistry`].
pub trait Command: Send + Sync {
    /// The name. Nothing is known of the name of a command that does not state it.
    open spec fn name_text(&self) -> Seq<char> {
        arbitrary()
    }

    /// The description. Nothing is known of the description of a command that does
    /// not state it.
    open spec fn description_text(&self) -> Seq<char> {
        arbitrary()
    }

    /// Whether the command may answer so when it is executed with the arguments. A
    /// command that does not state it may answer anything.
    open spec fn may_answer(&self, args: Seq<Seq<char>>, answer: Seq<char>) -> bool {
        true
    }

    /// The primary name used to invoke this command.
    fn name(&self) -> (name: &'static str)
        ensures
            name@ == self.name_text(),
    ;

    /// A short human-readable description shown in help output.
    fn description(&self) -> (description: &'static str)
        ensures
            description@ == self.description_text(),
    ;

    /// Execute the command with the given arguments and return output text.
    fn execute(&self, args: &[&str]) -> (answer: String)
        ensures
            self.may_answer(text::views(args@), answer@),
    ;
}

/// What the registry holds for a command.
pub struct Held<C> {
    pub command: C,
}

/// A registered command.
pub type Entry = Held<Box<dyn Command>>;

/// Whether the names of the commands ascend, so that no name occurs twice.
pub open spec fn is_sorted(commands: Seq<Entry>) -> bool {
    forall|i: int, j: int|
        0 <= i < j < commands.len() ==> text::text_lt(
            (#[trigger] commands[i]).command.name_text(),
            (#[trigger] commands[j]).command.name_text(),
        )
}

/// Whether the command at position `i` has the name.
pub open spec fn is_named(commands: Seq<Entry>, i: int, name: Seq<char>) -> bool {
    0 <= i < commands.len() && commands[i].command.name_text() == name
}

/// The commands by their names.
pub open spec fn by_name(commands: Seq<Entry>) -> Map<Seq<char>, Entry> {
    Map::new(
        |name: Seq<char>| exists|i: int| is_named(commands, i, name),
        |name: Seq<char>| commands[choose|i: int| is_named(commands, i, name)],
    )
}

/// Registry that holds all registered commands and dispatches input lines to them.
pub struct CommandRegistry {
    /// In the order of their names.
    commands: Vec<Entry>,
}

/// What is said about a command that is not registered.
pub open spec fn unknown_command(name: Seq<char>) -> Seq<char> {
    "Unknown command: '"@ + name + "'.  Type 'help' for available commands."@
}

/// Whether the pairs of name and description list the commands in the order of
/// their names.
pub open spec fn is_list(
    entries: Seq<(&str, &str)>,
    commands: Map<Seq<char>, Entry>,
) -> bool {
    &&& forall|i: int, j: int|
        0 <= i < j < entries.len() ==> text::text_lt(
            (#[trigger] entries[i]).0@,
            (#[trigger] entries[j]).0@,
        )
    &&& forall|i: int|
        0 <= i < entries.len() ==> commands.contains_key((#[trigger] entries[i]).0@)
            && entries[i].1@ == commands[entries[i].0@].command.description_text()
    &&& forall|name: Seq<char>| #[trigger]
        commands.contains_key(name) ==> exists|i: int|
            0 <= i < entries.len() && (#[trigger] entries[i]).0@ == name
}

impl CommandRegistry {
    /// Whether the commands are in order.
    pub closed spec fn is_valid(&self) -> bool {
        is_sorted(self.commands@)
    }

    /// The registered commands by their names.
    pub closed spec fn registered(&self) -> Map<Seq<char>, Entry> {
        by_name(self.commands@)
    }

    /// Create a new, empty registry.
    pub fn new() -> (registry: Self)
        ensures
            registry.is_valid(),
            registry.registered() == Map::<Seq<char>, Entry>::empty(),
    {
        let registry = CommandRegistry { commands: Vec::new() };
        assert(by_name(registry.commands@) =~= Map::empty());
        registry
    }

    /// Register a command.  The command is keyed by [`Command::name`], and takes the
    /// place of one with the same name.
    pub fn register(&mut self, cmd: Box<dyn Command>)
        requires
            old(self).is_valid(),
        ensures
            final(self).is_valid(),
            final(self).registered()[cmd.name_text()].command == cmd,
            final(self).registered() == old(self).registered().insert(
                cmd.name_text(),
                final(self).registered()[cmd.name_text()],
            ),
    {
        let entry = Held { command: cmd };
        self.hold(entry);
    }

    /// Register a command that is held already, as
    /// [`register`](CommandRegistry::register) does.
    pub fn hold(&mut self, entry: Entry)
        requires
            old(self).is_valid(),
        ensures
            final(self).is_valid(),
            final(self).registered() == old(self).registered().insert(
                entry.command.name_text(),
                entry,
            ),
    {
        let ghost before = self.commands@;
        let ghost added = entry;
        let name = entry.command.name();
        let at: usize = self.position(name);
        if at < self.commands.len() && text::same_text(self.commands[at].command.name(), name) {
            self.commands.set(at, entry);
            proof {
                assert(self.commands@ == before.update(at as int, added));
                replaced_by_name(before, at as int, added);
            }
        } else {
            proof {
                if at < before.len() {
                    text::text_lt_is_total(before[at as int].command.name_text(), name@);
                }
            }
            self.commands.insert(at, entry);
            proof {
                assert(self.commands@ == before.insert(at as int, added));
                inserted_by_name(before, at as int, added);
            }
        }
    }

    /// Where a command with the name stands or would stand.
    fn position(&self, name: &str) -> (at: usize)
        requires
            self.is_valid(),
        ensures
            at <= self.commands@.len(),
            forall|i: int|
                0 <= i < at ==> text::text_lt(
                    (#[trigger] self.commands@[i]).command.name_text(),
                    name@,
                ),
            at < self.commands@.len() ==> !text::text_lt(
                self.commands@[at as int].command.name_text(),
                name@,
            ),
    {
        let mut at: usize = 0;
        while at < self.commands.len()
            invariant
                at <= self.commands@.len(),
                forall|i: int|
                    0 <= i < at ==> text::text_lt(
                        (#[trigger] self.commands@[i]).command.name_text(),
                        name@,
                    ),
            decreases self.commands@.len() - at,
        {
            if !text::text_before(self.commands[at].command.name(), name) {
                return at;
            }
            at = at + 1;
        }
        at
    }

    /// Dispatch a raw input line.  Returns `None` when the line is empty.
    ///
    /// The first word names the command, and the others are its arguments.
    pub fn dispatch(&self, line: &str) -> (answer: Option<String>)
        requires
            self.is_valid(),
        ensures
            dispatched(self.registered(), line@, answer),
    {
        let parts = text::split_words(line);
        assert(text::views(parts@).len() == parts@.len());
        if parts.len() == 0 {
            return None;
        }
        let name = parts[0];
        assert(text::words(line@)[0] == name@);
        let args = vstd::slice::slice_subrange(parts.as_slice(), 1, parts.len());
        assert(text::views(args@) =~= text::words(line@).skip(1));
        let at: usize = self.position(name);
        if at < self.commands.len() && text::same_text(self.commands[at].command.name(), name) {
            proof {
                found_by_name(self.commands@, at as int);
            }
            return Some(self.commands[at].command.execute(args));
        }
        proof {
            missing_by_name(self.commands@, at as int, name@);
        }
        let mut answer = String::new();
        answer.append("Unknown command: '");
        answer.append(name);
        answer.append("'.  Type 'help' for available commands.");
        Some(answer)
    }

    /// Return a sorted list of (name, description) pairs for every registered command.
    pub fn list(&self) -> (entries: Vec<(&'static str, &'static str)>)
        requires
            self.is_valid(),
        ensures
            is_list(entries@, self.registered()),
    {
        let mut entries: Vec<(&'static str, &'static str)> = Vec::new();
        let mut i: usize = 0;
        while i < self.commands.len()
            invariant
                i <= self.commands@.len(),
                entries@.len() == i,
                forall|j: int|
                    0 <= j < i ==> (#[trigger] entries@[j]).0@ == self.commands@[j].command.name_text()
                        && entries@[j].1@ == self.commands@[j].command.description_text(),
            decreases self.commands@.len() - i,
        {
            entries.push((self.commands[i].command.name(), self.commands[i].command.description()));
            i = i + 1;
        }
        proof {
            assert forall|j: int| 0 <= j < entries@.len() implies self.registered().contains_key(
                (#[trigger] entries@[j]).0@,
            ) && entries@[j].1@ == self.registered()[entries@[j].0@].command.description_text() by {
                found_by_name(self.commands@, j);
            }
            assert forall|name: Seq<char>| #[trigger]
                self.registered().contains_key(name) implies exists|j: int|
                0 <= j < entries@.len() && (#[trigger] entries@[j]).0@ == name by {
                let j = choose|j: int| is_named(self.commands@, j, name);
                assert(entries@[j].0@ == name);
            }
        }
        entries
    }
}

impl Default for CommandRegistry {
    fn default() -> (registry: Self)
        ensures
            registry.is_valid(),
            registry.registered() == Map::<Seq<char>, Entry>::empty(),
    {
        Self::new()
    }
}

/// What comes of an input line: nothing when it is empty, and otherwise what the
/// command named by its first word answers to the other words.
pub open spec fn dispatched(
    commands: Map<Seq<char>, Entry>,
    line: Seq<char>,
    answer: Option<String>,
) -> bool {
    let words = text::words(line);
    if words.len() == 0 {
        answer is None
    } else {
        &&& answer matches Some(a)
        &&& if commands.contains_key(words[0]) {
            commands[words[0]].command.may_answer(words.skip(1), a@)
        } else {
            a@ == unknown_command(words[0])
        }
    }
}

// ─── commands by name ────────────────────────────────────────────────────────

proof fn found_by_name(commands: Seq<Entry>, at: int)
    requires
        is_sorted(commands),
        0 <= at < commands.len(),
    ensures
        by_name(commands).contains_key(commands[at].command.name_text()),
        by_name(commands)[commands[at].command.name_text()] == commands[at],
{
    let name = commands[at].command.name_text();
    assert(is_named(commands, at, name));
    let i = choose|i: int| is_named(commands, i, name);
    if i != at {
        text::text_lt_is_total(name, name);
        assert(text::text_lt(commands[i].command.name_text(), commands[at].command.name_text())
            || text::text_lt(commands[at].command.name_text(), commands[i].command.name_text()));
    }
}

proof fn missing_by_name(commands: Seq<Entry>, at: int, name: Seq<char>)
    requires
        is_sorted(commands),
        0 <= at <= commands.len(),
        forall|i: int| 0 <= i < at ==> text::text_lt((#[trigger] commands[i]).command.name_text(), name),
        at < commands.len() ==> commands[at].command.name_text() != name && !text::text_lt(
            commands[at].command.name_text(),
            name,
        ),
    ensures
        !by_name(commands).contains_key(name),
{
    if by_name(commands).contains_key(name) {
        let i = choose|i: int| is_named(commands, i, name);
        text::text_lt_is_total(name, name);
        if i > at {
            text::text_lt_is_total(commands[at].command.name_text(), name);
            assert(text::text_lt(commands[at].command.name_text(), commands[i].command.name_text()));
        }
    }
}

proof fn replaced_by_name(before: Seq<Entry>, at: int, cmd: Entry)
    requires
        is_sorted(before),
        0 <= at < before.len(),
        before[at].command.name_text() == cmd.command.name_text(),
    ensures
        is_sorted(before.update(at, cmd)),
        by_name(before.update(at, cmd)) == by_name(before).insert(cmd.command.name_text(), cmd),
{
    let after = before.update(at, cmd);
    assert forall|i: int, j: int| 0 <= i < j < after.len() implies text::text_lt(
        (#[trigger] after[i]).command.name_text(),
        (#[trigger] after[j]).command.name_text(),
    ) by {
        assert(after[i].command.name_text() == before[i].command.name_text());
        assert(after[j].command.name_text() == before[j].command.name_text());
    }
    same_names(before, after, at, cmd);
}

proof fn inserted_by_name(before: Seq<Entry>, at: int, cmd: Entry)
    requires
        is_sorted(before),
        0 <= at <= before.len(),
        forall|i: int|
            0 <= i < at ==> text::text_lt((#[trigger] before[i]).command.name_text(), cmd.command.name_text()),
        at < before.len() ==> text::text_lt(cmd.command.name_text(), before[at].command.name_text()),
    ensures
        is_sorted(before.insert(at, cmd)),
        by_name(before.insert(at, cmd)) == by_name(before).insert(cmd.command.name_text(), cmd),
{
    let after = before.insert(at, cmd);
    assert forall|i: int, j: int| 0 <= i < j < after.len() implies text::text_lt(
        (#[trigger] after[i]).command.name_text(),
        (#[trigger] after[j]).command.name_text(),
    ) by {
        if j < at {
            assert(after[i] == before[i] && after[j] == before[j]);
        } else if i > at {
            assert(after[i] == before[i - 1] && after[j] == before[j - 1]);
        } else if i == at {
            assert(after[j] == before[j - 1]);
            if j - 1 > at {
                text::text_lt_is_transitive(
                    cmd.command.name_text(),
                    before[at].command.name_text(),
                    before[j - 1].command.name_text(),
                );
            }
        } else if j == at {
            assert(after[i] == before[i]);
        } else {
            assert(after[i] == before[i] && after[j] == before[j - 1]);
        }
    }
    same_names(before, after, at, cmd);
}

/// Whatever the position, adding a command changes what stands under its name and
/// nothing else.
proof fn same_names(
    before: Seq<Entry>,
    after: Seq<Entry>,
    at: int,
    cmd: Entry,
)
    requires
        is_sorted(before),
        is_sorted(after),
        0 <= at < after.len(),
        (at <= before.len() && after == before.insert(at, cmd)) || (at < before.len() && after == before.update(at, cmd)
            && before[at].command.name_text() == cmd.command.name_text()),
    ensures
        by_name(after) == by_name(before).insert(cmd.command.name_text(), cmd),
{
    let left = by_name(after);
    let right = by_name(before).insert(cmd.command.name_text(), cmd);
    assert forall|name: Seq<char>| #[trigger]
        left.dom().contains(name) == right.dom().contains(name) && (left.dom().contains(name)
            ==> left[name] == right[name]) by {
        if left.contains_key(name) {
            let i = choose|i: int| is_named(after, i, name);
            found_by_name(after, i);
            if name != cmd.command.name_text() {
                assert(after[at] == cmd);
                assert(i != at);
                let j = if after.len() == before.len() {
                    i
                } else if i < at {
                    i
                } else {
                    i - 1
                };
                assert(before[j] == after[i]);
                found_by_name(before, j);
            } else {
                found_by_name(after, at);
            }
        }
        if right.contains_key(name) {
            if name == cmd.command.name_text() {
                found_by_name(after, at);
            } else {
                let j = choose|j: int| is_named(before, j, name);
                let i = if after.len() == before.len() {
                    j
                } else if j < at {
                    j
                } else {
                    j + 1
                };
                assert(after[i] == before[j]);
                assert(is_named(after, i, name));
            }
        }
    }
    assert(left.dom() =~= right.dom());
    assert(left =~= right);
}

// ─── laws ────────────────────────────────────────────────────────────────────

/// After a command was registered, a line that names it is answered by that command,
/// and never by an earlier one of its name. Lines that name others are answered as
/// before.
pub proof fn registration_is_local(
    before: Map<Seq<char>, Entry>,
    after: Map<Seq<char>, Entry>,
    cmd: Entry,
    line: Seq<char>,
    answer: Option<String>,
)
    requires
        after == before.insert(cmd.command.name_text(), cmd),
    ensures
        ({
            let name = cmd.command.name_text();
            let words = text::words(line);
            &&& words.len() > 0 && words[0] == name ==> (dispatched(after, line, answer) <==> (
            answer matches Some(a) && cmd.command.may_answer(words.skip(1), a@)))
            &&& words.len() == 0 || words[0] != name ==> (dispatched(after, line, answer)
                <==> dispatched(before, line, answer))
        }),
{
}

/// Whether the list shows the name with the description at one position and nowhere
/// else.
pub open spec fn is_listed_once(
    entries: Seq<(&str, &str)>,
    name: Seq<char>,
    description: Seq<char>,
) -> bool {
    exists|i: int|
        #![trigger entries[i]]
        {
            &&& 0 <= i < entries.len()
            &&& entries[i].0@ == name
            &&& entries[i].1@ == description
            &&& forall|j: int| 0 <= j < entries.len() && (#[trigger] entries[j]).0@ == name ==> j == i
        }
}

/// After a command was registered, the list holds its name exactly once, with its
/// description, and every other name as before.
pub proof fn registered_commands_are_listed(
    before: Map<Seq<char>, Entry>,
    after: Map<Seq<char>, Entry>,
    cmd: Entry,
    old_list: Seq<(&str, &str)>,
    new_list: Seq<(&str, &str)>,
    other: Seq<char>,
    description: Seq<char>,
)
    requires
        after == before.insert(cmd.command.name_text(), cmd),
        is_list(old_list, before),
        is_list(new_list, after),
    ensures
        is_listed_once(new_list, cmd.command.name_text(), cmd.command.description_text()),
        other != cmd.command.name_text() ==> (is_listed_once(new_list, other, description)
            <==> is_listed_once(old_list, other, description)),
{
    assert(after.contains_key(cmd.command.name_text()));
    listed_once(after, new_list, cmd.command.name_text(), cmd.command.description_text());
    if other != cmd.command.name_text() {
        listed_once(after, new_list, other, description);
        listed_once(before, old_list, other, description);
    }
}

/// A list shows a name with a description once where the command of that name has that
/// description, and else not.
proof fn listed_once(
    commands: Map<Seq<char>, Entry>,
    entries: Seq<(&str, &str)>,
    name: Seq<char>,
    description: Seq<char>,
)
    requires
        is_list(entries, commands),
    ensures
        is_listed_once(entries, name, description) <==> commands.contains_key(name)
            && commands[name].command.description_text() == description,
{
    if commands.contains_key(name) && commands[name].command.description_text() == description {
        let i = choose|i: int| 0 <= i < entries.len() && (#[trigger] entries[i]).0@ == name;
        assert forall|j: int|
            0 <= j < entries.len() && (#[trigger] entries[j]).0@ == name implies j == i by {
            text::text_lt_is_total(name, name);
            if j != i {
                assert(text::text_lt(entries[i].0@, entries[j].0@) || text::text_lt(
                    entries[j].0@,
                    entries[i].0@,
                ));
            }
        }
        assert(entries[i].1@ == description);
    }
}

/// A line is answered unless it is blank.
pub proof fn only_blank_lines_are_unanswered(
    commands: Map<Seq<char>, Entry>,
    line: Seq<char>,
    answer: Option<String>,
)
    requires
        dispatched(commands, line, answer),
    ensures
        answer is None <==> forall|i: int| 0 <= i < line.len() ==> text::is_space(#[trigger] line[i]),
{
    text::blank_has_no_words(line);
}

} // verus!
