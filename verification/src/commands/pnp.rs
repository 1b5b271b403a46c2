//! The `pnp-list` command.

use std::sync::Arc;
use std::time::Duration;

use vstd::prelude::*;

use crate::clock;
use crate::commands::select;
use crate::commands::Command;
use crate::pnp::AllocationEntry;
use crate::text;
use crate::transport::{self, TransportHandle};

verus! {

// ─── layout ──────────────────────────────────────────────────────────────────

/// A line of the allocation table.
pub open spec fn table_line(
    id: Seq<char>,
    unique_id: Seq<char>,
    hash: Seq<char>,
    ts: Seq<char>,
) -> Seq<char> {
    "  "@ + text::pad_right(id, 8) + " "@ + text::pad_right(unique_id, 34) + " "@ + text::pad_right(
        hash,
        20,
    ) + " "@ + ts + "\n"@
}

/// A hash as it is shown.
pub open spec fn hash_text(hash: Option<i64>) -> Seq<char> {
    match hash {
        Some(h) => text::decimal_signed(h as int),
        None => "NULL"@,
    }
}

/// The lines of the allocation table.
pub open spec fn entry_lines(entries: Seq<AllocationEntry>) -> Seq<char>
    decreases entries.len(),
{
    if entries.len() == 0 {
        Seq::empty()
    } else {
        let entry = entries.last();
        entry_lines(entries.drop_last()) + table_line(
            text::decimal(entry.node_id as nat),
            entry.unique_id_hex@,
            hash_text(entry.pseudo_unique_id),
            entry.ts@,
        )
    }
}

/// What is shown of one transport.
pub open spec fn entries_section(name: Seq<char>, entries: Seq<AllocationEntry>) -> Seq<char> {
    "Transport: "@ + name + "\n"@ + (if entries.len() == 0 {
        "  (no allocations)\n"@
    } else {
        table_line("Node ID"@, "Unique ID (hex)"@, "Pseudo UID"@, "Timestamp"@) + entry_lines(
            entries,
        )
    })
}

/// What is shown of all transports, one below the other.
pub open spec fn entries_sections(
    names: Seq<Seq<char>>,
    lists: Seq<Seq<AllocationEntry>>,
) -> Seq<char>
    decreases names.len(),
{
    if names.len() == 0 {
        Seq::empty()
    } else {
        entries_sections(names.drop_last(), lists.drop_last()) + entries_section(
            names.last(),
            lists.last(),
        )
    }
}

/// The allocation tables as sequences.
pub open spec fn entry_seqs(lists: Seq<Vec<AllocationEntry>>) -> Seq<Seq<AllocationEntry>> {
    lists.map_values(|l: Vec<AllocationEntry>| l@)
}

fn push_line(out: &mut String, id: &str, unique_id: &str, hash: &str, ts: &str)
    ensures
        final(out)@ == old(out)@ + table_line(id@, unique_id@, hash@, ts@),
{
    out.append("  ");
    text::push_padded(out, id, 8);
    out.append(" ");
    text::push_padded(out, unique_id, 34);
    out.append(" ");
    text::push_padded(out, hash, 20);
    out.append(" ");
    out.append(ts);
    out.append("\n");
    assert(out@ =~= old(out)@ + table_line(id@, unique_id@, hash@, ts@));
}

fn push_section(out: &mut String, name: &str, entries: &Vec<AllocationEntry>)
    ensures
        final(out)@ == old(out)@ + entries_section(name@, entries@),
{
    out.append("Transport: ");
    out.append(name);
    out.append("\n");
    if entries.len() == 0 {
        out.append("  (no allocations)\n");
    } else {
        push_line(out, "Node ID", "Unique ID (hex)", "Pseudo UID", "Timestamp");
        let ghost head = out@;
        let mut i: usize = 0;
        assert(entries@.take(0) =~= Seq::<AllocationEntry>::empty());
        while i < entries.len()
            invariant
                i <= entries@.len(),
                out@ =~= head + entry_lines(entries@.take(i as int)),
            decreases entries@.len() - i,
        {
            let entry = &entries[i];
            let id = text::decimal_string(entry.node_id as u128);
            let hash = match entry.pseudo_unique_id {
                Some(h) => text::decimal_signed_string(h),
                None => "NULL".to_owned(),
            };
            push_line(
                out,
                id.as_str(),
                entry.unique_id_hex.as_str(),
                hash.as_str(),
                entry.ts.as_str(),
            );
            assert(entries@.take(i + 1).drop_last() =~= entries@.take(i as int));
            assert(entries@.take(i + 1).last() == entries@[i as int]);
            i = i + 1;
        }
        assert(entries@.take(i as int) =~= entries@);
    }
    assert(out@ =~= old(out)@ + entries_section(name@, entries@));
}

/// Show the allocation tables of the transports with the given names.
pub fn render_allocations(names: &Vec<String>, lists: &Vec<Vec<AllocationEntry>>) -> (output:
    String)
    requires
        names@.len() == lists@.len(),
    ensures
        output@ == text::trim_end(
            entries_sections(text::string_views(names@), entry_seqs(lists@)),
        ),
{
    let mut output = String::new();
    let mut i: usize = 0;
    let ghost all_names = text::string_views(names@);
    let ghost all_lists = entry_seqs(lists@);
    assert(all_names.take(0) =~= Seq::<Seq<char>>::empty());
    while i < names.len()
        invariant
            i <= names@.len(),
            names@.len() == lists@.len(),
            all_names == text::string_views(names@),
            all_lists == entry_seqs(lists@),
            output@ == entries_sections(all_names.take(i as int), all_lists.take(i as int)),
        decreases names@.len() - i,
    {
        push_section(&mut output, names[i].as_str(), &lists[i]);
        proof {
            assert(all_names.take(i + 1).drop_last() =~= all_names.take(i as int));
            assert(all_lists.take(i + 1).drop_last() =~= all_lists.take(i as int));
            assert(all_names.take(i + 1).last() == names@[i as int]@);
            assert(all_lists.take(i + 1).last() == lists@[i as int]@);
        }
        i = i + 1;
    }
    assert(all_names.take(i as int) =~= all_names);
    assert(all_lists.take(i as int) =~= all_lists);
    text::trim_end_string(output.as_str())
}

// ─── command ─────────────────────────────────────────────────────────────────

/// Lists node-ID allocations for one or all configured transports.
///
/// Usage: `pnp-list [<transport-name>]`
pub struct PnpListCommand {
    pub handles: Arc<Vec<TransportHandle>>,
}

impl PnpListCommand {
    pub fn new(handles: Arc<Vec<TransportHandle>>) -> (command: Self)
        ensures
            command.handles == handles,
    {
        PnpListCommand { handles }
    }
}

/// Whether the workers at the given positions, each asked for its allocations and given two
/// seconds, told the lists, one each.
pub open spec fn told_by_each(
    handles: Seq<TransportHandle>,
    at: Seq<int>,
    lists: Seq<Seq<AllocationEntry>>,
) -> bool {
    &&& lists.len() == at.len()
    &&& forall|i: int|
        0 <= i < at.len() ==> transport::told_allocations(
            handles[at[i]],
            clock::seconds(2),
            #[trigger] lists[i],
        )
}

impl Command for PnpListCommand {
    open spec fn name_text(&self) -> Seq<char> {
        "pnp-list"@
    }

    open spec fn description_text(&self) -> Seq<char> {
        "List PNP node-ID allocations. Usage: pnp-list [<transport>]"@
    }

    /// The answer shows one table for each transport that is asked for, the one that its
    /// own worker told.
    open spec fn may_answer(&self, args: Seq<Seq<char>>, answer: Seq<char>) -> bool {
        let names = select::names_of(self.handles@);
        match select::refusal(names, args) {
            Some(message) => answer == message,
            None => exists|lists: Seq<Seq<AllocationEntry>>|
                told_by_each(self.handles@, select::chosen(names, args), lists) && answer
                    == text::trim_end(
                    #[trigger] entries_sections(select::chosen_names(names, args), lists),
                ),
        }
    }

    fn name(&self) -> (name: &'static str) {
        "pnp-list"
    }

    fn description(&self) -> (description: &'static str) {
        "List PNP node-ID allocations. Usage: pnp-list [<transport>]"
    }

    fn execute(&self, args: &[&str]) -> (answer: String) {
        let handles: &Vec<TransportHandle> = &self.handles;
        let selected = match select::select(handles, args) {
            Ok(indices) => indices,
            Err(message) => {
                return message;
            },
        };
        let names = select::names_at(handles, &selected);
        assert(text::string_views(names@) == select::chosen_names(
            select::names_of(self.handles@),
            text::views(args@),
        ));
        let mut lists: Vec<Vec<AllocationEntry>> = Vec::new();
        let mut i: usize = 0;
        while i < selected.len()
            invariant
                i <= selected@.len(),
                lists@.len() == i,
                handles@ == self.handles@,
                forall|j: int|
                    0 <= j < selected@.len() ==> #[trigger] selected@[j] < handles@.len(),
                forall|j: int|
                    0 <= j < i ==> transport::told_allocations(
                        handles@[selected@[j] as int],
                        clock::seconds(2),
                        (#[trigger] lists@[j])@,
                    ),
            decreases selected@.len() - i,
        {
            lists.push(handles[selected[i]].list_allocations(Duration::from_secs(2)));
            i = i + 1;
        }
        assert(entry_seqs(lists@).len() == text::string_views(names@).len());
        proof {
            let at = select::chosen(select::names_of(self.handles@), text::views(args@));
            assert(at == select::positions(selected@));
            assert(told_by_each(self.handles@, at, entry_seqs(lists@)));
        }
        render_allocations(&names, &lists)
    }
}

// ─── laws ────────────────────────────────────────────────────────────────────

/// Each transport that is asked for is shown under its name with the allocations that its own
/// worker tells.
pub proof fn asked_transports_are_shown(
    command: PnpListCommand,
    args: Seq<Seq<char>>,
    answer: Seq<char>,
    lists: Seq<Seq<AllocationEntry>>,
    k: int,
)
    requires
        command.may_answer(args, answer),
        lists.len() == command.handles@.len(),
        forall|i: int|
            0 <= i < lists.len() ==> transport::always_tells_allocations(
                command.handles@[i],
                #[trigger] lists[i],
            ),
        0 <= k < lists.len(),
        args.len() == 0 || args[0] == command.handles@[k].name@,
    ensures
        exists|full: Seq<char>|
            answer == text::trim_end(full) && #[trigger] text::has_part(
                full,
                entries_section(command.handles@[k].name@, lists[k]),
            ),
{
    let handles = command.handles@;
    let names = select::names_of(handles);
    let at = select::chosen(names, args);
    let shown = select::chosen_names(names, args);
    assert(names[k] == handles[k].name@);
    select::chosen_are_asked(names, args);
    assert(at.contains(k));
    let n = choose|n: int| 0 <= n < at.len() && at[n] == k;
    let told = choose|told: Seq<Seq<AllocationEntry>>|
        told_by_each(handles, at, told) && answer == text::trim_end(
            #[trigger] entries_sections(shown, told),
        );
    assert(told[n] == lists[k]) by {
        assert(transport::told_allocations(handles[at[n]], clock::seconds(2), told[n]));
        assert(transport::always_tells_allocations(handles[k], lists[k]));
        transport::allocations_come_from_the_worker(handles[k], clock::seconds(2), told[n], lists[k]);
    }
    sections_are_shown(shown, told, n);
    assert(shown[n] == handles[k].name@);
}

proof fn sections_are_shown(names: Seq<Seq<char>>, lists: Seq<Seq<AllocationEntry>>, n: int)
    requires
        names.len() == lists.len(),
        0 <= n < names.len(),
    ensures
        text::has_part(entries_sections(names, lists), entries_section(names[n], lists[n])),
    decreases names.len(),
{
    let part = entries_section(names[n], lists[n]);
    let before = entries_sections(names.drop_last(), lists.drop_last());
    let last = entries_section(names.last(), lists.last());
    if n == names.len() - 1 {
        text::texts_have_themselves(part);
        text::ends_stay(before, last, part);
    } else {
        sections_are_shown(names.drop_last(), lists.drop_last(), n);
        text::parts_stay(before, last, part);
    }
}

/// What is shown of a transport starts with its name, and shows each allocation on a line
/// with its node ID, unique ID, hash and timestamp; without allocations it says so.
pub proof fn sections_show_each_allocation(
    name: Seq<char>,
    entries: Seq<AllocationEntry>,
    n: int,
)
    ensures
        ("Transport: "@ + name + "\n"@).is_prefix_of(entries_section(name, entries)),
        entries.len() == 0 ==> entries_section(name, entries) == "Transport: "@ + name
            + "\n  (no allocations)\n"@,
        0 <= n < entries.len() ==> text::has_part(
            entries_section(name, entries),
            "\n"@ + ("  "@ + text::pad_right(text::decimal(entries[n].node_id as nat), 8) + " "@
                + text::pad_right(entries[n].unique_id_hex@, 34) + " "@ + text::pad_right(
                match entries[n].pseudo_unique_id {
                    Some(hash) => text::decimal_signed(hash as int),
                    None => "NULL"@,
                },
                20,
            ) + " "@ + entries[n].ts@ + "\n"@),
        ),
{
    let head = "Transport: "@ + name + "\n"@;
    section_starts(head, entries_section(name, entries));
    if entries.len() == 0 {
        empty_section("Transport: "@ + name);
    }
    if 0 <= n < entries.len() {
        let titles = table_line("Node ID"@, "Unique ID (hex)"@, "Pseudo UID"@, "Timestamp"@);
        line_ends("Node ID"@, "Unique ID (hex)"@, "Pseudo UID"@, "Timestamp"@);
        lines_are_shown(entries, n);
        text::lines_stay(head, titles, entry_lines(entries), line_of(entries[n]));
    }
}

proof fn line_ends(id: Seq<char>, unique_id: Seq<char>, hash: Seq<char>, ts: Seq<char>)
    ensures
        table_line(id, unique_id, hash, ts).len() > 0,
        table_line(id, unique_id, hash, ts).last() == '\n',
{
    reveal_strlit("\n");
}

proof fn section_starts(head: Seq<char>, section: Seq<char>)
    requires
        exists|rest: Seq<char>| section == #[trigger] (head + rest),
    ensures
        head.is_prefix_of(section),
{
    assert(head =~= section.subrange(0, head.len() as int));
}

proof fn empty_section(head: Seq<char>)
    ensures
        head + "\n"@ + "  (no allocations)\n"@ == head + "\n  (no allocations)\n"@,
{
    reveal_strlit("\n");
    reveal_strlit("\n  (no allocations)\n");
    reveal_strlit("  (no allocations)\n");
    assert(head + "\n"@ + "  (no allocations)\n"@ =~= head + "\n  (no allocations)\n"@);
}

spec fn line_of(entry: AllocationEntry) -> Seq<char> {
    "\n"@ + table_line(
        text::decimal(entry.node_id as nat),
        entry.unique_id_hex@,
        hash_text(entry.pseudo_unique_id),
        entry.ts@,
    )
}

proof fn lines_are_shown(entries: Seq<AllocationEntry>, n: int)
    requires
        0 <= n < entries.len(),
    ensures
        text::has_part("\n"@ + entry_lines(entries), line_of(entries[n])),
        entry_lines(entries).last() == '\n',
    decreases entries.len(),
{
    let entry = entries.last();
    let before = entry_lines(entries.drop_last());
    let line = table_line(
        text::decimal(entry.node_id as nat),
        entry.unique_id_hex@,
        hash_text(entry.pseudo_unique_id),
        entry.ts@,
    );
    line_ends(
        text::decimal(entry.node_id as nat),
        entry.unique_id_hex@,
        hash_text(entry.pseudo_unique_id),
        entry.ts@,
    );
    if entries.len() > 1 {
        lines_are_shown(entries.drop_last(), if n < entries.len() - 1 {
            n
        } else {
            0
        });
    }
    text::lines_are_added(before, line, line_of(entries[n]));
}

} // verus!
