//! The `nodes` command.

use std::sync::Arc;
use std::time::Duration;

use vstd::prelude::*;

use crate::clock;
use crate::commands::select;
use crate::commands::Command;
use crate::text;
use crate::transport::{self, NodeEntry, TransportHandle};

verus! {

// ─── order ───────────────────────────────────────────────────────────────────

/// The nodes with one more, which comes after those with the same or a lower ID.
pub open spec fn with_node(sorted: Seq<NodeEntry>, node: NodeEntry) -> Seq<NodeEntry>
    decreases sorted.len(),
{
    if sorted.len() == 0 {
        seq![node]
    } else if sorted.last().node_id <= node.node_id {
        sorted.push(node)
    } else {
        with_node(sorted.drop_last(), node).push(sorted.last())
    }
}

/// The nodes in the order of their IDs; nodes with the same ID stay in their order.
pub open spec fn sorted_by_id(nodes: Seq<NodeEntry>) -> Seq<NodeEntry>
    decreases nodes.len(),
{
    if nodes.len() == 0 {
        nodes
    } else {
        with_node(sorted_by_id(nodes.drop_last()), nodes.last())
    }
}

proof fn with_node_at(sorted: Seq<NodeEntry>, node: NodeEntry, at: int)
    requires
        0 <= at <= sorted.len(),
        at > 0 ==> sorted[at - 1].node_id <= node.node_id,
        forall|i: int| at <= i < sorted.len() ==> (#[trigger] sorted[i]).node_id > node.node_id,
    ensures
        with_node(sorted, node) == sorted.insert(at, node),
    decreases sorted.len(),
{
    if sorted.len() == 0 {
        assert(seq![node] =~= sorted.insert(at, node));
    } else if at == sorted.len() {
        assert(sorted.push(node) =~= sorted.insert(at, node));
    } else {
        let shorter = sorted.drop_last();
        assert(sorted[sorted.len() - 1].node_id > node.node_id);
        with_node_at(shorter, node, at);
        assert(shorter.insert(at, node).push(sorted.last()) =~= sorted.insert(at, node));
    }
}

fn sort_by_id(nodes: &Vec<NodeEntry>) -> (sorted: Vec<NodeEntry>)
    ensures
        sorted@ == sorted_by_id(nodes@),
{
    let mut sorted: Vec<NodeEntry> = Vec::new();
    let mut i: usize = 0;
    assert(nodes@.take(0) =~= Seq::<NodeEntry>::empty());
    while i < nodes.len()
        invariant
            i <= nodes@.len(),
            sorted@ == sorted_by_id(nodes@.take(i as int)),
        decreases nodes@.len() - i,
    {
        let node = nodes[i];
        let mut at: usize = sorted.len();
        while at > 0 && sorted[at - 1].node_id > node.node_id
            invariant
                at <= sorted@.len(),
                forall|j: int|
                    at <= j < sorted@.len() ==> (#[trigger] sorted@[j]).node_id > node.node_id,
            decreases at,
        {
            at = at - 1;
        }
        proof {
            with_node_at(sorted@, node, at as int);
            assert(nodes@.take(i + 1).drop_last() =~= nodes@.take(i as int));
            assert(nodes@.take(i + 1).last() == node);
        }
        sorted.insert(at, node);
        i = i + 1;
    }
    assert(nodes@.take(i as int) =~= nodes@);
    sorted
}

/// Sorting puts the IDs in ascending order and keeps the nodes, each as often as it
/// was there.
pub proof fn sorting_keeps_nodes(nodes: Seq<NodeEntry>)
    ensures
        sorted_by_id(nodes).to_multiset() == nodes.to_multiset(),
        forall|i: int, j: int|
            0 <= i < j < sorted_by_id(nodes).len() ==> (#[trigger] sorted_by_id(nodes)[i]).node_id
                <= (#[trigger] sorted_by_id(nodes)[j]).node_id,
    decreases nodes.len(),
{
    if nodes.len() > 0 {
        let before = sorted_by_id(nodes.drop_last());
        sorting_keeps_nodes(nodes.drop_last());
        with_node_keeps(before, nodes.last());
        assert(nodes =~= nodes.drop_last().push(nodes.last()));
        nodes.drop_last().to_multiset_ensures();
    }
}

proof fn with_node_keeps(sorted: Seq<NodeEntry>, node: NodeEntry)
    requires
        forall|i: int, j: int|
            0 <= i < j < sorted.len() ==> (#[trigger] sorted[i]).node_id <= (
            #[trigger] sorted[j]).node_id,
    ensures
        with_node(sorted, node).to_multiset() == sorted.to_multiset().insert(node),
        with_node(sorted, node).len() == sorted.len() + 1,
        forall|i: int, j: int|
            0 <= i < j < with_node(sorted, node).len() ==> (#[trigger] with_node(
                sorted,
                node,
            )[i]).node_id <= (#[trigger] with_node(sorted, node)[j]).node_id,
        forall|i: int|
            0 <= i < with_node(sorted, node).len() ==> (#[trigger] with_node(sorted, node)[i])
                == node || sorted.contains(with_node(sorted, node)[i]),
    decreases sorted.len(),
{
    let all = with_node(sorted, node);
    if sorted.len() == 0 {
        assert(all =~= sorted.push(node));
        sorted.to_multiset_ensures();
    } else if sorted.last().node_id <= node.node_id {
        sorted.to_multiset_ensures();
        assert(sorted[sorted.len() - 1] == sorted.last());
        assert forall|i: int| 0 <= i < all.len() implies (#[trigger] all[i]) == node
            || sorted.contains(all[i]) by {
            if i < sorted.len() {
                assert(all[i] == sorted[i]);
            }
        }
    } else {
        let shorter = sorted.drop_last();
        with_node_keeps(shorter, node);
        let most = with_node(shorter, node);
        most.to_multiset_ensures();
        shorter.to_multiset_ensures();
        assert(sorted =~= shorter.push(sorted.last()));
        assert(all.to_multiset() =~= sorted.to_multiset().insert(node));
        assert(sorted[sorted.len() - 1] == sorted.last());
        assert forall|i: int| 0 <= i < all.len() implies ((#[trigger] all[i]) == node
            || sorted.contains(all[i])) && all[i].node_id <= sorted.last().node_id by {
            if i < most.len() {
                assert(all[i] == most[i]);
                if most[i] != node {
                    let k = choose|k: int| 0 <= k < shorter.len() && shorter[k] == most[i];
                    assert(sorted[k] == most[i]);
                }
            } else {
                assert(all[i] == sorted.last());
            }
        }
        assert forall|i: int, j: int| 0 <= i < j < all.len() implies (#[trigger] all[i]).node_id
            <= (#[trigger] all[j]).node_id by {
            if j < most.len() {
                assert(all[i] == most[i] && all[j] == most[j]);
            }
        }
    }
}

// ─── layout ──────────────────────────────────────────────────────────────────

/// A line of the node table.
pub open spec fn table_line(
    id: Seq<char>,
    uptime: Seq<char>,
    health: Seq<char>,
    mode: Seq<char>,
) -> Seq<char> {
    "  "@ + text::pad_right(id, 8) + " "@ + text::pad_right(uptime, 10) + " "@ + text::pad_right(
        health,
        10,
    ) + " "@ + text::pad_right(mode, 8) + "\n"@
}

/// The lines of the node table.
pub open spec fn node_lines(nodes: Seq<NodeEntry>) -> Seq<char>
    decreases nodes.len(),
{
    if nodes.len() == 0 {
        Seq::empty()
    } else {
        let node = nodes.last();
        node_lines(nodes.drop_last()) + table_line(
            text::decimal(node.node_id as nat),
            text::decimal(node.uptime as nat),
            text::decimal(node.health as nat),
            text::decimal(node.mode as nat),
        )
    }
}

/// What is shown of one transport.
pub open spec fn nodes_section(name: Seq<char>, nodes: Seq<NodeEntry>) -> Seq<char> {
    "Transport: "@ + name + "\n"@ + (if nodes.len() == 0 {
        "  (no nodes observed)\n"@
    } else {
        table_line("Node ID"@, "Uptime(s)"@, "Health"@, "Mode"@) + node_lines(sorted_by_id(nodes))
    })
}

/// What is shown of all transports, one below the other.
pub open spec fn nodes_sections(names: Seq<Seq<char>>, lists: Seq<Seq<NodeEntry>>) -> Seq<char>
    decreases names.len(),
{
    if names.len() == 0 {
        Seq::empty()
    } else {
        nodes_sections(names.drop_last(), lists.drop_last()) + nodes_section(
            names.last(),
            lists.last(),
        )
    }
}

/// The node lists as sequences.
pub open spec fn node_seqs(lists: Seq<Vec<NodeEntry>>) -> Seq<Seq<NodeEntry>> {
    lists.map_values(|l: Vec<NodeEntry>| l@)
}

fn push_line(out: &mut String, id: &str, uptime: &str, health: &str, mode: &str)
    ensures
        final(out)@ == old(out)@ + table_line(id@, uptime@, health@, mode@),
{
    out.append("  ");
    text::push_padded(out, id, 8);
    out.append(" ");
    text::push_padded(out, uptime, 10);
    out.append(" ");
    text::push_padded(out, health, 10);
    out.append(" ");
    text::push_padded(out, mode, 8);
    out.append("\n");
    assert(out@ =~= old(out)@ + table_line(id@, uptime@, health@, mode@));
}

fn push_section(out: &mut String, name: &str, nodes: &Vec<NodeEntry>)
    ensures
        final(out)@ == old(out)@ + nodes_section(name@, nodes@),
{
    out.append("Transport: ");
    out.append(name);
    out.append("\n");
    if nodes.len() == 0 {
        out.append("  (no nodes observed)\n");
    } else {
        push_line(out, "Node ID", "Uptime(s)", "Health", "Mode");
        let sorted = sort_by_id(nodes);
        let ghost head = out@;
        let mut i: usize = 0;
        assert(sorted@.take(0) =~= Seq::<NodeEntry>::empty());
        while i < sorted.len()
            invariant
                i <= sorted@.len(),
                out@ =~= head + node_lines(sorted@.take(i as int)),
            decreases sorted@.len() - i,
        {
            let node = sorted[i];
            let id = text::decimal_string(node.node_id as u128);
            let uptime = text::decimal_string(node.uptime as u128);
            let health = text::decimal_string(node.health as u128);
            let mode = text::decimal_string(node.mode as u128);
            push_line(out, id.as_str(), uptime.as_str(), health.as_str(), mode.as_str());
            assert(sorted@.take(i + 1).drop_last() =~= sorted@.take(i as int));
            assert(sorted@.take(i + 1).last() == node);
            i = i + 1;
        }
        assert(sorted@.take(i as int) =~= sorted@);
    }
    assert(out@ =~= old(out)@ + nodes_section(name@, nodes@));
}

/// Show the node lists of the transports with the given names.
pub fn render_nodes(names: &Vec<String>, lists: &Vec<Vec<NodeEntry>>) -> (output: String)
    requires
        names@.len() == lists@.len(),
    ensures
        output@ == text::trim_end(
            nodes_sections(text::string_views(names@), node_seqs(lists@)),
        ),
{
    let mut output = String::new();
    let mut i: usize = 0;
    let ghost all_names = text::string_views(names@);
    let ghost all_lists = node_seqs(lists@);
    assert(all_names.take(0) =~= Seq::<Seq<char>>::empty());
    while i < names.len()
        invariant
            i <= names@.len(),
            names@.len() == lists@.len(),
            all_names == text::string_views(names@),
            all_lists == node_seqs(lists@),
            output@ == nodes_sections(all_names.take(i as int), all_lists.take(i as int)),
        decreases names@.len() - i,
    {
        push_section(&mut output, names[i].as_str(), &lists[i]);
        proof {
            assert(all_names.take(i + 1).drop_last() =~= all_names.take(i as int));
            assert(all_lists.take(i + 1).drop_last() =~= all_lists.take(i as int));
            assert(all_names.take(i + 1).last() == names@[i as int]@);
            assert(all_lists.take(i + 1).last() == lists@[i as int]@);
        }
        i = i + 1;
    }
    assert(all_names.take(i as int) =~= all_names);
    assert(all_lists.take(i as int) =~= all_lists);
    text::trim_end_string(output.as_str())
}

// ─── command ─────────────────────────────────────────────────────────────────

/// Lists Cyphal nodes observed on one or all transports.
///
/// Usage: `nodes [<transport-name>]`
pub struct NodesCommand {
    pub handles: Arc<Vec<TransportHandle>>,
}

impl NodesCommand {
    pub fn new(handles: Arc<Vec<TransportHandle>>) -> (command: Self)
        ensures
            command.handles == handles,
    {
        NodesCommand { handles }
    }
}

/// Whether the workers at the given positions, each asked for its nodes and given two
/// seconds, told the lists, one each.
pub open spec fn told_by_each(
    handles: Seq<TransportHandle>,
    at: Seq<int>,
    lists: Seq<Seq<NodeEntry>>,
) -> bool {
    &&& lists.len() == at.len()
    &&& forall|i: int|
        0 <= i < at.len() ==> transport::told_nodes(
            handles[at[i]],
            clock::seconds(2),
            #[trigger] lists[i],
        )
}

impl Command for NodesCommand {
    open spec fn name_text(&self) -> Seq<char> {
        "nodes"@
    }

    open spec fn description_text(&self) -> Seq<char> {
        "List Cyphal nodes observed on transports. Usage: nodes [<transport>]"@
    }

    /// The answer shows one list for each transport that is asked for, the one that its
    /// own worker told.
    open spec fn may_answer(&self, args: Seq<Seq<char>>, answer: Seq<char>) -> bool {
        let names = select::names_of(self.handles@);
        match select::refusal(names, args) {
            Some(message) => answer == message,
            None => exists|lists: Seq<Seq<NodeEntry>>|
                told_by_each(self.handles@, select::chosen(names, args), lists) && answer
                    == text::trim_end(
                    #[trigger] nodes_sections(select::chosen_names(names, args), lists),
                ),
        }
    }

    fn name(&self) -> (name: &'static str) {
        "nodes"
    }

    fn description(&self) -> (description: &'static str) {
        "List Cyphal nodes observed on transports. Usage: nodes [<transport>]"
    }

    fn execute(&self, args: &[&str]) -> (answer: String) {
        let handles: &Vec<TransportHandle> = &self.handles;
        let selected = match select::select(handles, args) {
            Ok(indices) => indices,
            Err(message) => {
                return message;
            },
        };
        let names = select::names_at(handles, &selected);
        assert(text::string_views(names@) == select::chosen_names(
            select::names_of(self.handles@),
            text::views(args@),
        ));
        let mut lists: Vec<Vec<NodeEntry>> = Vec::new();
        let mut i: usize = 0;
        while i < selected.len()
            invariant
                i <= selected@.len(),
                lists@.len() == i,
                handles@ == self.handles@,
                forall|j: int|
                    0 <= j < selected@.len() ==> #[trigger] selected@[j] < handles@.len(),
                forall|j: int|
                    0 <= j < i ==> transport::told_nodes(
                        handles@[selected@[j] as int],
                        clock::seconds(2),
                        (#[trigger] lists@[j])@,
                    ),
            decreases selected@.len() - i,
        {
            lists.push(handles[selected[i]].list_nodes(Duration::from_secs(2)));
            i = i + 1;
        }
        assert(node_seqs(lists@).len() == text::string_views(names@).len());
        proof {
            let at = select::chosen(select::names_of(self.handles@), text::views(args@));
            assert(at == select::positions(selected@));
            assert(told_by_each(self.handles@, at, node_seqs(lists@)));
        }
        render_nodes(&names, &lists)
    }
}

// ─── laws ────────────────────────────────────────────────────────────────────

/// Each transport that is asked for is shown under its name with the nodes that its own
/// worker tells.
pub proof fn asked_transports_are_shown(
    command: NodesCommand,
    args: Seq<Seq<char>>,
    answer: Seq<char>,
    lists: Seq<Seq<NodeEntry>>,
    k: int,
)
    requires
        command.may_answer(args, answer),
        lists.len() == command.handles@.len(),
        forall|i: int|
            0 <= i < lists.len() ==> transport::always_tells_nodes(
                command.handles@[i],
                #[trigger] lists[i],
            ),
        0 <= k < lists.len(),
        args.len() == 0 || args[0] == command.handles@[k].name@,
    ensures
        exists|full: Seq<char>|
            answer == text::trim_end(full) && #[trigger] text::has_part(
                full,
                nodes_section(command.handles@[k].name@, lists[k]),
            ),
{
    let handles = command.handles@;
    let names = select::names_of(handles);
    let at = select::chosen(names, args);
    let shown = select::chosen_names(names, args);
    assert(names[k] == handles[k].name@);
    select::chosen_are_asked(names, args);
    assert(at.contains(k));
    let n = choose|n: int| 0 <= n < at.len() && at[n] == k;
    let told = choose|told: Seq<Seq<NodeEntry>>|
        told_by_each(handles, at, told) && answer == text::trim_end(
            #[trigger] nodes_sections(shown, told),
        );
    assert(told[n] == lists[k]) by {
        assert(transport::told_nodes(handles[at[n]], clock::seconds(2), told[n]));
        assert(transport::always_tells_nodes(handles[k], lists[k]));
        transport::nodes_come_from_the_worker(handles[k], clock::seconds(2), told[n], lists[k]);
    }
    sections_are_shown(shown, told, n);
    assert(shown[n] == handles[k].name@);
}

proof fn sections_are_shown(names: Seq<Seq<char>>, lists: Seq<Seq<NodeEntry>>, n: int)
    requires
        names.len() == lists.len(),
        0 <= n < names.len(),
    ensures
        text::has_part(nodes_sections(names, lists), nodes_section(names[n], lists[n])),
    decreases names.len(),
{
    let part = nodes_section(names[n], lists[n]);
    let before = nodes_sections(names.drop_last(), lists.drop_last());
    let last = nodes_section(names.last(), lists.last());
    if n == names.len() - 1 {
        text::texts_have_themselves(part);
        text::ends_stay(before, last, part);
    } else {
        sections_are_shown(names.drop_last(), lists.drop_last(), n);
        text::parts_stay(before, last, part);
    }
}

/// What is shown of a transport starts with its name, and shows each node on a line with
/// its ID, uptime, health and mode; without nodes it says so.
pub proof fn sections_show_each_node(name: Seq<char>, nodes: Seq<NodeEntry>, node: NodeEntry)
    ensures
        ("Transport: "@ + name + "\n"@).is_prefix_of(nodes_section(name, nodes)),
        nodes.len() == 0 ==> nodes_section(name, nodes) == "Transport: "@ + name
            + "\n  (no nodes observed)\n"@,
        nodes.contains(node) ==> text::has_part(
            nodes_section(name, nodes),
            "\n"@ + ("  "@ + text::pad_right(text::decimal(node.node_id as nat), 8) + " "@
                + text::pad_right(text::decimal(node.uptime as nat), 10) + " "@ + text::pad_right(
                text::decimal(node.health as nat),
                10,
            ) + " "@ + text::pad_right(text::decimal(node.mode as nat), 8) + "\n"@),
        ),
{
    let head = "Transport: "@ + name + "\n"@;
    section_starts(head, nodes_section(name, nodes));
    if nodes.len() == 0 {
        empty_section("Transport: "@ + name);
    }
    if nodes.contains(node) {
        sorting_keeps_nodes(nodes);
        let sorted = sorted_by_id(nodes);
        nodes.to_multiset_ensures();
        sorted.to_multiset_ensures();
        assert(nodes.to_multiset().count(node) > 0);
        assert(sorted.contains(node));
        let n = choose|n: int| 0 <= n < sorted.len() && sorted[n] == node;
        let titles = table_line("Node ID"@, "Uptime(s)"@, "Health"@, "Mode"@);
        line_ends("Node ID"@, "Uptime(s)"@, "Health"@, "Mode"@);
        lines_are_shown(sorted, n);
        text::lines_stay(head, titles, node_lines(sorted), line_of(node));
    }
}

proof fn line_ends(id: Seq<char>, uptime: Seq<char>, health: Seq<char>, mode: Seq<char>)
    ensures
        table_line(id, uptime, health, mode).len() > 0,
        table_line(id, uptime, health, mode).last() == '\n',
{
    reveal_strlit("\n");
}

proof fn section_starts(head: Seq<char>, section: Seq<char>)
    requires
        exists|rest: Seq<char>| section == #[trigger] (head + rest),
    ensures
        head.is_prefix_of(section),
{
    assert(head =~= section.subrange(0, head.len() as int));
}

proof fn empty_section(head: Seq<char>)
    ensures
        head + "\n"@ + "  (no nodes observed)\n"@ == head + "\n  (no nodes observed)\n"@,
{
    reveal_strlit("\n");
    reveal_strlit("\n  (no nodes observed)\n");
    reveal_strlit("  (no nodes observed)\n");
    assert(head + "\n"@ + "  (no nodes observed)\n"@ =~= head + "\n  (no nodes observed)\n"@);
}

spec fn line_of(node: NodeEntry) -> Seq<char> {
    "\n"@ + table_line(
        text::decimal(node.node_id as nat),
        text::decimal(node.uptime as nat),
        text::decimal(node.health as nat),
        text::decimal(node.mode as nat),
    )
}

proof fn lines_are_shown(nodes: Seq<NodeEntry>, n: int)
    requires
        0 <= n < nodes.len(),
    ensures
        text::has_part("\n"@ + node_lines(nodes), line_of(nodes[n])),
        node_lines(nodes).last() == '\n',
    decreases nodes.len(),
{
    let node = nodes.last();
    let before = node_lines(nodes.drop_last());
    let line = table_line(
        text::decimal(node.node_id as nat),
        text::decimal(node.uptime as nat),
        text::decimal(node.health as nat),
        text::decimal(node.mode as nat),
    );
    line_ends(
        text::decimal(node.node_id as nat),
        text::decimal(node.uptime as nat),
        text::decimal(node.health as nat),
        text::decimal(node.mode as nat),
    );
    if nodes.len() > 1 {
        lines_are_shown(nodes.drop_last(), if n < nodes.len() - 1 {
            n
        } else {
            0
        });
    }
    text::lines_are_added(before, line, line_of(nodes[n]));
}

} // verus!
