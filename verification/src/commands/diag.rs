//! The `diag` command.

use std::sync::Arc;
use std::time::Duration;

use vstd::prelude::*;

use crate::clock;
use crate::commands::select;
use crate::commands::Command;
use crate::text;
use crate::transport::{self, TransportDiagnostics, TransportHandle};

verus! {

// ─── layout ──────────────────────────────────────────────────────────────────

/// A span of nanoseconds as it is shown: in seconds, or in milliseconds where it
/// is shorter than a second.
pub open spec fn duration_text(duration: Option<u128>) -> Seq<char> {
    match duration {
        Some(nanos) => if nanos >= 1_000_000_000 {
            text::decimal((nanos / 1_000_000_000) as nat) + "s"@
        } else {
            text::decimal((nanos / 1_000_000) as nat) + "ms"@
        },
        None => "none"@,
    }
}

/// Show a span of nanoseconds.
pub fn format_duration(duration: Option<u128>) -> (s: String)
    ensures
        s@ == duration_text(duration),
{
    match duration {
        Some(nanos) => {
            let seconds: u128 = nanos / 1_000_000_000;
            if seconds > 0 {
                let mut s = text::decimal_string(seconds);
                s.append("s");
                s
            } else {
                let mut s = text::decimal_string(nanos / 1_000_000);
                s.append("ms");
                s
            }
        },
        None => "none".to_owned(),
    }
}

/// A node ID as it is shown.
pub open spec fn node_id_text(node_id: Option<u16>) -> Seq<char> {
    match node_id {
        Some(id) => text::decimal(id as nat),
        None => "unknown"@,
    }
}

/// Numbers as they are shown.
pub open spec fn decimals(numbers: Seq<u16>) -> Seq<Seq<char>> {
    numbers.map_values(|n: u16| text::decimal(n as nat))
}

/// The sources of the latest heartbeats as they are shown.
pub open spec fn sources_text(sources: Seq<u16>) -> Seq<char> {
    if sources.len() == 0 {
        "none"@
    } else {
        text::join(decimals(sources), ", "@)
    }
}

/// The last error as it is shown.
pub open spec fn error_text(error: Option<String>) -> Seq<char> {
    match error {
        Some(e) => e@,
        None => "none"@,
    }
}

/// What is shown of the diagnostics of one transport.
pub open spec fn diagnostics_text(name: Seq<char>, d: TransportDiagnostics) -> Seq<char> {
    "Transport: "@ + name + "\n  Local node ID        "@ + node_id_text(d.local_node_id)
        + "\n  Observed nodes        "@ + text::decimal(d.observed_node_count as nat)
        + "\n  Messages received     "@ + text::decimal(d.total_messages_received as nat)
        + "\n  Heartbeats received   "@ + text::decimal(d.heartbeat_messages_received as nat)
        + "\n  GetInfo req/res       "@ + text::decimal(d.get_info_requests_sent as nat) + " / "@
        + text::decimal(d.get_info_responses_received as nat) + "\n  Last message age      "@
        + duration_text(d.last_message_age) + "\n  Last heartbeat age    "@ + duration_text(
        d.last_heartbeat_age,
    ) + "\n  Recent heartbeat IDs  "@ + sources_text(d.recent_heartbeat_sources@)
        + "\n  Last error            "@ + error_text(d.last_error)
}

fn push_number(out: &mut String, label: &str, n: u128)
    ensures
        final(out)@ == old(out)@ + label@ + text::decimal(n as nat),
{
    out.append(label);
    let digits = text::decimal_string(n);
    out.append(digits.as_str());
}

fn format_sources(sources: &Vec<u16>) -> (s: String)
    ensures
        s@ == sources_text(sources@),
{
    if sources.len() == 0 {
        return "none".to_owned();
    }
    let mut parts: Vec<String> = Vec::new();
    let mut i: usize = 0;
    while i < sources.len()
        invariant
            i <= sources@.len(),
            parts@.len() == i,
            forall|j: int|
                0 <= j < i ==> (#[trigger] parts@[j])@ == text::decimal(sources@[j] as nat),
        decreases sources@.len() - i,
    {
        parts.push(text::decimal_string(sources[i] as u128));
        i = i + 1;
    }
    assert(text::string_views(parts@) =~= decimals(sources@));
    text::join_strings(&parts, ", ")
}

/// Show the diagnostics of one transport.
pub fn format_diagnostics(name: &str, diagnostics: &TransportDiagnostics) -> (s: String)
    ensures
        s@ == diagnostics_text(name@, *diagnostics),
{
    let mut s = String::new();
    s.append("Transport: ");
    s.append(name);
    match diagnostics.local_node_id {
        Some(id) => push_number(&mut s, "\n  Local node ID        ", id as u128),
        None => {
            s.append("\n  Local node ID        ");
            s.append("unknown");
        },
    }
    push_number(&mut s, "\n  Observed nodes        ", diagnostics.observed_node_count as u128);
    push_number(&mut s, "\n  Messages received     ", diagnostics.total_messages_received as u128);
    push_number(
        &mut s,
        "\n  Heartbeats received   ",
        diagnostics.heartbeat_messages_received as u128,
    );
    push_number(&mut s, "\n  GetInfo req/res       ", diagnostics.get_info_requests_sent as u128);
    push_number(&mut s, " / ", diagnostics.get_info_responses_received as u128);
    s.append("\n  Last message age      ");
    let message_age = format_duration(diagnostics.last_message_age);
    s.append(message_age.as_str());
    s.append("\n  Last heartbeat age    ");
    let heartbeat_age = format_duration(diagnostics.last_heartbeat_age);
    s.append(heartbeat_age.as_str());
    s.append("\n  Recent heartbeat IDs  ");
    let sources = format_sources(&diagnostics.recent_heartbeat_sources);
    s.append(sources.as_str());
    s.append("\n  Last error            ");
    match &diagnostics.last_error {
        Some(e) => s.append(e.as_str()),
        None => s.append("none"),
    }
    s
}

/// What is shown for a worker's reply.
pub open spec fn reply_text(
    name: Seq<char>,
    reply: Result<TransportDiagnostics, String>,
) -> Seq<char> {
    match reply {
        Ok(d) => diagnostics_text(name, d),
        Err(e) => "Transport: "@ + name + "\n  Diagnostics error: "@ + e@,
    }
}

/// What is shown for the replies of the workers with the given names.
pub open spec fn reply_texts(
    names: Seq<Seq<char>>,
    replies: Seq<Result<TransportDiagnostics, String>>,
) -> Seq<Seq<char>> {
    Seq::new(names.len(), |i: int| reply_text(names[i], replies[i]))
}

/// Show the replies of the workers with the given names.
pub fn render_diagnostics(
    names: &Vec<String>,
    replies: &Vec<Result<TransportDiagnostics, String>>,
) -> (output: String)
    requires
        names@.len() == replies@.len(),
    ensures
        output@ == text::join(reply_texts(text::string_views(names@), replies@), "\n\n"@),
{
    let mut sections: Vec<String> = Vec::new();
    let mut i: usize = 0;
    while i < names.len()
        invariant
            i <= names@.len(),
            names@.len() == replies@.len(),
            sections@.len() == i,
            forall|j: int|
                0 <= j < i ==> (#[trigger] sections@[j])@ == reply_text(names@[j]@, replies@[j]),
        decreases names@.len() - i,
    {
        let section = match &replies[i] {
            Ok(diagnostics) => format_diagnostics(names[i].as_str(), diagnostics),
            Err(e) => {
                let mut s = String::new();
                s.append("Transport: ");
                s.append(names[i].as_str());
                s.append("\n  Diagnostics error: ");
                s.append(e.as_str());
                s
            },
        };
        sections.push(section);
        i = i + 1;
    }
    assert(text::string_views(sections@) =~= reply_texts(text::string_views(names@), replies@));
    text::join_strings(&sections, "\n\n")
}

// ─── command ─────────────────────────────────────────────────────────────────

/// Displays transport diagnostics for one or all configured transports.
///
/// Usage: `diag [<transport-name>]`
pub struct DiagCommand {
    pub handles: Arc<Vec<TransportHandle>>,
}

impl DiagCommand {
    pub fn new(handles: Arc<Vec<TransportHandle>>) -> (command: Self)
        ensures
            command.handles == handles,
    {
        DiagCommand { handles }
    }
}

/// Whether the workers at the given positions, each asked for its diagnostics and given
/// two seconds, told the replies, one each.
pub open spec fn told_by_each(
    handles: Seq<TransportHandle>,
    at: Seq<int>,
    replies: Seq<Result<TransportDiagnostics, String>>,
) -> bool {
    &&& replies.len() == at.len()
    &&& forall|i: int|
        0 <= i < at.len() ==> transport::told_diagnostics(
            handles[at[i]],
            clock::seconds(2),
            #[trigger] replies[i],
        )
}

impl Command for DiagCommand {
    open spec fn name_text(&self) -> Seq<char> {
        "diag"@
    }

    open spec fn description_text(&self) -> Seq<char> {
        "Show transport diagnostics. Usage: diag [<transport>]"@
    }

    /// The answer shows one reply for each transport that is asked for, the one that its
    /// own worker told.
    open spec fn may_answer(&self, args: Seq<Seq<char>>, answer: Seq<char>) -> bool {
        let names = select::names_of(self.handles@);
        match select::refusal(names, args) {
            Some(message) => answer == message,
            None => exists|replies: Seq<Result<TransportDiagnostics, String>>|
                told_by_each(self.handles@, select::chosen(names, args), replies) && answer
                    == text::join(
                    #[trigger] reply_texts(select::chosen_names(names, args), replies),
                    "\n\n"@,
                ),
        }
    }

    fn name(&self) -> (name: &'static str) {
        "diag"
    }

    fn description(&self) -> (description: &'static str) {
        "Show transport diagnostics. Usage: diag [<transport>]"
    }

    fn execute(&self, args: &[&str]) -> (answer: String) {
        let handles: &Vec<TransportHandle> = &self.handles;
        let selected = match select::select(handles, args) {
            Ok(indices) => indices,
            Err(message) => {
                return message;
            },
        };
        let names = select::names_at(handles, &selected);
        assert(text::string_views(names@) == select::chosen_names(
            select::names_of(self.handles@),
            text::views(args@),
        ));
        let mut replies: Vec<Result<TransportDiagnostics, String>> = Vec::new();
        let mut i: usize = 0;
        while i < selected.len()
            invariant
                i <= selected@.len(),
                replies@.len() == i,
                handles@ == self.handles@,
                forall|j: int|
                    0 <= j < selected@.len() ==> #[trigger] selected@[j] < handles@.len(),
                forall|j: int|
                    0 <= j < i ==> transport::told_diagnostics(
                        handles@[selected@[j] as int],
                        clock::seconds(2),
                        #[trigger] replies@[j],
                    ),
            decreases selected@.len() - i,
        {
            replies.push(handles[selected[i]].diagnostics(Duration::from_secs(2)));
            i = i + 1;
        }
        assert(replies@.len() == text::string_views(names@).len());
        proof {
            let at = select::chosen(select::names_of(self.handles@), text::views(args@));
            assert(at == select::positions(selected@));
            assert(told_by_each(self.handles@, at, replies@));
        }
        render_diagnostics(&names, &replies)
    }
}

// ─── laws ────────────────────────────────────────────────────────────────────

/// Each transport that is asked for is shown under its name with the diagnostics that its
/// own worker tells.
pub proof fn asked_transports_are_shown(
    command: DiagCommand,
    args: Seq<Seq<char>>,
    answer: Seq<char>,
    diagnostics: Seq<TransportDiagnostics>,
    k: int,
)
    requires
        command.may_answer(args, answer),
        diagnostics.len() == command.handles@.len(),
        forall|i: int|
            0 <= i < diagnostics.len() ==> transport::always_tells_diagnostics(
                command.handles@[i],
                #[trigger] diagnostics[i],
            ),
        0 <= k < diagnostics.len(),
        args.len() == 0 || args[0] == command.handles@[k].name@,
    ensures
        text::has_part(answer, diagnostics_text(command.handles@[k].name@, diagnostics[k])),
{
    let handles = command.handles@;
    let names = select::names_of(handles);
    let at = select::chosen(names, args);
    let shown = select::chosen_names(names, args);
    assert(names[k] == handles[k].name@);
    select::chosen_are_asked(names, args);
    assert(at.contains(k));
    let n = choose|n: int| 0 <= n < at.len() && at[n] == k;
    let told = choose|told: Seq<Result<TransportDiagnostics, String>>|
        told_by_each(handles, at, told) && answer == text::join(
            #[trigger] reply_texts(shown, told),
            "\n\n"@,
        );
    assert(told[n] == Ok::<TransportDiagnostics, String>(diagnostics[k])) by {
        assert(transport::told_diagnostics(handles[at[n]], clock::seconds(2), told[n]));
        assert(transport::always_tells_diagnostics(handles[k], diagnostics[k]));
        transport::diagnostics_come_from_the_worker(
            handles[k],
            clock::seconds(2),
            told[n],
            diagnostics[k],
        );
    }
    assert(shown[n] == handles[k].name@);
    text::joined_parts_occur(reply_texts(shown, told), "\n\n"@, n);
}

/// What is shown of a transport starts with its name and holds each value under its
/// label.
pub proof fn diagnostics_are_labelled(name: Seq<char>, d: TransportDiagnostics)
    ensures
        ({
            let shown = diagnostics_text(name, d);
            &&& ("Transport: "@ + name).is_prefix_of(shown)
            &&& text::has_part(
                shown,
                "\n  Local node ID        "@ + node_id_text(d.local_node_id),
            )
            &&& text::has_part(
                shown,
                "\n  Observed nodes        "@ + text::decimal(d.observed_node_count as nat),
            )
            &&& text::has_part(
                shown,
                "\n  Messages received     "@ + text::decimal(d.total_messages_received as nat),
            )
            &&& text::has_part(
                shown,
                "\n  Heartbeats received   "@ + text::decimal(d.heartbeat_messages_received as nat),
            )
            &&& text::has_part(
                shown,
                "\n  GetInfo req/res       "@ + (text::decimal(d.get_info_requests_sent as nat)
                    + " / "@ + text::decimal(d.get_info_responses_received as nat)),
            )
            &&& text::has_part(
                shown,
                "\n  Last message age      "@ + duration_text(d.last_message_age),
            )
            &&& text::has_part(
                shown,
                "\n  Last heartbeat age    "@ + duration_text(d.last_heartbeat_age),
            )
            &&& text::has_part(
                shown,
                "\n  Recent heartbeat IDs  "@ + sources_text(d.recent_heartbeat_sources@),
            )
            &&& text::has_part(shown, "\n  Last error            "@ + error_text(d.last_error))
        }),
{
    let t0 = "Transport: "@ + name;
    let l0 = "\n  Local node ID        "@;
    let v0 = node_id_text(d.local_node_id);
    let t1 = t0 + l0 + v0;
    let l1 = "\n  Observed nodes        "@;
    let v1 = text::decimal(d.observed_node_count as nat);
    let t2 = t1 + l1 + v1;
    let l2 = "\n  Messages received     "@;
    let v2 = text::decimal(d.total_messages_received as nat);
    let t3 = t2 + l2 + v2;
    let l3 = "\n  Heartbeats received   "@;
    let v3 = text::decimal(d.heartbeat_messages_received as nat);
    let t4 = t3 + l3 + v3;
    let l4 = "\n  GetInfo req/res       "@;
    let v4 = text::decimal(d.get_info_requests_sent as nat);
    let t5 = t4 + l4 + v4;
    let l5 = " / "@;
    let v5 = text::decimal(d.get_info_responses_received as nat);
    let t6 = t5 + l5 + v5;
    let l6 = "\n  Last message age      "@;
    let v6 = duration_text(d.last_message_age);
    let t7 = t6 + l6 + v6;
    let l7 = "\n  Last heartbeat age    "@;
    let v7 = duration_text(d.last_heartbeat_age);
    let t8 = t7 + l7 + v7;
    let l8 = "\n  Recent heartbeat IDs  "@;
    let v8 = sources_text(d.recent_heartbeat_sources@);
    let t9 = t8 + l8 + v8;
    let l9 = "\n  Last error            "@;
    let v9 = error_text(d.last_error);
    let t10 = t9 + l9 + v9;
    assert(t10 == diagnostics_text(name, d));
    text::ends_are_parts(t0, l0, v0);
    grown(t1, l1, v1, l0 + v0);
    grown(t2, l2, v2, l0 + v0);
    grown(t3, l3, v3, l0 + v0);
    grown(t4, l4, v4, l0 + v0);
    grown(t5, l5, v5, l0 + v0);
    grown(t6, l6, v6, l0 + v0);
    grown(t7, l7, v7, l0 + v0);
    grown(t8, l8, v8, l0 + v0);
    grown(t9, l9, v9, l0 + v0);
    text::ends_are_parts(t1, l1, v1);
    grown(t2, l2, v2, l1 + v1);
    grown(t3, l3, v3, l1 + v1);
    grown(t4, l4, v4, l1 + v1);
    grown(t5, l5, v5, l1 + v1);
    grown(t6, l6, v6, l1 + v1);
    grown(t7, l7, v7, l1 + v1);
    grown(t8, l8, v8, l1 + v1);
    grown(t9, l9, v9, l1 + v1);
    text::ends_are_parts(t2, l2, v2);
    grown(t3, l3, v3, l2 + v2);
    grown(t4, l4, v4, l2 + v2);
    grown(t5, l5, v5, l2 + v2);
    grown(t6, l6, v6, l2 + v2);
    grown(t7, l7, v7, l2 + v2);
    grown(t8, l8, v8, l2 + v2);
    grown(t9, l9, v9, l2 + v2);
    text::ends_are_parts(t3, l3, v3);
    grown(t4, l4, v4, l3 + v3);
    grown(t5, l5, v5, l3 + v3);
    grown(t6, l6, v6, l3 + v3);
    grown(t7, l7, v7, l3 + v3);
    grown(t8, l8, v8, l3 + v3);
    grown(t9, l9, v9, l3 + v3);
    let pair = v4 + l5 + v5;
    values_stay(t4, l4, v4, l5, v5);
    grown(t6, l6, v6, l4 + pair);
    grown(t7, l7, v7, l4 + pair);
    grown(t8, l8, v8, l4 + pair);
    grown(t9, l9, v9, l4 + pair);
    text::ends_are_parts(t6, l6, v6);
    grown(t7, l7, v7, l6 + v6);
    grown(t8, l8, v8, l6 + v6);
    grown(t9, l9, v9, l6 + v6);
    text::ends_are_parts(t7, l7, v7);
    grown(t8, l8, v8, l7 + v7);
    grown(t9, l9, v9, l7 + v7);
    text::ends_are_parts(t8, l8, v8);
    grown(t9, l9, v9, l8 + v8);
    text::ends_are_parts(t9, l9, v9);
    starts_stay(t0, t0, l0, v0);
    starts_stay(t0, t1, l1, v1);
    starts_stay(t0, t2, l2, v2);
    starts_stay(t0, t3, l3, v3);
    starts_stay(t0, t4, l4, v4);
    starts_stay(t0, t5, l5, v5);
    starts_stay(t0, t6, l6, v6);
    starts_stay(t0, t7, l7, v7);
    starts_stay(t0, t8, l8, v8);
    starts_stay(t0, t9, l9, v9);
}

proof fn grown(whole: Seq<char>, label: Seq<char>, value: Seq<char>, part: Seq<char>)
    requires
        text::has_part(whole, part),
    ensures
        text::has_part(whole + label + value, part),
{
    text::parts_stay(whole, label, part);
    text::parts_stay(whole + label, value, part);
}

proof fn starts_stay(start: Seq<char>, whole: Seq<char>, label: Seq<char>, value: Seq<char>)
    requires
        start.is_prefix_of(whole),
    ensures
        start.is_prefix_of(whole + label + value),
{
    assert(start =~= (whole + label + value).subrange(0, start.len() as int));
}

proof fn values_stay(
    whole: Seq<char>,
    label: Seq<char>,
    first: Seq<char>,
    between: Seq<char>,
    second: Seq<char>,
)
    ensures
        text::has_part(
            whole + label + first + between + second,
            label + (first + between + second),
        ),
{
    text::ends_are_parts(whole, label, first + between + second);
    assert(whole + label + (first + between + second) =~= whole + label + first + between
        + second);
}

} // verus!
