//! The `get-info` command.

use std::sync::Arc;
use std::time::Duration;

use vstd::prelude::*;

use crate::clock;
use crate::commands::select;
use crate::commands::Command;
use crate::text;
use crate::transport::{self, GetInfoResult, TransportHandle};

verus! {

// ─── layout ──────────────────────────────────────────────────────────────────

/// The bytes in hexadecimal, each by itself.
pub open spec fn hex_bytes(bytes: Seq<u8>) -> Seq<Seq<char>> {
    bytes.map_values(|b: u8| text::hex(seq![b]))
}

/// A version as it is shown.
pub open spec fn version_text(version: (u8, u8)) -> Seq<char> {
    text::decimal(version.0 as nat) + "."@ + text::decimal(version.1 as nat)
}

/// What is shown for the result of a request.
pub open spec fn result_text(result: Result<GetInfoResult, String>) -> Seq<char> {
    match result {
        Ok(info) => "Node "@ + text::decimal(info.node_id as nat) + "  ("@ + info.name@
            + ")\nHardware : "@ + version_text(info.hardware_version) + "\nSoftware : "@
            + version_text(info.software_version) + "\nUnique ID: "@ + text::join(
            hex_bytes(info.unique_id@),
            ":"@,
        ),
        Err(e) => "GetInfo failed: "@ + e@,
    }
}

fn colon_hex(bytes: &[u8; 16]) -> (s: String)
    ensures
        s@ == text::join(hex_bytes(bytes@), ":"@),
{
    let mut parts: Vec<String> = Vec::new();
    let mut i: usize = 0;
    while i < 16
        invariant
            i <= 16,
            bytes@.len() == 16,
            parts@.len() == i,
            forall|j: int| 0 <= j < i ==> (#[trigger] parts@[j])@ == text::hex(seq![bytes@[j]]),
        decreases 16 - i,
    {
        let mut part = String::new();
        text::push_hex_byte(&mut part, bytes[i]);
        assert(part@ =~= text::hex(seq![bytes@[i as int]]));
        parts.push(part);
        i = i + 1;
    }
    assert(text::string_views(parts@) =~= hex_bytes(bytes@));
    text::join_strings(&parts, ":")
}

fn push_version(out: &mut String, version: (u8, u8))
    ensures
        final(out)@ == old(out)@ + version_text(version),
{
    let major = text::decimal_string(version.0 as u128);
    let minor = text::decimal_string(version.1 as u128);
    out.append(major.as_str());
    out.append(".");
    out.append(minor.as_str());
    assert(out@ =~= old(out)@ + version_text(version));
}

/// Show the result of a request.
pub fn render_result(result: &Result<GetInfoResult, String>) -> (s: String)
    ensures
        s@ == result_text(*result),
{
    let mut s = String::new();
    match result {
        Ok(info) => {
            s.append("Node ");
            let node_id = text::decimal_string(info.node_id as u128);
            s.append(node_id.as_str());
            s.append("  (");
            s.append(info.name.as_str());
            s.append(")\nHardware : ");
            push_version(&mut s, info.hardware_version);
            s.append("\nSoftware : ");
            push_version(&mut s, info.software_version);
            s.append("\nUnique ID: ");
            let unique_id = colon_hex(&info.unique_id);
            s.append(unique_id.as_str());
        },
        Err(e) => {
            s.append("GetInfo failed: ");
            s.append(e.as_str());
        },
    }
    s
}

// ─── command ─────────────────────────────────────────────────────────────────

/// What is said about a word that is no node ID.
pub open spec fn invalid_node_id(word: Seq<char>) -> Seq<char> {
    "Invalid node ID '"@ + word + "': must be a number"@
}

/// What is said when no request can be made.
pub open spec fn refusal(names: Seq<Seq<char>>, args: Seq<Seq<char>>) -> Option<Seq<char>> {
    if args.len() < 2 {
        Some("Usage: get-info <transport> <node-id>"@)
    } else if text::parsed_u16(args[1], 10) is None {
        Some(invalid_node_id(args[1]))
    } else if !names.contains(args[0]) {
        Some(select::unknown_transport(names, args[0]))
    } else {
        None
    }
}

/// Whether the first transport with the name stands at the position.
pub open spec fn is_first_named(names: Seq<Seq<char>>, name: Seq<char>, at: int) -> bool {
    &&& 0 <= at < names.len()
    &&& names[at] == name
    &&& forall|i: int| 0 <= i < at ==> #[trigger] names[i] != name
}

/// The node that a request goes to: the first transport with the name, and the
/// node ID; or what to say instead.
pub fn target(handles: &Vec<TransportHandle>, args: &[&str]) -> (target: Result<
    (usize, u16),
    String,
>)
    ensures
        match target {
            Ok((at, node_id)) => {
                let names = select::names_of(handles@);
                let words = text::views(args@);
                &&& refusal(names, words) is None
                &&& at < handles@.len()
                &&& names[at as int] == words[0]
                &&& forall|i: int| 0 <= i < at ==> #[trigger] names[i] != words[0]
                &&& text::parsed_u16(words[1], 10) == Some(node_id)
            },
            Err(message) => refusal(select::names_of(handles@), text::views(args@)) == Some(
                message@,
            ),
        },
{
    let ghost names = select::names_of(handles@);
    let ghost words = text::views(args@);
    if args.len() < 2 {
        return Err("Usage: get-info <transport> <node-id>".to_owned());
    }
    assert(words[0] == args@[0]@ && words[1] == args@[1]@);
    let digits = text::chars_of(args[1]);
    assert(digits@.subrange(0, digits@.len() as int) =~= digits@);
    let node_id: u16 = match text::parse_u16(&digits, 0, digits.len(), 10) {
        Some(id) => id,
        None => {
            let mut message = String::new();
            message.append("Invalid node ID '");
            message.append(args[1]);
            message.append("': must be a number");
            return Err(message);
        },
    };
    let mut at: usize = 0;
    while at < handles.len()
        invariant
            at <= handles@.len(),
            args@.len() >= 2,
            names == select::names_of(handles@),
            words == text::views(args@),
            refusal(names, words) is None || refusal(names, words) == Some(
                select::unknown_transport(names, words[0]),
            ),
            refusal(names, words) is Some ==> !names.contains(words[0]),
            text::parsed_u16(words[1], 10) == Some(node_id),
            forall|i: int| 0 <= i < at ==> #[trigger] names[i] != words[0],
        decreases handles@.len() - at,
    {
        if text::same_text(handles[at].name.as_str(), args[0]) {
            assert(names[at as int] == words[0]);
            assert(names.contains(words[0]));
            return Ok((at, node_id));
        }
        at = at + 1;
    }
    assert(!names.contains(words[0]));
    Err(select::unknown_transport_text(handles, args[0]))
}

/// Issues a `uavcan.node.GetInfo` request to a specific node.
///
/// Usage: `get-info <transport> <node-id>`
pub struct GetInfoCommand {
    pub handles: Arc<Vec<TransportHandle>>,
}

impl GetInfoCommand {
    pub fn new(handles: Arc<Vec<TransportHandle>>) -> (command: Self)
        ensures
            command.handles == handles,
    {
        GetInfoCommand { handles }
    }
}

impl Command for GetInfoCommand {
    open spec fn name_text(&self) -> Seq<char> {
        "get-info"@
    }

    open spec fn description_text(&self) -> Seq<char> {
        "Query a node's GetInfo. Usage: get-info <transport> <node-id>"@
    }

    /// The answer shows what the worker of the first transport with the name in the first
    /// word, asked for the node in the second and given five seconds, told.
    open spec fn may_answer(&self, args: Seq<Seq<char>>, answer: Seq<char>) -> bool {
        match refusal(select::names_of(self.handles@), args) {
            Some(message) => answer == message,
            None => exists|at: int, result: Result<GetInfoResult, String>|
                {
                    &&& #[trigger] is_first_named(select::names_of(self.handles@), args[0], at)
                    &&& transport::told_info(
                        self.handles@[at],
                        text::parsed_u16(args[1], 10)->0,
                        clock::seconds(5),
                        result,
                    )
                    &&& answer == #[trigger] result_text(result)
                },
        }
    }

    fn name(&self) -> (name: &'static str) {
        "get-info"
    }

    fn description(&self) -> (description: &'static str) {
        "Query a node's GetInfo. Usage: get-info <transport> <node-id>"
    }

    fn execute(&self, args: &[&str]) -> (answer: String) {
        let handles: &Vec<TransportHandle> = &self.handles;
        match target(handles, args) {
            Ok((at, node_id)) => {
                let result = handles[at].get_info(node_id, Duration::from_secs(5));
                let answer = render_result(&result);
                assert(is_first_named(
                    select::names_of(self.handles@),
                    text::views(args@)[0],
                    at as int,
                ));
                assert(answer@ == result_text(result));
                answer
            },
            Err(message) => message,
        }
    }
}

// ─── laws ────────────────────────────────────────────────────────────────────

/// With the name of a transport and a number, the answer shows what the worker of the
/// first transport with that name told of the node with that very number: whatever holds
/// of all the worker's answers to requests for it holds of the result that is shown.
pub proof fn the_node_that_was_named_is_asked(
    command: GetInfoCommand,
    args: Seq<Seq<char>>,
    answer: Seq<char>,
    at: int,
    node_id: u16,
    expected: spec_fn(Result<GetInfoResult, String>) -> bool,
)
    requires
        command.may_answer(args, answer),
        args.len() >= 2,
        0 <= at < command.handles@.len(),
        args[0] == command.handles@[at].name@,
        forall|i: int| 0 <= i < at ==> (#[trigger] command.handles@[i]).name@ != args[0],
        args[1] == text::decimal(node_id as nat),
        transport::always_tells_info(command.handles@[at], node_id, expected),
    ensures
        exists|result: Result<GetInfoResult, String>|
            expected(result) && answer == #[trigger] result_text(result),
{
    let handles = command.handles@;
    let names = select::names_of(handles);
    text::numerals_are_read_back(node_id);
    assert(names[at] == args[0]);
    assert(names.contains(args[0]));
    let (k, result) = choose|k: int, result: Result<GetInfoResult, String>|
        {
            &&& #[trigger] is_first_named(names, args[0], k)
            &&& transport::told_info(
                handles[k],
                text::parsed_u16(args[1], 10)->0,
                clock::seconds(5),
                result,
            )
            &&& answer == #[trigger] result_text(result)
        };
    assert(k == at) by {
        assert(names[k] == handles[k].name@);
    }
    transport::info_comes_from_the_worker(
        handles[at],
        node_id,
        clock::seconds(5),
        result,
        expected,
    );
}

/// Whether the result, if it is a success, is that of the node.
pub open spec fn is_about(node_id: u16) -> spec_fn(Result<GetInfoResult, String>) -> bool {
    |result: Result<GetInfoResult, String>| result matches Ok(info) ==> info.node_id == node_id
}

/// Where the worker answers requests for a node with results of that node, what is shown
/// names the node that was asked for, or a failure.
pub proof fn the_node_that_was_asked_is_named(
    command: GetInfoCommand,
    args: Seq<Seq<char>>,
    answer: Seq<char>,
    at: int,
    node_id: u16,
)
    requires
        command.may_answer(args, answer),
        args.len() >= 2,
        0 <= at < command.handles@.len(),
        args[0] == command.handles@[at].name@,
        forall|i: int| 0 <= i < at ==> (#[trigger] command.handles@[i]).name@ != args[0],
        args[1] == text::decimal(node_id as nat),
        transport::always_tells_info(command.handles@[at], node_id, is_about(node_id)),
    ensures
        ("Node "@ + args[1] + "  ("@).is_prefix_of(answer) || "GetInfo failed: "@.is_prefix_of(
            answer,
        ),
{
    the_node_that_was_named_is_asked(command, args, answer, at, node_id, is_about(node_id));
    let result = choose|result: Result<GetInfoResult, String>|
        is_about(node_id)(result) && answer == #[trigger] result_text(result);
    match result {
        Ok(info) => {
            let head = "Node "@ + args[1] + "  ("@;
            assert(head =~= answer.subrange(0, head.len() as int));
        },
        Err(e) => {
            assert("GetInfo failed: "@ =~= answer.subrange(0, "GetInfo failed: "@.len() as int));
        },
    }
}

/// A success shows the number, the name and the versions of the node, and its unique ID
/// byte by byte.
pub proof fn results_show_the_node(info: GetInfoResult)
    ensures
        ({
            let shown = result_text(Ok(info));
            &&& text::has_part(shown, "Node "@ + text::decimal(info.node_id as nat))
            &&& text::has_part(shown, "  ("@ + info.name@)
            &&& text::has_part(
                shown,
                ")\nHardware : "@ + (text::decimal(info.hardware_version.0 as nat) + "."@
                    + text::decimal(info.hardware_version.1 as nat)),
            )
            &&& text::has_part(
                shown,
                "\nSoftware : "@ + (text::decimal(info.software_version.0 as nat) + "."@
                    + text::decimal(info.software_version.1 as nat)),
            )
            &&& forall|i: int|
                0 <= i < 16 ==> text::has_part(
                    shown,
                    #[trigger] text::hex(seq![info.unique_id@[i]]),
                )
        }),
{
    let l0 = "Node "@;
    let v0 = text::decimal(info.node_id as nat);
    let l1 = "  ("@;
    let v1 = info.name@;
    let l2 = ")\nHardware : "@;
    let v2 = version_text(info.hardware_version);
    let l3 = "\nSoftware : "@;
    let v3 = version_text(info.software_version);
    let l4 = "\nUnique ID: "@;
    let bytes = hex_bytes(info.unique_id@);
    let v4 = text::join(bytes, ":"@);
    let t0 = l0 + v0;
    let t1 = t0 + l1 + v1;
    let t2 = t1 + l2 + v2;
    let t3 = t2 + l3 + v3;
    let t4 = t3 + l4 + v4;
    assert(t4 == result_text(Ok(info)));
    text::texts_have_themselves(t0);
    grown(t0, l1, v1, l0 + v0);
    grown(t1, l2, v2, l0 + v0);
    grown(t2, l3, v3, l0 + v0);
    grown(t3, l4, v4, l0 + v0);
    text::ends_are_parts(t0, l1, v1);
    grown(t1, l2, v2, l1 + v1);
    grown(t2, l3, v3, l1 + v1);
    grown(t3, l4, v4, l1 + v1);
    text::ends_are_parts(t1, l2, v2);
    grown(t2, l3, v3, l2 + v2);
    grown(t3, l4, v4, l2 + v2);
    text::ends_are_parts(t2, l3, v3);
    grown(t3, l4, v4, l3 + v3);
    assert forall|i: int| 0 <= i < 16 implies text::has_part(
        t4,
        #[trigger] text::hex(seq![info.unique_id@[i]]),
    ) by {
        text::joined_parts_occur(bytes, ":"@, i);
        text::ends_stay(t3 + l4, v4, bytes[i]);
    }
}

proof fn grown(whole: Seq<char>, label: Seq<char>, value: Seq<char>, part: Seq<char>)
    requires
        text::has_part(whole, part),
    ensures
        text::has_part(whole + label + value, part),
{
    text::parts_stay(whole, label, part);
    text::parts_stay(whole + label, value, part);
}

} // verus!
