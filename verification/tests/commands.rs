use std::sync::Arc;

use cyphal_service::cli::{register_defaults, repl_step, ReplAction};
use cyphal_service::commands::diag::{
    format_diagnostics, format_duration, render_diagnostics, DiagCommand,
};
use cyphal_service::commands::get_info::{render_result, target, GetInfoCommand};
use cyphal_service::commands::hello::HelloCommand;
use cyphal_service::commands::help::{format_help, HelpCommand};
use cyphal_service::commands::nodes::{render_nodes, NodesCommand};
use cyphal_service::commands::pnp::{render_allocations, PnpListCommand};
use cyphal_service::commands::select::select;
use cyphal_service::commands::{Command, CommandRegistry, Held};
use cyphal_service::pnp::AllocationEntry;
use cyphal_service::transport::{
    GetInfoResult, NodeEntry, TransportDiagnostics, TransportHandle,
};

struct EchoCommand;

impl Command for EchoCommand {
    fn name(&self) -> &'static str {
        "echo"
    }
    fn description(&self) -> &'static str {
        "Echo arguments back"
    }
    fn execute(&self, args: &[&str]) -> String {
        args.join(" ")
    }
}

/// A second command that answers to the same name.
struct LoudEchoCommand;

impl Command for LoudEchoCommand {
    fn name(&self) -> &'static str {
        "echo"
    }
    fn description(&self) -> &'static str {
        "Echo arguments back, loudly"
    }
    fn execute(&self, args: &[&str]) -> String {
        args.join(" ").to_uppercase()
    }
}

/// Handles to workers that have stopped.
fn stopped(names: &[&str]) -> Arc<Vec<TransportHandle>> {
    Arc::new(
        names
            .iter()
            .map(|name| {
                let (tx, _) = std::sync::mpsc::sync_channel(1);
                TransportHandle::new(name.to_string(), None, tx)
            })
            .collect(),
    )
}

fn diagnostics() -> TransportDiagnostics {
    TransportDiagnostics {
        local_node_id: Some(100),
        observed_node_count: 2,
        total_messages_received: 30,
        heartbeat_messages_received: 20,
        get_info_requests_sent: 4,
        get_info_responses_received: 3,
        last_message_age: Some(1_999_999_999),
        last_heartbeat_age: Some(999_999_999),
        recent_heartbeat_sources: vec![7, 42],
        last_error: None,
        pnp_enabled: false,
        pnp_allocations: 0,
    }
}

// ─── registry ────────────────────────────────────────────────────────────────

#[test]
fn test_register_and_dispatch() {
    let mut registry = CommandRegistry::new();
    registry.register(Box::new(EchoCommand));

    let result = registry.dispatch("echo foo bar");
    assert_eq!(result, Some("foo bar".to_string()));
}

#[test]
fn test_dispatch_unknown_command() {
    let registry = CommandRegistry::new();
    let result = registry.dispatch("nonexistent");
    assert!(result.unwrap().contains("Unknown command"));
}

#[test]
fn test_dispatch_unknown_command_text() {
    let registry = CommandRegistry::new();
    assert_eq!(
        registry.dispatch("  nope x"),
        Some("Unknown command: 'nope'.  Type 'help' for available commands.".to_string())
    );
}

#[test]
fn test_dispatch_empty_line() {
    let registry = CommandRegistry::new();
    assert_eq!(registry.dispatch(""), None);
    assert_eq!(registry.dispatch("   "), None);
}

#[test]
fn test_dispatch_splits_on_any_whitespace() {
    let mut registry = CommandRegistry::new();
    registry.register(Box::new(EchoCommand));
    assert_eq!(
        registry.dispatch("\t echo\u{3000}a\n b \r"),
        Some("a b".to_string())
    );
}

#[test]
fn test_list_commands() {
    let mut registry = CommandRegistry::new();
    registry.register(Box::new(EchoCommand));
    let list = registry.list();
    assert_eq!(list.len(), 1);
    assert_eq!(list[0].0, "echo");
}

#[test]
fn test_register_replaces_same_name() {
    let mut registry = CommandRegistry::default();
    registry.register(Box::new(EchoCommand));
    registry.register(Box::new(HelloCommand));
    registry.register(Box::new(LoudEchoCommand));
    assert_eq!(
        registry.list(),
        vec![
            ("echo", "Echo arguments back, loudly"),
            ("hello", "Print a greeting")
        ]
    );
    assert_eq!(registry.dispatch("echo hi"), Some("HI".to_string()));
    let held: Held<Box<dyn Command>> = Held {
        command: Box::new(EchoCommand),
    };
    registry.hold(held);
    assert_eq!(registry.list().len(), 2);
    assert_eq!(registry.dispatch("echo hi"), Some("hi".to_string()));
}

#[test]
fn test_register_defaults_lists_sorted_names() {
    let mut registry = CommandRegistry::new();
    register_defaults(&mut registry, Arc::new(vec![]));
    let names: Vec<&str> = registry.list().iter().map(|e| e.0).collect();
    assert_eq!(
        names,
        vec!["diag", "get-info", "hello", "help", "nodes", "pnp-list"]
    );
    assert_eq!(registry.dispatch("hello"), Some("hello".to_string()));
}

// ─── REPL ────────────────────────────────────────────────────────────────────

#[test]
fn test_repl_steps() {
    let mut registry = CommandRegistry::new();
    register_defaults(&mut registry, Arc::new(vec![]));

    let blank = repl_step(&registry, " \t ");
    assert_eq!(blank.entry, "");
    assert!(matches!(blank.action, ReplAction::Ignore));

    assert!(matches!(repl_step(&registry, "quit").action, ReplAction::Goodbye));
    assert!(matches!(repl_step(&registry, " exit ").action, ReplAction::Goodbye));

    let help = repl_step(&registry, "help\n");
    assert_eq!(help.entry, "help");
    match help.action {
        ReplAction::Print(text) => {
            assert!(text.starts_with("Available commands:\n  diag             Show transport"));
            assert!(text.ends_with("Usage: pnp-list [<transport>]"));
        }
        _ => panic!("help must print"),
    }

    match repl_step(&registry, "help me").action {
        ReplAction::Print(text) => assert_eq!(text, "Use the REPL to see available commands."),
        _ => panic!("a line with more words is dispatched"),
    }

    match repl_step(&registry, "nope").action {
        ReplAction::Print(text) => assert_eq!(
            text,
            "Unknown command: 'nope'.  Type 'help' for available commands."
        ),
        _ => panic!("unknown commands are answered"),
    }
}

// ─── hello and help ──────────────────────────────────────────────────────────

#[test]
fn test_hello_execute() {
    let cmd = HelloCommand;
    assert_eq!(cmd.execute(&[]), "hello");
}

#[test]
fn test_format_help_empty() {
    let help = format_help(&[]);
    assert_eq!(help, "Available commands:");
}

#[test]
fn test_format_help_single() {
    let entries = vec![("hello", "Print a greeting")];
    let help = format_help(&entries);
    assert!(help.contains("hello"));
    assert!(help.contains("Print a greeting"));
}

#[test]
fn test_format_help_layout() {
    let entries = vec![
        ("hello", "Print a greeting"),
        ("a-very-long-command-name", "Long"),
    ];
    assert_eq!(
        format_help(&entries),
        "Available commands:\n  hello            Print a greeting\n  a-very-long-command-name Long"
    );
}

#[test]
fn test_help_command_name() {
    let cmd = HelpCommand;
    assert_eq!(cmd.name(), "help");
}

#[test]
fn test_help_registered_in_registry() {
    let mut registry = CommandRegistry::new();
    registry.register(Box::new(HelpCommand));
    let list = registry.list();
    assert!(list.iter().any(|(name, _)| *name == "help"));
}

// ─── selection ───────────────────────────────────────────────────────────────

#[test]
fn test_select_by_name() {
    let handles = stopped(&["a", "b", "a"]);
    assert_eq!(select(&handles, &[]), Ok(vec![0, 1, 2]));
    assert_eq!(select(&handles, &["a"]), Ok(vec![0, 2]));
    assert_eq!(select(&handles, &["b", "ignored"]), Ok(vec![1]));
    assert_eq!(
        select(&handles, &["c"]),
        Err("Unknown transport 'c'. Available: a, b, a".to_string())
    );
    assert_eq!(
        select(&stopped(&[]), &["c"]),
        Err("No transports configured.".to_string())
    );
}

// ─── diag ────────────────────────────────────────────────────────────────────

#[test]
fn test_diag_command_name() {
    let cmd = DiagCommand::new(Arc::new(vec![]));
    assert_eq!(cmd.name(), "diag");
}

#[test]
fn test_diag_no_transports() {
    let cmd = DiagCommand::new(Arc::new(vec![]));
    assert_eq!(cmd.execute(&[]), "No transports configured.");
}

#[test]
fn test_diag_stopped_worker() {
    let cmd = DiagCommand::new(stopped(&["udp", "can"]));
    assert_eq!(
        cmd.execute(&["udp"]),
        "Transport: udp\n  Diagnostics error: transport worker has stopped"
    );
    assert_eq!(
        cmd.execute(&[]),
        "Transport: udp\n  Diagnostics error: transport worker has stopped\n\nTransport: can\n  Diagnostics error: transport worker has stopped"
    );
}

#[test]
fn test_format_duration_none() {
    assert_eq!(format_duration(None), "none");
}

#[test]
fn test_format_duration_units() {
    assert_eq!(format_duration(Some(0)), "0ms");
    assert_eq!(format_duration(Some(999_999_999)), "999ms");
    assert_eq!(format_duration(Some(1_000_000_000)), "1s");
    assert_eq!(format_duration(Some(61_999_999_999)), "61s");
}

#[test]
fn test_format_diagnostics_layout() {
    assert_eq!(
        format_diagnostics("udp", &diagnostics()),
        "Transport: udp\n  Local node ID        100\n  Observed nodes        2\n  Messages received     30\n  Heartbeats received   20\n  GetInfo req/res       4 / 3\n  Last message age      1s\n  Last heartbeat age    999ms\n  Recent heartbeat IDs  7, 42\n  Last error            none"
    );
    let mut other = diagnostics();
    other.local_node_id = None;
    other.recent_heartbeat_sources = vec![];
    other.last_message_age = None;
    other.last_error = Some("Receive error: X".to_string());
    assert_eq!(
        render_diagnostics(
            &vec!["udp".to_string(), "can".to_string()],
            &vec![Ok(other), Err("gone".to_string())]
        ),
        "Transport: udp\n  Local node ID        unknown\n  Observed nodes        2\n  Messages received     30\n  Heartbeats received   20\n  GetInfo req/res       4 / 3\n  Last message age      none\n  Last heartbeat age    999ms\n  Recent heartbeat IDs  none\n  Last error            Receive error: X\n\nTransport: can\n  Diagnostics error: gone"
    );
}

// ─── get-info ────────────────────────────────────────────────────────────────

#[test]
fn test_get_info_name() {
    let cmd = GetInfoCommand::new(Arc::new(vec![]));
    assert_eq!(cmd.name(), "get-info");
}

#[test]
fn test_get_info_missing_args() {
    let cmd = GetInfoCommand::new(Arc::new(vec![]));
    let result = cmd.execute(&[]);
    assert!(result.contains("Usage:"));
}

#[test]
fn test_get_info_bad_node_id() {
    let cmd = GetInfoCommand::new(Arc::new(vec![]));
    let result = cmd.execute(&["my-transport", "not-a-number"]);
    assert!(result.contains("Invalid node ID"));
}

#[test]
fn test_get_info_unknown_transport() {
    let cmd = GetInfoCommand::new(Arc::new(vec![]));
    let result = cmd.execute(&["nonexistent", "42"]);
    assert!(result.contains("Unknown transport"));
}

#[test]
fn test_get_info_targets() {
    let handles = stopped(&["a", "b", "b"]);
    assert_eq!(target(&handles, &["b", "65535"]), Ok((1, 65535)));
    assert_eq!(target(&handles, &["b", "+7", "more"]), Ok((1, 7)));
    for bad in ["65536", "-1", "", "+", "0x10", " 5"] {
        assert_eq!(
            target(&handles, &["b", bad]),
            Err(format!("Invalid node ID '{bad}': must be a number"))
        );
    }
    assert_eq!(
        target(&handles, &["c", "1"]),
        Err("Unknown transport 'c'. Available: a, b, b".to_string())
    );
    assert_eq!(
        target(&handles, &["b"]),
        Err("Usage: get-info <transport> <node-id>".to_string())
    );
}

#[test]
fn test_get_info_stopped_worker() {
    let cmd = GetInfoCommand::new(stopped(&["a"]));
    assert_eq!(
        cmd.execute(&["a", "1"]),
        "GetInfo failed: transport worker has stopped"
    );
}

#[test]
fn test_get_info_layout() {
    let info = GetInfoResult {
        node_id: 42,
        name: "org.example".to_string(),
        hardware_version: (1, 2),
        software_version: (3, 255),
        unique_id: [0, 1, 2, 3, 4, 5, 6, 7, 8, 9, 10, 11, 12, 13, 14, 0xFE],
    };
    assert_eq!(
        render_result(&Ok(info)),
        "Node 42  (org.example)\nHardware : 1.2\nSoftware : 3.255\nUnique ID: 00:01:02:03:04:05:06:07:08:09:0a:0b:0c:0d:0e:fe"
    );
    assert_eq!(
        render_result(&Err("no".to_string())),
        "GetInfo failed: no"
    );
}

// ─── nodes ───────────────────────────────────────────────────────────────────

#[test]
fn test_nodes_no_transports() {
    let cmd = NodesCommand::new(Arc::new(vec![]));
    let result = cmd.execute(&[]);
    assert!(result.contains("No transports configured"));
}

#[test]
fn test_nodes_name() {
    let cmd = NodesCommand::new(Arc::new(vec![]));
    assert_eq!(cmd.name(), "nodes");
}

#[test]
fn test_nodes_stopped_worker() {
    let cmd = NodesCommand::new(stopped(&["a"]));
    assert_eq!(cmd.execute(&[]), "Transport: a\n  (no nodes observed)");
    assert_eq!(
        cmd.execute(&["z"]),
        "Unknown transport 'z'. Available: a"
    );
}

#[test]
fn test_nodes_are_sorted_stably() {
    let node = |node_id: u16, uptime: u32| NodeEntry {
        node_id,
        uptime,
        health: 1,
        mode: 2,
    };
    assert_eq!(
        render_nodes(
            &vec!["udp".to_string(), "can".to_string()],
            &vec![vec![node(300, 1), node(2, 7), node(300, 0)], vec![]]
        ),
        "Transport: udp\n  Node ID  Uptime(s)  Health     Mode    \n  2        7          1          2       \n  300      1          1          2       \n  300      0          1          2       \nTransport: can\n  (no nodes observed)"
    );
}

// ─── pnp-list ────────────────────────────────────────────────────────────────

#[test]
fn test_pnp_list_name() {
    let cmd = PnpListCommand::new(Arc::new(vec![]));
    assert_eq!(cmd.name(), "pnp-list");
}

#[test]
fn test_pnp_list_no_transports() {
    let cmd = PnpListCommand::new(Arc::new(vec![]));
    assert_eq!(cmd.execute(&[]), "No transports configured.");
}

#[test]
fn test_pnp_list_description() {
    let cmd = PnpListCommand::new(Arc::new(vec![]));
    assert!(cmd.description().contains("pnp-list"));
}

#[test]
fn test_pnp_list_layout() {
    let entry = |node_id: u16, hash: Option<i64>| AllocationEntry {
        node_id,
        unique_id_hex: "0".repeat(32),
        pseudo_unique_id: hash,
        ts: "2024-01-01 00:00:00".to_string(),
    };
    assert_eq!(
        render_allocations(
            &vec!["udp".to_string()],
            &vec![vec![entry(7, None), entry(8, Some(-5))]]
        ),
        "Transport: udp\n  Node ID  Unique ID (hex)                    Pseudo UID           Timestamp\n  7        00000000000000000000000000000000   NULL                 2024-01-01 00:00:00\n  8        00000000000000000000000000000000   -5                   2024-01-01 00:00:00"
    );
    let cmd = PnpListCommand::new(stopped(&["a"]));
    assert_eq!(cmd.execute(&["a"]), "Transport: a\n  (no allocations)");
}
