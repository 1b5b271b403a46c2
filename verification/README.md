# cyphal_service

A service for Cyphal networks, verified with Verus. It watches the nodes on CAN, UDP
and serial transports, assigns node IDs to plug-and-play nodes, and answers an
interactive command line.

## Layout

- `src/` – the verified library.
  - `pnp/` – the node-ID allocator and its table in a SQLite database.
  - `transport/` – what the workers know and decide: node lists, GetInfo requests,
    the steps of a worker's loop, the gs_usb protocol.
  - `commands/`, `cli.rs` – the commands, their registry and the REPL's steps.
  - `config.rs` – the configuration.
  - `text.rs`, `wire.rs`, `clock.rs` – characters, bytes and time.
- `app/` – the program around it: arguments, files, sockets, USB, the Cyphal stack.
- `tests/` – tests of the library.

## What is trusted

Each call into another crate stands behind an item whose contract Verus believes. Its
doc comment says what it claims. The contracts of the database speak of the rows that
a statement finds. They are exact as long as the connection is undisturbed: the table
is the one created here, no statement fails, and nobody else writes to the file.
