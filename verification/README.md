# prqlite

An interactive shell that compiles PRQL to SQL and runs it on a SQLite
database, with a line-based loop and a terminal interface.

- `src/` is the verified library: command parsing and printing (`repl/commands.rs`),
  the loop's state, builder and input handling (`repl/mod.rs`, `repl/simple.rs`),
  the terminal interface's state, event handling and layout (`repl/tui/`),
  PRQL compilation, table rendering and cell display (`prqlite.rs`), command-line
  arguments (`cli.rs`) and the character-level text functions they share (`text.rs`).
- `app/` is the program around it: argument parsing with clap, the SQLite
  connection through rusqlite, and the crossterm/tui terminal loops.
- `tests/` exercises the library on concrete values.
