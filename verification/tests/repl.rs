use prqlite::repl::commands::{CommandError, CommandOutcome};
use prqlite::repl::simple::{InputEvent, KeyPress, ReadStep, SimpleRepl, read_key};
use prqlite::repl::{
    Repl, ReplError, ReplInputEvent, ReplMode, ReplState, DEFAULT_COMMAND_PREFIX, DEFAULT_PROMPT,
};

#[test]
fn state_without_connection_reports_it() {
    let state: ReplState<u32> = ReplState::new();
    let err = state.get_prqlite_conn().unwrap_err();
    assert_eq!(err, ReplError::NotConnected);
    assert_eq!(
        err.message(),
        "Didn't connected with database, please restart program with '--open <DATABASE_FILE>' flag."
    );
}

#[test]
fn state_keeps_its_connection() {
    let mut state: ReplState<u32> = ReplState::new();
    state.set_conn(7);
    assert_eq!(state.get_prqlite_conn(), Ok(&7));
}

#[test]
fn builder_defaults() {
    let mut b = Repl::<u8>::new();
    assert!(b.mode.is_none());
    b.state(ReplState::new());
    let r = b.build();
    assert_eq!(r.prompt, DEFAULT_PROMPT);
    assert_eq!(r.prompt, ">");
    assert_eq!(r.command_prefix, DEFAULT_COMMAND_PREFIX);
    assert_eq!(r.command_prefix, ".");
    assert_eq!(r.mode, ReplMode::Normal);
}

#[test]
fn builder_keeps_settings() {
    let mut b = Repl::<u8>::normal();
    assert_eq!(b.mode, Some(ReplMode::Normal));
    let mut s = ReplState::new();
    s.set_conn(3u8);
    b.prompt("prql>").command_prefix(":").state(s);
    let r = b.build();
    assert_eq!(r.prompt, "prql>");
    assert_eq!(r.command_prefix, ":");
    assert_eq!(r.state.get_prqlite_conn(), Ok(&3));
}

#[test]
fn on_command_drops_the_prefix_and_runs() {
    let state: ReplState<u8> = ReplState::new();
    let ev = ReplInputEvent::new(&state);
    assert_eq!(ev.on_command(".q"), Ok(CommandOutcome::Exit { code: 0, notice: None }));
    assert_eq!(
        ev.on_command(".sql select 1"),
        Ok(CommandOutcome::RunSql("select 1 ".to_string()))
    );
    assert_eq!(
        ev.on_command(".nope"),
        Err(ReplError::Command(CommandError::UnknownCommand { name: "nope".to_string() }))
    );
    assert_eq!(ev.on_command("."), Err(ReplError::Command(CommandError::NoCommand)));
    assert_eq!(
        ev.on_command(".exit x").unwrap_err().message(),
        "exit code must be integer."
    );
}

#[test]
fn regular_input_needs_a_connection() {
    let state: ReplState<u8> = ReplState::new();
    let ev = ReplInputEvent::new(&state);
    assert_eq!(ev.on_regular_input("from t"), Err(ReplError::NotConnected));
}

#[test]
fn regular_input_compiles_for_the_connection() {
    let mut state: ReplState<u8> = ReplState::new();
    state.set_conn(9);
    let ev = ReplInputEvent::new(&state);
    assert_eq!(ev.on_regular_input("from t"), Ok((&9, "SELECT * FROM t".to_string())));
    assert!(matches!(ev.on_regular_input("from t | select ["), Err(ReplError::Failed(_))));
}

#[test]
fn reading_a_statement_key_by_key() {
    let mut buf = String::new();
    assert_eq!(read_key(&mut buf, InputEvent::Key(KeyPress::Char('a'))), ReadStep::Continue);
    assert_eq!(read_key(&mut buf, InputEvent::Key(KeyPress::Other)), ReadStep::Continue);
    assert_eq!(read_key(&mut buf, InputEvent::Key(KeyPress::Enter)), ReadStep::NextLine);
    assert_eq!(buf, "a\n");
    read_key(&mut buf, InputEvent::Key(KeyPress::Char(';')));
    read_key(&mut buf, InputEvent::Key(KeyPress::Char(' ')));
    assert_eq!(read_key(&mut buf, InputEvent::Key(KeyPress::Enter)), ReadStep::Done);
    assert_eq!(buf, "a\n; ");
    assert_eq!(read_key(&mut buf, InputEvent::NotKey), ReadStep::Done);
}

#[test]
fn prepared_lines_lose_semicolons() {
    // The last ';' is at byte 11, so up to 11 semicolons are removed.
    assert_eq!(SimpleRepl::<u8>::prepare_line("  from t;  "), "from t");
    assert_eq!(SimpleRepl::<u8>::prepare_line("a;b;c;"), "abc");
    // The last ';' of " ;;" is at byte 2: both go.
    assert_eq!(SimpleRepl::<u8>::prepare_line(" ;;"), "");
    // The last ';' of ";;;" is at byte 2: one stays.
    assert_eq!(SimpleRepl::<u8>::prepare_line(";;;"), ";");
}

#[test]
fn prepared_lines_count_bytes() {
    // 'é' takes two bytes, so the last ';' of "é;;;;" is at byte 5.
    assert_eq!(SimpleRepl::<u8>::prepare_line("é;;;;"), "é");
    assert_eq!(SimpleRepl::<u8>::prepare_line("\u{3000}x;"), "x");
}

#[test]
fn simple_repl_recognises_commands() {
    let state: ReplState<u8> = ReplState::new();
    let r = SimpleRepl::new(">", ".", &state);
    assert_eq!(r.prompt, ">");
    assert!(r.is_command("  .help"));
    assert!(!r.is_command("from t"));
    let r2 = SimpleRepl::new(">", "::", &state);
    assert!(r2.is_command("::q"));
    assert!(!r2.is_command(":q"));
}
