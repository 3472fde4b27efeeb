use prqlite::repl::commands::{CommandError, CommandOutcome, Commands, ExecCommand};
use std::str::FromStr;

#[test]
fn quit_and_q_read_as_quit() {
    assert_eq!(Commands::from_str("quit"), Ok(Commands::Quit));
    assert_eq!(Commands::from_str("q"), Ok(Commands::Quit));
    assert_eq!(Commands::from_str("  q  extra words"), Ok(Commands::Quit));
}

#[test]
fn help_reads_as_help() {
    assert_eq!(Commands::from_str("help"), Ok(Commands::Help));
}

#[test]
fn compile_takes_remaining_words_with_spaces() {
    assert_eq!(
        Commands::from_str("compile from   persons\t| take 1"),
        Ok(Commands::Compile { input: "from persons | take 1 ".to_string() })
    );
}

#[test]
fn sql_takes_remaining_words_with_spaces() {
    assert_eq!(
        Commands::from_str("sql SELECT *\nFROM t"),
        Ok(Commands::Sql { input: "SELECT * FROM t ".to_string() })
    );
}

#[test]
fn unicode_whitespace_separates_words() {
    // U+3000 IDEOGRAPHIC SPACE and U+00A0 NO-BREAK SPACE are white space.
    assert_eq!(
        Commands::from_str("sql\u{3000}a\u{a0}b"),
        Ok(Commands::Sql { input: "a b ".to_string() })
    );
    // U+200B ZERO WIDTH SPACE is not.
    assert_eq!(
        Commands::from_str("sql a\u{200b}b"),
        Ok(Commands::Sql { input: "a\u{200b}b ".to_string() })
    );
}

#[test]
fn exit_reads_an_i32_code() {
    assert_eq!(Commands::from_str("exit 3"), Ok(Commands::Exit { code: 3 }));
    assert_eq!(Commands::from_str("exit +7 more"), Ok(Commands::Exit { code: 7 }));
    assert_eq!(Commands::from_str("exit -0"), Ok(Commands::Exit { code: 0 }));
    assert_eq!(Commands::from_str("exit 007"), Ok(Commands::Exit { code: 7 }));
    assert_eq!(
        Commands::from_str("exit -2147483648"),
        Ok(Commands::Exit { code: i32::MIN })
    );
    assert_eq!(
        Commands::from_str("exit 2147483647"),
        Ok(Commands::Exit { code: i32::MAX })
    );
}

#[test]
fn exit_rejects_what_is_not_an_i32() {
    for bad in ["exit 2147483648", "exit -2147483649", "exit abc", "exit -", "exit +", "exit 1a", "exit 99999999999999999999"] {
        assert_eq!(Commands::from_str(bad), Err(CommandError::InvalidExitCode), "{bad}");
    }
}

#[test]
fn missing_arguments_are_errors() {
    assert_eq!(Commands::from_str("compile"), Err(CommandError::MissingPrqlQuery));
    assert_eq!(Commands::from_str("sql   "), Err(CommandError::MissingSqlQuery));
    assert_eq!(Commands::from_str("exit"), Err(CommandError::MissingExitCode));
    assert_eq!(Commands::from_str(" \t\n"), Err(CommandError::NoCommand));
    assert_eq!(Commands::from_str(""), Err(CommandError::NoCommand));
}

#[test]
fn unknown_command_is_named() {
    assert_eq!(
        Commands::from_str("frobnicate now"),
        Err(CommandError::UnknownCommand { name: "frobnicate".to_string() })
    );
    // Commands are case sensitive.
    assert_eq!(
        Commands::from_str("QUIT"),
        Err(CommandError::UnknownCommand { name: "QUIT".to_string() })
    );
}

#[test]
fn error_messages_are_the_shell_texts() {
    assert_eq!(
        CommandError::NoCommand.message(),
        "no commands passed, type .help to show available commands."
    );
    assert_eq!(
        CommandError::MissingPrqlQuery.message(),
        "no args was passed, you should pass PRQL query to compile to into SQL."
    );
    assert_eq!(
        CommandError::MissingSqlQuery.message(),
        "no args was passed, you should pass SQL query to execute it."
    );
    assert_eq!(
        CommandError::MissingExitCode.message(),
        "no args was passed, you should pass exit code or use '.q' command to exit program with success exit code."
    );
    assert_eq!(CommandError::InvalidExitCode.message(), "exit code must be integer.");
    assert_eq!(
        CommandError::UnknownCommand { name: "x".to_string() }.message(),
        "command not found: 'x' , type ':help' to show avaliable commands."
    );
}

#[test]
fn commands_write_their_text() {
    assert_eq!(Commands::Quit.to_string(), "quit");
    assert_eq!(Commands::Help.to_string(), "help");
    assert_eq!(Commands::Exit { code: -42 }.to_string(), "exit -42");
    assert_eq!(Commands::Exit { code: i32::MIN }.to_string(), "exit -2147483648");
    assert_eq!(
        Commands::Compile { input: "from t ".to_string() }.to_string(),
        "compile from t "
    );
    assert_eq!(Commands::Sql { input: "SELECT 1 ".to_string() }.to_string(), "sql SELECT 1 ");
}

#[test]
fn command_text_reads_back_as_the_command() {
    for line in ["q", "help", "exit -17", "exit +0042", "compile  from a |  take 3", "sql select\t1"] {
        let c = Commands::from_str(line).unwrap();
        assert_eq!(Commands::from_str(&c.to_string()), Ok(c.clone()), "{line}");
    }
}

#[test]
fn from_str_trait_agrees() {
    let c: Commands = "sql x".parse().unwrap();
    assert_eq!(c, Commands::Sql { input: "x ".to_string() });
    assert_eq!(<Commands as FromStr>::from_str("exit"), Err(CommandError::MissingExitCode));
}

#[test]
fn exit_and_quit_outcomes() {
    assert_eq!(
        Commands::Exit { code: 5 }.exec(),
        CommandOutcome::Exit { code: 5, notice: Some("Program exit with 5".to_string()) }
    );
    assert_eq!(Commands::Quit.exec(), CommandOutcome::Exit { code: 0, notice: None });
}

#[test]
fn sql_outcome_runs_its_query() {
    assert_eq!(
        Commands::Sql { input: "SELECT 1 ".to_string() }.exec(),
        CommandOutcome::RunSql("SELECT 1 ".to_string())
    );
}

#[test]
fn compile_outcome_shows_sql_words() {
    let out = Commands::Compile { input: "from employees | select [name, age]".to_string() }.exec();
    assert_eq!(out, CommandOutcome::Output("SELECT name, age FROM employees ".to_string()));
}

#[test]
fn compile_outcome_reports_errors() {
    match (Commands::Compile { input: "from employees | select [".to_string() }).exec() {
        CommandOutcome::Failure(msg) => {
            assert!(msg.starts_with("Cannot compile your query into SQL: \n"), "{msg}");
            assert!(msg.len() > "Cannot compile your query into SQL: \n".len());
        }
        other => panic!("unexpected {other:?}"),
    }
}

#[test]
fn help_outcome_is_the_help_table() {
    match Commands::Help.exec() {
        CommandOutcome::Output(text) => {
            assert_eq!(text, prqlite::prqlite::help_text());
            assert!(text.contains("Command"));
            assert!(text.contains("Exit PRQLite program with custom exit code"));
        }
        other => panic!("unexpected {other:?}"),
    }
}

