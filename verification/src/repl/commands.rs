//! The shell's dot-commands: reading them from a line of text, writing them
//! back as text, and what running one does.
use vstd::prelude::*;

use crate::text::{
    chars_equal_str, chars_of, int_text, is_word, lemma_parse_int_text, lemma_words_single,
    lemma_words_spaced, lemma_words_word_then_space, parse_i32, parse_i32_chars, push_int,
    push_spaced, spaced, split_words, string_from_chars, words, lemma_words_are_words,
    is_white_space, append_str, lemma_spaced_flatten,
};

use crate::prqlite::{
    compile_query, compile_report, help_header, help_rows, help_text, prql_compiled,
    rendered_table, report_compiled, Arrangement, TableStyle, TABLE_WIDTH,
};

verus! {

/// A command of the shell, typed after the command prefix.
#[derive(Debug, Clone, PartialEq, Eq)]
pub enum Commands {
    Help,
    Quit,
    Exit { code: i32 },
    Compile { input: String },
    Sql { input: String },
}

/// The mathematical value of a command: its kind and its argument text.
pub enum CommandSpec {
    Help,
    Quit,
    Exit(i32),
    Compile(Seq<char>),
    Sql(Seq<char>),
}

impl View for Commands {
    type V = CommandSpec;

    open spec fn view(&self) -> CommandSpec {
        match self {
            Commands::Help => CommandSpec::Help,
            Commands::Quit => CommandSpec::Quit,
            Commands::Exit { code } => CommandSpec::Exit(*code),
            Commands::Compile { input } => CommandSpec::Compile(input@),
            Commands::Sql { input } => CommandSpec::Sql(input@),
        }
    }
}

/// Why a line is not a command.
#[derive(Debug, Clone, PartialEq, Eq)]
pub enum CommandError {
    /// The line holds no word at all.
    NoCommand,
    /// `compile` without a query.
    MissingPrqlQuery,
    /// `sql` without a query.
    MissingSqlQuery,
    /// `exit` without an exit code.
    MissingExitCode,
    /// `exit` with a code that is not an `i32`.
    InvalidExitCode,
    /// The first word names no command.
    UnknownCommand { name: String },
}

/// The mathematical value of a command error.
pub enum CommandErrorSpec {
    NoCommand,
    MissingPrqlQuery,
    MissingSqlQuery,
    MissingExitCode,
    InvalidExitCode,
    UnknownCommand(Seq<char>),
}

impl View for CommandError {
    type V = CommandErrorSpec;

    open spec fn view(&self) -> CommandErrorSpec {
        match self {
            CommandError::NoCommand => CommandErrorSpec::NoCommand,
            CommandError::MissingPrqlQuery => CommandErrorSpec::MissingPrqlQuery,
            CommandError::MissingSqlQuery => CommandErrorSpec::MissingSqlQuery,
            CommandError::MissingExitCode => CommandErrorSpec::MissingExitCode,
            CommandError::InvalidExitCode => CommandErrorSpec::InvalidExitCode,
            CommandError::UnknownCommand { name } => CommandErrorSpec::UnknownCommand(name@),
        }
    }
}

/// The value of a parse result.
pub open spec fn parsed_view(r: Result<Commands, CommandError>) -> Result<
    CommandSpec,
    CommandErrorSpec,
> {
    match r {
        Ok(c) => Ok(c@),
        Err(e) => Err(e@),
    }
}

/// What a line means as a command. Its words are split at Unicode white
/// space; the first names the command (`quit` or `q`, `compile`, `sql`,
/// `exit`, `help`). `compile` and `sql` take the remaining words, each
/// followed by one space; `exit` reads its first argument as an `i32`.
pub open spec fn parse_command(s: Seq<char>) -> Result<CommandSpec, CommandErrorSpec> {
    let args = words(s);
    if args.len() == 0 {
        Err(CommandErrorSpec::NoCommand)
    } else if args[0] == "quit"@ || args[0] == "q"@ {
        Ok(CommandSpec::Quit)
    } else if args[0] == "compile"@ {
        if args.len() <= 1 {
            Err(CommandErrorSpec::MissingPrqlQuery)
        } else {
            Ok(CommandSpec::Compile(spaced(args.skip(1))))
        }
    } else if args[0] == "sql"@ {
        if args.len() <= 1 {
            Err(CommandErrorSpec::MissingSqlQuery)
        } else {
            Ok(CommandSpec::Sql(spaced(args.skip(1))))
        }
    } else if args[0] == "exit"@ {
        if args.len() <= 1 {
            Err(CommandErrorSpec::MissingExitCode)
        } else {
            match parse_i32(args[1]) {
                Some(code) => Ok(CommandSpec::Exit(code)),
                None => Err(CommandErrorSpec::InvalidExitCode),
            }
        }
    } else if args[0] == "help"@ {
        Ok(CommandSpec::Help)
    } else {
        Err(CommandErrorSpec::UnknownCommand(args[0]))
    }
}

/// The text that names a command.
pub open spec fn command_text(c: CommandSpec) -> Seq<char> {
    match c {
        CommandSpec::Quit => "quit"@,
        CommandSpec::Exit(code) => "exit "@ + int_text(code as int),
        CommandSpec::Compile(input) => "compile "@ + input,
        CommandSpec::Sql(input) => "sql "@ + input,
        CommandSpec::Help => "help"@,
    }
}

/// The message shown for a command error.
pub open spec fn command_error_message(e: CommandErrorSpec) -> Seq<char> {
    match e {
        CommandErrorSpec::NoCommand => "no commands passed, type .help to show available commands."@,
        CommandErrorSpec::MissingPrqlQuery =>
            "no args was passed, you should pass PRQL query to compile to into SQL."@,
        CommandErrorSpec::MissingSqlQuery =>
            "no args was passed, you should pass SQL query to execute it."@,
        CommandErrorSpec::MissingExitCode =>
            "no args was passed, you should pass exit code or use '.q' command to exit program with success exit code."@,
        CommandErrorSpec::InvalidExitCode => "exit code must be integer."@,
        CommandErrorSpec::UnknownCommand(name) => "command not found: '"@ + name
            + "' , type ':help' to show avaliable commands."@,
    }
}

impl Commands {
    /// Reads a command from a line (see `parse_command`).
    pub fn from_str(s: &str) -> (r: Result<Commands, CommandError>)
        ensures
            parsed_view(r) == parse_command(s@),
    {
        let v = chars_of(s);
        let args = split_words(&v);
        let ghost ws = words(v@);
        proof {
            assert(args@.map_values(|w: Vec<char>| w@) =~= ws);
        }
        if args.len() == 0 {
            return Err(CommandError::NoCommand);
        }
        let a0 = &args[0];
        if chars_equal_str(a0, "quit") || chars_equal_str(a0, "q") {
            Ok(Commands::Quit)
        } else if chars_equal_str(a0, "compile") {
            if args.len() <= 1 {
                Err(CommandError::MissingPrqlQuery)
            } else {
                let mut out: Vec<char> = Vec::new();
                push_spaced(&args, 1, &mut out);
                proof {
                    assert(args@.skip(1).map_values(|w: Vec<char>| w@) =~= ws.skip(1));
                    assert(out@ =~= spaced(ws.skip(1)));
                }
                Ok(Commands::Compile { input: string_from_chars(&out) })
            }
        } else if chars_equal_str(a0, "sql") {
            if args.len() <= 1 {
                Err(CommandError::MissingSqlQuery)
            } else {
                let mut out: Vec<char> = Vec::new();
                push_spaced(&args, 1, &mut out);
                proof {
                    assert(args@.skip(1).map_values(|w: Vec<char>| w@) =~= ws.skip(1));
                    assert(out@ =~= spaced(ws.skip(1)));
                }
                Ok(Commands::Sql { input: string_from_chars(&out) })
            }
        } else if chars_equal_str(a0, "exit") {
            if args.len() <= 1 {
                Err(CommandError::MissingExitCode)
            } else {
                match parse_i32_chars(&args[1]) {
                    Some(code) => Ok(Commands::Exit { code }),
                    None => Err(CommandError::InvalidExitCode),
                }
            }
        } else if chars_equal_str(a0, "help") {
            Ok(Commands::Help)
        } else {
            Err(CommandError::UnknownCommand { name: string_from_chars(a0) })
        }
    }

    /// The text that names this command (see `command_text`).
    pub fn to_string(&self) -> (r: String)
        ensures
            r@ == command_text(self@),
    {
        let mut out: Vec<char>;
        match self {
            Commands::Quit => {
                out = chars_of("quit");
            },
            Commands::Exit { code } => {
                out = chars_of("exit ");
                push_int(*code as i64, &mut out);
            },
            Commands::Compile { input } => {
                out = chars_of("compile ");
                append_str(&mut out, input.as_str());
            },
            Commands::Sql { input } => {
                out = chars_of("sql ");
                append_str(&mut out, input.as_str());
            },
            Commands::Help => {
                out = chars_of("help");
            },
        }
        string_from_chars(&out)
    }
}

impl core::str::FromStr for Commands {
    type Err = CommandError;

    fn from_str(s: &str) -> (r: Result<Commands, CommandError>)
        ensures
            parsed_view(r) == parse_command(s@),
    {
        Commands::from_str(s)
    }
}

impl CommandError {
    /// The message shown for this error (see `command_error_message`).
    pub fn message(&self) -> (r: String)
        ensures
            r@ == command_error_message(self@),
    {
        match self {
            CommandError::NoCommand => "no commands passed, type .help to show available commands.".to_owned(),
            CommandError::MissingPrqlQuery =>
                "no args was passed, you should pass PRQL query to compile to into SQL.".to_owned(),
            CommandError::MissingSqlQuery =>
                "no args was passed, you should pass SQL query to execute it.".to_owned(),
            CommandError::MissingExitCode =>
                "no args was passed, you should pass exit code or use '.q' command to exit program with success exit code.".to_owned(),
            CommandError::InvalidExitCode => "exit code must be integer.".to_owned(),
            CommandError::UnknownCommand { name } => {
                let mut out = chars_of("command not found: '");
                append_str(&mut out, name.as_str());
                append_str(&mut out, "' , type ':help' to show avaliable commands.");
                string_from_chars(&out)
            },
        }
    }
}

/// What the shell is to do after a command ran.
#[derive(Debug, Clone, PartialEq, Eq)]
pub enum CommandOutcome {
    /// End the program with `code`, after printing `notice` when there is one.
    Exit { code: i32, notice: Option<String> },
    /// Show this text.
    Output(String),
    /// Show this error.
    Failure(String),
    /// Run this SQL on the database: prepare it, query or execute it as
    /// `plan_sql` says, and show what `sql_run_output` gives for the run.
    RunSql(String),
}

/// The mathematical value of an outcome.
pub enum OutcomeSpec {
    Exit(i32, Option<Seq<char>>),
    Output(Seq<char>),
    Failure(Seq<char>),
    RunSql(Seq<char>),
}

impl View for CommandOutcome {
    type V = OutcomeSpec;

    open spec fn view(&self) -> OutcomeSpec {
        match self {
            CommandOutcome::Exit { code, notice } => OutcomeSpec::Exit(
                *code,
                match notice {
                    Some(n) => Some(n@),
                    None => None,
                },
            ),
            CommandOutcome::Output(t) => OutcomeSpec::Output(t@),
            CommandOutcome::Failure(t) => OutcomeSpec::Failure(t@),
            CommandOutcome::RunSql(t) => OutcomeSpec::RunSql(t@),
        }
    }
}

/// What running a command does: `exit` ends the program with its code after
/// a notice, `quit` ends it with 0; `help` shows the help table; `compile`
/// shows the compiled SQL (or the compilation error); `sql` runs its query.
pub open spec fn command_outcome(c: CommandSpec) -> OutcomeSpec {
    match c {
        CommandSpec::Exit(code) => OutcomeSpec::Exit(
            code,
            Some("Program exit with "@ + int_text(code as int)),
        ),
        CommandSpec::Quit => OutcomeSpec::Exit(0, None),
        CommandSpec::Help => OutcomeSpec::Output(
            rendered_table(
                TableStyle::Plain,
                Arrangement::Dynamic,
                TABLE_WIDTH,
                help_header(),
                help_rows(),
            ),
        ),
        CommandSpec::Compile(input) => match compile_report(prql_compiled(input, false, false)) {
            Ok(t) => OutcomeSpec::Output(t),
            Err(t) => OutcomeSpec::Failure(t),
        },
        CommandSpec::Sql(input) => OutcomeSpec::RunSql(input),
    }
}

/// Running a command.
pub trait ExecCommand {
    type Output;

    fn exec(&self) -> Self::Output;
}

impl ExecCommand for Commands {
    type Output = CommandOutcome;

    /// What running this command does (see `command_outcome`).
    fn exec(&self) -> (r: CommandOutcome)
        ensures
            r@ == command_outcome(self@),
    {
        match self {
            Commands::Exit { code } => {
                let mut out = chars_of("Program exit with ");
                push_int(*code as i64, &mut out);
                CommandOutcome::Exit { code: *code, notice: Some(string_from_chars(&out)) }
            },
            Commands::Quit => CommandOutcome::Exit { code: 0, notice: None },
            Commands::Help => CommandOutcome::Output(help_text()),
            Commands::Compile { input } => match report_compiled(compile_query(input.as_str())) {
                Ok(t) => CommandOutcome::Output(t),
                Err(t) => CommandOutcome::Failure(t),
            },
            Commands::Sql { input } => CommandOutcome::RunSql(input.clone()),
        }
    }
}

/// `sql` and `compile` keep every word after the command name, however
/// many there are: their input reads back as exactly those words, and is
/// those words each followed by one space.
pub proof fn lemma_query_command_keeps_every_word(s: Seq<char>)
    requires
        words(s).len() >= 2,
        words(s)[0] == "sql"@ || words(s)[0] == "compile"@,
    ensures
        words(s)[0] == "sql"@ ==> (parse_command(s) matches Ok(CommandSpec::Sql(input)) && words(
            input,
        ) == words(s).skip(1) && input == words(s).skip(1).map_values(
            |w: Seq<char>| w.push(' '),
        ).flatten()),
        words(s)[0] == "compile"@ ==> (parse_command(s) matches Ok(CommandSpec::Compile(input))
            && words(input) == words(s).skip(1) && input == words(s).skip(1).map_values(
            |w: Seq<char>| w.push(' '),
        ).flatten()),
{
    reveal_strlit("quit");
    reveal_strlit("q");
    reveal_strlit("compile");
    reveal_strlit("sql");
    let ws = words(s);
    lemma_words_are_words(s);
    let l = ws.skip(1);
    assert forall|i: int| 0 <= i < l.len() implies is_word(#[trigger] l[i]) by {
        assert(l[i] == ws[i + 1]);
    }
    lemma_words_spaced(l);
    lemma_spaced_flatten(l);
    assert("sql"@ != "quit"@ && "sql"@ != "q"@ && "sql"@ != "compile"@) by {
        assert("sql"@.len() != "quit"@.len());
        assert("sql"@.len() != "q"@.len());
        assert("sql"@.len() != "compile"@.len());
    }
    assert("compile"@ != "quit"@ && "compile"@ != "q"@) by {
        assert("compile"@.len() != "quit"@.len());
        assert("compile"@.len() != "q"@.len());
    }
}

/// Reading back the text of any command that a line reads as gives that
/// same command: the text a command is written as is read as that command.
pub proof fn lemma_command_text_round_trip(s: Seq<char>)
    requires
        parse_command(s) is Ok,
    ensures
        parse_command(command_text(parse_command(s)->Ok_0)) == parse_command(s),
{
    reveal_strlit("quit");
    reveal_strlit("q");
    reveal_strlit("compile");
    reveal_strlit("compile ");
    reveal_strlit("sql");
    reveal_strlit("sql ");
    reveal_strlit("exit");
    reveal_strlit("exit ");
    reveal_strlit("help");
    let ws = words(s);
    lemma_words_are_words(s);
    let c = parse_command(s)->Ok_0;
    let t = command_text(c);
    match c {
        CommandSpec::Quit => {
            assert(is_word("quit"@));
            lemma_words_single("quit"@);
        },
        CommandSpec::Help => {
            assert(is_word("help"@));
            lemma_words_single("help"@);
        },
        CommandSpec::Exit(code) => {
            lemma_parse_int_text(code);
            let n = int_text(code as int);
            assert(is_word("exit"@));
            let rest = seq![' '] + n;
            assert(rest[0] == ' ');
            assert(is_white_space(rest[0]));
            assert(t =~= "exit"@ + rest);
            lemma_words_word_then_space("exit"@, rest);
            assert(rest.drop_first() =~= n);
            lemma_words_single(n);
            assert(words(t) =~= seq!["exit"@, n]);
        },
        CommandSpec::Compile(input) => {
            let l = ws.skip(1);
            let m = seq!["compile"@] + l;
            assert forall|i: int| 0 <= i < m.len() implies is_word(#[trigger] m[i]) by {
                if i > 0 {
                    assert(m[i] == ws[i]);
                }
            }
            lemma_words_spaced(m);
            assert(m.drop_first() =~= l);
            assert(t =~= spaced(m));
            assert(words(t).skip(1) =~= l);
        },
        CommandSpec::Sql(input) => {
            let l = ws.skip(1);
            let m = seq!["sql"@] + l;
            assert forall|i: int| 0 <= i < m.len() implies is_word(#[trigger] m[i]) by {
                if i > 0 {
                    assert(m[i] == ws[i]);
                }
            }
            lemma_words_spaced(m);
            assert(m.drop_first() =~= l);
            assert(t =~= spaced(m));
            assert(words(t).skip(1) =~= l);
        },
    }
}

} // verus!
