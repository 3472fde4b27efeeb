use prqlite::cli::{Args, ReplMode};
use std::str::FromStr;

#[test]
fn repl_mode_names_in_any_case() {
    assert_eq!(ReplMode::from_str("simple"), Ok(ReplMode::Simple));
    assert_eq!(ReplMode::from_str("SIMPLE"), Ok(ReplMode::Simple));
    assert_eq!(ReplMode::from_str("Tui"), Ok(ReplMode::Tui));
    assert_eq!("tUI".parse::<ReplMode>(), Ok(ReplMode::Tui));
}

#[test]
fn repl_mode_rejects_other_names() {
    assert_eq!(
        ReplMode::from_str("fancy"),
        Err("type help to show avaliable option.".to_string())
    );
    assert_eq!(
        ReplMode::from_str(" simple"),
        Err("type help to show avaliable option.".to_string())
    );
}

#[test]
fn repl_mode_from_lowercase_is_exact() {
    assert_eq!(ReplMode::from_lowercase("tui"), Ok(ReplMode::Tui));
    assert!(ReplMode::from_lowercase("TUI").is_err());
}

#[test]
fn repl_mode_defaults_to_simple() {
    assert_eq!(ReplMode::default(), ReplMode::Simple);
    assert!(ReplMode::Simple < ReplMode::Tui);
    let a = Args { mode: None };
    assert_eq!(a.mode.unwrap_or_default(), ReplMode::Simple);
}
