use prqlite::repl::tui::app::{
    App, CursorCoords, CursorCoordsState, InputMode, Key, ListState, Output, StatefulList,
    TuiAction, TuiEvent,
};
use prqlite::repl::tui::coords;
use prqlite::repl::tui::ui::{
    chunk_chars, place_cursor, ui_cursor, Area, HelpMessage, History, Input, LineStyle,
    StyledLine,
};

fn bounded(x: u16, y: u16) -> CursorCoords {
    let mut c = CursorCoords::from((x, y));
    c.set_min((2, 2)).set_max((5, 5));
    c
}

#[test]
fn cursor_defaults_to_one_one() {
    let c = CursorCoords::default();
    assert_eq!(c.get(), (1, 1));
    assert_eq!((c.min_x, c.min_y, c.max_x, c.max_y), (None, None, None, None));
    let d = CursorCoords::from((4, 9));
    assert_eq!(d, CursorCoords { x: 4, y: 9, ..CursorCoords::default() });
    let s = CursorCoordsState::default();
    assert_eq!(s.normal, CursorCoords::default());
    assert_eq!(s.insert, CursorCoords::default());
}

#[test]
fn cursor_setters_chain() {
    let mut c = CursorCoords::default();
    c.set_max((10, 20)).set_min((1, 2)).set(3, 4);
    assert_eq!(c, CursorCoords { x: 3, y: 4, min_x: Some(1), min_y: Some(2), max_x: Some(10), max_y: Some(20) });
}

#[test]
fn cursor_up_stops_at_bound_and_zero() {
    let mut c = bounded(3, 3);
    c.up();
    assert_eq!(c.y, 2);
    c.up();
    assert_eq!(c.y, 2);
    let mut z = CursorCoords::from((0, 0));
    z.up();
    assert_eq!(z.y, 0);
    let mut f = CursorCoords::from((0, 7));
    f.up().up();
    assert_eq!(f.y, 5);
}

#[test]
fn cursor_down_moves_two_rows_within_bound() {
    let mut c = bounded(3, 2);
    c.down();
    assert_eq!(c.y, 4);
    c.down();
    assert_eq!(c.y, 5);
    c.down();
    assert_eq!(c.y, 5);
    let mut free = CursorCoords::from((0, 7));
    free.down();
    assert_eq!(free.y, 8);
}

#[test]
fn cursor_right_and_left_within_bounds() {
    let mut c = bounded(4, 3);
    c.right();
    assert_eq!(c.x, 5);
    c.right();
    assert_eq!(c.x, 5);
    c.left().left().left().left();
    assert_eq!(c.x, 2);
    let mut z = CursorCoords::from((0, 0));
    z.left();
    assert_eq!(z.x, 0);
}

#[test]
fn bounded_cursor_stays_in_bounds() {
    let mut c = bounded(2, 2);
    for _ in 0..10 {
        c.right();
        c.down();
        assert!(c.x <= 5 && c.y <= 5 && c.x >= 2 && c.y >= 2);
    }
    for _ in 0..10 {
        c.left();
        c.up();
        assert!(c.x <= 5 && c.y <= 5 && c.x >= 2 && c.y >= 2);
    }
}

#[test]
fn second_cursor_moves_an_extra_column() {
    let mut c = coords::CursorCoords::from((3, 3));
    c.right();
    assert_eq!(c.x, 5);
    c.left();
    assert_eq!(c.x, 3);
    let mut b = coords::CursorCoords::from((4, 4));
    b.set_max((4, 4)).set_min((4, 4));
    b.right();
    assert_eq!(b.x, 5);
    b.left();
    assert_eq!(b.x, 3);
    b.down();
    assert_eq!(b.y, 4);
    b.up();
    assert_eq!(b.y, 4);
    assert_eq!(b.get_min(), (Some(4), Some(4)));
    assert_eq!(b.get_max(), (Some(4), Some(4)));
}

#[test]
fn second_cursor_text_is_its_debug_form() {
    let mut c = coords::CursorCoords::default();
    assert_eq!(c.to_string(), format!("{:?}", c));
    c.set_max((80, 24)).set(12, 0);
    assert_eq!(c.to_string(), format!("{:?}", c));
    assert_eq!(
        c.to_string(),
        "CursorCoords { x: 12, y: 0, min_x: None, min_y: None, max_x: Some(80), max_y: Some(24) }"
    );
    let s = coords::CursorCoordsState::default();
    assert_eq!(s.insert.get(), (1, 1));
}

#[test]
fn list_selection_moves() {
    let mut l = StatefulList::with_items(vec![10, 20, 30]);
    assert_eq!(l.state.selected(), None);
    l.next();
    assert_eq!(l.state.selected(), Some(0));
    l.next();
    l.next();
    l.next();
    assert_eq!(l.state.selected(), Some(2));
    l.previous();
    assert_eq!(l.state.selected(), Some(1));
    l.previous();
    l.previous();
    assert_eq!(l.state.selected(), Some(0));
    l.last();
    assert_eq!(l.state.selected(), Some(2));
    l.clear();
    assert!(l.items.is_empty());
    assert_eq!(l.state.selected(), None);
}

#[test]
fn list_selection_on_empty_list() {
    let mut l: StatefulList<u8> = StatefulList::with_items(vec![]);
    l.previous();
    assert_eq!(l.state.selected(), Some(0));
    l.next();
    assert_eq!(l.state.selected(), Some(0));
    let mut s = ListState::default();
    s.select(Some(4));
    assert_eq!(s.selected(), Some(4));
}

#[test]
fn next_then_previous_returns() {
    let mut l = StatefulList::with_items(vec!['a', 'b', 'c', 'd']);
    l.state.select(Some(1));
    l.next();
    l.previous();
    assert_eq!(l.state.selected(), Some(1));
    l.previous();
    l.next();
    assert_eq!(l.state.selected(), Some(1));
}

fn key(k: Key) -> TuiEvent {
    TuiEvent::Key(k)
}

#[test]
fn app_starts_in_normal_mode() {
    let app = App::new(">");
    assert_eq!(app.prompt, ">");
    assert_eq!(app.input, "");
    assert_eq!(app.input_mode, InputMode::Normal);
    assert!(app.state.history.items.is_empty());
}

#[test]
fn typing_and_submitting_a_line() {
    let mut app = App::new(">");
    assert_eq!(app.handle_event(key(Key::Char('i')), "."), TuiAction::Continue);
    assert_eq!(app.input_mode, InputMode::Insert);
    for c in " .help".chars() {
        app.handle_event(key(Key::Char(c)), ".");
    }
    app.handle_event(key(Key::Char('x')), ".");
    app.handle_event(key(Key::Backspace), ".");
    assert_eq!(app.input, " .help");
    let act = app.handle_event(key(Key::Enter), ".");
    assert_eq!(act, TuiAction::Execute { input: " .help".to_string(), is_command: true });
    assert_eq!(app.input, "");
    assert_eq!(app.handle_event(key(Key::Enter), "."), TuiAction::Continue);
    for c in "from t".chars() {
        app.handle_event(key(Key::Char(c)), ".");
    }
    assert_eq!(
        app.handle_event(key(Key::Enter), "."),
        TuiAction::Execute { input: "from t".to_string(), is_command: false }
    );
}

#[test]
fn tab_toggles_and_q_quits_in_normal_mode() {
    let mut app = App::new(">");
    app.handle_event(key(Key::Tab), ".");
    assert_eq!(app.input_mode, InputMode::Insert);
    assert_eq!(app.handle_event(key(Key::Char('q')), "."), TuiAction::Continue);
    assert_eq!(app.input, "q");
    app.handle_event(key(Key::Tab), ".");
    assert_eq!(app.input_mode, InputMode::Normal);
    assert_eq!(app.handle_event(key(Key::Char('q')), "."), TuiAction::Quit);
    app.handle_event(key(Key::Char('i')), ".");
    app.handle_event(key(Key::Esc), ".");
    assert_eq!(app.input_mode, InputMode::Normal);
}

#[test]
fn history_is_recorded_scrolled_and_cleared() {
    let mut app = App::new(">");
    app.record_output("t1".to_string(), "a".to_string(), Ok("A".to_string()));
    app.record_output("t2".to_string(), "b".to_string(), Err("B".to_string()));
    assert_eq!(app.state.history.items.len(), 2);
    assert_eq!(app.state.history.state.selected(), Some(1));
    app.handle_event(TuiEvent::ScrollUp, ".");
    assert_eq!(app.state.history.state.selected(), Some(0));
    app.handle_event(TuiEvent::ScrollDown, ".");
    assert_eq!(app.state.history.state.selected(), Some(1));
    app.handle_event(key(Key::Up), ".");
    assert_eq!(app.state.history.state.selected(), Some(0));
    app.handle_event(key(Key::Down), ".");
    assert_eq!(app.state.history.state.selected(), Some(1));
    app.handle_event(key(Key::Char('c')), ".");
    assert!(app.state.history.items.is_empty());
    assert_eq!(app.state.history.state.selected(), None);
}

#[test]
fn arrows_move_the_insert_cursor() {
    let mut app = App::new(">");
    app.handle_event(key(Key::Tab), ".");
    app.handle_event(key(Key::Right), ".");
    assert_eq!(app.state.coords.insert.x, 2);
    app.handle_event(key(Key::Left), ".");
    app.handle_event(key(Key::Left), ".");
    assert_eq!(app.state.coords.insert.x, 0);
    assert_eq!(app.state.coords.normal, CursorCoords::default());
}

#[test]
fn output_keeps_its_parts() {
    let o = Output::new("now".to_string(), "q".to_string(), Err("e".to_string()));
    assert_eq!(o.time, "now");
    assert_eq!(o.command, "q");
    assert_eq!(o.output, Err("e".to_string()));
}

fn area(x: u16, y: u16, width: u16, height: u16) -> Area {
    Area { x, y, width, height }
}

#[test]
fn normal_cursor_starts_at_output_corner() {
    let mut app = App::new(">");
    let pos = place_cursor(&mut app, area(1, 3, 78, 30), area(1, 34, 78, 6), 0);
    assert_eq!(pos, (2, 3));
    let c = app.state.coords.normal;
    assert_eq!((c.min_x, c.min_y, c.max_x, c.max_y), (Some(2), Some(4), Some(79), Some(31)));
    // Once moved away from (1, 1) the position stays.
    let pos2 = place_cursor(&mut app, area(5, 5, 10, 10), area(1, 34, 78, 6), 0);
    assert_eq!(pos2, (2, 3));
}

#[test]
fn insert_cursor_follows_the_input() {
    let mut app = App::new(">");
    app.input_mode = InputMode::Insert;
    // 25 columns of input in a box 10 wide: 2 full rows.
    let pos = place_cursor(&mut app, area(1, 3, 78, 30), area(1, 34, 10, 6), 25);
    assert_eq!(pos, (1 + (25 + 2) % 10 + 1, 34 + 2 + 1));
    assert_eq!(app.state.coords.insert.max_x, Some(10));
    assert_eq!(app.state.coords.insert.min_y, Some(3));
}

#[test]
fn ui_cursor_measures_display_width() {
    let mut app = App::new(">");
    app.input_mode = InputMode::Insert;
    app.input = "\u{4f60}\u{597d}".to_string(); // two wide characters: 4 columns
    let pos = ui_cursor(&mut app, area(0, 0, 50, 20), area(0, 20, 10, 5));
    assert_eq!(pos, Some((5, 21)));
    // A box at the right edge of the coordinate range cannot hold the cursor.
    let mut other = App::new(">");
    other.input_mode = InputMode::Insert;
    assert_eq!(ui_cursor(&mut other, area(0, 0, 50, 20), area(u16::MAX, 20, 10, 5)), None);
    assert_eq!(other.state.coords.insert, CursorCoords::default());
}

#[test]
fn ui_cursor_moves_only_the_current_cursor() {
    let mut app = App::new(">");
    app.record_output("t".to_string(), "a".to_string(), Ok("A".to_string()));
    app.input = "typed".to_string();
    let pos = ui_cursor(&mut app, area(1, 3, 78, 30), area(1, 34, 78, 6));
    assert_eq!(pos, Some((2, 3)));
    assert_eq!(app.state.coords.normal.get(), (2, 3));
    assert_eq!(app.state.coords.insert, CursorCoords::default());
    assert_eq!(app.prompt, ">");
    assert_eq!(app.input, "typed");
    assert_eq!(app.input_mode, InputMode::Normal);
    assert_eq!(app.state.history.items.len(), 1);
    assert_eq!(app.state.history.state.selected(), Some(0));
}

#[test]
fn boxes_are_highlighted_by_mode() {
    assert!(History::highlighted(InputMode::Normal));
    assert!(!History::highlighted(InputMode::Insert));
    assert!(Input::highlighted(InputMode::Insert));
    assert!(!Input::highlighted(InputMode::Normal));
}

#[test]
fn chunks_cut_text() {
    let v: Vec<char> = "abcdefg".chars().collect();
    let c = chunk_chars(&v, 3);
    let s: Vec<String> = c.iter().map(|p| p.iter().collect()).collect();
    assert_eq!(s, vec!["abc", "def", "g"]);
    assert!(chunk_chars(&Vec::new(), 2).is_empty());
}

fn line(text: &str, style: LineStyle) -> StyledLine {
    StyledLine { text: text.to_string(), style }
}

#[test]
fn history_item_lines_layout() {
    let ok = Output::new("Mon".to_string(), "from t".to_string(), Ok("ab\ncd".to_string()));
    assert_eq!(
        History::item_lines(0, &ok, ">", 20),
        vec![
            line("Mon", LineStyle::Time),
            line("> from t", LineStyle::Command),
            line("ab", LineStyle::Output),
            line("cd", LineStyle::Output),
        ]
    );
    let err = Output::new("Tue".to_string(), "xyz".to_string(), Err("0123456789ab".to_string()));
    // Width 0: the command is cut every 1 + 0 + 5 = 6 characters, the error
    // every 10.
    assert_eq!(
        History::item_lines(1, &err, ">", 0),
        vec![
            line("", LineStyle::Plain),
            line("Tue", LineStyle::Time),
            line("> xyz", LineStyle::Command),
            line("0123456789", LineStyle::Error),
            line("ab", LineStyle::Error),
        ]
    );
}

#[test]
fn history_output_is_split_into_lines() {
    // Carriage returns before line feeds go, and a final line feed adds no
    // empty line.
    let ok = Output::new("Wed".to_string(), "q".to_string(), Ok("ab\r\ncd\n".to_string()));
    assert_eq!(
        History::item_lines(0, &ok, "", 20),
        vec![
            line("Wed", LineStyle::Time),
            line(" q", LineStyle::Command),
            line("ab", LineStyle::Output),
            line("cd", LineStyle::Output),
        ]
    );
    // "abcdef" fits the first 10-character piece: one output line.
    let short = Output::new("Thu".to_string(), "c".to_string(), Ok("abcdef".to_string()));
    assert_eq!(History::item_lines(0, &short, "", 0).len(), 3);
    // An empty line between two line feeds stays.
    let gap = Output::new("Fri".to_string(), "c".to_string(), Ok("a\n\nb".to_string()));
    let lines = History::item_lines(0, &gap, "", 20);
    assert_eq!(lines[2..], [line("a", LineStyle::Output), line("", LineStyle::Output), line("b", LineStyle::Output)]);
}

#[test]
fn history_widget_lines_cover_every_entry() {
    let mut app = App::new("$");
    app.record_output("t1".to_string(), "a".to_string(), Ok("A".to_string()));
    app.record_output("t2".to_string(), "b".to_string(), Ok("".to_string()));
    let all = History::widget_lines(&app, 30);
    assert_eq!(all.len(), 2);
    assert_eq!(all[1], vec![line("", LineStyle::Plain), line("t2", LineStyle::Time), line("$ b", LineStyle::Command)]);
}

#[test]
fn input_rows_wrap_at_box_width() {
    assert_eq!(Input::lines("abcdefgh", 6), vec!["abc", "def", "gh"]);
    assert!(Input::lines("", 10).is_empty());
}

#[test]
fn help_message_per_mode() {
    let (normal, blink) = HelpMessage::spans(InputMode::Normal);
    assert!(blink);
    let text: String = normal.iter().map(|(t, _)| t.as_str()).collect();
    assert_eq!(text, "Press q to exit, i | Tab to inserting commands and queries, c to clear history.");
    assert_eq!(normal[1], ("q".to_string(), true));
    let (insert, blink) = HelpMessage::spans(InputMode::Insert);
    assert!(!blink);
    let text: String = insert.iter().map(|(t, _)| t.as_str()).collect();
    assert_eq!(text, "Press Esc | Tab to reading output, Enter to execute command or query");
}
