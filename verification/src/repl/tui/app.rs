//! The state of the terminal interface: input mode, cursor, output history.
use vstd::prelude::*;

use crate::text::{
    chars_of, chars_start_with, starts_with, string_pop, string_push, trim, trim_chars,
};

verus! {

/// Whether keys move through the output or edit the input.
#[derive(Copy, Clone, PartialEq, Eq, Structural, Debug)]
pub enum InputMode {
    Normal,
    Insert,
}

/// A cursor position with optional bounds on each axis.
#[derive(Debug, Clone, Copy, PartialEq, Eq, Structural)]
pub struct CursorCoords {
    pub x: u16,
    pub y: u16,
    pub min_x: Option<u16>,
    pub min_y: Option<u16>,
    pub max_x: Option<u16>,
    pub max_y: Option<u16>,
}

/// The cursor at column 1, row 1, without bounds.
pub open spec fn default_coords() -> CursorCoords {
    CursorCoords { x: 1, y: 1, min_x: None, min_y: None, max_x: None, max_y: None }
}

impl Default for CursorCoords {
    fn default() -> (r: CursorCoords)
        ensures
            r == default_coords(),
    {
        CursorCoords { x: 1, y: 1, min_x: None, min_y: None, max_x: None, max_y: None }
    }
}

impl From<(u16, u16)> for CursorCoords {
    fn from(p: (u16, u16)) -> (r: CursorCoords)
        ensures
            r == (CursorCoords { x: p.0, y: p.1, ..default_coords() }),
    {
        let d = CursorCoords::default();
        CursorCoords { x: p.0, y: p.1, ..d }
    }
}

impl vstd::std_specs::convert::FromSpecImpl<(u16, u16)> for CursorCoords {
    open spec fn obeys_from_spec() -> bool {
        true
    }

    open spec fn from_spec(p: (u16, u16)) -> CursorCoords {
        CursorCoords { x: p.0, y: p.1, ..default_coords() }
    }
}

/// The row after moving up: one less, unless at 0 or at the lower bound.
pub open spec fn up_y(c: CursorCoords) -> u16 {
    if c.y > 0 && (c.min_y matches Some(min) ==> min < c.y) {
        (c.y - 1) as u16
    } else {
        c.y
    }
}

/// The row after moving down: up to two rows further, but not past the
/// upper bound when there is one (the move is tried twice).
pub open spec fn down_y(c: CursorCoords) -> int {
    let y1: int = match c.max_y {
        Some(max) => if max > c.y {
            c.y + 1
        } else {
            c.y as int
        },
        None => c.y as int,
    };
    match c.max_y {
        Some(max) => if max > y1 {
            y1 + 1
        } else {
            y1
        },
        None => y1 + 1,
    }
}

/// The column after moving right: one more, unless at the upper bound.
pub open spec fn right_x(c: CursorCoords) -> int {
    match c.max_x {
        Some(max) => if max > c.x {
            c.x + 1
        } else {
            c.x as int
        },
        None => c.x + 1,
    }
}

/// The column after moving left: one less, unless at 0 or at the lower
/// bound.
pub open spec fn left_x(c: CursorCoords) -> u16 {
    if c.x > 0 && (c.min_x matches Some(min) ==> min < c.x) {
        (c.x - 1) as u16
    } else {
        c.x
    }
}

impl CursorCoords {
    /// Moves the cursor to `(x, y)`; the bounds stay.
    pub fn set(&mut self, x: u16, y: u16) -> (r: &mut Self)
        ensures
            *r == (CursorCoords { x, y, ..*old(self) }),
            *final(self) == *final(r),
    {
        self.x = x;
        self.y = y;
        self
    }

    /// The cursor position.
    pub fn get(&self) -> (r: (u16, u16))
        ensures
            r == (self.x, self.y),
    {
        (self.x, self.y)
    }

    /// Sets the lower bounds.
    pub fn set_min(&mut self, min: (u16, u16)) -> (r: &mut Self)
        ensures
            *r == (CursorCoords { min_x: Some(min.0), min_y: Some(min.1), ..*old(self) }),
            *final(self) == *final(r),
    {
        self.min_x = Some(min.0);
        self.min_y = Some(min.1);
        self
    }

    /// Sets the upper bounds.
    pub fn set_max(&mut self, max: (u16, u16)) -> (r: &mut Self)
        ensures
            *r == (CursorCoords { max_x: Some(max.0), max_y: Some(max.1), ..*old(self) }),
            *final(self) == *final(r),
    {
        self.max_x = Some(max.0);
        self.max_y = Some(max.1);
        self
    }

    /// Moves the cursor one row up (see `up_y`).
    pub fn up(&mut self) -> (r: &mut Self)
        ensures
            *r == (CursorCoords { y: up_y(*old(self)), ..*old(self) }),
            *final(self) == *final(r),
    {
        if self.y > 0 {
            match self.min_y {
                Some(min) => {
                    if min < self.y {
                        self.y = self.y - 1;
                    }
                },
                None => {
                    self.y = self.y - 1;
                },
            }
        }
        self
    }

    /// Moves the cursor down (see `down_y`); without an upper bound the row
    /// must not be the last one a `u16` holds.
    pub fn down(&mut self) -> (r: &mut Self)
        requires
            down_y(*old(self)) <= u16::MAX,
        ensures
            *r == (CursorCoords { y: down_y(*old(self)) as u16, ..*old(self) }),
            *final(self) == *final(r),
    {
        if let Some(max_y) = self.max_y {
            if max_y > self.y {
                self.y = self.y + 1;
            }
        }
        match self.max_y {
            Some(max) => {
                if max > self.y {
                    self.y = self.y + 1;
                }
            },
            None => {
                self.y = self.y + 1;
            },
        }
        self
    }

    /// Moves the cursor one column right (see `right_x`); without an upper
    /// bound the column must not be the last one a `u16` holds.
    pub fn right(&mut self) -> (r: &mut Self)
        requires
            right_x(*old(self)) <= u16::MAX,
        ensures
            *r == (CursorCoords { x: right_x(*old(self)) as u16, ..*old(self) }),
            *final(self) == *final(r),
    {
        match self.max_x {
            Some(max) => {
                if max > self.x {
                    self.x = self.x + 1;
                }
            },
            None => {
                self.x = self.x + 1;
            },
        }
        self
    }

    /// Moves the cursor one column left (see `left_x`).
    pub fn left(&mut self) -> (r: &mut Self)
        ensures
            *r == (CursorCoords { x: left_x(*old(self)), ..*old(self) }),
            *final(self) == *final(r),
    {
        if self.x > 0 {
            match self.min_x {
                Some(min) => {
                    if min < self.x {
                        self.x = self.x - 1;
                    }
                },
                None => {
                    self.x = self.x - 1;
                },
            }
        }
        self
    }
}

/// The cursors of the two input modes.
#[derive(Debug, PartialEq, Eq, Structural)]
pub struct CursorCoordsState {
    pub normal: CursorCoords,
    pub insert: CursorCoords,
}

impl Default for CursorCoordsState {
    fn default() -> (r: CursorCoordsState)
        ensures
            r.normal == default_coords(),
            r.insert == default_coords(),
    {
        CursorCoordsState { normal: CursorCoords::default(), insert: CursorCoords::default() }
    }
}


/// A command or query that ran, with what it gave.
#[derive(Debug, PartialEq, Eq)]
pub struct Output {
    /// When it ran, as RFC 2822 text.
    pub time: String,
    /// The line that was entered.
    pub command: String,
    /// Its output, or its error message.
    pub output: Result<String, String>,
}

impl Output {
    pub fn new(time: String, command: String, output: Result<String, String>) -> (r: Output)
        ensures
            r.time == time,
            r.command == command,
            r.output == output,
    {
        Output { time, command, output }
    }
}

/// Which item of a list is selected, if any.
#[derive(Debug, Clone, Copy, PartialEq, Eq, Structural)]
pub struct ListState {
    pub selected: Option<usize>,
}

impl Default for ListState {
    fn default() -> (r: ListState)
        ensures
            r.selected is None,
    {
        ListState { selected: None }
    }
}

impl ListState {
    /// The selected index.
    pub fn selected(&self) -> (r: Option<usize>)
        ensures
            r == self.selected,
    {
        self.selected
    }

    /// Selects `index` (nothing when `None`).
    pub fn select(&mut self, index: Option<usize>)
        ensures
            final(self).selected == index,
    {
        self.selected = index;
    }
}

/// The selection after moving down a list of `len` items: the first item
/// when nothing is selected or the list is empty, otherwise the next item,
/// staying on the last one.
pub open spec fn next_index(selected: Option<usize>, len: nat) -> int {
    match selected {
        Some(i) => if len == 0 {
            0
        } else if i + 1 >= len {
            i as int
        } else {
            i + 1
        },
        None => 0,
    }
}

/// The selection after moving up a list of `len` items: the first item
/// when nothing is selected or the list is empty, otherwise the previous
/// item, staying on the first one.
pub open spec fn previous_index(selected: Option<usize>, len: nat) -> usize {
    match selected {
        Some(i) => if len == 0 {
            0
        } else if i == 0 {
            0
        } else {
            (i - 1) as usize
        },
        None => 0,
    }
}

/// Moving down from `selected` is defined: the index after it fits in a
/// `usize`.
pub open spec fn can_move_next(selected: Option<usize>, len: nat) -> bool {
    len > 0 ==> (selected matches Some(i) ==> i < usize::MAX)
}

/// A list of items with a selection.
#[derive(Debug)]
pub struct StatefulList<T> {
    pub state: ListState,
    pub items: Vec<T>,
}

impl<T> StatefulList<T> {
    /// The list of `items`, with nothing selected.
    pub fn with_items(items: Vec<T>) -> (r: StatefulList<T>)
        ensures
            r.items == items,
            r.state.selected is None,
    {
        StatefulList { state: ListState::default(), items }
    }

    /// Selects the next item (see `next_index`).
    pub fn next(&mut self)
        requires
            can_move_next(old(self).state.selected, old(self).items@.len()),
        ensures
            final(self).items == old(self).items,
            final(self).state.selected == Some(
                next_index(old(self).state.selected, old(self).items@.len()) as usize,
            ),
    {
        let i: usize = match self.state.selected() {
            Some(i) => {
                if self.items.len() == 0 {
                    0
                } else if i + 1 >= self.items.len() {
                    i
                } else {
                    i + 1
                }
            },
            None => 0,
        };
        self.state.select(Some(i));
    }

    /// Selects the previous item (see `previous_index`).
    pub fn previous(&mut self)
        ensures
            final(self).items == old(self).items,
            final(self).state.selected == Some(
                previous_index(old(self).state.selected, old(self).items@.len()),
            ),
    {
        let i: usize = match self.state.selected() {
            Some(i) => {
                if self.items.len() == 0 {
                    0
                } else if i == 0 {
                    0
                } else {
                    i - 1
                }
            },
            None => 0,
        };
        self.state.select(Some(i));
    }

    /// Selects the last item; the list must not be empty.
    pub fn last(&mut self)
        requires
            old(self).items@.len() > 0,
        ensures
            final(self).items == old(self).items,
            final(self).state.selected == Some((old(self).items@.len() - 1) as usize),
    {
        let n = self.items.len();
        self.state.select(Some(n - 1));
    }

    /// Removes every item and the selection.
    pub fn clear(&mut self)
        ensures
            final(self).items@.len() == 0,
            final(self).state.selected is None,
    {
        self.items.clear();
        self.state = ListState::default();
    }
}

/// The state behind the interface: cursors and the output history.
#[derive(Debug)]
pub struct State {
    pub coords: CursorCoordsState,
    pub history: StatefulList<Output>,
}

/// The terminal application.
pub struct App {
    /// The prompt shown before each entered line.
    pub prompt: String,
    /// Current value of the input box.
    pub input: String,
    /// Current input mode.
    pub input_mode: InputMode,
    pub state: State,
}

impl App {
    /// A new application: empty input, normal mode, default cursors, no
    /// history.
    pub fn new(prompt: &str) -> (r: App)
        ensures
            r.prompt@ == prompt@,
            r.input@.len() == 0,
            r.input_mode == InputMode::Normal,
            r.state.coords.normal == default_coords(),
            r.state.coords.insert == default_coords(),
            r.state.history.items@.len() == 0,
            r.state.history.state.selected is None,
    {
        App {
            input: String::new(),
            input_mode: InputMode::Normal,
            prompt: prompt.to_owned(),
            state: State {
                coords: CursorCoordsState::default(),
                history: StatefulList::with_items(Vec::new()),
            },
        }
    }

    /// Adds a finished command to the history and selects it.
    pub fn record_output(&mut self, time: String, command: String, output: Result<String, String>)
        ensures
            final(self).state.history.items@ == old(self).state.history.items@.push(
                Output { time, command, output },
            ),
            final(self).state.history.state.selected == Some(
                old(self).state.history.items@.len() as usize,
            ),
            final(self).prompt == old(self).prompt,
            final(self).input == old(self).input,
            final(self).input_mode == old(self).input_mode,
            final(self).state.coords == old(self).state.coords,
    {
        let n = self.state.history.items.len();
        self.state.history.items.push(Output::new(time, command, output));
        self.state.history.last();
    }
}


/// A key the interface reacts to.
#[derive(Copy, Clone, PartialEq, Eq, Structural, Debug)]
pub enum Key {
    Tab,
    Enter,
    Backspace,
    Esc,
    Up,
    Down,
    Left,
    Right,
    Char(char),
    Other,
}

/// An input event of the terminal.
#[derive(Copy, Clone, PartialEq, Eq, Structural, Debug)]
pub enum TuiEvent {
    /// The mouse wheel turned up.
    ScrollUp,
    /// The mouse wheel turned down.
    ScrollDown,
    /// A key was pressed.
    Key(Key),
    /// Any other event.
    Other,
}

/// What the interface is to do after an event.
#[derive(Debug, Clone, PartialEq, Eq)]
pub enum TuiAction {
    /// Draw again and wait for the next event.
    Continue,
    /// Leave the interface.
    Quit,
    /// Run the entered line, as a command when `is_command` holds, else as a
    /// query; then record its output.
    Execute { input: String, is_command: bool },
}

/// The mathematical value of an action.
pub enum ActionSpec {
    Continue,
    Quit,
    Execute { input: Seq<char>, is_command: bool },
}

impl View for TuiAction {
    type V = ActionSpec;

    open spec fn view(&self) -> ActionSpec {
        match self {
            TuiAction::Continue => ActionSpec::Continue,
            TuiAction::Quit => ActionSpec::Quit,
            TuiAction::Execute { input, is_command } => ActionSpec::Execute {
                input: input@,
                is_command: *is_command,
            },
        }
    }
}

/// The event scrolls the history down.
pub open spec fn moves_down(mode: InputMode, event: TuiEvent) -> bool {
    event == TuiEvent::ScrollDown || (mode == InputMode::Normal && event == TuiEvent::Key(Key::Down))
}

/// The event scrolls the history up.
pub open spec fn moves_up(mode: InputMode, event: TuiEvent) -> bool {
    event == TuiEvent::ScrollUp || (mode == InputMode::Normal && event == TuiEvent::Key(Key::Up))
}

/// The event clears the history.
pub open spec fn clears(mode: InputMode, event: TuiEvent) -> bool {
    mode == InputMode::Normal && event == TuiEvent::Key(Key::Char('c'))
}

/// The event submits the input line.
pub open spec fn submits(mode: InputMode, input: Seq<char>, event: TuiEvent) -> bool {
    mode == InputMode::Insert && event == TuiEvent::Key(Key::Enter) && input.len() > 0
}

/// The event leaves the interface.
pub open spec fn quits(mode: InputMode, event: TuiEvent) -> bool {
    mode == InputMode::Normal && event == TuiEvent::Key(Key::Char('q'))
}

/// What the interface does after an event: it quits on `q` in normal
/// mode, runs a submitted line (as a command when, trimmed, it begins with
/// `command_prefix`), and otherwise draws again.
pub open spec fn event_action(
    mode: InputMode,
    input: Seq<char>,
    event: TuiEvent,
    command_prefix: Seq<char>,
) -> ActionSpec {
    if quits(mode, event) {
        ActionSpec::Quit
    } else if submits(mode, input, event) {
        ActionSpec::Execute { input, is_command: starts_with(trim(input), command_prefix) }
    } else {
        ActionSpec::Continue
    }
}

/// The input mode after an event: Tab toggles it, `i` enters insert mode,
/// Esc leaves it.
pub open spec fn next_mode(mode: InputMode, event: TuiEvent) -> InputMode {
    if event == TuiEvent::Key(Key::Tab) {
        match mode {
            InputMode::Normal => InputMode::Insert,
            InputMode::Insert => InputMode::Normal,
        }
    } else if mode == InputMode::Normal && event == TuiEvent::Key(Key::Char('i')) {
        InputMode::Insert
    } else if mode == InputMode::Insert && event == TuiEvent::Key(Key::Esc) {
        InputMode::Normal
    } else {
        mode
    }
}

/// The input line after an event: in insert mode a character is added,
/// Backspace removes the last one, and a submitted line is emptied.
pub open spec fn next_input(mode: InputMode, input: Seq<char>, event: TuiEvent) -> Seq<char> {
    if mode != InputMode::Insert {
        input
    } else {
        match event {
            TuiEvent::Key(Key::Char(c)) => input.push(c),
            TuiEvent::Key(Key::Backspace) => if input.len() > 0 {
                input.drop_last()
            } else {
                input
            },
            TuiEvent::Key(Key::Enter) => Seq::empty(),
            _ => input,
        }
    }
}

/// The insert-mode cursor column after an event.
pub open spec fn next_insert_x(mode: InputMode, c: CursorCoords, event: TuiEvent) -> u16 {
    if mode == InputMode::Insert && event == TuiEvent::Key(Key::Right) {
        right_x(c) as u16
    } else if mode == InputMode::Insert && event == TuiEvent::Key(Key::Left) {
        left_x(c)
    } else {
        c.x
    }
}

/// The event can be handled: moving the selection down or the cursor right
/// stays within the integer types.
pub open spec fn event_defined(app: App, event: TuiEvent) -> bool {
    &&& moves_down(app.input_mode, event) ==> can_move_next(
        app.state.history.state.selected,
        app.state.history.items@.len(),
    )
    &&& (app.input_mode == InputMode::Insert && event == TuiEvent::Key(Key::Right)) ==> right_x(
        app.state.coords.insert,
    ) <= u16::MAX
}

/// Moving down and then up a list returns to where the selection was, when
/// the item below it exists.
pub proof fn lemma_next_then_previous(i: usize, len: nat)
    requires
        i + 1 < len <= usize::MAX,
    ensures
        previous_index(Some(next_index(Some(i), len) as usize), len) == i,
{
}

/// Moving up and then down a list returns to where the selection was, when
/// the item above it exists.
pub proof fn lemma_previous_then_next(i: usize, len: nat)
    requires
        0 < i < len,
    ensures
        next_index(Some(previous_index(Some(i), len)), len) == i,
{
}

/// In a non-empty list, moving the selection up or down selects an item of
/// the list, from any selection inside it or from none.
pub proof fn lemma_selection_stays_in_list(selected: Option<usize>, len: nat)
    requires
        len > 0,
        selected matches Some(i) ==> i < len,
    ensures
        0 <= next_index(selected, len) < len,
        previous_index(selected, len) < len,
{
}

/// The cursor lies within each bound that it has.
pub open spec fn within_bounds(c: CursorCoords) -> bool {
    &&& c.min_x matches Some(m) ==> m <= c.x
    &&& c.min_y matches Some(m) ==> m <= c.y
    &&& c.max_x matches Some(m) ==> c.x <= m
    &&& c.max_y matches Some(m) ==> c.y <= m
}

/// A cursor within its bounds stays within them after any single move.
pub proof fn lemma_moves_keep_bounds(c: CursorCoords)
    requires
        within_bounds(c),
        down_y(c) <= u16::MAX,
        right_x(c) <= u16::MAX,
    ensures
        within_bounds(CursorCoords { y: up_y(c), ..c }),
        within_bounds(CursorCoords { y: down_y(c) as u16, ..c }),
        within_bounds(CursorCoords { x: right_x(c) as u16, ..c }),
        within_bounds(CursorCoords { x: left_x(c), ..c }),
{
}

/// Tab twice gives back the input mode.
pub proof fn lemma_tab_twice(mode: InputMode)
    ensures
        next_mode(next_mode(mode, TuiEvent::Key(Key::Tab)), TuiEvent::Key(Key::Tab)) == mode,
{
}

/// The interface quits on `q` in normal mode, and on no other event.
pub proof fn lemma_quit_only_on_q(
    mode: InputMode,
    input: Seq<char>,
    event: TuiEvent,
    command_prefix: Seq<char>,
)
    ensures
        (event_action(mode, input, event, command_prefix) is Quit) <==> (mode
            == InputMode::Normal && event == TuiEvent::Key(Key::Char('q'))),
{
}

/// A line is run only from insert mode, on Enter, when it is not empty;
/// the line it runs is the one entered, and the input is empty after it.
pub proof fn lemma_run_empties_input(
    mode: InputMode,
    input: Seq<char>,
    event: TuiEvent,
    command_prefix: Seq<char>,
)
    ensures
        (event_action(mode, input, event, command_prefix) is Execute) <==> (mode
            == InputMode::Insert && event == TuiEvent::Key(Key::Enter) && input.len() > 0),
        event_action(mode, input, event, command_prefix) matches ActionSpec::Execute {
            input: run,
            ..
        } ==> run == input && next_input(mode, input, event) == Seq::<char>::empty(),
{
}

/// Typing a character and erasing it gives back the input line.
pub proof fn lemma_type_then_erase(input: Seq<char>, c: char)
    ensures
        next_input(
            InputMode::Insert,
            next_input(InputMode::Insert, input, TuiEvent::Key(Key::Char(c))),
            TuiEvent::Key(Key::Backspace),
        ) == input,
{
    assert(input.push(c).drop_last() =~= input);
}

impl App {
    /// Reacts to one event; lines are commands when, trimmed, they begin
    /// with `command_prefix`.
    pub fn handle_event(&mut self, event: TuiEvent, command_prefix: &str) -> (r: TuiAction)
        requires
            event_defined(*old(self), event),
        ensures
            ({
                let o = *old(self);
                let f = *final(self);
                let mode = o.input_mode;
                let quits = quits(mode, event);
                &&& r@ == event_action(mode, o.input@, event, command_prefix@)
                &&& f.prompt == o.prompt
                &&& quits ==> r is Quit && f == o
                &&& !quits ==> {
                    &&& f.input_mode == next_mode(mode, event)
                    &&& f.input@ == next_input(mode, o.input@, event)
                    &&& f.state.coords.normal == o.state.coords.normal
                    &&& f.state.coords.insert == (CursorCoords {
                        x: next_insert_x(mode, o.state.coords.insert, event),
                        ..o.state.coords.insert
                    })
                    &&& f.state.history.items@ == (if clears(mode, event) {
                        Seq::empty()
                    } else {
                        o.state.history.items@
                    })
                    &&& f.state.history.state.selected == (if clears(mode, event) {
                        None
                    } else if moves_up(mode, event) {
                        Some(
                            previous_index(
                                o.state.history.state.selected,
                                o.state.history.items@.len(),
                            ),
                        )
                    } else if moves_down(mode, event) {
                        Some(
                            next_index(
                                o.state.history.state.selected,
                                o.state.history.items@.len(),
                            ) as usize,
                        )
                    } else {
                        o.state.history.state.selected
                    })
                    &&& submits(mode, o.input@, event) ==> (r matches TuiAction::Execute {
                        input,
                        is_command,
                    } && input@ == o.input@ && is_command == starts_with(
                        trim(o.input@),
                        command_prefix@,
                    ))
                    &&& !submits(mode, o.input@, event) ==> r is Continue
                }
            }),
    {
        match event {
            TuiEvent::ScrollUp => {
                self.state.history.previous();
                TuiAction::Continue
            },
            TuiEvent::ScrollDown => {
                self.state.history.next();
                TuiAction::Continue
            },
            TuiEvent::Other => TuiAction::Continue,
            TuiEvent::Key(Key::Tab) => {
                self.input_mode = match self.input_mode {
                    InputMode::Normal => InputMode::Insert,
                    InputMode::Insert => InputMode::Normal,
                };
                TuiAction::Continue
            },
            TuiEvent::Key(key) => match self.input_mode {
                InputMode::Normal => match key {
                    Key::Char('i') => {
                        self.input_mode = InputMode::Insert;
                        TuiAction::Continue
                    },
                    Key::Char('q') => TuiAction::Quit,
                    Key::Char('c') => {
                        self.state.history.clear();
                        TuiAction::Continue
                    },
                    Key::Up => {
                        self.state.history.previous();
                        TuiAction::Continue
                    },
                    Key::Down => {
                        self.state.history.next();
                        TuiAction::Continue
                    },
                    _ => TuiAction::Continue,
                },
                InputMode::Insert => match key {
                    Key::Enter => {
                        if self.input.as_str().is_empty() {
                            TuiAction::Continue
                        } else {
                            let input = self.input.clone();
                            self.input = String::new();
                            let v = chars_of(input.as_str());
                            let t = trim_chars(&v);
                            let p = chars_of(command_prefix);
                            let is_command = chars_start_with(&t, &p);
                            TuiAction::Execute { input, is_command }
                        }
                    },
                    Key::Char(c) => {
                        string_push(&mut self.input, c);
                        TuiAction::Continue
                    },
                    Key::Backspace => {
                        string_pop(&mut self.input);
                        TuiAction::Continue
                    },
                    Key::Right => {
                        self.state.coords.insert.right();
                        TuiAction::Continue
                    },
                    Key::Left => {
                        self.state.coords.insert.left();
                        TuiAction::Continue
                    },
                    Key::Esc => {
                        self.input_mode = InputMode::Normal;
                        TuiAction::Continue
                    },
                    _ => TuiAction::Continue,
                },
            },
        }
    }
}

} // verus!
