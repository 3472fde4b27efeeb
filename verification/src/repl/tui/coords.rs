//! A cursor position with optional bounds, whose horizontal moves take an
//! extra step, and its text form.
use vstd::prelude::*;

use crate::text::{append_str, chars_of, decimal, push_decimal, string_from_chars};

verus! {

/// A cursor position with optional bounds on each axis.
#[derive(Debug, Clone, Copy, PartialEq, Eq, Structural)]
pub struct CursorCoords {
    pub x: u16,
    pub y: u16,
    pub min_x: Option<u16>,
    pub min_y: Option<u16>,
    pub max_x: Option<u16>,
    pub max_y: Option<u16>,
}

/// The cursor at column 1, row 1, without bounds.
pub open spec fn default_coords() -> CursorCoords {
    CursorCoords { x: 1, y: 1, min_x: None, min_y: None, max_x: None, max_y: None }
}

impl Default for CursorCoords {
    fn default() -> (r: CursorCoords)
        ensures
            r == default_coords(),
    {
        CursorCoords { x: 1, y: 1, min_x: None, min_y: None, max_x: None, max_y: None }
    }
}

impl From<(u16, u16)> for CursorCoords {
    fn from(p: (u16, u16)) -> (r: CursorCoords)
        ensures
            r == (CursorCoords { x: p.0, y: p.1, ..default_coords() }),
    {
        let d = CursorCoords::default();
        CursorCoords { x: p.0, y: p.1, ..d }
    }
}

impl vstd::std_specs::convert::FromSpecImpl<(u16, u16)> for CursorCoords {
    open spec fn obeys_from_spec() -> bool {
        true
    }

    open spec fn from_spec(p: (u16, u16)) -> CursorCoords {
        CursorCoords { x: p.0, y: p.1, ..default_coords() }
    }
}

/// The row after moving up: one less, unless at 0 or at the lower bound.
pub open spec fn up_y(c: CursorCoords) -> u16 {
    if c.y > 0 && (c.min_y matches Some(min) ==> min < c.y) {
        (c.y - 1) as u16
    } else {
        c.y
    }
}

/// The row after moving down: up to two rows further, but not past the
/// upper bound when there is one (the move is tried twice).
pub open spec fn down_y(c: CursorCoords) -> int {
    let y1: int = match c.max_y {
        Some(max) => if max > c.y {
            c.y + 1
        } else {
            c.y as int
        },
        None => c.y as int,
    };
    match c.max_y {
        Some(max) => if max > y1 {
            y1 + 1
        } else {
            y1
        },
        None => y1 + 1,
    }
}

/// The column after moving right: one step, unless at the upper bound,
/// then one more step in any case.
pub open spec fn right_x(c: CursorCoords) -> int {
    let x1: int = match c.max_x {
        Some(max) => if max > c.x {
            c.x + 1
        } else {
            c.x as int
        },
        None => c.x + 1,
    };
    x1 + 1
}

/// The column after moving left: one step, unless at 0 or at the lower
/// bound, then one more step in any case.
pub open spec fn left_x(c: CursorCoords) -> int {
    let x1: int = if c.x > 0 && (c.min_x matches Some(min) ==> min < c.x) {
        c.x - 1
    } else {
        c.x as int
    };
    x1 - 1
}

/// The text of an optional coordinate as `{:?}` writes it.
pub open spec fn option_text(v: Option<u16>) -> Seq<char> {
    match v {
        Some(n) => "Some("@ + decimal(n as nat) + ")"@,
        None => "None"@,
    }
}

/// The text of a cursor as `{:?}` writes it.
pub open spec fn coords_text(c: CursorCoords) -> Seq<char> {
    "CursorCoords { x: "@ + decimal(c.x as nat) + ", y: "@ + decimal(c.y as nat) + ", min_x: "@
        + option_text(c.min_x) + ", min_y: "@ + option_text(c.min_y) + ", max_x: "@ + option_text(
        c.max_x,
    ) + ", max_y: "@ + option_text(c.max_y) + " }"@
}

/// Appends the text of an optional coordinate.
fn push_option(v: Option<u16>, out: &mut Vec<char>)
    ensures
        final(out)@ == old(out)@ + option_text(v),
{
    match v {
        Some(n) => {
            append_str(out, "Some(");
            push_decimal(n as u64, out);
            append_str(out, ")");
        },
        None => {
            append_str(out, "None");
        },
    }
}

/// The cursor lies within each bound that it has.
pub open spec fn within_bounds(c: CursorCoords) -> bool {
    &&& c.min_x matches Some(m) ==> m <= c.x
    &&& c.min_y matches Some(m) ==> m <= c.y
    &&& c.max_x matches Some(m) ==> c.x <= m
    &&& c.max_y matches Some(m) ==> c.y <= m
}

/// A cursor within its bounds stays within them after moving up or down;
/// after moving right or left it does where the second, unconditional step
/// does not cross the bound.
pub proof fn lemma_moves_keep_bounds(c: CursorCoords)
    requires
        within_bounds(c),
        down_y(c) <= u16::MAX,
        0 <= left_x(c),
        right_x(c) <= u16::MAX,
    ensures
        within_bounds(CursorCoords { y: up_y(c), ..c }),
        within_bounds(CursorCoords { y: down_y(c) as u16, ..c }),
        (c.max_x matches Some(m) ==> right_x(c) <= m) ==> within_bounds(
            CursorCoords { x: right_x(c) as u16, ..c },
        ),
        (c.min_x matches Some(m) ==> left_x(c) >= m) ==> within_bounds(
            CursorCoords { x: left_x(c) as u16, ..c },
        ),
{
}

impl CursorCoords {
    /// Moves the cursor to `(x, y)`; the bounds stay.
    pub fn set(&mut self, x: u16, y: u16) -> (r: &mut Self)
        ensures
            *r == (CursorCoords { x, y, ..*old(self) }),
            *final(self) == *final(r),
    {
        self.x = x;
        self.y = y;
        self
    }

    /// The cursor position.
    pub fn get(&self) -> (r: (u16, u16))
        ensures
            r == (self.x, self.y),
    {
        (self.x, self.y)
    }

    /// Sets the lower bounds.
    pub fn set_min(&mut self, min: (u16, u16)) -> (r: &mut Self)
        ensures
            *r == (CursorCoords { min_x: Some(min.0), min_y: Some(min.1), ..*old(self) }),
            *final(self) == *final(r),
    {
        self.min_x = Some(min.0);
        self.min_y = Some(min.1);
        self
    }

    /// The lower bounds.
    pub fn get_min(&self) -> (r: (Option<u16>, Option<u16>))
        ensures
            r == (self.min_x, self.min_y),
    {
        (self.min_x, self.min_y)
    }

    /// Sets the upper bounds.
    pub fn set_max(&mut self, max: (u16, u16)) -> (r: &mut Self)
        ensures
            *r == (CursorCoords { max_x: Some(max.0), max_y: Some(max.1), ..*old(self) }),
            *final(self) == *final(r),
    {
        self.max_x = Some(max.0);
        self.max_y = Some(max.1);
        self
    }

    /// The upper bounds.
    pub fn get_max(&self) -> (r: (Option<u16>, Option<u16>))
        ensures
            r == (self.max_x, self.max_y),
    {
        (self.max_x, self.max_y)
    }

    /// Moves the cursor one row up (see `up_y`).
    pub fn up(&mut self)
        ensures
            *final(self) == (CursorCoords { y: up_y(*old(self)), ..*old(self) }),
    {
        if self.y > 0 {
            match self.min_y {
                Some(min) => {
                    if min < self.y {
                        self.y = self.y - 1;
                    }
                },
                None => {
                    self.y = self.y - 1;
                },
            }
        }
    }

    /// Moves the cursor down (see `down_y`); without an upper bound the row
    /// must not be the last one a `u16` holds.
    pub fn down(&mut self)
        requires
            down_y(*old(self)) <= u16::MAX,
        ensures
            *final(self) == (CursorCoords { y: down_y(*old(self)) as u16, ..*old(self) }),
    {
        if let Some(max_y) = self.max_y {
            if max_y > self.y {
                self.y = self.y + 1;
            }
        }
        match self.max_y {
            Some(max) => {
                if max > self.y {
                    self.y = self.y + 1;
                }
            },
            None => {
                self.y = self.y + 1;
            },
        }
    }

    /// Moves the cursor right (see `right_x`); the new column must fit in a
    /// `u16`.
    pub fn right(&mut self)
        requires
            right_x(*old(self)) <= u16::MAX,
        ensures
            *final(self) == (CursorCoords { x: right_x(*old(self)) as u16, ..*old(self) }),
    {
        match self.max_x {
            Some(max) => {
                if max > self.x {
                    self.x = self.x + 1;
                }
            },
            None => {
                self.x = self.x + 1;
            },
        }
        self.x = self.x + 1;
    }

    /// Moves the cursor left (see `left_x`); the new column must not be
    /// negative.
    pub fn left(&mut self)
        requires
            left_x(*old(self)) >= 0,
        ensures
            *final(self) == (CursorCoords { x: left_x(*old(self)) as u16, ..*old(self) }),
    {
        if self.x > 0 {
            match self.min_x {
                Some(min) => {
                    if min < self.x {
                        self.x = self.x - 1;
                    }
                },
                None => {
                    self.x = self.x - 1;
                },
            }
        }
        self.x = self.x - 1;
    }

    /// The text of the cursor (see `coords_text`).
    pub fn to_string(&self) -> (r: String)
        ensures
            r@ == coords_text(*self),
    {
        let mut out = chars_of("CursorCoords { x: ");
        push_decimal(self.x as u64, &mut out);
        append_str(&mut out, ", y: ");
        push_decimal(self.y as u64, &mut out);
        append_str(&mut out, ", min_x: ");
        push_option(self.min_x, &mut out);
        append_str(&mut out, ", min_y: ");
        push_option(self.min_y, &mut out);
        append_str(&mut out, ", max_x: ");
        push_option(self.max_x, &mut out);
        append_str(&mut out, ", max_y: ");
        push_option(self.max_y, &mut out);
        append_str(&mut out, " }");
        string_from_chars(&out)
    }
}

/// The cursors of the two input modes.
#[derive(Debug)]
pub struct CursorCoordsState {
    pub normal: CursorCoords,
    pub insert: CursorCoords,
}

impl Default for CursorCoordsState {
    fn default() -> (r: CursorCoordsState)
        ensures
            r.normal == default_coords(),
            r.insert == default_coords(),
    {
        CursorCoordsState { normal: CursorCoords::default(), insert: CursorCoords::default() }
    }
}

} // verus!
