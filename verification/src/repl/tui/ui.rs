//! What the interface draws: where the cursor goes, and the lines of the
//! history, the input box and the help line.
use vstd::prelude::*;
use vstd::utf8::encode_utf8;

use crate::repl::tui::app::{default_coords, App, CursorCoords, InputMode, Output};
use crate::text::{
    append_str, chars_of, lemma_split_on_without_separator, lines_chars, lines_of,
    string_from_chars, split_on,
};

verus! {

/// A rectangle of the terminal, in cells.
#[derive(Copy, Clone, PartialEq, Eq, Structural, Debug)]
pub struct Area {
    pub x: u16,
    pub y: u16,
    pub width: u16,
    pub height: u16,
}

/// The display width of a text in terminal columns, as
/// `unicode_width::UnicodeWidthStr::width` measures it.
pub uninterp spec fn display_width(s: Seq<char>) -> usize;

/// Calls `UnicodeWidthStr::width` on `s`. The contract claims only that the
/// result is a function of `s`, named `display_width`.
#[verifier::external_body]
fn text_width(s: &str) -> (r: usize)
    ensures
        r == display_width(s@),
{
    unicode_width::UnicodeWidthStr::width(s)
}

/// The number of rows the insert cursor moves down for an input of
/// `input_width` columns in a box `width` columns wide.
pub open spec fn input_lines(input_width: usize, width: u16) -> u16 {
    ((input_width as u16) / width) as u16
}

/// Placing the cursor is defined: the input box has a width and the
/// positions fit in a `u16`.
pub open spec fn cursor_defined(mode: InputMode, output: Area, input: Area, input_width: usize) -> bool {
    match mode {
        InputMode::Normal => output.width < u16::MAX && output.height < u16::MAX && output.x
            < u16::MAX && output.y < u16::MAX,
        InputMode::Insert => {
            &&& input.width > 0
            &&& (input_width as u16) + input_lines(input_width, input.width) <= u16::MAX
            &&& input.x + (((input_width as u16) + input_lines(input_width, input.width)) as u16
                % input.width) + 1 <= u16::MAX
            &&& input.y + input_lines(input_width, input.width) + 1 <= u16::MAX
        },
    }
}

/// The cursor of the current mode after it is placed: in normal mode it is
/// bounded by the output area (one cell in) and starts at the output
/// area's top left; in insert mode it is bounded by the input box and goes
/// after the input text, which wraps at the box width.
pub open spec fn placed_cursor(
    mode: InputMode,
    c: CursorCoords,
    output: Area,
    input: Area,
    input_width: usize,
) -> CursorCoords {
    match mode {
        InputMode::Normal => {
            let bounded = CursorCoords {
                max_x: Some((output.width + 1) as u16),
                max_y: Some((output.height + 1) as u16),
                min_x: Some((output.x + 1) as u16),
                min_y: Some((output.y + 1) as u16),
                ..c
            };
            if (c.x, c.y) == (default_coords().x, default_coords().y) {
                CursorCoords { x: (output.x + 1) as u16, y: output.y, ..bounded }
            } else {
                bounded
            }
        },
        InputMode::Insert => {
            let lines = input_lines(input_width, input.width);
            CursorCoords {
                max_x: Some(input.width),
                max_y: Some(input.height),
                min_x: Some(output.x),
                min_y: Some(output.y),
                x: (input.x + (((input_width as u16) + lines) as u16 % input.width) + 1) as u16,
                y: (input.y + lines + 1) as u16,
                ..c
            }
        },
    }
}

/// Places the cursor of the current mode (see `placed_cursor`), for an
/// input `input_width` columns wide, and returns its position.
pub fn place_cursor(app: &mut App, output: Area, input: Area, input_width: usize) -> (r: (u16, u16))
    requires
        cursor_defined(old(app).input_mode, output, input, input_width),
    ensures
        ({
            let o = *old(app);
            let f = *final(app);
            &&& f.prompt == o.prompt
            &&& f.input == o.input
            &&& f.input_mode == o.input_mode
            &&& f.state.history == o.state.history
            &&& match o.input_mode {
                InputMode::Normal => {
                    &&& f.state.coords.normal == placed_cursor(
                        InputMode::Normal,
                        o.state.coords.normal,
                        output,
                        input,
                        input_width,
                    )
                    &&& f.state.coords.insert == o.state.coords.insert
                    &&& r == (f.state.coords.normal.x, f.state.coords.normal.y)
                },
                InputMode::Insert => {
                    &&& f.state.coords.insert == placed_cursor(
                        InputMode::Insert,
                        o.state.coords.insert,
                        output,
                        input,
                        input_width,
                    )
                    &&& f.state.coords.normal == o.state.coords.normal
                    &&& r == (f.state.coords.insert.x, f.state.coords.insert.y)
                },
            }
        }),
{
    match app.input_mode {
        InputMode::Normal => {
            let coords = &mut app.state.coords.normal;
            coords.set_max((output.width + 1, output.height + 1)).set_min(
                (output.x + 1, output.y + 1),
            );
            let here = coords.get();
            let start = CursorCoords::default().get();
            if here.0 == start.0 && here.1 == start.1 {
                coords.set(output.x + 1, output.y);
            }
            (coords.x, coords.y)
        },
        InputMode::Insert => {
            let coords = &mut app.state.coords.insert;
            let w = input_width as u16;
            let lines = w / input.width;
            let c = coords.set_max((input.width, input.height)).set_min((output.x, output.y)).set(
                input.x + ((w + lines) % input.width) + 1,
                input.y + lines + 1,
            );
            (c.x, c.y)
        },
    }
}

/// The areas admit placing the cursor of `mode` whatever the input: in
/// normal mode the output area's bounds plus one fit in a `u16`, in insert
/// mode the input box has a width to wrap at.
pub open spec fn cursor_areas_defined(mode: InputMode, output: Area, input: Area) -> bool {
    match mode {
        InputMode::Normal => output.width < u16::MAX && output.height < u16::MAX && output.x
            < u16::MAX && output.y < u16::MAX,
        InputMode::Insert => input.width > 0,
    }
}

/// Places the cursor for the app's current input, measured by its display
/// width (see `place_cursor`), and returns where the terminal cursor goes.
/// In insert mode the position can overflow a `u16` for a wide input: then
/// the result is `None` and the app is unchanged.
pub fn ui_cursor(app: &mut App, output: Area, input: Area) -> (r: Option<(u16, u16)>)
    requires
        cursor_areas_defined(old(app).input_mode, output, input),
    ensures
        ({
            let o = *old(app);
            let f = *final(app);
            let w = display_width(o.input@);
            if cursor_defined(o.input_mode, output, input, w) {
                &&& f.prompt == o.prompt
                &&& f.input == o.input
                &&& f.input_mode == o.input_mode
                &&& f.state.history == o.state.history
                &&& match o.input_mode {
                    InputMode::Normal => {
                        &&& f.state.coords.normal == placed_cursor(
                            InputMode::Normal,
                            o.state.coords.normal,
                            output,
                            input,
                            w,
                        )
                        &&& f.state.coords.insert == o.state.coords.insert
                        &&& r == Some((f.state.coords.normal.x, f.state.coords.normal.y))
                    },
                    InputMode::Insert => {
                        &&& f.state.coords.insert == placed_cursor(
                            InputMode::Insert,
                            o.state.coords.insert,
                            output,
                            input,
                            w,
                        )
                        &&& f.state.coords.normal == o.state.coords.normal
                        &&& r == Some((f.state.coords.insert.x, f.state.coords.insert.y))
                    },
                }
            } else {
                r is None && f == o
            }
        }),
{
    let width = text_width(app.input.as_str());
    let defined = match app.input_mode {
        InputMode::Normal => true,
        InputMode::Insert => {
            let w = width as u16;
            let lines = w / input.width;
            if w as u32 + lines as u32 > 0xffff {
                false
            } else {
                let m = (w + lines) % input.width;
                input.x as u32 + m as u32 + 1 <= 0xffff && input.y as u32 + lines as u32 + 1
                    <= 0xffff
            }
        },
    };
    if defined {
        Some(place_cursor(app, output, input, width))
    } else {
        None
    }
}

/// `s` cut into pieces of `n` characters, the last one shorter
/// (`<[T]>::chunks`).
pub open spec fn chunks(s: Seq<char>, n: nat) -> Seq<Seq<char>>
    decreases s.len(),
{
    if s.len() == 0 || n == 0 {
        Seq::empty()
    } else if s.len() <= n {
        seq![s]
    } else {
        seq![s.take(n as int)] + chunks(s.skip(n as int), n)
    }
}

/// Cutting into pieces of `n` loses and adds nothing: the pieces run
/// together give the text back, each holds between 1 and `n` characters,
/// and only the last may hold fewer than `n`.
pub proof fn lemma_chunks_cover(s: Seq<char>, n: nat)
    requires
        n > 0,
    ensures
        chunks(s, n).flatten() == s,
        forall|i: int| 0 <= i < chunks(s, n).len() ==> 0 < (#[trigger] chunks(s, n)[i]).len() <= n,
        forall|i: int| 0 <= i < chunks(s, n).len() - 1 ==> (#[trigger] chunks(s, n)[i]).len() == n,
    decreases s.len(),
{
    let c = chunks(s, n);
    if s.len() == 0 {
        assert(c =~= Seq::<Seq<char>>::empty());
    } else if s.len() <= n {
        assert(c == seq![s]);
        assert(c.drop_first() =~= Seq::<Seq<char>>::empty());
        assert(c.drop_first().flatten() =~= Seq::<char>::empty());
        assert(c.flatten() =~= c.first() + c.drop_first().flatten());
        assert(c.flatten() =~= s);
    } else {
        let rest = chunks(s.skip(n as int), n);
        lemma_chunks_cover(s.skip(n as int), n);
        assert(c.drop_first() =~= rest);
        assert(c.first() == s.take(n as int));
        assert(c.flatten() =~= s.take(n as int) + rest.flatten());
        assert(s.take(n as int) + s.skip(n as int) =~= s);
        assert forall|i: int| 0 <= i < c.len() implies 0 < (#[trigger] c[i]).len() <= n by {
            if i > 0 {
                assert(c[i] == rest[i - 1]);
            }
        }
        assert forall|i: int| 0 <= i < c.len() - 1 implies (#[trigger] c[i]).len() == n by {
            if i > 0 {
                assert(c[i] == rest[i - 1]);
            }
        }
    }
}

/// A character that is not in the text is in none of its pieces.
proof fn lemma_chunks_without(s: Seq<char>, n: nat, x: char)
    requires
        n > 0,
        !s.contains(x),
    ensures
        forall|i: int| 0 <= i < chunks(s, n).len() ==> !(#[trigger] chunks(s, n)[i]).contains(x),
    decreases s.len(),
{
    let c = chunks(s, n);
    if s.len() > 0 && s.len() > n {
        let t = s.skip(n as int);
        assert(!t.contains(x)) by {
            if t.contains(x) {
                let k = choose|k: int| 0 <= k < t.len() && t[k] == x;
                assert(s[k + n] == x);
            }
        }
        lemma_chunks_without(t, n, x);
        let h = s.take(n as int);
        assert(!h.contains(x)) by {
            if h.contains(x) {
                let k = choose|k: int| 0 <= k < h.len() && h[k] == x;
                assert(s[k] == x);
            }
        }
        assert forall|i: int| 0 <= i < c.len() implies !(#[trigger] c[i]).contains(x) by {
            if i > 0 {
                assert(c[i] == chunks(t, n)[i - 1]);
            }
        }
    }
}

/// The characters of `v` cut into pieces of `n` (see `chunks`).
pub fn chunk_chars(v: &Vec<char>, n: usize) -> (r: Vec<Vec<char>>)
    requires
        n > 0,
    ensures
        r@.map_values(|p: Vec<char>| p@) == chunks(v@, n as nat),
{
    let mut r: Vec<Vec<char>> = Vec::new();
    let mut i: usize = 0;
    assert(v@.skip(0) =~= v@);
    while i < v.len()
        invariant
            n > 0,
            i <= v@.len(),
            chunks(v@, n as nat) == r@.map_values(|p: Vec<char>| p@) + chunks(
                v@.skip(i as int),
                n as nat,
            ),
        decreases v@.len() - i,
    {
        let rest = v.len() - i;
        let end = if rest <= n {
            v.len()
        } else {
            i + n
        };
        let mut piece: Vec<char> = Vec::new();
        let mut k: usize = i;
        while k < end
            invariant
                i <= k <= end <= v@.len(),
                piece@ == v@.subrange(i as int, k as int),
            decreases end - k,
        {
            piece.push(v[k]);
            k = k + 1;
        }
        proof {
            let t = v@.skip(i as int);
            if rest <= n {
                assert(piece@ =~= t);
                assert(v@.skip(end as int) =~= Seq::<char>::empty());
            } else {
                assert(piece@ =~= t.take(n as int));
                assert(t.skip(n as int) =~= v@.skip(end as int));
            }
        }
        let ghost before = r@.map_values(|p: Vec<char>| p@);
        r.push(piece);
        proof {
            assert(r@.map_values(|p: Vec<char>| p@) =~= before.push(v@.subrange(i as int, end as int)));
            if rest <= n {
                assert(chunks(v@.skip(i as int), n as nat) == seq![v@.subrange(i as int, end as int)]);
                assert(chunks(v@.skip(end as int), n as nat) == Seq::<Seq<char>>::empty());
            }
        }
        i = end;
        proof {
            assert(chunks(v@, n as nat) =~= r@.map_values(|p: Vec<char>| p@) + chunks(
                v@.skip(i as int),
                n as nat,
            ));
        }
    }
    proof {
        assert(v@.skip(i as int) =~= Seq::<char>::empty());
        assert(r@.map_values(|p: Vec<char>| p@) + Seq::<Seq<char>>::empty() =~= r@.map_values(
            |p: Vec<char>| p@,
        ));
    }
    r
}


/// How a line of the output history is coloured.
#[derive(Copy, Clone, PartialEq, Eq, Structural, Debug)]
pub enum LineStyle {
    /// No colour.
    Plain,
    /// The time of an entry (yellow).
    Time,
    /// The entered line (blue).
    Command,
    /// Successful output (light cyan).
    Output,
    /// An error (red).
    Error,
}

/// A line of text with its colour.
#[derive(Debug, Clone, PartialEq, Eq)]
pub struct StyledLine {
    pub text: String,
    pub style: LineStyle,
}

/// The value of a list of lines.
pub open spec fn line_views(ls: Seq<StyledLine>) -> Seq<(Seq<char>, LineStyle)> {
    ls.map_values(|l: StyledLine| (l.text@, l.style))
}

/// Texts, each with the same colour.
pub open spec fn styled(texts: Seq<Seq<char>>, style: LineStyle) -> Seq<(Seq<char>, LineStyle)> {
    texts.map_values(|t: Seq<char>| (t, style))
}

/// The lines of one history entry at position `index`, for an output area
/// `width` columns wide: a blank line before every entry but the first, the
/// time, the prompt and entered line cut every `prompt bytes + width + 5`
/// characters, then the output (or error) cut every `width + 10` characters
/// and each piece split into its lines (see `lines_of`).
pub open spec fn history_item_lines(
    index: usize,
    time: Seq<char>,
    prompt: Seq<char>,
    command: Seq<char>,
    output: Result<Seq<char>, Seq<char>>,
    width: u16,
) -> Seq<(Seq<char>, LineStyle)> {
    let head = if index != 0 {
        seq![(Seq::<char>::empty(), LineStyle::Plain), (time, LineStyle::Time)]
    } else {
        seq![(time, LineStyle::Time)]
    };
    let cmd = styled(
        chunks(prompt + seq![' '] + command, (encode_utf8(prompt).len() + width + 5) as nat),
        LineStyle::Command,
    );
    let text = match output {
        Ok(o) => o,
        Err(e) => e,
    };
    let style = match output {
        Ok(_) => LineStyle::Output,
        Err(_) => LineStyle::Error,
    };
    let outs = styled(
        chunks(text, (width + 10) as nat).map_values(|c: Seq<char>| lines_of(c)).flatten(),
        style,
    );
    head + cmd + outs
}

/// A text without a line feed is a single line, where it is not empty.
proof fn lemma_lines_of_one_line(c: Seq<char>)
    requires
        c.len() > 0,
        !c.contains('\n'),
    ensures
        lines_of(c) == seq![c],
{
    lemma_split_on_without_separator(c, '\n');
    let ps = split_on(c, '\n');
    assert(ps.take(0).map_values(|p: Seq<char>| crate::text::strip_cr(p)) =~= Seq::<
        Seq<char>,
    >::empty());
    assert(lines_of(c) =~= seq![c]);
}

/// Pieces each given as a list of itself run together to the pieces.
proof fn lemma_flatten_singletons(xs: Seq<Seq<char>>)
    ensures
        xs.map_values(|c: Seq<char>| seq![c]).flatten() == xs,
    decreases xs.len(),
{
    let m = xs.map_values(|c: Seq<char>| seq![c]);
    if xs.len() == 0 {
        assert(m =~= Seq::<Seq<Seq<char>>>::empty());
    } else {
        lemma_flatten_singletons(xs.drop_first());
        assert(m.drop_first() =~= xs.drop_first().map_values(|c: Seq<char>| seq![c]));
        assert(m.flatten() =~= seq![xs[0]] + xs.drop_first());
        assert(seq![xs[0]] + xs.drop_first() =~= xs);
    }
}

/// The output of an entry that has no line feed is shown cut every
/// `width + 10` characters, and nothing else: the entry's lines are those
/// of the same entry with an empty output, then those pieces in the output
/// colour. The pieces run together give the whole output, each holds at
/// most `width + 10` characters, and all but the last hold exactly that
/// many.
pub proof fn lemma_history_output_wraps_at_width(
    index: usize,
    time: Seq<char>,
    prompt: Seq<char>,
    command: Seq<char>,
    output: Result<Seq<char>, Seq<char>>,
    width: u16,
)
    requires
        !(match output {
            Ok(o) => o,
            Err(e) => e,
        }).contains('\n'),
    ensures
        ({
            let text = match output {
                Ok(o) => o,
                Err(e) => e,
            };
            let (empty, style) = match output {
                Ok(_) => (Ok::<Seq<char>, Seq<char>>(Seq::empty()), LineStyle::Output),
                Err(_) => (Err::<Seq<char>, Seq<char>>(Seq::empty()), LineStyle::Error),
            };
            let pieces = chunks(text, (width + 10) as nat);
            &&& history_item_lines(index, time, prompt, command, output, width) == history_item_lines(
                index,
                time,
                prompt,
                command,
                empty,
                width,
            ) + styled(pieces, style)
            &&& pieces.flatten() == text
            &&& forall|i: int| 0 <= i < pieces.len() ==> (#[trigger] pieces[i]).len() <= width + 10
            &&& forall|i: int|
                0 <= i < pieces.len() - 1 ==> (#[trigger] pieces[i]).len() == width + 10
        }),
{
    let text = match output {
        Ok(o) => o,
        Err(e) => e,
    };
    let n = (width + 10) as nat;
    let pieces = chunks(text, n);
    lemma_chunks_cover(text, n);
    lemma_chunks_without(text, n, '\n');
    let ls = pieces.map_values(|c: Seq<char>| lines_of(c));
    assert forall|i: int| 0 <= i < pieces.len() implies #[trigger] ls[i] == seq![pieces[i]] by {
        lemma_lines_of_one_line(pieces[i]);
    }
    assert(ls =~= pieces.map_values(|c: Seq<char>| seq![c]));
    lemma_flatten_singletons(pieces);
    assert(chunks(Seq::<char>::empty(), n) =~= Seq::<Seq<char>>::empty());
    let e = chunks(Seq::<char>::empty(), n).map_values(|c: Seq<char>| lines_of(c)).flatten();
    assert(chunks(Seq::<char>::empty(), n).map_values(|c: Seq<char>| lines_of(c)) =~= Seq::<
        Seq<Seq<char>>,
    >::empty());
    assert(e =~= Seq::<Seq<char>>::empty());
    assert(styled(Seq::<Seq<char>>::empty(), LineStyle::Output) =~= Seq::<(Seq<char>, LineStyle)>::empty());
    assert(styled(Seq::<Seq<char>>::empty(), LineStyle::Error) =~= Seq::<(Seq<char>, LineStyle)>::empty());
    let head = if index != 0 {
        seq![(Seq::<char>::empty(), LineStyle::Plain), (time, LineStyle::Time)]
    } else {
        seq![(time, LineStyle::Time)]
    };
    let cmd = styled(
        chunks(prompt + seq![' '] + command, (encode_utf8(prompt).len() + width + 5) as nat),
        LineStyle::Command,
    );
    assert(head + cmd + Seq::<(Seq<char>, LineStyle)>::empty() =~= head + cmd);
}

/// An output that has no line feed and fits in `width + 10` characters is
/// shown as one line: the whole output.
pub proof fn lemma_short_output_is_one_line(
    index: usize,
    time: Seq<char>,
    prompt: Seq<char>,
    command: Seq<char>,
    output: Result<Seq<char>, Seq<char>>,
    width: u16,
)
    requires
        ({
            let text = match output {
                Ok(o) => o,
                Err(e) => e,
            };
            &&& !text.contains('\n')
            &&& 0 < text.len() <= width + 10
        }),
    ensures
        ({
            let (text, empty, style) = match output {
                Ok(o) => (o, Ok::<Seq<char>, Seq<char>>(Seq::empty()), LineStyle::Output),
                Err(e) => (e, Err::<Seq<char>, Seq<char>>(Seq::empty()), LineStyle::Error),
            };
            history_item_lines(index, time, prompt, command, output, width) == history_item_lines(
                index,
                time,
                prompt,
                command,
                empty,
                width,
            ).push((text, style))
        }),
{
    lemma_history_output_wraps_at_width(index, time, prompt, command, output, width);
    let text = match output {
        Ok(o) => o,
        Err(e) => e,
    };
    let n = (width + 10) as nat;
    assert(chunks(text, n) == seq![text]);
    let style = match output {
        Ok(_) => LineStyle::Output,
        Err(_) => LineStyle::Error,
    };
    assert(styled(seq![text], style) =~= seq![(text, style)]);
}

/// Appends each text of `texts` with `style`.
fn push_lines(out: &mut Vec<StyledLine>, texts: &Vec<Vec<char>>, style: LineStyle)
    ensures
        line_views(final(out)@) == line_views(old(out)@) + styled(
            texts@.map_values(|p: Vec<char>| p@),
            style,
        ),
{
    let mut k: usize = 0;
    while k < texts.len()
        invariant
            k <= texts@.len(),
            line_views(out@) == line_views(old(out)@) + styled(
                texts@.take(k as int).map_values(|p: Vec<char>| p@),
                style,
            ),
        decreases texts@.len() - k,
    {
        let ghost before = out@;
        out.push(StyledLine { text: string_from_chars(&texts[k]), style });
        proof {
            assert(texts@.take(k + 1).map_values(|p: Vec<char>| p@) =~= texts@.take(
                k as int,
            ).map_values(|p: Vec<char>| p@).push(texts@[k as int]@));
            assert(line_views(out@) =~= line_views(before).push((texts@[k as int]@, style)));
            assert(line_views(out@) =~= line_views(old(out)@) + styled(
                texts@.take(k + 1).map_values(|p: Vec<char>| p@),
                style,
            ));
        }
        k = k + 1;
    }
    assert(texts@.take(texts@.len() as int) =~= texts@);
}

/// The output history.
pub struct History;

impl History {
    /// The lines of one history entry (see `history_item_lines`).
    pub fn item_lines(index: usize, item: &Output, prompt: &str, width: u16) -> (r: Vec<
        StyledLine,
    >)
        requires
            encode_utf8(prompt@).len() + width + 5 <= usize::MAX,
        ensures
            line_views(r@) == history_item_lines(
                index,
                item.time@,
                prompt@,
                item.command@,
                match item.output {
                    Ok(o) => Ok(o@),
                    Err(e) => Err(e@),
                },
                width,
            ),
    {
        let mut out: Vec<StyledLine> = Vec::new();
        if index != 0 {
            out.push(StyledLine { text: String::new(), style: LineStyle::Plain });
        }
        out.push(StyledLine { text: item.time.clone(), style: LineStyle::Time });
        let ghost head = line_views(out@);
        proof {
            if index != 0 {
                assert(head =~= seq![(Seq::<char>::empty(), LineStyle::Plain), (item.time@, LineStyle::Time)]);
            } else {
                assert(head =~= seq![(item.time@, LineStyle::Time)]);
            }
        }
        let mut line = chars_of(prompt);
        line.push(' ');
        append_str(&mut line, item.command.as_str());
        let n = prompt.len() + (width as usize) + 5;
        let pieces = chunk_chars(&line, n);
        push_lines(&mut out, &pieces, LineStyle::Command);
        let ghost mid = line_views(out@);
        proof {
            assert(line@ =~= prompt@ + seq![' '] + item.command@);
            assert(n == encode_utf8(prompt@).len() + width + 5);
            assert(mid =~= head + styled(
                chunks(prompt@ + seq![' '] + item.command@, n as nat),
                LineStyle::Command,
            ));
        }
        let (text, style) = match &item.output {
            Ok(o) => (o, LineStyle::Output),
            Err(e) => (e, LineStyle::Error),
        };
        let tv = chars_of(text.as_str());
        proof {
            match &item.output {
                Ok(o) => {
                    assert(tv@ == o@ && style == LineStyle::Output);
                },
                Err(e) => {
                    assert(tv@ == e@ && style == LineStyle::Error);
                },
            }
        }
        let parts = chunk_chars(&tv, (width as usize) + 10);
        let ghost mapped = parts@.map_values(|p: Vec<char>| p@).map_values(
            |c: Seq<char>| lines_of(c),
        );
        let mut k: usize = 0;
        while k < parts.len()
            invariant
                k <= parts@.len(),
                mapped == parts@.map_values(|p: Vec<char>| p@).map_values(
                    |c: Seq<char>| lines_of(c),
                ),
                line_views(out@) == mid + styled(mapped.take(k as int).flatten(), style),
            decreases parts@.len() - k,
        {
            let lines = lines_chars(&parts[k]);
            let ghost before = line_views(out@);
            push_lines(&mut out, &lines, style);
            proof {
                assert(mapped.take(k + 1) =~= mapped.take(k as int).push(mapped[k as int]));
                mapped.take(k as int).lemma_flatten_push(mapped[k as int]);
                assert(styled(mapped.take(k + 1).flatten(), style) =~= styled(
                    mapped.take(k as int).flatten(),
                    style,
                ) + styled(mapped[k as int], style));
                assert(line_views(out@) =~= mid + styled(mapped.take(k + 1).flatten(), style));
            }
            k = k + 1;
        }
        proof {
            assert(mapped.take(parts@.len() as int) =~= mapped);
            assert(line_views(out@) =~= history_item_lines(
                index,
                item.time@,
                prompt@,
                item.command@,
                match item.output {
                    Ok(o) => Ok(o@),
                    Err(e) => Err(e@),
                },
                width,
            ));
        }
        out
    }
}

impl History {
    /// Whether the output box is drawn highlighted (yellow): in normal
    /// mode, where the keys move through the history.
    pub fn highlighted(mode: InputMode) -> (r: bool)
        ensures
            r == (mode == InputMode::Normal),
    {
        match mode {
            InputMode::Normal => true,
            InputMode::Insert => false,
        }
    }

    /// The lines of every history entry of the app, in order, for an output
    /// area `width` columns wide (see `history_item_lines`).
    pub fn widget_lines(app: &App, width: u16) -> (r: Vec<Vec<StyledLine>>)
        requires
            encode_utf8(app.prompt@).len() + width + 5 <= usize::MAX,
        ensures
            r@.len() == app.state.history.items@.len(),
            forall|i: int|
                0 <= i < r@.len() ==> line_views(#[trigger] r@[i]@) == history_item_lines(
                    i as usize,
                    app.state.history.items@[i].time@,
                    app.prompt@,
                    app.state.history.items@[i].command@,
                    match app.state.history.items@[i].output {
                        Ok(o) => Ok(o@),
                        Err(e) => Err(e@),
                    },
                    width,
                ),
    {
        let items = &app.state.history.items;
        let mut r: Vec<Vec<StyledLine>> = Vec::new();
        let mut k: usize = 0;
        while k < items.len()
            invariant
                k <= items@.len(),
                items == &app.state.history.items,
                encode_utf8(app.prompt@).len() + width + 5 <= usize::MAX,
                r@.len() == k,
                forall|i: int|
                    0 <= i < k ==> line_views(#[trigger] r@[i]@) == history_item_lines(
                        i as usize,
                        items@[i].time@,
                        app.prompt@,
                        items@[i].command@,
                        match items@[i].output {
                            Ok(o) => Ok(o@),
                            Err(e) => Err(e@),
                        },
                        width,
                    ),
            decreases items@.len() - k,
        {
            let lines = History::item_lines(k, &items[k], app.prompt.as_str(), width);
            r.push(lines);
            k = k + 1;
        }
        r
    }
}

/// The input box.
pub struct Input;

impl Input {
    /// Whether the input box is drawn highlighted (yellow): in insert mode,
    /// where keys are typed into it.
    pub fn highlighted(mode: InputMode) -> (r: bool)
        ensures
            r == (mode == InputMode::Insert),
    {
        match mode {
            InputMode::Normal => false,
            InputMode::Insert => true,
        }
    }

    /// The rows of the input box `width` columns wide: the input cut every
    /// `width - 3` characters.
    pub fn lines(input: &str, width: u16) -> (r: Vec<String>)
        requires
            width > 3,
        ensures
            r.deep_view() == chunks(input@, (width - 3) as nat),
    {
        let v = chars_of(input);
        let parts = chunk_chars(&v, (width - 3) as usize);
        let mut r: Vec<String> = Vec::new();
        let mut k: usize = 0;
        while k < parts.len()
            invariant
                k <= parts@.len(),
                r.deep_view() == parts@.take(k as int).map_values(|p: Vec<char>| p@),
            decreases parts@.len() - k,
        {
            let ghost before = r.deep_view();
            r.push(string_from_chars(&parts[k]));
            proof {
                assert(r.deep_view() =~= before.push(parts@[k as int]@));
                assert(parts@.take(k + 1).map_values(|p: Vec<char>| p@) =~= parts@.take(
                    k as int,
                ).map_values(|p: Vec<char>| p@).push(parts@[k as int]@));
            }
            k = k + 1;
        }
        assert(parts@.take(parts@.len() as int) =~= parts@);
        r
    }
}

/// The help line.
pub struct HelpMessage;

/// The pieces of the help line for a mode, each with whether it is bold.
pub open spec fn help_spans(mode: InputMode) -> Seq<(Seq<char>, bool)> {
    match mode {
        InputMode::Normal => seq![
            ("Press "@, false),
            ("q"@, true),
            (" to exit, "@, false),
            ("i | Tab"@, true),
            (" to inserting commands and queries, "@, false),
            ("c"@, true),
            (" to clear history."@, false),
        ],
        InputMode::Insert => seq![
            ("Press "@, false),
            ("Esc | Tab"@, true),
            (" to reading output, "@, false),
            ("Enter"@, true),
            (" to execute command or query"@, false),
        ],
    }
}

/// One piece of the help line.
fn span(text: &str, bold: bool) -> (r: (String, bool))
    ensures
        r.0@ == text@,
        r.1 == bold,
{
    (text.to_owned(), bold)
}

impl HelpMessage {
    /// The pieces of the help line (see `help_spans`), and whether the line
    /// blinks: it does in normal mode.
    pub fn spans(mode: InputMode) -> (r: (Vec<(String, bool)>, bool))
        ensures
            r.0@.map_values(|p: (String, bool)| (p.0@, p.1)) == help_spans(mode),
            r.1 == (mode == InputMode::Normal),
    {
        let mut v: Vec<(String, bool)> = Vec::new();
        match mode {
            InputMode::Normal => {
                v.push(span("Press ", false));
                v.push(span("q", true));
                v.push(span(" to exit, ", false));
                v.push(span("i | Tab", true));
                v.push(span(" to inserting commands and queries, ", false));
                v.push(span("c", true));
                v.push(span(" to clear history.", false));
            },
            InputMode::Insert => {
                v.push(span("Press ", false));
                v.push(span("Esc | Tab", true));
                v.push(span(" to reading output, ", false));
                v.push(span("Enter", true));
                v.push(span(" to execute command or query", false));
            },
        }
        assert(v@.map_values(|p: (String, bool)| (p.0@, p.1)) =~= help_spans(mode));
        (v, mode == InputMode::Normal)
    }
}

} // verus!
