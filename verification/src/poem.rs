//! The modal editor: one grid buffer, a cursor, and a Normal/Insert mode
//! pair of key grammars. Translating a key to an action is a pure function
//! of (mode, key); applying an action is the only thing that mutates state.
//!
//! Cursor movement clamps on all four sides of the grid, so the cursor
//! always addresses a valid cell and an insertion can never write out of
//! range.

use crate::grid::{Area, Cell, Color, GridBuffer, Symbol};
use vstd::prelude::*;

verus! {

/// A key event as the editor sees it: a printable character, the escape
/// key, or any other key (arrows, function keys, ...), which no grammar
/// consumes.
#[derive(Clone, Copy, Debug, PartialEq, Eq, Structural)]
pub enum KeyEvent {
    Char(char),
    Esc,
    Other,
}

/// The outcome of handing a key to the editor: consumed, or handed back so
/// that a caller wrapping several handlers can chain them.
#[derive(Clone, Copy, Debug, PartialEq, Eq, Structural)]
pub enum InputResult {
    Done,
    Ignored(KeyEvent),
}

/// The active input grammar.
#[derive(Clone, Copy, Debug, PartialEq, Eq, Structural)]
pub enum Mode {
    Normal,
    Insert,
}

/// A cursor movement direction.
#[derive(Clone, Copy, Debug, PartialEq, Eq, Structural)]
pub enum Direction {
    Left,
    Down,
    Up,
    Right,
}

/// The abstract effect derived from (mode, key) before it is applied:
/// produced fresh per key event, never stored.
#[derive(Clone, Copy, Debug, PartialEq, Eq, Structural)]
pub enum Action {
    Move(Direction),
    SwitchMode(Mode),
    PutChar(char),
    Ignore,
}

/// The action the Normal grammar assigns to a key: h/j/k/l move, i enters
/// Insert mode, everything else is ignored.
pub open spec fn spec_normal(key: KeyEvent) -> Action {
    match key {
        KeyEvent::Char(c) => if c == 'h' {
            Action::Move(Direction::Left)
        } else if c == 'j' {
            Action::Move(Direction::Down)
        } else if c == 'k' {
            Action::Move(Direction::Up)
        } else if c == 'l' {
            Action::Move(Direction::Right)
        } else if c == 'i' {
            Action::SwitchMode(Mode::Insert)
        } else {
            Action::Ignore
        },
        _ => Action::Ignore,
    }
}

/// The action the Insert grammar assigns to a key: Esc returns to Normal
/// mode, a printable character overwrites the cursor cell, everything else
/// is ignored.
pub open spec fn spec_insert(key: KeyEvent) -> Action {
    match key {
        KeyEvent::Esc => Action::SwitchMode(Mode::Normal),
        KeyEvent::Char(c) => Action::PutChar(c),
        KeyEvent::Other => Action::Ignore,
    }
}

/// The key grammar as a pure function of (mode, key). Total: unmatched keys
/// map to `Ignore`.
pub open spec fn spec_translate(mode: Mode, key: KeyEvent) -> Action {
    match mode {
        Mode::Normal => spec_normal(key),
        Mode::Insert => spec_insert(key),
    }
}

impl Mode {
    /// The executable key grammar; equal to `spec_translate` on every input.
    pub fn translate_event_to_action(&self, key: KeyEvent) -> (action: Action)
        ensures
            action == spec_translate(*self, key),
    {
        match self {
            Mode::Normal => Self::normal(key),
            Mode::Insert => Self::insert(key),
        }
    }

    fn normal(key: KeyEvent) -> (action: Action)
        ensures
            action == spec_normal(key),
    {
        if let KeyEvent::Char(c) = key {
            if c == 'h' {
                Action::Move(Direction::Left)
            } else if c == 'j' {
                Action::Move(Direction::Down)
            } else if c == 'k' {
                Action::Move(Direction::Up)
            } else if c == 'l' {
                Action::Move(Direction::Right)
            } else if c == 'i' {
                Action::SwitchMode(Mode::Insert)
            } else {
                Action::Ignore
            }
        } else {
            Action::Ignore
        }
    }

    fn insert(key: KeyEvent) -> (action: Action)
        ensures
            action == spec_insert(key),
    {
        match key {
            KeyEvent::Esc => Action::SwitchMode(Mode::Normal),
            KeyEvent::Char(c) => Action::PutChar(c),
            KeyEvent::Other => Action::Ignore,
        }
    }
}

/// The editor's abstract state: the grid contents in row-major order, the
/// grid dimensions, the active mode and the cursor position.
#[verifier::ext_equal]
pub struct EditorState {
    pub cells: Seq<Cell>,
    pub width: u16,
    pub height: u16,
    pub mode: Mode,
    pub cursor_x: u16,
    pub cursor_y: u16,
}

impl EditorState {
    /// Well-formedness: the cells cover the grid exactly, the grid is not
    /// empty, and the cursor addresses a cell.
    pub open spec fn wf(self) -> bool {
        &&& self.cells.len() == self.width * self.height
        &&& self.width >= 1
        &&& self.height >= 1
        &&& self.cursor_x < self.width
        &&& self.cursor_y < self.height
    }

    pub open spec fn cell_at(self, x: int, y: int) -> Cell {
        self.cells[y * self.width + x]
    }

    pub open spec fn cursor_cell(self) -> Cell {
        self.cell_at(self.cursor_x as int, self.cursor_y as int)
    }
}

/// The cursor after one movement: decrements saturate at zero, increments
/// clamp at the far edge of the grid, and the other axis never moves.
pub open spec fn moved_cursor(s: EditorState, d: Direction) -> EditorState {
    match d {
        Direction::Left => EditorState {
            cursor_x: if s.cursor_x > 0 {
                (s.cursor_x - 1) as u16
            } else {
                0
            },
            ..s
        },
        Direction::Down => EditorState {
            cursor_y: if s.cursor_y + 1 < s.height {
                (s.cursor_y + 1) as u16
            } else {
                s.cursor_y
            },
            ..s
        },
        Direction::Up => EditorState {
            cursor_y: if s.cursor_y > 0 {
                (s.cursor_y - 1) as u16
            } else {
                0
            },
            ..s
        },
        Direction::Right => EditorState {
            cursor_x: if s.cursor_x + 1 < s.width {
                (s.cursor_x + 1) as u16
            } else {
                s.cursor_x
            },
            ..s
        },
    }
}

/// The state after overwriting the cursor cell's symbol with `c`: the
/// cell's colors and everything else are kept, and the cursor stays put.
pub open spec fn put_char_state(s: EditorState, c: char) -> EditorState {
    let i = s.cursor_y * s.width + s.cursor_x;
    EditorState {
        cells: s.cells.update(
            i,
            Cell { symbol: Symbol::One(c), fg: s.cells[i].fg, bg: s.cells[i].bg },
        ),
        ..s
    }
}

/// The state after one action is applied.
pub open spec fn apply_action(s: EditorState, a: Action) -> EditorState {
    match a {
        Action::Move(d) => moved_cursor(s, d),
        Action::SwitchMode(m) => EditorState { mode: m, ..s },
        Action::PutChar(c) => put_char_state(s, c),
        Action::Ignore => s,
    }
}

/// One step of the modal state machine: the state after one key event.
pub open spec fn step(s: EditorState, key: KeyEvent) -> EditorState {
    apply_action(s, spec_translate(s.mode, key))
}

/// The dispatch result a key event earns: handed back untouched when the
/// active grammar ignores it, consumed otherwise.
pub open spec fn handle_result(mode: Mode, key: KeyEvent) -> InputResult {
    if spec_translate(mode, key) is Ignore {
        InputResult::Ignored(key)
    } else {
        InputResult::Done
    }
}

/// Every step of the state machine preserves well-formedness: dimensions
/// and cell count never change and the cursor stays inside the grid.
pub proof fn lemma_step_preserves_wf(s: EditorState, key: KeyEvent)
    requires
        s.wf(),
    ensures
        step(s, key).wf(),
        step(s, key).width == s.width,
        step(s, key).height == s.height,
{
    assert(0 <= s.cursor_y * s.width + s.cursor_x < s.cells.len()) by (nonlinear_arith)
        requires
            0 <= s.cursor_x < s.width,
            0 <= s.cursor_y < s.height,
            s.cells.len() == s.width * s.height,
    ;
}

/// A key that neither grammar consumes causes no mutation at all.
pub proof fn lemma_unconsumed_key_is_noop(s: EditorState, key: KeyEvent)
    requires
        spec_translate(s.mode, key) is Ignore,
    ensures
        step(s, key) == s,
        handle_result(s.mode, key) == InputResult::Ignored(key),
{
}

/// Decrements saturate: `h` with the cursor already in column zero leaves
/// the whole state unchanged, and likewise `k` in row zero.
pub proof fn lemma_move_saturates_at_origin(s: EditorState)
    requires
        s.mode == Mode::Normal,
    ensures
        s.cursor_x == 0 ==> step(s, KeyEvent::Char('h')) == s,
        s.cursor_y == 0 ==> step(s, KeyEvent::Char('k')) == s,
{
    assert(s.cursor_x == 0 ==> step(s, KeyEvent::Char('h')) =~= s);
    assert(s.cursor_y == 0 ==> step(s, KeyEvent::Char('k')) =~= s);
}

/// Entering Insert mode with `i` touches nothing but the mode; a printable
/// character then overwrites exactly the cursor cell's symbol, keeping its
/// colors, the cursor and the mode; `Esc` then returns to Normal mode with
/// the buffer intact.
pub proof fn lemma_insert_edit_escape(s: EditorState, c: char)
    requires
        s.wf(),
        s.mode == Mode::Normal,
    ensures
        ({
            let s1 = step(s, KeyEvent::Char('i'));
            let s2 = step(s1, KeyEvent::Char(c));
            let s3 = step(s2, KeyEvent::Esc);
            &&& s1 == (EditorState { mode: Mode::Insert, ..s })
            &&& s2 == (EditorState { mode: Mode::Insert, ..put_char_state(s, c) })
            &&& s2.cursor_cell() == (Cell {
                symbol: Symbol::One(c),
                fg: s.cursor_cell().fg,
                bg: s.cursor_cell().bg,
            })
            &&& forall|x: int, y: int|
                0 <= x < s.width && 0 <= y < s.height && !(x == s.cursor_x && y == s.cursor_y)
                    ==> s2.cell_at(x, y) == s.cell_at(x, y)
            &&& s3 == (EditorState { mode: Mode::Normal, ..s2 })
        }),
{
    let s1 = step(s, KeyEvent::Char('i'));
    let s2 = step(s1, KeyEvent::Char(c));
    let s3 = step(s2, KeyEvent::Esc);
    assert(s2 =~= EditorState { mode: Mode::Insert, ..put_char_state(s, c) });
    let i = s.cursor_y * s.width + s.cursor_x;
    assert(0 <= i < s.cells.len()) by (nonlinear_arith)
        requires
            i == s.cursor_y * s.width + s.cursor_x,
            0 <= s.cursor_x < s.width,
            0 <= s.cursor_y < s.height,
            s.cells.len() == s.width * s.height,
    ;
    assert forall|x: int, y: int|
        0 <= x < s.width && 0 <= y < s.height && !(x == s.cursor_x && y == s.cursor_y)
            implies s2.cell_at(x, y) == s.cell_at(x, y) by {
        assert(y * s.width + x != i) by (nonlinear_arith)
            requires
                0 <= x < s.width,
                0 <= y < s.height,
                i == s.cursor_y * s.width + s.cursor_x,
                0 <= s.cursor_x < s.width,
                0 <= s.cursor_y < s.height,
                !(x == s.cursor_x && y == s.cursor_y),
        ;
        assert(0 <= y * s.width + x < s.cells.len()) by (nonlinear_arith)
            requires
                0 <= x < s.width,
                0 <= y < s.height,
                s.cells.len() == s.width * s.height,
        ;
    }
}

/// The foreground color of the cursor highlight in a mode.
pub open spec fn cursor_fg(mode: Mode) -> Color {
    match mode {
        Mode::Normal => Color::White,
        Mode::Insert => Color::Blue,
    }
}

/// The background color of the cursor highlight in a mode.
pub open spec fn cursor_bg(mode: Mode) -> Color {
    match mode {
        Mode::Normal => Color::Blue,
        Mode::Insert => Color::White,
    }
}

/// True when (px, py), a coordinate of a destination grid, receives a cell
/// when the editor's buffer is composited into `area` of that destination.
pub open spec fn copies(s: EditorState, area: Area, px: int, py: int) -> bool {
    &&& area.x <= px < area.x + vstd::math::min(area.width as int, s.width as int)
    &&& area.y <= py < area.y + vstd::math::min(area.height as int, s.height as int)
}

/// What one frame leaves at a destination coordinate whose prior cell is
/// `prev`: the cursor cell's symbol under the mode's highlight colors at
/// the cursor position, the editor's own cell inside the composited
/// region, and the prior cell untouched everywhere else.
pub open spec fn rendered_cell(s: EditorState, area: Area, prev: Cell, px: int, py: int) -> Cell {
    if px == area.x + s.cursor_x && py == area.y + s.cursor_y {
        Cell { symbol: s.cursor_cell().symbol, fg: cursor_fg(s.mode), bg: cursor_bg(s.mode) }
    } else if copies(s, area, px, py) {
        s.cell_at(px - area.x, py - area.y)
    } else {
        prev
    }
}

/// The modal editor: one grid buffer, a cursor, and the active mode.
pub struct Poem {
    buffer: GridBuffer,
    mode: Mode,
    cursor_x: u16,
    cursor_y: u16,
}

impl View for Poem {
    type V = EditorState;

    closed spec fn view(&self) -> EditorState {
        EditorState {
            cells: self.buffer.cells(),
            width: self.buffer.spec_width(),
            height: self.buffer.spec_height(),
            mode: self.mode,
            cursor_x: self.cursor_x,
            cursor_y: self.cursor_y,
        }
    }
}

impl Poem {
    /// The cell every position starts with: the character 'A' in the
    /// terminal's default colors.
    pub open spec fn initial_cell() -> Cell {
        Cell { symbol: Symbol::One('A'), fg: Color::Reset, bg: Color::Reset }
    }

    /// A fresh editor: a width x height grid filled with the initial cell,
    /// cursor at the origin, Normal mode.
    pub fn new(width: u16, height: u16) -> (result: Poem)
        requires
            width >= 1,
            height >= 1,
        ensures
            result@.wf(),
            result@.width == width,
            result@.height == height,
            result@.mode == Mode::Normal,
            result@.cursor_x == 0,
            result@.cursor_y == 0,
            forall|x: int, y: int|
                0 <= x < width && 0 <= y < height ==> result@.cell_at(x, y)
                    == Poem::initial_cell(),
    {
        let buffer = GridBuffer::new(width, height, Cell {
            symbol: Symbol::One('A'),
            fg: Color::Reset,
            bg: Color::Reset,
        });
        let result = Poem { buffer, mode: Mode::Normal, cursor_x: 0, cursor_y: 0 };
        proof {
            assert forall|x: int, y: int| 0 <= x < width && 0 <= y < height implies result@.cell_at(
                x,
                y,
            ) == Poem::initial_cell() by {
                assert(result.buffer.in_bounds(x, y));
                assert(result.buffer.cell_at(x, y) == Poem::initial_cell());
            }
        }
        result
    }

    pub fn width(&self) -> (result: u16)
        ensures
            result == self@.width,
    {
        self.buffer.width()
    }

    pub fn height(&self) -> (result: u16)
        ensures
            result == self@.height,
    {
        self.buffer.height()
    }

    pub fn mode(&self) -> (result: Mode)
        ensures
            result == self@.mode,
    {
        self.mode
    }

    pub fn cursor_x(&self) -> (result: u16)
        ensures
            result == self@.cursor_x,
    {
        self.cursor_x
    }

    pub fn cursor_y(&self) -> (result: u16)
        ensures
            result == self@.cursor_y,
    {
        self.cursor_y
    }

    /// Read the cell at (x, y) of the editor's own buffer.
    pub fn cell(&self, x: u16, y: u16) -> (result: Cell)
        requires
            self@.wf(),
            x < self@.width,
            y < self@.height,
        ensures
            result == self@.cell_at(x as int, y as int),
    {
        self.buffer.get(x, y)
    }

    /// Feed one key event to the editor: translate it under the active
    /// grammar, apply the resulting action, and say whether the key was
    /// consumed.
    pub fn handle(&mut self, key: KeyEvent) -> (result: InputResult)
        requires
            old(self)@.wf(),
        ensures
            final(self)@.wf(),
            final(self)@ == step(old(self)@, key),
            result == handle_result(old(self)@.mode, key),
    {
        proof {
            lemma_step_preserves_wf(self@, key);
        }
        let action = self.mode.translate_event_to_action(key);
        match action {
            Action::Move(direction) => {
                self.move_cursor(direction);
                InputResult::Done
            },
            Action::SwitchMode(mode) => {
                self.switch_mode(mode);
                InputResult::Done
            },
            Action::Ignore => InputResult::Ignored(key),
            Action::PutChar(c) => {
                self.put_char(c);
                InputResult::Done
            },
        }
    }

    fn move_cursor(&mut self, direction: Direction)
        requires
            old(self)@.wf(),
        ensures
            final(self)@ == moved_cursor(old(self)@, direction),
    {
        match direction {
            Direction::Left => {
                if self.cursor_x > 0 {
                    self.cursor_x = self.cursor_x - 1;
                }
            },
            Direction::Down => {
                if self.cursor_y + 1 < self.buffer.height() {
                    self.cursor_y = self.cursor_y + 1;
                }
            },
            Direction::Up => {
                if self.cursor_y > 0 {
                    self.cursor_y = self.cursor_y - 1;
                }
            },
            Direction::Right => {
                if self.cursor_x + 1 < self.buffer.width() {
                    self.cursor_x = self.cursor_x + 1;
                }
            },
        }
        proof {
            assert(self@ =~= moved_cursor(old(self)@, direction));
        }
    }

    fn put_char(&mut self, c: char)
        requires
            old(self)@.wf(),
        ensures
            final(self)@ == put_char_state(old(self)@, c),
    {
        let prev = self.buffer.get(self.cursor_x, self.cursor_y);
        self.buffer.set(
            self.cursor_x,
            self.cursor_y,
            Cell { symbol: Symbol::One(c), fg: prev.fg, bg: prev.bg },
        );
        proof {
            assert(self@ =~= put_char_state(old(self)@, c));
        }
    }

    fn switch_mode(&mut self, mode: Mode)
        ensures
            final(self)@ == (EditorState { mode, ..old(self)@ }),
    {
        self.mode = mode;
        proof {
            assert(self@ =~= EditorState { mode, ..old(self)@ });
        }
    }

    /// Render one frame: composite the editor's buffer into `area` of
    /// `dest`, then overlay the cursor cell with the mode's highlight
    /// colors. The overlay changes colors only, never the symbol, and is
    /// applied after the copy so it is always visible.
    pub fn draw(&self, area: Area, dest: &mut GridBuffer)
        requires
            self@.wf(),
            old(dest).wf(),
            area.fits_in(old(dest).spec_width(), old(dest).spec_height()),
            self@.cursor_x < area.width,
            self@.cursor_y < area.height,
        ensures
            final(dest).wf(),
            final(dest).spec_width() == old(dest).spec_width(),
            final(dest).spec_height() == old(dest).spec_height(),
            forall|px: int, py: int|
                final(dest).in_bounds(px, py) ==> final(dest).cell_at(px, py) == rendered_cell(
                    self@,
                    area,
                    old(dest).cell_at(px, py),
                    px,
                    py,
                ),
    {
        self.buffer.compose(area, dest);
        let cx: u16 = area.x + self.cursor_x;
        let cy: u16 = area.y + self.cursor_y;
        let under = dest.get(cx, cy);
        let fg: Color;
        let bg: Color;
        match self.mode {
            Mode::Normal => {
                fg = Color::White;
                bg = Color::Blue;
            },
            Mode::Insert => {
                fg = Color::Blue;
                bg = Color::White;
            },
        }
        dest.set(cx, cy, Cell { symbol: under.symbol, fg, bg });
    }
}

} // verus!
