//! The state that a front end keeps around a board, and what each key press
//! and each change of the drawing area does to it.

use crate::game::{resized, Board, Square};
use crate::pattern::next_generation;
use vstd::prelude::*;

verus! {

/// A key press, as far as the game tells keys apart.
#[derive(Clone, Copy, Debug, PartialEq, Eq, Structural)]
pub enum Key {
    /// Arrow up.
    Up,
    /// Arrow down.
    Down,
    /// Arrow left.
    Left,
    /// Arrow right.
    Right,
    /// The enter key.
    Enter,
    /// A character key.
    Char(char),
    /// Any other key.
    Other,
}

/// A board together with the cursor and the flags of an interactive session.
///
/// The cursor is `(line, column)` on the screen. The first screen line holds
/// the frame's title, so screen line `n` shows board row `n - 1`.
#[derive(Debug)]
pub struct GameApp {
    /// The simulated board.
    pub board: Board,
    /// Set once the user has asked to leave.
    pub exit: bool,
    /// Screen position of the cursor, line first.
    pub cursor: (u16, u16),
    /// Whether the space bar toggles the cell under the cursor.
    pub editing: bool,
}

/// Where a key press moves the cursor: the arrow keys move it by one, up
/// stops at line 1 and left at column 0, and no other key moves it.
pub open spec fn cursor_after(cursor: (u16, u16), key: Key) -> (int, int) {
    match key {
        Key::Up => (if cursor.0 > 1 { cursor.0 - 1 } else { cursor.0 as int }, cursor.1 as int),
        Key::Down => (cursor.0 + 1, cursor.1 as int),
        Key::Left => (cursor.0 as int, if cursor.1 > 0 { cursor.1 - 1 } else { 0 }),
        Key::Right => (cursor.0 as int, cursor.1 + 1),
        _ => (cursor.0 as int, cursor.1 as int),
    }
}

/// `value`, or `limit` where `value` lies beyond it.
pub open spec fn clamped(value: u16, limit: int) -> int {
    if value > limit {
        limit
    } else {
        value as int
    }
}

impl Default for GameApp {
    /// A session on the board without cells, with the cursor at the top
    /// left of the screen and both flags unset.
    fn default() -> (out: GameApp)
        ensures
            out.board.wf(),
            out.board.rows == 0,
            out.board.cols == 0,
            out.cursor == (0u16, 0u16),
            !out.exit,
            !out.editing,
    {
        GameApp { board: Board::default(), exit: false, cursor: (0, 0), editing: false }
    }
}

impl GameApp {
    /// Whether the cursor stands on a cell of the board.
    pub open spec fn cursor_on_cell(&self) -> bool {
        1 <= self.cursor.0 && self.cursor.0 - 1 < self.board.rows && self.cursor.1
            < self.board.cols
    }

    /// Whether `key` asks for an edit of the cell under the cursor.
    pub open spec fn toggles(&self, key: Key) -> bool {
        key == Key::Char(' ') && self.editing
    }

    /// The key presses that the session can take in its current state: one
    /// that would move the cursor past the last screen position, or toggle a
    /// cell where the cursor is on none, is not among them.
    pub open spec fn accepts(&self, key: Key) -> bool {
        &&& key == Key::Down ==> self.cursor.0 < u16::MAX
        &&& key == Key::Right ==> self.cursor.1 < u16::MAX
        &&& self.toggles(key) ==> self.cursor_on_cell()
    }

    /// Tells whether `handle_key` can take `key` now.
    pub fn can_handle(&self, key: Key) -> (ok: bool)
        ensures
            ok == self.accepts(key),
    {
        match key {
            Key::Down => self.cursor.0 < u16::MAX,
            Key::Right => self.cursor.1 < u16::MAX,
            Key::Char(' ') => {
                if self.editing {
                    self.cursor.0 >= 1 && ((self.cursor.0 - 1) as usize) < self.board.rows && (
                    self.cursor.1 as usize) < self.board.cols
                } else {
                    true
                }
            },
            _ => true,
        }
    }

    /// Applies one key press.
    ///
    /// The arrow keys move the cursor, `e` switches editing on or off, enter
    /// advances the board by one generation, the space bar toggles the cell
    /// under the cursor while editing, and `q` or `Q` asks to leave. Every
    /// other key does nothing.
    pub fn handle_key(&mut self, key: Key)
        requires
            old(self).board.wf(),
            old(self).accepts(key),
        ensures
            final(self).board.wf(),
            final(self).board.rows == old(self).board.rows,
            final(self).board.cols == old(self).board.cols,
            (final(self).cursor.0 as int, final(self).cursor.1 as int) == cursor_after(
                old(self).cursor,
                key,
            ),
            final(self).editing == (old(self).editing != (key == Key::Char('e'))),
            final(self).exit == (old(self).exit || key == Key::Char('q') || key == Key::Char('Q')),
            key == Key::Enter ==> final(self).board@ == next_generation(old(self).board@),
            old(self).toggles(key) ==> forall|r: int, c: int|
                0 <= r < old(self).board.rows && 0 <= c < old(self).board.cols ==> #[trigger] final(
                    self
                ).board.board[r][c] == if r == old(self).cursor.0 - 1 && c == old(self).cursor.1 {
                    Square {
                        alive: !old(self).board.board[r][c].alive,
                        ..old(self).board.board[r][c]
                    }
                } else {
                    old(self).board.board[r][c]
                },
            key != Key::Enter && !old(self).toggles(key) ==> final(self).board == old(self).board,
    {
        match key {
            Key::Up => {
                if self.cursor.0 > 1 {
                    self.cursor.0 -= 1;
                }
            },
            Key::Down => {
                self.cursor.0 += 1;
            },
            Key::Left => {
                if self.cursor.1 > 0 {
                    self.cursor.1 -= 1;
                }
            },
            Key::Right => {
                self.cursor.1 += 1;
            },
            Key::Char('e') => {
                self.editing = !self.editing;
            },
            Key::Enter => {
                self.board.advance_state();
            },
            Key::Char(' ') => {
                if self.editing {
                    let row: usize = (self.cursor.0 - 1) as usize;
                    let col: usize = self.cursor.1 as usize;
                    let alive = self.board.board[row][col].alive;
                    self.board.board[row][col].alive = !alive;
                }
            },
            Key::Char('q') | Key::Char('Q') => {
                self.exit();
            },
            _ => {},
        }
    }

    /// Fits the session to a drawing area of `height` lines and `width`
    /// columns: the board is resized to the area, and the cursor is pulled
    /// back to the last line but one and to the last column where it lies
    /// beyond them.
    pub fn fit_to_area(&mut self, height: u16, width: u16)
        requires
            old(self).board.wf(),
            height >= 2,
            width >= 1,
        ensures
            final(self).board.wf(),
            final(self).board.rows == height,
            final(self).board.cols == width,
            final(self).board.cells() == resized(
                old(self).board.cells(),
                height as nat,
                width as nat,
            ),
            final(self).cursor.0 == clamped(old(self).cursor.0, height - 2),
            final(self).cursor.1 == clamped(old(self).cursor.1, width - 1),
            final(self).exit == old(self).exit,
            final(self).editing == old(self).editing,
    {
        self.board.resize_board(height as usize, width as usize);
        if self.cursor.0 > height - 2 {
            self.cursor.0 = height - 2;
        }
        if self.cursor.1 > width - 1 {
            self.cursor.1 = width - 1;
        }
    }

    /// Where the terminal should show its cursor, as `(x, y)` with the column
    /// first: under the session's cursor while editing, nowhere otherwise.
    pub fn shown_cursor(&self) -> (at: Option<(u16, u16)>)
        ensures
            at == if self.editing {
                Some((self.cursor.1, self.cursor.0))
            } else {
                None
            },
    {
        if self.editing {
            Some((self.cursor.1, self.cursor.0))
        } else {
            None
        }
    }

    /// Asks the session to end.
    pub fn exit(&mut self)
        ensures
            final(self).exit,
            final(self).board == old(self).board,
            final(self).cursor == old(self).cursor,
            final(self).editing == old(self).editing,
    {
        self.exit = true;
    }
}

} // verus!
