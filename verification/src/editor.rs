//! The editing session: a document, the cursor in it, and the corner of the
//! window through which it is seen.

use crate::document::{lines_deleted, lines_inserted, Document};
use crate::row::{rendered, Row};
use crate::segment::clusters;
use crate::terminal::Size;
use vstd::prelude::*;

verus! {

/// A place in the document or on the screen: `x` counts columns (grapheme
/// clusters), `y` counts lines.
#[derive(Clone, Copy, Debug, PartialEq, Eq, Structural)]
pub struct Position {
    pub x: usize,
    pub y: usize,
}

impl Default for Position {
    /// The origin.
    fn default() -> (origin: Self)
        ensures
            origin == (Position { x: 0, y: 0 }),
    {
        Position { x: 0, y: 0 }
    }
}

/// A way to move the cursor.
#[derive(Clone, Copy, Debug, PartialEq, Eq, Structural)]
pub enum Command {
    Up,
    Down,
    Left,
    Right,
    LineStart,
    LineEnd,
    DocumentStart,
    DocumentEnd,
    PageUp,
    PageDown,
}

/// One decoded key press, as the session understands it.
#[derive(Clone, Copy, Debug, PartialEq, Eq, Structural)]
pub enum Keypress {
    /// A character to type; `'\n'` breaks the line.
    Char(char),
    /// Delete what stands before the cursor.
    Backspace,
    /// Move the cursor.
    Navigate(Command),
    /// Write the document out.
    Save,
    /// Leave the editor.
    Quit,
    /// Any key that means nothing to the session.
    Other,
}

/// What is left for the caller to do after a key press.
#[derive(Clone, Copy, Debug, PartialEq, Eq, Structural)]
pub enum Action {
    /// Nothing.
    Continue,
    /// Write the document out, and mark it clean on success.
    Save,
    /// Leave: the document has no unsaved changes.
    Quit,
    /// Ask whether to leave: the document has unsaved changes.
    ConfirmQuit,
}

/// The number of columns of line `y` of `lines`; 0 where there is no such line.
pub open spec fn line_len(lines: Seq<Seq<char>>, y: int) -> nat {
    if 0 <= y < lines.len() {
        clusters(lines[y]).len()
    } else {
        0
    }
}

/// `x`, or the nearest column of line `y` where the line is shorter.
pub open spec fn clamped(lines: Seq<Seq<char>>, x: usize, y: usize) -> Position {
    if x > line_len(lines, y as int) {
        Position { x: line_len(lines, y as int) as usize, y }
    } else {
        Position { x, y }
    }
}

/// Where `command` takes the cursor before its column is clamped to the line
/// it lands on. `page_height` is the number of lines that a page holds.
pub open spec fn stepped(
    cursor: Position,
    command: Command,
    lines: Seq<Seq<char>>,
    page_height: usize,
) -> Position {
    let Position { x, y } = cursor;
    match command {
        Command::Up => Position { x, y: y.saturating_sub(1) },
        Command::Down => if y < lines.len() {
            Position { x, y: y.saturating_add(1) }
        } else {
            cursor
        },
        Command::Left => if x > 0 {
            Position { x: (x - 1) as usize, y }
        } else if y > 0 {
            Position { x: line_len(lines, y - 1) as usize, y: (y - 1) as usize }
        } else {
            cursor
        },
        Command::Right => if x < line_len(lines, y as int) {
            Position { x: x.saturating_add(1), y }
        } else if y <= lines.len() {
            Position { x: 0, y: y.saturating_add(1) }
        } else {
            cursor
        },
        Command::LineStart => Position { x: 0, y },
        Command::LineEnd => Position { x: line_len(lines, y as int) as usize, y },
        Command::DocumentStart => Position { x, y: 0 },
        Command::DocumentEnd => Position { x, y: lines.len() as usize },
        Command::PageUp => Position { x, y: y.saturating_sub(page_height) },
        Command::PageDown => if y + page_height < lines.len() {
            Position { x, y: (y + page_height) as usize }
        } else {
            Position { x, y: lines.len() as usize }
        },
    }
}

/// Where `command` takes the cursor in a document that holds `lines`.
pub open spec fn moved(
    cursor: Position,
    command: Command,
    lines: Seq<Seq<char>>,
    page_height: usize,
) -> Position {
    let target = stepped(cursor, command, lines, page_height);
    clamped(lines, target.x, target.y)
}

/// The least change of `offset` after which `cursor` lies within `extent`
/// places from it, along one axis.
pub open spec fn scrolled_axis(offset: usize, cursor: usize, extent: usize) -> usize {
    if cursor < offset {
        cursor
    } else if cursor >= offset.saturating_add(extent) {
        cursor.saturating_sub(extent).saturating_add(1)
    } else {
        offset
    }
}

/// The corner of the window after it has followed `cursor`.
pub open spec fn scrolled(offset: Position, cursor: Position, size: Size) -> Position {
    Position {
        x: scrolled_axis(offset.x, cursor.x, size.width as usize),
        y: scrolled_axis(offset.y, cursor.y, size.height as usize),
    }
}

/// `cursor` lies inside the window of extent `size` whose corner is `offset`.
pub open spec fn visible(offset: Position, cursor: Position, size: Size) -> bool {
    &&& offset.x <= cursor.x < offset.x + size.width
    &&& offset.y <= cursor.y < offset.y + size.height
}

/// Whether `key` is acted on with the cursor at `cursor`: a backspace at the
/// origin has nothing to delete.
pub open spec fn backspace_applies(cursor: Position) -> bool {
    cursor.x > 0 || cursor.y > 0
}

/// Where the cursor stands once `key` has been handled.
pub open spec fn cursor_after(
    lines: Seq<Seq<char>>,
    cursor: Position,
    key: Keypress,
    page_height: usize,
) -> Position {
    match key {
        Keypress::Char(c) => moved(
            cursor,
            Command::Right,
            lines_inserted(lines, cursor, c),
            page_height,
        ),
        Keypress::Backspace => if backspace_applies(cursor) {
            moved(cursor, Command::Left, lines, page_height)
        } else {
            cursor
        },
        Keypress::Navigate(command) => moved(cursor, command, lines, page_height),
        _ => cursor,
    }
}

/// The lines of the document once `key` has been handled.
pub open spec fn lines_after(
    lines: Seq<Seq<char>>,
    cursor: Position,
    key: Keypress,
    page_height: usize,
) -> Seq<Seq<char>> {
    match key {
        Keypress::Char(c) => lines_inserted(lines, cursor, c),
        Keypress::Backspace => if backspace_applies(cursor) {
            lines_deleted(lines, moved(cursor, Command::Left, lines, page_height))
        } else {
            lines
        },
        _ => lines,
    }
}

/// Whether handling `key` reaches a line of the document, or its end when
/// typing: the document then counts as changed.
pub open spec fn touches(
    lines: Seq<Seq<char>>,
    cursor: Position,
    key: Keypress,
    page_height: usize,
) -> bool {
    match key {
        Keypress::Char(_) => cursor.y <= lines.len(),
        Keypress::Backspace => backspace_applies(cursor) && moved(
            cursor,
            Command::Left,
            lines,
            page_height,
        ).y < lines.len(),
        _ => false,
    }
}

/// What is left to the caller once `key` has been handled.
pub open spec fn action_for(key: Keypress, dirty: bool) -> Action {
    match key {
        Keypress::Save => Action::Save,
        Keypress::Quit => if dirty {
            Action::ConfirmQuit
        } else {
            Action::Quit
        },
        _ => Action::Continue,
    }
}

/// A document under edit, with the cursor and the top-left corner of the
/// window, both in columns and lines of the document.
pub struct Editor {
    pub cursor_position: Position,
    pub document: Document,
    pub offset: Position,
}

impl Default for Editor {
    /// A session on an empty document, cursor and window at the origin.
    fn default() -> (editor: Self)
        ensures
            editor.document@ == Seq::<Seq<char>>::empty(),
            editor.document.wf(),
            !editor.document.dirty(),
            editor.cursor_position == (Position { x: 0, y: 0 }),
            editor.offset == (Position { x: 0, y: 0 }),
    {
        Editor::new(Document::default())
    }
}

impl Editor {
    /// A session on `document`, cursor and window at the origin.
    pub fn new(document: Document) -> (editor: Self)
        ensures
            editor.document == document,
            editor.cursor_position == (Position { x: 0, y: 0 }),
            editor.offset == (Position { x: 0, y: 0 }),
    {
        Editor { cursor_position: Position::default(), document, offset: Position::default() }
    }

    /// The cursor stands on a line of the document or just past the last
    /// one, and on a column of that line or just past its last one.
    pub open spec fn cursor_in_bounds(&self) -> bool {
        &&& self.cursor_position.y <= self.document@.len()
        &&& self.cursor_position.x <= line_len(self.document@, self.cursor_position.y as int)
    }

    /// The number of columns of line `y`; 0 where the document has no such line.
    fn row_len(&self, y: usize) -> (len: usize)
        requires
            self.document.wf(),
        ensures
            len == line_len(self.document@, y as int),
    {
        match self.document.row(y) {
            Some(row) => row.len(),
            None => 0,
        }
    }

    /// Moves the cursor as `command` says, then brings its column back onto
    /// the line it has landed on.
    pub fn move_cursor(&mut self, command: Command, size: &Size)
        requires
            old(self).document.wf(),
        ensures
            final(self).cursor_position == moved(
                old(self).cursor_position,
                command,
                old(self).document@,
                size.height as usize,
            ),
            final(self).cursor_position.x <= line_len(
                old(self).document@,
                final(self).cursor_position.y as int,
            ),
            old(self).cursor_position.y <= old(self).document@.len() && !(command == Command::Right
                && old(self).cursor_position.y == old(self).document@.len())
                ==> final(self).cursor_in_bounds(),
            final(self).document == old(self).document,
            final(self).offset == old(self).offset,
    {
        let Position { mut x, mut y } = self.cursor_position;
        let height = self.document.len();
        let terminal_height = size.height as usize;
        let mut width = self.row_len(y);
        match command {
            Command::Up => y = y.saturating_sub(1),
            Command::Down => {
                if y < height {
                    y = y.saturating_add(1);
                }
            },
            Command::Left => {
                if x > 0 {
                    x = x - 1;
                } else if y > 0 {
                    y = y - 1;
                    x = self.row_len(y);
                }
            },
            Command::Right => {
                if x < width {
                    x = x.saturating_add(1);
                } else if y <= height {
                    y = y.saturating_add(1);
                    x = 0;
                }
            },
            Command::LineStart => x = 0,
            Command::LineEnd => x = width,
            Command::DocumentStart => y = 0,
            Command::DocumentEnd => y = height,
            Command::PageUp => y = y.saturating_sub(terminal_height),
            Command::PageDown => {
                y = if y.saturating_add(terminal_height) < height {
                    y.saturating_add(terminal_height)
                } else {
                    height
                }
            },
        }
        width = self.row_len(y);
        if x > width {
            x = width;
        }
        self.cursor_position = Position { x, y }
    }

    /// Moves the window by the least amount that brings the cursor into it.
    pub fn scroll(&mut self, size: &Size)
        ensures
            final(self).offset == scrolled(old(self).offset, old(self).cursor_position, *size),
            size.width > 0 && size.height > 0 ==> visible(
                final(self).offset,
                old(self).cursor_position,
                *size,
            ),
            final(self).cursor_position == old(self).cursor_position,
            final(self).document == old(self).document,
    {
        let Position { x, y } = self.cursor_position;
        let width = size.width as usize;
        let height = size.height as usize;
        if y < self.offset.y {
            self.offset.y = y;
        } else if y >= self.offset.y.saturating_add(height) {
            self.offset.y = y.saturating_sub(height).saturating_add(1);
        }
        if x < self.offset.x {
            self.offset.x = x;
        } else if x >= self.offset.x.saturating_add(width) {
            self.offset.x = x.saturating_sub(width).saturating_add(1);
        }
    }

    /// Handles one key press: edits the document or moves the cursor, lets
    /// the window follow, and says what is left for the caller to do.
    ///
    /// A typed character goes in at the cursor, which then moves right. A
    /// backspace moves the cursor left and deletes there, unless the cursor
    /// stands at the origin.
    pub fn process_keypress(&mut self, key: Keypress, size: &Size) -> (action: Action)
        requires
            old(self).document.wf(),
        ensures
            final(self).document@ == lines_after(
                old(self).document@,
                old(self).cursor_position,
                key,
                size.height as usize,
            ),
            final(self).cursor_position == cursor_after(
                old(self).document@,
                old(self).cursor_position,
                key,
                size.height as usize,
            ),
            final(self).offset == scrolled(old(self).offset, final(self).cursor_position, *size),
            action == action_for(key, old(self).document.dirty()),
            final(self).document.wf(),
            final(self).document.name() == old(self).document.name(),
            final(self).document.dirty() == (old(self).document.dirty() || touches(
                old(self).document@,
                old(self).cursor_position,
                key,
                size.height as usize,
            )),
    {
        let mut action = Action::Continue;
        match key {
            Keypress::Quit => {
                action = if self.document.is_dirty() {
                    Action::ConfirmQuit
                } else {
                    Action::Quit
                };
            },
            Keypress::Backspace => {
                if self.cursor_position.x > 0 || self.cursor_position.y > 0 {
                    self.move_cursor(Command::Left, size);
                    let at = self.cursor_position;
                    self.document.delete(&at);
                }
            },
            Keypress::Char(c) => {
                let at = self.cursor_position;
                self.document.insert(&at, c);
                self.move_cursor(Command::Right, size);
            },
            Keypress::Save => {
                action = Action::Save;
            },
            Keypress::Navigate(command) => self.move_cursor(command, size),
            Keypress::Other => (),
        }
        self.scroll(size);
        action
    }

    /// Where the cursor stands in the window: its place in the document
    /// less the window's corner, and the corner itself where it lies before it.
    pub fn screen_position(&self) -> (place: Position)
        ensures
            place.x == self.cursor_position.x.saturating_sub(self.offset.x),
            place.y == self.cursor_position.y.saturating_sub(self.offset.y),
    {
        Position {
            x: self.cursor_position.x.saturating_sub(self.offset.x),
            y: self.cursor_position.y.saturating_sub(self.offset.y),
        }
    }

    /// The part of `row` that a window of extent `size` shows.
    pub fn draw_row(&self, row: &Row, size: &Size) -> (text: String)
        ensures
            text@ == rendered(
                row@,
                self.offset.x as nat,
                self.offset.x.saturating_add(size.width as usize) as nat,
            ),
    {
        let width = size.width as usize;
        let start = self.offset.x;
        let end = self.offset.x.saturating_add(width);
        row.render(start, end)
    }
}

/// Moving right from the last column of the last line puts the cursor at
/// the start of the line just past the end of the document, where no line
/// stands and the length is 0.
pub proof fn lemma_right_at_end_of_document(
    document: Document,
    cursor: Position,
    page_height: usize,
)
    requires
        document@.len() > 0,
        cursor.y == document@.len() - 1,
        cursor.x == line_len(document@, cursor.y as int),
    ensures
        moved(cursor, Command::Right, document@, page_height) == (Position {
            x: 0,
            y: document@.len() as usize,
        }),
        line_len(document@, document@.len() as int) == 0,
{
    document.lemma_len_fits();
}

/// The column of a moved cursor lies on the line it has landed on, or just
/// past its end.
pub proof fn lemma_moved_column_on_line(
    cursor: Position,
    command: Command,
    lines: Seq<Seq<char>>,
    page_height: usize,
)
    ensures
        moved(cursor, command, lines, page_height).x <= line_len(
            lines,
            moved(cursor, command, lines, page_height).y as int,
        ),
{
}

/// A cursor that stands on a line of the document, or just past the last
/// one, stays there under every command but one: moving right from just past
/// the last line takes it one line further.
pub proof fn lemma_moved_line_in_document(
    document: Document,
    cursor: Position,
    command: Command,
    page_height: usize,
)
    requires
        cursor.y <= document@.len(),
        !(command == Command::Right && cursor.y == document@.len()),
    ensures
        moved(cursor, command, document@, page_height).y <= document@.len(),
{
    document.lemma_len_fits();
}

/// After the window has followed the cursor, the cursor lies inside it,
/// whatever the corner was before, as long as the window is not empty.
pub proof fn lemma_scrolled_shows_cursor(offset: Position, cursor: Position, size: Size)
    requires
        size.width > 0,
        size.height > 0,
    ensures
        visible(scrolled(offset, cursor, size), cursor, size),
{
}

} // verus!
