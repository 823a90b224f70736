//! A document: lines of text in order, and whether they have changed since
//! they were last written out.

use crate::editor::Position;
use crate::row::{after, before, deleted, inserted, lemma_append_undoes_split, Row};
use crate::segment::clusters;
use vstd::prelude::*;
use vstd::utf8::encode_utf8;

verus! {

/// The lines that result from typing `c` at `at`.
///
/// A newline cuts the line at `at.y` in two at column `at.x`, or adds an empty
/// line at the end; any other character goes into the line at `at.y`, or
/// starts a new line at the end. A position beyond the end changes nothing.
pub open spec fn lines_inserted(lines: Seq<Seq<char>>, at: Position, c: char) -> Seq<Seq<char>> {
    let y = at.y as int;
    let x = at.x as nat;
    if y > lines.len() {
        lines
    } else if y == lines.len() {
        if c == '\n' {
            lines.push(Seq::empty())
        } else {
            lines.push(seq![c])
        }
    } else if c == '\n' {
        lines.update(y, before(lines[y], x)).insert(y + 1, after(lines[y], x))
    } else {
        lines.update(y, inserted(lines[y], x, c))
    }
}

/// The lines that result from deleting at `at`.
///
/// At the end of a line that has a successor the two are joined; elsewhere
/// the cluster at `at.x` leaves its line. A position beyond the last line
/// changes nothing.
pub open spec fn lines_deleted(lines: Seq<Seq<char>>, at: Position) -> Seq<Seq<char>> {
    let y = at.y as int;
    let x = at.x as nat;
    if y >= lines.len() {
        lines
    } else if x == clusters(lines[y]).len() && y + 1 < lines.len() {
        lines.update(y, lines[y] + lines[y + 1]).remove(y + 1)
    } else {
        lines.update(y, deleted(lines[y], x))
    }
}

/// One line as it is written out: its text as UTF-8, then a line feed.
pub open spec fn line_written(line: Seq<char>) -> Seq<u8> {
    encode_utf8(line).push(0x0au8)
}

/// The lines as they are written out: one after the other, each ended by a
/// line feed.
pub open spec fn written(lines: Seq<Seq<char>>) -> Seq<u8> {
    lines.map_values(|line: Seq<char>| line_written(line)).flatten()
}

/// The lines of a text, the name under which it is kept, and whether it has
/// unsaved changes.
pub struct Document {
    rows: Vec<Row>,
    pub file_name: Option<String>,
    dirty: bool,
}

impl View for Document {
    type V = Seq<Seq<char>>;

    /// The text of each line, in order.
    closed spec fn view(&self) -> Seq<Seq<char>> {
        self.rows@.map_values(|row: Row| row@)
    }
}

impl Default for Document {
    /// The empty, unnamed, unchanged document.
    fn default() -> (document: Self)
        ensures
            document@ == Seq::<Seq<char>>::empty(),
            document.name().is_none(),
            !document.dirty(),
            document.wf(),
    {
        let document = Document { rows: Vec::new(), file_name: None, dirty: false };
        assert(document@ =~= Seq::<Seq<char>>::empty());
        document
    }
}

impl Document {
    /// The name under which the document is kept, if it has one.
    pub closed spec fn name(&self) -> Option<String> {
        self.file_name
    }

    /// Whether the document has changed since it was last marked clean.
    pub closed spec fn dirty(&self) -> bool {
        self.dirty
    }

    /// Every line is well formed.
    pub closed spec fn wf(&self) -> bool {
        forall|i: int| 0 <= i < self.rows.len() ==> (#[trigger] self.rows[i]).wf()
    }

    /// The document that holds `lines`, one line each and in their order,
    /// under the name `file_name`. It starts out unchanged.
    pub fn from_lines(lines: &Vec<String>, file_name: Option<String>) -> (document: Self)
        ensures
            document@ == lines@.map_values(|line: String| line@),
            document.name() == file_name,
            !document.dirty(),
            document.wf(),
    {
        let mut rows: Vec<Row> = Vec::new();
        let mut i: usize = 0;
        while i < lines.len()
            invariant
                i <= lines.len(),
                rows.len() == i,
                forall|j: int| 0 <= j < i ==> (#[trigger] rows[j]).wf(),
                forall|j: int| 0 <= j < i ==> (#[trigger] rows[j])@ == lines[j]@,
            decreases lines.len() - i,
        {
            rows.push(Row::from(lines[i].as_str()));
            i += 1;
        }
        let document = Document { rows, file_name, dirty: false };
        assert(document@ =~= lines@.map_values(|line: String| line@));
        document
    }

    /// The line at `index`, if there is one.
    pub fn row(&self, index: usize) -> (row: Option<&Row>)
        requires
            self.wf(),
        ensures
            index < self@.len() <==> row.is_some(),
            row.is_some() ==> row.unwrap()@ == self@[index as int] && row.unwrap().wf(),
    {
        if index < self.rows.len() {
            Some(&self.rows[index])
        } else {
            None
        }
    }

    /// The number of lines.
    pub fn len(&self) -> (count: usize)
        ensures
            count == self@.len(),
    {
        self.rows.len()
    }

    /// Whether the document has changed since it was last marked clean.
    pub fn is_dirty(&self) -> (dirty: bool)
        ensures
            dirty == self.dirty(),
    {
        self.dirty
    }

    /// The bytes to write the document out as: each line as UTF-8, followed
    /// by a line feed.
    pub fn to_bytes(&self) -> (bytes: Vec<u8>)
        ensures
            bytes@ == written(self@),
    {
        let ghost write = |line: Seq<char>| line_written(line);
        let mut bytes: Vec<u8> = Vec::new();
        let mut i: usize = 0;
        while i < self.rows.len()
            invariant
                i <= self.rows.len(),
                write == |line: Seq<char>| line_written(line),
                bytes@ == self@.subrange(0, i as int).map_values(write).flatten(),
            decreases self.rows.len() - i,
        {
            let ghost done = bytes@;
            let line = self.rows[i].as_bytes();
            let mut j: usize = 0;
            while j < line.len()
                invariant
                    j <= line.len(),
                    bytes@ == done + line@.subrange(0, j as int),
                decreases line.len() - j,
            {
                bytes.push(line[j]);
                j += 1;
            }
            bytes.push(0x0au8);
            proof {
                let before = self@.subrange(0, i as int).map_values(write);
                assert(line@.subrange(0, j as int) =~= line@);
                assert(bytes@ =~= done + line_written(self@[i as int]));
                assert(self@.subrange(0, i + 1).map_values(write) =~= before.push(
                    line_written(self@[i as int]),
                ));
                before.lemma_flatten_push(line_written(self@[i as int]));
            }
            i += 1;
        }
        assert(self@.subrange(0, i as int) =~= self@);
        bytes
    }

    /// Records that the document as it stands has been written out.
    pub fn mark_clean(&mut self)
        ensures
            final(self)@ == old(self)@,
            final(self).name() == old(self).name(),
            !final(self).dirty(),
            old(self).wf() ==> final(self).wf(),
    {
        self.dirty = false;
    }

    /// Breaks the line at `at` in two, or adds an empty line at the end.
    fn insert_newline(&mut self, at: &Position)
        requires
            old(self).wf(),
        ensures
            final(self)@ == lines_inserted(old(self)@, *at, '\n'),
            final(self).dirty() == (old(self).dirty() || at.y <= old(self)@.len()),
            final(self).name() == old(self).name(),
            final(self).wf(),
    {
        if at.y > self.rows.len() {
            return ;
        }
        self.dirty = true;
        if at.y == self.rows.len() {
            self.rows.push(Row::default());
            assert(self@ =~= old(self)@.push(Seq::empty()));
            return ;
        }
        let new_row = self.rows[at.y].split(at.x);
        self.rows.insert(at.y + 1, new_row);
        assert(self@ =~= lines_inserted(old(self)@, *at, '\n'));
    }

    /// Types `c` at `at`. A position beyond the end of the document is ignored.
    pub fn insert(&mut self, at: &Position, c: char)
        requires
            old(self).wf(),
        ensures
            final(self)@ == lines_inserted(old(self)@, *at, c),
            final(self).dirty() == (old(self).dirty() || at.y <= old(self)@.len()),
            final(self).name() == old(self).name(),
            final(self).wf(),
    {
        if c == '\n' {
            self.insert_newline(at);
            return ;
        }
        if at.y > self.rows.len() {
            return ;
        }
        if at.y == self.rows.len() {
            let mut row = Row::default();
            row.insert(0, c);
            assert(row@ =~= seq![c]);
            self.rows.push(row);
            assert(self@ =~= old(self)@.push(seq![c]));
        } else {
            self.rows[at.y].insert(at.x, c);
            assert(self@ =~= lines_inserted(old(self)@, *at, c));
        }
        self.dirty = true;
    }

    /// Deletes at `at`: joins the next line onto this one at the end of a
    /// line, removes one cluster elsewhere. A position beyond the last line
    /// is ignored.
    pub fn delete(&mut self, at: &Position)
        requires
            old(self).wf(),
        ensures
            final(self)@ == lines_deleted(old(self)@, *at),
            final(self).dirty() == (old(self).dirty() || at.y < old(self)@.len()),
            final(self).name() == old(self).name(),
            final(self).wf(),
    {
        let len = self.rows.len();
        if at.y >= len {
            return ;
        }
        self.dirty = true;
        if at.x == self.rows[at.y].len() && at.y + 1 < len {
            let next_row = self.rows.remove(at.y + 1);
            self.rows[at.y].append(&next_row);
        } else {
            self.rows[at.y].delete(at.x);
        }
        assert(self@ =~= lines_deleted(old(self)@, *at));
    }
}

impl Document {
    /// The number of lines fits the machine's word.
    pub proof fn lemma_len_fits(self)
        ensures
            self@.len() <= usize::MAX,
    {
        assert(self@.len() == self.rows.len());
    }
}

/// Breaking a line in two and then deleting at the end of the first of the
/// two pieces gives the document as it was, line for line. `boundary` is that
/// end: the line of `at`, and the column just past the last one of the piece
/// that stays there.
pub proof fn lemma_delete_undoes_newline(document: Document, at: Position, boundary: Position)
    requires
        document.wf(),
        at.y < document@.len(),
        boundary.y == at.y,
        boundary.x == clusters(lines_inserted(document@, at, '\n')[at.y as int]).len(),
    ensures
        lines_inserted(document@, at, '\n').len() == document@.len() + 1,
        lines_deleted(lines_inserted(document@, at, '\n'), boundary) == document@,
{
    let y = at.y as int;
    let broken = lines_inserted(document@, at, '\n');
    assert(document.rows[y].wf());
    lemma_append_undoes_split(document.rows[y], at.x);
    assert(broken[y] + broken[y + 1] == document@[y]);
    assert(lines_deleted(broken, boundary) =~= document@);
}

} // verus!
