//! One line of text, edited in units of grapheme clusters.

use crate::segment::{
    clusters, graphemes, is_segmentation, join, lemma_flatten_split, lemma_segmentation_of_empty,
    push_char, views_of,
};
use vstd::prelude::*;
use vstd::string::StringExecFns;
use vstd::utf8::encode_utf8;

verus! {

/// The column at which an edit at `at` falls in `text`: `at` itself, or the
/// number of clusters of `text` where `at` lies beyond them.
pub open spec fn column(text: Seq<char>, at: nat) -> int {
    if at <= clusters(text).len() {
        at as int
    } else {
        clusters(text).len() as int
    }
}

/// The text of the clusters of `text` that stand before column `at`.
pub open spec fn before(text: Seq<char>, at: nat) -> Seq<char> {
    clusters(text).subrange(0, column(text, at)).flatten()
}

/// The text of the clusters of `text` that stand at column `at` and after it.
pub open spec fn after(text: Seq<char>, at: nat) -> Seq<char> {
    clusters(text).subrange(column(text, at), clusters(text).len() as int).flatten()
}

/// `text` with `c` put in at column `at`; at the end where `at` is no column of `text`.
pub open spec fn inserted(text: Seq<char>, at: nat, c: char) -> Seq<char> {
    if at >= clusters(text).len() {
        text.push(c)
    } else {
        before(text, at).push(c) + after(text, at)
    }
}

/// `text` without the cluster at column `at`; `text` itself where it has no such column.
pub open spec fn deleted(text: Seq<char>, at: nat) -> Seq<char> {
    if at >= clusters(text).len() {
        text
    } else {
        before(text, at) + after(text, at + 1)
    }
}

/// How one cluster is drawn: a tab as a single space, anything else as it is.
pub open spec fn shown(cluster: Seq<char>) -> Seq<char> {
    if cluster == seq!['\t'] {
        seq![' ']
    } else {
        cluster
    }
}

/// What is drawn of `text` between the columns `start` and `end`, both
/// clamped so that `start <= end <= ` the number of clusters.
pub open spec fn rendered(text: Seq<char>, start: nat, end: nat) -> Seq<char> {
    let to = column(text, end);
    let from = if start <= to {
        start as int
    } else {
        to
    };
    clusters(text).subrange(from, to).map_values(|cluster: Seq<char>| shown(cluster)).flatten()
}

/// `c`, put into `text` at column `at`, stands there as a cluster of its own
/// behind the text that stood before that column. A character that joins a
/// neighbouring cluster, such as a combining mark behind its base, does not.
pub open spec fn stands_alone(text: Seq<char>, at: nat, c: char) -> bool {
    let parts = clusters(inserted(text, at, c));
    &&& at < parts.len()
    &&& parts.subrange(0, at as int).flatten() == before(text, at)
    &&& parts[at as int] == seq![c]
}

/// A line of text together with the number of grapheme clusters in it.
pub struct Row {
    string: String,
    len: usize,
}

impl View for Row {
    type V = Seq<char>;

    closed spec fn view(&self) -> Seq<char> {
        self.string@
    }
}

impl Default for Row {
    /// The empty line.
    fn default() -> (row: Self)
        ensures
            row@ == Seq::<char>::empty(),
            row.wf(),
            row.count() == 0,
    {
        let row = Row::from("");
        proof {
            reveal_strlit("");
            assert(row@ =~= Seq::<char>::empty());
            lemma_segmentation_of_empty(clusters(row@));
        }
        row
    }
}

/// What `from` makes is said by its own contract below, over the view and
/// `wf`, not by a value written out here.
impl vstd::std_specs::convert::FromSpecImpl<&str> for Row {
    open spec fn obeys_from_spec() -> bool {
        false
    }

    open spec fn from_spec(slice: &str) -> Row {
        arbitrary()
    }
}

impl From<&str> for Row {
    /// A line that holds `slice`.
    fn from(slice: &str) -> (row: Self)
        ensures
            row@ == slice@,
            row.wf(),
    {
        let mut row = Row { string: slice.to_owned(), len: 0 };
        row.update_len();
        row
    }
}

impl Row {
    /// The cached number of clusters.
    pub closed spec fn count(&self) -> nat {
        self.len as nat
    }

    /// The cached count is that of the text, and the clusters of the text cut
    /// it into consecutive non-empty pieces.
    pub open spec fn wf(&self) -> bool {
        &&& self.count() == clusters(self@).len()
        &&& is_segmentation(clusters(self@), self@)
    }

    /// The text of the clusters from column `start` up to column `end`, a tab
    /// drawn as one space. Bounds beyond the line are clamped.
    pub fn render(&self, start: usize, end: usize) -> (text: String)
        ensures
            text@ == rendered(self@, start as nat, end as nat),
    {
        let parts = graphemes(self.string.as_str(), true);
        let end = if end <= parts.len() {
            end
        } else {
            parts.len()
        };
        let start = if start <= end {
            start
        } else {
            end
        };
        let tab = "\t".to_owned();
        proof {
            reveal_strlit("\t");
            assert("\t"@ =~= seq!['\t']);
        }
        let ghost window = clusters(self@).subrange(start as int, end as int);
        let ghost draw = |cluster: Seq<char>| shown(cluster);
        let mut text = String::new();
        let mut i: usize = start;
        while i < end
            invariant
                start <= i <= end <= parts.len(),
                views_of(parts@) == clusters(self@),
                window == clusters(self@).subrange(start as int, end as int),
                draw == |cluster: Seq<char>| shown(cluster),
                tab@ == seq!['\t'],
                text@ == window.subrange(0, i - start).map_values(draw).flatten(),
            decreases end - i,
        {
            proof {
                let done = window.subrange(0, i - start).map_values(draw);
                assert(window[i - start] == parts@[i as int]@);
                assert(window.subrange(0, i + 1 - start).map_values(draw) =~= done.push(
                    shown(parts@[i as int]@),
                ));
                done.lemma_flatten_push(shown(parts@[i as int]@));
            }
            if parts[i] == tab {
                let ghost drawn = text@;
                push_char(&mut text, ' ');
                assert(text@ =~= drawn + seq![' ']);
            } else {
                text.append(parts[i].as_str());
            }
            i += 1;
        }
        proof {
            assert(window.subrange(0, end - start) =~= window);
        }
        text
    }

    /// The number of grapheme clusters in the line.
    pub fn len(&self) -> (count: usize)
        requires
            self.wf(),
        ensures
            count == clusters(self@).len(),
    {
        self.len
    }

    /// Counts the clusters of the text anew.
    fn update_len(&mut self)
        ensures
            final(self)@ == old(self)@,
            final(self).wf(),
    {
        let parts = graphemes(self.string.as_str(), true);
        self.len = parts.len();
    }

    /// The text as UTF-8.
    pub fn as_bytes(&self) -> (bytes: &[u8])
        ensures
            bytes@ == encode_utf8(self@),
    {
        self.string.as_str().as_bytes()
    }

    /// Puts `c` in at column `at`, or at the end where the line is shorter.
    pub fn insert(&mut self, at: usize, c: char)
        requires
            old(self).wf(),
        ensures
            final(self)@ == inserted(old(self)@, at as nat, c),
            final(self).wf(),
    {
        if at >= self.len {
            push_char(&mut self.string, c);
        } else {
            let parts = graphemes(self.string.as_str(), true);
            let mut result = join(&parts, 0, at);
            let remainder = join(&parts, at, parts.len());
            push_char(&mut result, c);
            result.append(remainder.as_str());
            self.string = result;
        }
        self.update_len();
    }

    /// Takes out the cluster at column `at`, if the line has one there.
    pub fn delete(&mut self, at: usize)
        requires
            old(self).wf(),
        ensures
            final(self)@ == deleted(old(self)@, at as nat),
            final(self).wf(),
    {
        if at >= self.len {
            return ;
        } else {
            let parts = graphemes(self.string.as_str(), true);
            let mut result = join(&parts, 0, at);
            let remainder = join(&parts, at + 1, parts.len());
            result.append(remainder.as_str());
            self.string = result;
        }
        self.update_len();
    }

    /// Puts the text of `new` at the end of the line.
    pub fn append(&mut self, new: &Self)
        ensures
            final(self)@ == old(self)@ + new@,
            final(self).wf(),
    {
        self.string.append(new.string.as_str());
        self.update_len();
    }

    /// Cuts the line at column `at`: the line keeps what stands before it,
    /// and what stands at it and after is returned as a line of its own.
    pub fn split(&mut self, at: usize) -> (rest: Self)
        ensures
            final(self)@ == before(old(self)@, at as nat),
            rest@ == after(old(self)@, at as nat),
            final(self).wf(),
            rest.wf(),
    {
        let parts = graphemes(self.string.as_str(), true);
        let at = if at <= parts.len() {
            at
        } else {
            parts.len()
        };
        let beginning = join(&parts, 0, at);
        let remainder = join(&parts, at, parts.len());
        self.string = beginning;
        self.update_len();
        Row::from(remainder.as_str())
    }
}

/// Cutting a line at any column and joining the two pieces again gives the
/// line as it was: what `split` keeps, followed by what it returns, is the
/// text before the cut.
pub proof fn lemma_append_undoes_split(row: Row, at: usize)
    requires
        row.wf(),
    ensures
        before(row@, at as nat) + after(row@, at as nat) == row@,
{
    lemma_flatten_split(clusters(row@), column(row@, at as nat));
}

/// Deleting at the column where a character has just been put in gives the
/// line as it was, text and count, wherever that character stands as a
/// cluster of its own. `with` is the line after the insertion, `without` the
/// line after the deletion.
pub proof fn lemma_delete_undoes_insert(row: Row, at: usize, c: char, with: Row, without: Row)
    requires
        row.wf(),
        with.wf(),
        without.wf(),
        at <= clusters(row@).len(),
        with@ == inserted(row@, at as nat, c),
        without@ == deleted(with@, at as nat),
        stands_alone(row@, at as nat, c),
    ensures
        without@ == row@,
        without.count() == row.count(),
{
    let parts = clusters(with@);
    let head = before(row@, at as nat);
    let tail = after(row@, at as nat);
    let rest = parts.subrange(at + 1, parts.len() as int).flatten();
    lemma_flatten_split(clusters(row@), at as int);
    assert(with@ =~= head.push(c) + tail) by {
        if at == clusters(row@).len() {
            assert(clusters(row@).subrange(0, at as int) =~= clusters(row@));
            assert(tail =~= Seq::<char>::empty());
        }
    }
    assert(with@ =~= head.push(c) + rest) by {
        lemma_flatten_split(parts, at as int);
        let from = parts.subrange(at as int, parts.len() as int);
        assert(from.drop_first() =~= parts.subrange(at + 1, parts.len() as int));
        assert(from.flatten() == from.first() + from.drop_first().flatten());
    }
    assert(tail =~= rest) by {
        let cut: int = head.len() as int + 1;
        assert(tail =~= (head.push(c) + tail).subrange(cut, cut + tail.len()));
        assert(rest =~= (head.push(c) + rest).subrange(cut, cut + rest.len()));
    }
}

} // verus!
