//! Grapheme-cluster segmentation of text, and the facts about it that the
//! rest of the library builds on.

use unicode_segmentation::UnicodeSegmentation;
use vstd::prelude::*;
use vstd::seq_lib::lemma_flatten_concat;

verus! {

/// The grapheme clusters of `text`, in order: extended clusters when
/// `is_extended` holds, legacy clusters otherwise. Stands for what
/// `UnicodeSegmentation::graphemes` yields on the same arguments.
pub uninterp spec fn grapheme_clusters(text: Seq<char>, is_extended: bool) -> Seq<Seq<char>>;

/// The extended grapheme clusters of `text`: the units in which columns are counted.
pub open spec fn clusters(text: Seq<char>) -> Seq<Seq<char>> {
    grapheme_clusters(text, true)
}

/// The contents of a sequence of strings.
pub open spec fn views_of(parts: Seq<String>) -> Seq<Seq<char>> {
    parts.map_values(|part: String| part@)
}

/// `parts` cuts `text` into consecutive, non-empty pieces.
pub open spec fn is_segmentation(parts: Seq<Seq<char>>, text: Seq<char>) -> bool {
    &&& parts.flatten() == text
    &&& forall|i: int| 0 <= i < parts.len() ==> (#[trigger] parts[i]).len() > 0
}

/// Calls `UnicodeSegmentation::graphemes` on `text` and collects the clusters
/// it yields as owned strings.
///
/// Trusted: the clusters are those named by [`grapheme_clusters`], and, as the
/// iterator hands out consecutive non-empty slices of `text` from its start to
/// its end, they cut `text` into consecutive non-empty pieces.
#[verifier::external_body]
pub(crate) fn graphemes(text: &str, is_extended: bool) -> (parts: Vec<String>)
    ensures
        views_of(parts@) == grapheme_clusters(text@, is_extended),
        is_segmentation(views_of(parts@), text@),
{
    UnicodeSegmentation::graphemes(text, is_extended).map(String::from).collect()
}

/// Calls `String::push`, which appends one character to the end of a string.
#[verifier::external_body]
pub(crate) fn push_char(text: &mut String, c: char)
    ensures
        final(text)@ == old(text)@.push(c),
{
    text.push(c)
}

/// A sequence of pieces flattens to the flattening of any head followed by
/// that of the matching tail.
pub proof fn lemma_flatten_split<A>(parts: Seq<Seq<A>>, at: int)
    requires
        0 <= at <= parts.len(),
    ensures
        parts.flatten() == parts.subrange(0, at).flatten() + parts.subrange(
            at,
            parts.len() as int,
        ).flatten(),
{
    assert(parts =~= parts.subrange(0, at) + parts.subrange(at, parts.len() as int));
    lemma_flatten_concat(parts.subrange(0, at), parts.subrange(at, parts.len() as int));
}

/// No piece of a segmentation of the empty text exists.
pub proof fn lemma_segmentation_of_empty(parts: Seq<Seq<char>>)
    requires
        is_segmentation(parts, Seq::<char>::empty()),
    ensures
        parts.len() == 0,
{
    if parts.len() > 0 {
        assert(parts[0].len() > 0);
        assert(parts.flatten() == parts.first() + parts.drop_first().flatten());
    }
}

/// Joins the strings `parts[from..to]` into one.
pub(crate) fn join(parts: &Vec<String>, from: usize, to: usize) -> (joined: String)
    requires
        from <= to <= parts.len(),
    ensures
        joined@ == views_of(parts@).subrange(from as int, to as int).flatten(),
{
    let mut joined = String::new();
    let mut i: usize = from;
    while i < to
        invariant
            from <= i <= to <= parts.len(),
            joined@ == views_of(parts@).subrange(from as int, i as int).flatten(),
        decreases to - i,
    {
        proof {
            let done = views_of(parts@).subrange(from as int, i as int);
            assert(views_of(parts@).subrange(from as int, i + 1) =~= done.push(parts@[i as int]@));
            done.lemma_flatten_push(parts@[i as int]@);
        }
        joined.append(parts[i].as_str());
        i += 1;
    }
    joined
}

} // verus!
