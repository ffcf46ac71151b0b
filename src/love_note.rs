//! A short note picked at random from a list, one note per line.

use rand::Rng;
use vstd::prelude::*;

use crate::text::{lemma_pieces_len, pieces_of, split_on, trim, trimmed, views};

verus! {

/// A note to close a notification with.
pub struct LoveNote {
    pub message: String,
}

/// The notes that a list holds: its lines, once the whitespace around the
/// whole list is trimmed.
pub open spec fn notes_of(content: Seq<char>) -> Seq<Seq<char>> {
    pieces_of(trimmed(content), '\n')
}

/// Relies on rand's `Rng::gen_range` on `thread_rng()`: a number drawn from
/// `0..n` (it panics when that range is empty).
#[verifier::external_body]
fn random_index(n: usize) -> (r: usize)
    requires
        n > 0,
    ensures
        r < n,
{
    rand::thread_rng().gen_range(0..n)
}

impl LoveNote {
    /// The notes of `content`, in order.
    pub fn notes(content: &str) -> (r: Vec<String>)
        ensures
            views(r@) == notes_of(content@),
    {
        split_on(trim(content), '\n')
    }

    /// The note at `index`; `None` when there are not that many notes.
    pub fn pick(notes: &Vec<String>, index: usize) -> (r: Option<LoveNote>)
        ensures
            r is Some <==> index < notes@.len(),
            r matches Some(n) ==> n.message@ == notes@[index as int]@,
    {
        if index < notes.len() {
            Some(LoveNote { message: notes[index].clone() })
        } else {
            None
        }
    }

    /// A note of `content` picked at random. There always is one: a list
    /// without newlines is a single note.
    pub fn new(content: &str) -> (r: LoveNote)
        ensures
            exists|i: int| 0 <= i < notes_of(content@).len() && r.message@ == notes_of(content@)[i],
    {
        let notes = LoveNote::notes(content);
        proof {
            lemma_pieces_len(trimmed(content@), '\n');
        }
        let index = random_index(notes.len());
        assert(views(notes@)[index as int] == notes@[index as int]@);
        LoveNote::pick(&notes, index).unwrap()
    }
}

} // verus!
