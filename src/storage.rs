//! The history of observations, kept in a backing file.
//!
//! The store holds the whole history in memory. Reading and writing the
//! file is left to the caller: it hands `new` what the file held, and after
//! `add` it writes `history()` back, whole.

use vstd::prelude::*;

use crate::exchange::ExchangeRate;

verus! {

/// The history that opening a store finds, given what its backing file held:
/// `None` when the file was missing or could not be read as a history, which
/// gives an empty history.
pub open spec fn opened_history(stored: Option<Seq<ExchangeRate>>) -> Seq<ExchangeRate> {
    match stored {
        Some(h) => h,
        None => Seq::empty(),
    }
}

pub open spec fn stored_view(stored: Option<Vec<ExchangeRate>>) -> Option<Seq<ExchangeRate>> {
    match stored {
        Some(v) => Some(v@),
        None => None,
    }
}

/// A file-backed, append-only history of observations, oldest first.
pub struct FileStorage {
    storage_file: String,
    history: Vec<ExchangeRate>,
}

impl View for FileStorage {
    type V = Seq<ExchangeRate>;

    /// The history, oldest first.
    closed spec fn view(&self) -> Seq<ExchangeRate> {
        self.history@
    }
}

impl FileStorage {
    /// The path of the backing file.
    pub closed spec fn file(&self) -> Seq<char> {
        self.storage_file@
    }

    /// Opens the store backed by `filepath`, whose contents were read as
    /// `stored` (`None`: missing or unreadable).
    pub fn new(filepath: &str, stored: Option<Vec<ExchangeRate>>) -> (r: FileStorage)
        ensures
            r@ == opened_history(stored_view(stored)),
            r.file() == filepath@,
    {
        let history = match stored {
            Some(h) => h,
            None => Vec::new(),
        };
        FileStorage { storage_file: filepath.to_owned(), history }
    }

    /// Replaces the history with what the backing file holds now.
    pub fn load_storage(&mut self, stored: Option<Vec<ExchangeRate>>)
        ensures
            final(self)@ == opened_history(stored_view(stored)),
            final(self).file() == old(self).file(),
    {
        self.history = match stored {
            Some(h) => h,
            None => Vec::new(),
        };
    }

    /// Appends one observation at the end of the history; the caller then
    /// rewrites the backing file with `history()`.
    pub fn add(&mut self, exchange_rate: ExchangeRate)
        ensures
            final(self)@ == old(self)@.push(exchange_rate),
            final(self).file() == old(self).file(),
    {
        self.history.push(exchange_rate);
    }

    pub fn history(&self) -> (r: &[ExchangeRate])
        ensures
            r@ == self@,
    {
        self.history.as_slice()
    }

    pub fn storage_file(&self) -> (r: &str)
        ensures
            r@ == self.file(),
    {
        self.storage_file.as_str()
    }
}

/// Re-opening the store from what it saved after an `add` gives back the
/// history that the `add` left in memory, element for element: the history
/// from before, then the new observation.
pub proof fn lemma_reopen_after_add(
    before: FileStorage,
    after: FileStorage,
    reopened: FileStorage,
    o: ExchangeRate,
)
    requires
        after@ == before@.push(o),
        reopened@ == opened_history(Some(after@)),
    ensures
        reopened@ == after@,
        reopened@.len() == before@.len() + 1,
        reopened@.last() == o,
        reopened@.drop_last() == before@,
{
    assert(before@.push(o).drop_last() =~= before@);
}

/// Opening a store whose file is missing gives the empty history, each time.
pub proof fn lemma_open_missing(first: FileStorage, second: FileStorage)
    requires
        first@ == opened_history(None),
        second@ == opened_history(None),
    ensures
        first@ == Seq::<ExchangeRate>::empty(),
        first@ == second@,
{
}

} // verus!
