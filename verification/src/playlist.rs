//! An ordered reading queue of books.

use crate::text::owned;
use vstd::prelude::*;

verus! {

/// The position after a step forward among `n` entries: the next one, or
/// the same at the last entry.
pub open spec fn advanced(i: nat, n: nat) -> nat {
    if i + 1 < n {
        i + 1
    } else {
        i
    }
}

/// The position after a step back: the previous one, or the same at the
/// first position.
pub open spec fn backed(i: nat) -> nat {
    if i > 0 {
        (i - 1) as nat
    } else {
        i
    }
}

/// A book in the playlist.
#[derive(Debug)]
pub struct PlaylistEntry {
    pub path: String,
    pub label: Option<String>,
}

/// An ordered reading queue with a current position.
#[derive(Debug)]
pub struct Playlist {
    pub name: String,
    pub entries: Vec<PlaylistEntry>,
    pub current_index: usize,
}

impl Default for Playlist {
    fn default() -> (r: Playlist)
        ensures
            r.name@.len() == 0,
            r.entries@.len() == 0,
            r.current_index == 0,
    {
        Playlist { name: String::new(), entries: Vec::new(), current_index: 0 }
    }
}

impl Playlist {
    /// An empty playlist with the given name.
    pub fn new(name: &str) -> (r: Playlist)
        ensures
            r.name@ == name@,
            r.entries@.len() == 0,
            r.current_index == 0,
    {
        Playlist { name: owned(name), entries: Vec::new(), current_index: 0 }
    }

    /// Appends a book.
    pub fn add(&mut self, path: String, label: Option<String>)
        ensures
            final(self).entries@ == old(self).entries@.push(PlaylistEntry { path, label }),
            final(self).current_index == old(self).current_index,
            final(self).name == old(self).name,
    {
        self.entries.push(PlaylistEntry { path, label });
    }

    /// Removes the entry at `index`; false when there is none. A current
    /// position past the end moves to the last entry.
    pub fn remove(&mut self, index: usize) -> (r: bool)
        ensures
            r == (index < old(self).entries@.len()),
            final(self).name == old(self).name,
            !r ==> final(self).entries@ == old(self).entries@ && final(self).current_index == old(self).current_index,
            r ==> final(self).entries@ == old(self).entries@.remove(index as int),
            r ==> final(self).current_index == (if old(self).current_index >= final(self).entries@.len() && final(self).entries@.len() > 0 {
                (final(self).entries@.len() - 1) as usize
            } else {
                old(self).current_index
            }),
    {
        if index < self.entries.len() {
            self.entries.remove(index);
            if self.current_index >= self.entries.len() && self.entries.len() > 0 {
                self.current_index = self.entries.len() - 1;
            }
            true
        } else {
            false
        }
    }

    /// Moves the entry at `from` to position `to`, keeping the current
    /// position on the same book. Out-of-range or equal positions change
    /// nothing.
    pub fn move_entry(&mut self, from: usize, to: usize)
        ensures
            final(self).name == old(self).name,
            (from < old(self).entries@.len() && to < old(self).entries@.len() && from != to) ==> final(self).entries@
                == old(self).entries@.remove(from as int).insert(to as int, old(self).entries@[from as int]),
            !(from < old(self).entries@.len() && to < old(self).entries@.len() && from != to) ==> final(self).entries@
                == old(self).entries@ && final(self).current_index == old(self).current_index,
            old(self).current_index < old(self).entries@.len() ==> final(self).current_index < final(self).entries@.len()
                && final(self).entries@[final(self).current_index as int] == old(self).entries@[old(self).current_index as int],
    {
        if from < self.entries.len() && to < self.entries.len() && from != to {
            let entry = self.entries.remove(from);
            self.entries.insert(to, entry);
            if self.current_index == from {
                self.current_index = to;
            } else if from < self.current_index && to >= self.current_index {
                self.current_index = self.current_index - 1;
            } else if from > self.current_index && to <= self.current_index {
                self.current_index = self.current_index + 1;
            }
        }
    }

    /// The current entry, if the position is inside the list.
    pub fn current(&self) -> (r: Option<&PlaylistEntry>)
        ensures
            r is Some <==> self.current_index < self.entries@.len(),
            r matches Some(e) ==> *e == self.entries@[self.current_index as int],
    {
        if self.current_index < self.entries.len() {
            Some(&self.entries[self.current_index])
        } else {
            None
        }
    }

    /// Moves to the next entry and returns it; `None`, without moving, at the
    /// last one.
    pub fn advance(&mut self) -> (r: Option<&PlaylistEntry>)
        ensures
            final(self).entries == old(self).entries,
            final(self).name == old(self).name,
            final(self).current_index == advanced(old(self).current_index as nat, old(self).entries@.len()),
            old(self).current_index + 1 < old(self).entries@.len() ==> (r matches Some(e) && *e == old(self).entries@[old(
                self,
            ).current_index + 1]),
            !(old(self).current_index + 1 < old(self).entries@.len()) ==> r is None,
    {
        if self.entries.len() > 0 && self.current_index < self.entries.len() - 1 {
            self.current_index = self.current_index + 1;
            Some(&self.entries[self.current_index])
        } else {
            None
        }
    }

    /// Moves to the previous entry and returns it; `None`, without moving, at
    /// the first position.
    pub fn go_back(&mut self) -> (r: Option<&PlaylistEntry>)
        ensures
            final(self).entries == old(self).entries,
            final(self).name == old(self).name,
            final(self).current_index == backed(old(self).current_index as nat),
            old(self).current_index > 0 ==> (r is Some <==> old(self).current_index - 1 < old(self).entries@.len())
                && (r matches Some(e) ==> *e == old(self).entries@[old(self).current_index - 1]),
            old(self).current_index == 0 ==> r is None,
    {
        if self.current_index > 0 {
            self.current_index = self.current_index - 1;
            self.current()
        } else {
            None
        }
    }

    /// Number of entries.
    pub fn len(&self) -> (r: usize)
        ensures
            r == self.entries@.len(),
    {
        self.entries.len()
    }

    /// Whether the playlist is empty.
    pub fn is_empty(&self) -> (r: bool)
        ensures
            r == (self.entries@.len() == 0),
    {
        self.entries.len() == 0
    }

    /// Whether an entry follows the current one.
    pub fn has_next(&self) -> (r: bool)
        ensures
            r == (self.current_index + 1 < self.entries@.len()),
    {
        self.entries.len() > 0 && self.current_index < self.entries.len() - 1
    }

    /// Whether an entry precedes the current one.
    pub fn has_prev(&self) -> (r: bool)
        ensures
            r == (self.current_index > 0),
    {
        self.current_index > 0
    }
}


/// A step forward undone by a step back, where there was a next entry,
/// returns to the same position; and a step back undone by a step forward,
/// where there was a previous entry inside the list, does too.
pub proof fn lemma_advance_then_back(i: nat, n: nat)
    ensures
        i + 1 < n ==> backed(advanced(i, n)) == i,
        0 < i < n ==> advanced(backed(i), n) == i,
{
}

} // verus!
