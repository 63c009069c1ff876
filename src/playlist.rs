//! An ordered sequence of tracks with a cursor that always points into it
//! while it is non-empty.
use vstd::prelude::*;
use crate::track::Track;

verus! {

/// Which way `advance` moves the cursor.
#[derive(Clone, Copy, Debug, PartialEq, Eq, Structural)]
pub enum Direction {
    Next,
    Prev,
}

/// A cursor move, as the playlist receives it.
#[derive(Clone, Copy, Debug, PartialEq, Eq, Structural)]
pub enum CursorMove {
    Advance(Direction),
    Select(usize),
}

/// Why a playlist operation was refused.
#[derive(Clone, Copy, Debug, PartialEq, Eq, Structural)]
pub enum PlaylistError {
    /// `select` was given an index at or past the end.
    IndexOutOfRange,
}

/// The index that one step in `dir` leads to from `i`, on `n` entries,
/// wrapping at both ends.
pub open spec fn stepped(dir: Direction, i: nat, n: nat) -> nat {
    match dir {
        Direction::Next => if i + 1 >= n { 0 } else { i + 1 },
        Direction::Prev => if i == 0 { (n - 1) as nat } else { (i - 1) as nat },
    }
}

/// The cursor after one move, on `n` entries: a refused or empty-playlist
/// move leaves it where it was.
pub open spec fn moved(m: CursorMove, i: nat, n: nat) -> nat {
    if n == 0 {
        i
    } else {
        match m {
            CursorMove::Advance(dir) => stepped(dir, i, n),
            CursorMove::Select(idx) => if idx < n { idx as nat } else { i },
        }
    }
}

/// The cursor after a whole sequence of moves, applied in order.
pub open spec fn moved_all(ms: Seq<CursorMove>, i: nat, n: nat) -> nat
    decreases ms.len(),
{
    if ms.len() == 0 {
        i
    } else {
        moved_all(ms.drop_first(), moved(ms[0], i, n), n)
    }
}

pub struct Playlist {
    tracks: Vec<Track>,
    cursor: usize,
}

impl Playlist {
    /// The tracks, in order.
    pub closed spec fn entries(&self) -> Seq<Track> {
        self.tracks@
    }

    /// The cursor position; 0 and meaningless while the playlist is empty.
    pub closed spec fn pos(&self) -> nat {
        self.cursor as nat
    }

    pub open spec fn wf(&self) -> bool {
        if self.entries().len() == 0 {
            self.pos() == 0
        } else {
            self.pos() < self.entries().len()
        }
    }

    pub fn new() -> (r: Playlist)
        ensures
            r.wf(),
            r.entries().len() == 0,
    {
        Playlist { tracks: Vec::new(), cursor: 0 }
    }

    /// A playlist over `tracks` with the cursor on the first one.
    pub fn from_tracks(tracks: Vec<Track>) -> (r: Playlist)
        ensures
            r.wf(),
            r.entries() == tracks@,
            r.pos() == 0,
    {
        Playlist { tracks, cursor: 0 }
    }

    /// Replaces the sequence and puts the cursor back on the first entry.
    pub fn set(&mut self, tracks: Vec<Track>)
        ensures
            final(self).wf(),
            final(self).entries() == tracks@,
            final(self).pos() == 0,
    {
        self.tracks = tracks;
        self.cursor = 0;
    }

    pub fn len(&self) -> (r: usize)
        ensures
            r == self.entries().len(),
    {
        self.tracks.len()
    }

    pub fn is_empty(&self) -> (r: bool)
        ensures
            r == (self.entries().len() == 0),
    {
        self.tracks.len() == 0
    }

    /// The cursor, or `None` while the playlist is empty.
    pub fn cursor(&self) -> (r: Option<usize>)
        requires
            self.wf(),
        ensures
            r is None <==> self.entries().len() == 0,
            r matches Some(c) ==> c as nat == self.pos(),
    {
        if self.tracks.len() == 0 {
            None
        } else {
            Some(self.cursor)
        }
    }

    /// The entry at `index`, if there is one.
    pub fn get(&self, index: usize) -> (r: Option<&Track>)
        ensures
            r == (if index < self.entries().len() { Some(&self.entries()[index as int]) } else { None::<&Track> }),
    {
        if index < self.tracks.len() {
            Some(&self.tracks[index])
        } else {
            None
        }
    }

    /// The entry under the cursor, or `None` while the playlist is empty.
    pub fn current(&self) -> (r: Option<&Track>)
        requires
            self.wf(),
        ensures
            r == (if self.entries().len() == 0 { None::<&Track> } else { Some(&self.entries()[self.pos() as int]) }),
    {
        self.get(self.cursor)
    }

    /// Moves the cursor one step in `dir`, wrapping at both ends; nothing
    /// happens on an empty playlist.
    pub fn advance(&mut self, dir: Direction)
        requires
            old(self).wf(),
        ensures
            final(self).wf(),
            final(self).entries() == old(self).entries(),
            final(self).pos() == moved(CursorMove::Advance(dir), old(self).pos(), old(self).entries().len()),
    {
        let n = self.tracks.len();
        if n == 0 {
            return;
        }
        match dir {
            Direction::Next => {
                if self.cursor + 1 >= n {
                    self.cursor = 0;
                } else {
                    self.cursor = self.cursor + 1;
                }
            },
            Direction::Prev => {
                if self.cursor == 0 {
                    self.cursor = n - 1;
                } else {
                    self.cursor = self.cursor - 1;
                }
            },
        }
    }

    /// Puts the cursor on `index`; refused, with nothing changed, when
    /// `index` is not below the length.
    pub fn select(&mut self, index: usize) -> (r: Result<(), PlaylistError>)
        requires
            old(self).wf(),
        ensures
            final(self).wf(),
            final(self).entries() == old(self).entries(),
            r is Err <==> index >= old(self).entries().len(),
            r matches Err(e) ==> e == PlaylistError::IndexOutOfRange,
            final(self).pos() == (if r is Ok { index as nat } else { old(self).pos() }),
    {
        if index >= self.tracks.len() {
            Err(PlaylistError::IndexOutOfRange)
        } else {
            self.cursor = index;
            Ok(())
        }
    }

    /// Applies one cursor move; a refused `Select` changes nothing.
    pub fn apply(&mut self, m: CursorMove) -> (r: Result<(), PlaylistError>)
        requires
            old(self).wf(),
        ensures
            final(self).wf(),
            final(self).entries() == old(self).entries(),
            final(self).pos() == moved(m, old(self).pos(), old(self).entries().len()),
            r is Err <==> (m matches CursorMove::Select(i) && i >= old(self).entries().len()),
    {
        match m {
            CursorMove::Advance(dir) => {
                self.advance(dir);
                Ok(())
            },
            CursorMove::Select(i) => self.select(i),
        }
    }
}

/// Whatever sequence of advances and selections is applied to a non-empty
/// playlist, the cursor stays a valid index.
pub proof fn lemma_cursor_stays_in_range(ms: Seq<CursorMove>, i: nat, n: nat)
    requires
        i < n,
    ensures
        moved_all(ms, i, n) < n,
    decreases ms.len(),
{
    if ms.len() > 0 {
        lemma_cursor_stays_in_range(ms.drop_first(), moved(ms[0], i, n), n);
    }
}

/// `Next` from the last index goes to the first; `Prev` from the first goes
/// to the last.
pub proof fn lemma_wraparound(n: nat)
    requires
        n > 0,
    ensures
        moved(CursorMove::Advance(Direction::Next), (n - 1) as nat, n) == 0,
        moved(CursorMove::Advance(Direction::Prev), 0, n) == n - 1,
{
}

} // verus!
