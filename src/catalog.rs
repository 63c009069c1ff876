//! The library catalog: artists, albums and tracks, each deduplicated by its
//! natural key. Re-indexing a path replaces its attributes and keeps its id.
use vstd::prelude::*;
use crate::paths::{file_stem, stem_of};
use crate::track::Track;

verus! {

/// Metadata read from one audio file; every field may be absent.
pub struct TagInfo {
    pub title: Option<String>,
    pub artist: Option<String>,
    pub album: Option<String>,
    pub duration: u32,
    pub track_number: Option<u32>,
    pub year: Option<u32>,
    pub genre: Option<String>,
}

/// One file met by a directory scan: its path, and its tags, or `None`
/// where they could not be read (such a file is skipped).
pub struct ScannedFile {
    pub path: String,
    pub tags: Option<TagInfo>,
}

/// Why the catalog refused a change.
#[derive(Clone, Copy, Debug, PartialEq, Eq, Structural)]
pub enum CatalogError {
    /// No further track id can be handed out.
    Full,
}

/// An album, keyed by its title and the index of its artist.
pub struct Album {
    pub title: String,
    pub artist: usize,
}

/// The largest number of tracks the catalog holds, so that ids `1..=MAX_TRACKS`
/// fit an `i64` and every index fits a `usize` on any target.
pub const MAX_TRACKS: usize = 0x7fff_fffe;

pub open spec fn text_or(o: Option<String>, fallback: Seq<char>) -> Seq<char> {
    match o {
        Some(s) => s@,
        None => fallback,
    }
}

/// The artist name that a file with `tags` is filed under.
pub open spec fn artist_name_of(tags: TagInfo) -> Seq<char> {
    text_or(tags.artist, "Unknown Artist"@)
}

/// The album title that a file with `tags` is filed under.
pub open spec fn album_title_of(tags: TagInfo) -> Seq<char> {
    text_or(tags.album, "Unknown Album"@)
}

/// Whether `t` is the catalog entry for `path` with `tags` and id `id`.
pub open spec fn is_entry(t: Track, id: i64, path: Seq<char>, tags: TagInfo) -> bool {
    &&& t.id == id
    &&& t.path@ == path
    &&& t.title@ == text_or(tags.title, stem_of(path))
    &&& t.artist@ == artist_name_of(tags)
    &&& t.album@ == album_title_of(tags)
    &&& t.duration == tags.duration
    &&& t.track_number == tags.track_number
    &&& t.year == tags.year
    &&& t.genre == tags.genre
}

pub open spec fn has_path(ts: Seq<Track>, p: Seq<char>) -> bool {
    exists|k: int| 0 <= k < ts.len() && (#[trigger] ts[k]).path@ == p
}

/// Whether every file of `files` whose tags were read is in `ts`, or the
/// catalog is full.
pub open spec fn covers(ts: Seq<Track>, files: Seq<ScannedFile>) -> bool {
    forall|i: int| 0 <= i < files.len() && (#[trigger] files[i]).tags is Some
        ==> has_path(ts, files[i].path@) || ts.len() >= MAX_TRACKS
}

pub struct Catalog {
    artists: Vec<String>,
    albums: Vec<Album>,
    tracks: Vec<Track>,
}

impl Catalog {
    /// The artist names, in order of first appearance.
    pub closed spec fn artist_names(&self) -> Seq<Seq<char>> {
        self.artists@.map_values(|a: String| a@)
    }

    /// The album keys (title, artist index), in order of first appearance.
    pub closed spec fn album_keys(&self) -> Seq<(Seq<char>, nat)> {
        self.albums@.map_values(|a: Album| (a.title@, a.artist as nat))
    }

    /// The tracks, in order of first indexing.
    pub closed spec fn entries(&self) -> Seq<Track> {
        self.tracks@
    }

    pub open spec fn wf(&self) -> bool {
        let ts = self.entries();
        let ar = self.artist_names();
        let al = self.album_keys();
        &&& ts.len() <= MAX_TRACKS
        &&& forall|k: int| 0 <= k < ts.len() ==> (#[trigger] ts[k]).id == k + 1
        &&& forall|j: int, k: int| 0 <= j < k < ts.len() ==> ts[j].path@ != ts[k].path@
        &&& forall|j: int, k: int| 0 <= j < k < ar.len() ==> ar[j] != ar[k]
        &&& forall|j: int, k: int| 0 <= j < k < al.len() ==> al[j] != al[k]
        &&& forall|k: int| 0 <= k < al.len() ==> (#[trigger] al[k]).1 < ar.len()
    }

    pub fn new() -> (r: Catalog)
        ensures
            r.wf(),
            r.entries().len() == 0,
            r.artist_names().len() == 0,
            r.album_keys().len() == 0,
    {
        let r = Catalog { artists: Vec::new(), albums: Vec::new(), tracks: Vec::new() };
        assert(r.artist_names().len() == 0);
        assert(r.album_keys().len() == 0);
        r
    }

    pub fn len(&self) -> (r: usize)
        ensures
            r == self.entries().len(),
    {
        self.tracks.len()
    }

    /// The index of the track with path `p`, if there is one.
    pub fn find_path(&self, p: &String) -> (r: Option<usize>)
        requires
            self.wf(),
        ensures
            r is None <==> !has_path(self.entries(), p@),
            r matches Some(k) ==> k < self.entries().len() && self.entries()[k as int].path@ == p@,
    {
        let mut k: usize = 0;
        while k < self.tracks.len()
            invariant
                k <= self.tracks@.len(),
                forall|j: int| 0 <= j < k ==> (#[trigger] self.tracks@[j]).path@ != p@,
            decreases self.tracks@.len() - k,
        {
            if self.tracks[k].path == *p {
                return Some(k);
            }
            k = k + 1;
        }
        None
    }

    /// The index of the artist called `name`, added if absent.
    fn artist_index(&mut self, name: String) -> (r: usize)
        requires
            old(self).wf(),
        ensures
            final(self).wf(),
            final(self).entries() == old(self).entries(),
            final(self).album_keys() == old(self).album_keys(),
            r < final(self).artist_names().len(),
            final(self).artist_names()[r as int] == name@,
            old(self).artist_names().contains(name@) ==> final(self).artist_names() == old(self).artist_names(),
            !old(self).artist_names().contains(name@) ==> final(self).artist_names() == old(self).artist_names().push(name@),
    {
        let mut k: usize = 0;
        while k < self.artists.len()
            invariant
                k <= self.artists@.len(),
                *self == *old(self),
                self.wf(),
                forall|j: int| 0 <= j < k ==> (#[trigger] self.artists@[j])@ != name@,
            decreases self.artists@.len() - k,
        {
            if self.artists[k] == name {
                assert(self.artist_names()[k as int] == name@);
                return k;
            }
            k = k + 1;
        }
        assert(!old(self).artist_names().contains(name@)) by {
            if old(self).artist_names().contains(name@) {
                let j = choose|j: int| 0 <= j < old(self).artist_names().len() && old(self).artist_names()[j] == name@;
                assert(self.artists@[j]@ == name@);
            }
        }
        let ghost before = self.artist_names();
        let ghost albums = self.album_keys();
        self.artists.push(name);
        assert(self.album_keys() == albums);
        assert(self.artist_names() =~= before.push(name@));
        assert forall|j: int, i: int| 0 <= j < i < self.artist_names().len()
            implies self.artist_names()[j] != self.artist_names()[i] by {
            if i == before.len() {
                assert(before[j] != name@) by {
                    if before[j] == name@ {
                        assert(before.contains(name@));
                    }
                }
            }
        }
        k
    }

    /// The index of the album `title` by artist `artist`, added if absent.
    fn album_index(&mut self, title: String, artist: usize) -> (r: usize)
        requires
            old(self).wf(),
            artist < old(self).artist_names().len(),
        ensures
            final(self).wf(),
            final(self).entries() == old(self).entries(),
            final(self).artist_names() == old(self).artist_names(),
            r < final(self).album_keys().len(),
            final(self).album_keys()[r as int] == (title@, artist as nat),
            old(self).album_keys().contains((title@, artist as nat)) ==> final(self).album_keys() == old(self).album_keys(),
            !old(self).album_keys().contains((title@, artist as nat)) ==> final(self).album_keys() == old(self).album_keys().push((title@, artist as nat)),
    {
        let ghost key = (title@, artist as nat);
        let mut k: usize = 0;
        while k < self.albums.len()
            invariant
                k <= self.albums@.len(),
                *self == *old(self),
                self.wf(),
                forall|j: int| 0 <= j < k ==> (#[trigger] self.album_keys()[j]) != key,
                key == (title@, artist as nat),
                self.album_keys().len() == self.albums@.len(),
            decreases self.albums@.len() - k,
        {
            if self.albums[k].artist == artist && self.albums[k].title == title {
                assert(self.album_keys()[k as int] == key);
                return k;
            }
            assert(self.album_keys()[k as int] == (self.albums@[k as int].title@, self.albums@[k as int].artist as nat));
            k = k + 1;
        }
        let ghost before = self.album_keys();
        self.albums.push(Album { title, artist });
        assert(self.album_keys() =~= before.push(key));
        k
    }

    /// Indexes one file: resolves or adds its artist and album, and writes
    /// its entry, in place of the entry with the same path if there is one.
    /// Returns the entry's id; refused, with nothing changed, when the path
    /// is new and the catalog is full.
    pub fn upsert_track(&mut self, path: &String, tags: &TagInfo) -> (r: Result<i64, CatalogError>)
        requires
            old(self).wf(),
        ensures
            final(self).wf(),
            keeps_rows(old(self).entries(), final(self).entries()),
            r is Err <==> (!has_path(old(self).entries(), path@) && old(self).entries().len() >= MAX_TRACKS),
            r is Err ==> final(self).entries() == old(self).entries(),
            has_path(old(self).entries(), path@) ==> final(self).entries().len() == old(self).entries().len(),
            !has_path(old(self).entries(), path@) && r is Ok ==> final(self).entries().len() == old(self).entries().len() + 1,
            r matches Ok(id) ==> 1 <= id <= final(self).entries().len()
                && is_entry(final(self).entries()[id - 1], id, path@, *tags)
                && final(self).artist_names().contains(artist_name_of(*tags))
                && final(self).album_keys().contains((
                    album_title_of(*tags),
                    index_of(final(self).artist_names(), artist_name_of(*tags)),
                )),
            r matches Ok(id) ==> forall|k: int| 0 <= k < final(self).entries().len() && k != id - 1
                ==> #[trigger] final(self).entries()[k] == old(self).entries()[k],
    {
        let found = self.find_path(path);
        if found.is_none() && self.tracks.len() >= MAX_TRACKS {
            return Err(CatalogError::Full);
        }
        let artist = copy_or(&tags.artist, "Unknown Artist");
        let album = copy_or(&tags.album, "Unknown Album");
        let title = match &tags.title {
            Some(t) => t.clone(),
            None => file_stem(path.as_str()),
        };
        let ai = self.artist_index(artist.clone());
        let _ = self.album_index(album.clone(), ai);
        proof {
            lemma_index_of_unique(self.artist_names(), ai as int);
        }
        let k: usize = match found {
            Some(k) => k,
            None => self.tracks.len(),
        };
        let id: i64 = (k + 1) as i64;
        let entry = Track {
            id,
            path: path.clone(),
            title,
            artist,
            album,
            duration: tags.duration,
            track_number: tags.track_number,
            year: tags.year,
            genre: copy_text(&tags.genre),
        };
        let ghost before = self.entries();
        if k < self.tracks.len() {
            self.tracks[k] = entry;
            assert forall|j: int, i: int| 0 <= j < i < self.entries().len()
                implies self.entries()[j].path@ != self.entries()[i].path@ by {
                assert(before[k as int].path@ == path@);
            }
        } else {
            self.tracks.push(entry);
            assert forall|j: int, i: int| 0 <= j < i < self.entries().len()
                implies self.entries()[j].path@ != self.entries()[i].path@ by {
                if i == before.len() {
                    assert(before[j].path@ != path@);
                }
            }
        }
        Ok(id)
    }

    /// Indexes the files of one scan, in order. A file whose tags could not
    /// be read is skipped, and so is a new file once the catalog is full;
    /// the others are written as by `upsert_track`. The result holds, for
    /// each file, its entry's id, or `None` where it was skipped.
    pub fn ingest(&mut self, files: &Vec<ScannedFile>) -> (r: Vec<Option<i64>>)
        requires
            old(self).wf(),
        ensures
            final(self).wf(),
            ingested(old(self).entries(), files@, final(self).entries()),
            r@.len() == files@.len(),
            forall|i: int| 0 <= i < r@.len() ==> (#[trigger] r@[i] is None <==> (files@[i].tags is None
                || (!has_path(final(self).entries(), files@[i].path@) && final(self).entries().len() >= MAX_TRACKS))),
            forall|i: int| 0 <= i < r@.len() ==> (#[trigger] r@[i] matches Some(id) ==>
                1 <= id <= final(self).entries().len() && final(self).entries()[id - 1].path@ == files@[i].path@),
    {
        let mut r: Vec<Option<i64>> = Vec::new();
        let mut i: usize = 0;
        while i < files.len()
            invariant
                self.wf(),
                i <= files@.len(),
                r@.len() == i,
                keeps_rows(old(self).entries(), self.entries()),
                covers(old(self).entries(), files@) ==> self.entries().len() == old(self).entries().len(),
                forall|j: int| 0 <= j < i && (#[trigger] files@[j]).tags is Some
                    ==> has_path(self.entries(), files@[j].path@) || self.entries().len() >= MAX_TRACKS,
                forall|j: int| 0 <= j < i ==> (#[trigger] r@[j] is None <==> (files@[j].tags is None
                    || (!has_path(self.entries(), files@[j].path@) && self.entries().len() >= MAX_TRACKS))),
                forall|j: int| 0 <= j < i ==> (#[trigger] r@[j] matches Some(id) ==>
                    1 <= id <= self.entries().len() && self.entries()[id - 1].path@ == files@[j].path@),
            decreases files@.len() - i,
        {
            let f = &files[i];
            let ghost mid = self.entries();
            match &f.tags {
                None => {
                    r.push(None);
                },
                Some(tags) => {
                    let res = self.upsert_track(&f.path, tags);
                    match res {
                        Ok(id) => r.push(Some(id)),
                        Err(_) => r.push(None),
                    }
                },
            }
            proof {
                lemma_keeps_rows_paths(mid, self.entries());
                lemma_keeps_rows_trans(old(self).entries(), mid, self.entries());
                if covers(old(self).entries(), files@) && files@[i as int].tags is Some {
                    if !has_path(old(self).entries(), files@[i as int].path@) {
                        assert(old(self).entries().len() >= MAX_TRACKS);
                    } else {
                        let k = choose|k: int| 0 <= k < old(self).entries().len()
                            && (#[trigger] old(self).entries()[k]).path@ == files@[i as int].path@;
                        assert(mid[k].path@ == files@[i as int].path@);
                    }
                }
                if files@[i as int].tags is Some && r@[i as int] is Some {
                    let id = r@[i as int]->Some_0;
                    assert(self.entries()[id - 1].path@ == files@[i as int].path@);
                }
            }
            i = i + 1;
        }
        proof {
            assert forall|j: int| 0 <= j < files@.len() && (#[trigger] files@[j]).tags is Some
                implies has_path(self.entries(), files@[j].path@) || self.entries().len() >= MAX_TRACKS by {
            }
        }
        r
    }

    /// A snapshot of every entry, in catalog order.
    pub fn get_all_tracks(&self) -> (r: Vec<Track>)
        ensures
            r@ == self.entries(),
    {
        let mut r: Vec<Track> = Vec::new();
        let mut k: usize = 0;
        while k < self.tracks.len()
            invariant
                k <= self.tracks@.len(),
                r@ == self.tracks@.subrange(0, k as int),
            decreases self.tracks@.len() - k,
        {
            r.push(copy_track(&self.tracks[k]));
            k = k + 1;
        }
        assert(r@ =~= self.tracks@);
        r
    }
}

/// The first position of `x` in `s`.
pub open spec fn index_of(s: Seq<Seq<char>>, x: Seq<char>) -> nat {
    choose|k: nat| k < s.len() && s[k as int] == x
}

proof fn lemma_index_of_unique(s: Seq<Seq<char>>, k: int)
    requires
        0 <= k < s.len(),
        forall|j: int, i: int| 0 <= j < i < s.len() ==> s[j] != s[i],
    ensures
        index_of(s, s[k]) == k,
{
    let w = k as nat;
    assert(w < s.len() && s[w as int] == s[k]);
    let c = index_of(s, s[k]);
    assert(c < s.len() && s[c as int] == s[k]);
}

/// Every row of `before` is still in `after`, at its place, with its id and
/// path; rows are only added at the end.
pub open spec fn keeps_rows(before: Seq<Track>, after: Seq<Track>) -> bool {
    &&& before.len() <= after.len()
    &&& forall|k: int| 0 <= k < before.len() ==> (#[trigger] after[k]).id == before[k].id
        && after[k].path@ == before[k].path@
}

/// What a scan of `files` guarantees of the catalog's rows, from `before`
/// to `after`: old rows kept, every readable file present (unless the
/// catalog is full), and no row added when every readable file was already
/// present.
pub open spec fn ingested(before: Seq<Track>, files: Seq<ScannedFile>, after: Seq<Track>) -> bool {
    &&& keeps_rows(before, after)
    &&& covers(after, files)
    &&& (covers(before, files) ==> after.len() == before.len())
    &&& after.len() <= MAX_TRACKS
    &&& forall|k: int| 0 <= k < after.len() ==> (#[trigger] after[k]).id == k + 1
}

proof fn lemma_keeps_rows_paths(before: Seq<Track>, after: Seq<Track>)
    requires
        keeps_rows(before, after),
    ensures
        forall|p: Seq<char>| has_path(before, p) ==> #[trigger] has_path(after, p),
{
    assert forall|p: Seq<char>| has_path(before, p) implies #[trigger] has_path(after, p) by {
        let k = choose|k: int| 0 <= k < before.len() && (#[trigger] before[k]).path@ == p;
        assert(after[k].path@ == p);
    }
}

proof fn lemma_keeps_rows_trans(a: Seq<Track>, b: Seq<Track>, c: Seq<Track>)
    requires
        keeps_rows(a, b),
        keeps_rows(b, c),
    ensures
        keeps_rows(a, c),
{
}

/// Scanning the same files twice leaves the second scan with the rows of
/// the first: the same number, the same ids, the same paths.
pub proof fn lemma_rescan_idempotent(
    start: Seq<Track>,
    files: Seq<ScannedFile>,
    first: Seq<Track>,
    second: Seq<Track>,
)
    requires
        ingested(start, files, first),
        ingested(first, files, second),
    ensures
        second.len() == first.len(),
        forall|k: int| 0 <= k < second.len() ==> (#[trigger] second[k]).id == first[k].id
            && second[k].path@ == first[k].path@,
{
}

fn copy_text(o: &Option<String>) -> (r: Option<String>)
    ensures
        r == *o,
{
    match o {
        Some(s) => Some(s.clone()),
        None => None,
    }
}

fn copy_or(o: &Option<String>, fallback: &str) -> (r: String)
    ensures
        r@ == text_or(*o, fallback@),
{
    match o {
        Some(s) => s.clone(),
        None => fallback.to_owned(),
    }
}

fn copy_track(t: &Track) -> (r: Track)
    ensures
        r == *t,
{
    Track {
        id: t.id,
        path: t.path.clone(),
        title: t.title.clone(),
        artist: t.artist.clone(),
        album: t.album.clone(),
        duration: t.duration,
        track_number: t.track_number,
        year: t.year,
        genre: copy_text(&t.genre),
    }
}

} // verus!
