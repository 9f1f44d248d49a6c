use vstd::prelude::*;

use crate::text::str_eq;
use crate::track::Track;

verus! {

/// The music library: where it lives, what it is called, and the tracks the
/// last directory scan found. Scanning itself is the caller's work; the
/// library holds its result.
pub struct Library {
    pub path: String,
    pub name: String,
    pub tracks: Vec<Track>,
}

impl Library {
    pub fn new(path: String, name: String) -> (r: Library)
        ensures
            r.path == path,
            r.name == name,
            r.tracks@ == Seq::<Track>::empty(),
    {
        Library { path, name, tracks: Vec::new() }
    }

    /// The scanned tracks, borrowed.
    pub fn tracks(&self) -> (r: &Vec<Track>)
        ensures
            r@ == self.tracks@,
    {
        &self.tracks
    }

    /// The scanned tracks, copied for a caller that keeps them.
    pub fn tracks_cloned(&self) -> (r: Vec<Track>)
        ensures
            r@ == self.tracks@,
    {
        clone_tracks(&self.tracks)
    }

    /// The first track carrying the id, copied; nothing when the id is
    /// unknown.
    pub fn track_by_id(&self, track_id: &str) -> (r: Option<Track>)
        ensures
            match r {
                Option::Some(t) => exists|i: int|
                    0 <= i < self.tracks@.len() && self.tracks@[i] == t && self.tracks@[i].id@
                        == track_id@,
                Option::None => forall|i: int|
                    0 <= i < self.tracks@.len() ==> self.tracks@[i].id@ != track_id@,
            },
    {
        let n = self.tracks.len();
        let mut i: usize = 0;
        while i < n
            invariant
                i <= n,
                n == self.tracks@.len(),
                forall|j: int| 0 <= j < i ==> self.tracks@[j].id@ != track_id@,
            decreases n - i,
        {
            if str_eq(self.tracks[i].id.as_str(), track_id) {
                return Some(self.tracks[i].clone());
            }
            i = i + 1;
        }
        None
    }

    /// Renames or relocates the library; a missing part stays as it was.
    pub fn update(&mut self, path: Option<String>, name: Option<String>)
        ensures
            final(self).path == (match path {
                Option::Some(p) => p,
                Option::None => old(self).path,
            }),
            final(self).name == (match name {
                Option::Some(n) => n,
                Option::None => old(self).name,
            }),
            final(self).tracks@ == old(self).tracks@,
    {
        match path {
            Option::Some(p) => {
                self.path = p;
            },
            Option::None => {},
        }
        match name {
            Option::Some(n) => {
                self.name = n;
            },
            Option::None => {},
        }
    }

    /// Takes a fresh scan's result as the library's tracks.
    pub fn replace_tracks(&mut self, tracks: Vec<Track>)
        ensures
            final(self).tracks@ == tracks@,
            final(self).path == old(self).path,
            final(self).name == old(self).name,
    {
        self.tracks = tracks;
    }
}

/// An owned copy of a track list, element for element.
pub fn clone_tracks(tracks: &Vec<Track>) -> (r: Vec<Track>)
    ensures
        r@ == tracks@,
{
    let r = tracks.clone();
    proof {
        assert forall|i: int| 0 <= i < r@.len() implies r@[i] == tracks@[i] by {
            assert(cloned::<Track>(tracks@[i], r@[i]));
        }
        assert(r@ =~= tracks@);
    }
    r
}

} // verus!
