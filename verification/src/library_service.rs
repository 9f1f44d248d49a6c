use vstd::prelude::*;

use crate::errors::PlayerError;
use vstd::multiset::Multiset;
use crate::library::Library;
use crate::text::str_eq;
use crate::track::Track;

verus! {

/// The album a track files under: its tagged album, or "Unknown Album".
pub open spec fn album_of(t: Track) -> Seq<char> {
    match t.metadata {
        Option::Some(m) => match m.album {
            Option::Some(a) => a@,
            Option::None => "Unknown Album"@,
        },
        Option::None => "Unknown Album"@,
    }
}

/// The artist a track files under: its album artist, else its artist, else
/// "Unknown Artist".
pub open spec fn artist_of(t: Track) -> Seq<char> {
    match t.metadata {
        Option::Some(m) => match m.album_artist {
            Option::Some(a) => a@,
            Option::None => match m.artist {
                Option::Some(a) => a@,
                Option::None => "Unknown Artist"@,
            },
        },
        Option::None => "Unknown Artist"@,
    }
}

/// The number a track sorts by within an album; untagged tracks count as 0.
pub open spec fn track_number_of(t: Track) -> int {
    match t.metadata {
        Option::Some(m) => match m.track_number {
            Option::Some(n) => n as int,
            Option::None => 0,
        },
        Option::None => 0,
    }
}

/// Filing under the given album name.
pub open spec fn has_album(album: Seq<char>) -> spec_fn(Track) -> bool {
    |t: Track| album_of(t) == album
}

/// Filing under the given artist name.
pub open spec fn has_artist(artist: Seq<char>) -> spec_fn(Track) -> bool {
    |t: Track| artist_of(t) == artist
}

/// Nondecreasing track numbers.
pub open spec fn sorted_by_track_number(s: Seq<Track>) -> bool {
    forall|i: int, j: int|
        0 <= i < j < s.len() ==> track_number_of(s[i]) <= track_number_of(s[j])
}

/// One album and the tracks filed under it, in library order.
#[derive(Debug)]
pub struct AlbumGroup {
    pub album: String,
    pub tracks: Vec<Track>,
}

/// One artist and that artist's albums.
#[derive(Debug)]
pub struct ArtistGroup {
    pub artist: String,
    pub albums: Vec<AlbumGroup>,
}

fn album_name(t: &Track) -> (r: String)
    ensures
        r@ == album_of(*t),
{
    match &t.metadata {
        Option::Some(m) => match &m.album {
            Option::Some(a) => a.clone(),
            Option::None => "Unknown Album".to_owned(),
        },
        Option::None => "Unknown Album".to_owned(),
    }
}

fn artist_name(t: &Track) -> (r: String)
    ensures
        r@ == artist_of(*t),
{
    match &t.metadata {
        Option::Some(m) => match &m.album_artist {
            Option::Some(a) => a.clone(),
            Option::None => match &m.artist {
                Option::Some(a) => a.clone(),
                Option::None => "Unknown Artist".to_owned(),
            },
        },
        Option::None => "Unknown Artist".to_owned(),
    }
}

fn track_number(t: &Track) -> (r: i32)
    ensures
        r as int == track_number_of(*t),
{
    match &t.metadata {
        Option::Some(m) => match &m.track_number {
            Option::Some(n) => *n,
            Option::None => 0,
        },
        Option::None => 0,
    }
}

/// Whether all album names in the groups are distinct.
pub open spec fn unique_albums(gs: Seq<AlbumGroup>) -> bool {
    forall|a: int, b: int| 0 <= a < b < gs.len() ==> gs[a].album@ != gs[b].album@
}

/// Whether all artist names in the groups are distinct.
pub open spec fn unique_artists(gs: Seq<ArtistGroup>) -> bool {
    forall|a: int, b: int| 0 <= a < b < gs.len() ==> gs[a].artist@ != gs[b].artist@
}

/// Whether some group files under the given album name.
pub open spec fn album_covered(gs: Seq<AlbumGroup>, a: Seq<char>) -> bool {
    exists|k: int| 0 <= k < gs.len() && #[trigger] gs[k].album@ == a
}

proof fn lemma_covered_same_albums(a: Seq<AlbumGroup>, b: Seq<AlbumGroup>, x: Seq<char>)
    requires
        album_covered(a, x),
        a.len() <= b.len(),
        forall|k: int| 0 <= k < a.len() ==> a[k].album@ == b[k].album@,
    ensures
        album_covered(b, x),
{
    let k0 = choose|k: int| 0 <= k < a.len() && #[trigger] a[k].album@ == x;
    assert(b[k0].album@ == x);
}

fn find_album_group(groups: &Vec<AlbumGroup>, album: &str) -> (r: Option<usize>)
    ensures
        match r {
            Option::Some(i) => i < groups@.len() && groups@[i as int].album@ == album@,
            Option::None => forall|k: int| 0 <= k < groups@.len() ==> groups@[k].album@ != album@,
        },
{
    let n = groups.len();
    let mut i: usize = 0;
    while i < n
        invariant
            i <= n,
            n == groups@.len(),
            forall|k: int| 0 <= k < i ==> groups@[k].album@ != album@,
        decreases n - i,
    {
        if str_eq(groups[i].album.as_str(), album) {
            return Some(i);
        }
        i = i + 1;
    }
    None
}

/// Files the given tracks under their albums: every album once, holding
/// exactly its tracks in their original order.
pub fn group_tracks_by_album(tracks: &Vec<Track>) -> (r: Vec<AlbumGroup>)
    ensures
        unique_albums(r@),
        forall|k: int|
            0 <= k < r@.len() ==> #[trigger] r@[k].tracks@ == tracks@.filter(
                has_album(r@[k].album@),
            ),
        forall|i: int|
            0 <= i < tracks@.len() ==> #[trigger] album_covered(r@, album_of(tracks@[i])),
{
    let n = tracks.len();
    let mut groups: Vec<AlbumGroup> = Vec::new();
    let mut i: usize = 0;
    proof {
        assert(tracks@.subrange(0, 0) =~= Seq::<Track>::empty());
    }
    while i < n
        invariant
            i <= n,
            n == tracks@.len(),
            unique_albums(groups@),
            forall|k: int|
                0 <= k < groups@.len() ==> #[trigger] groups@[k].tracks@ == tracks@.subrange(
                    0,
                    i as int,
                ).filter(has_album(groups@[k].album@)),
            forall|j: int|
                0 <= j < i ==> #[trigger] album_covered(groups@, album_of(tracks@[j])),
        decreases n - i,
    {
        let ghost prefix = tracks@.subrange(0, i as int);
        let ghost prefix2 = tracks@.subrange(0, i + 1);
        let t = tracks[i].clone();
        let ghost tv = tracks@[i as int];
        let album = album_name(&t);
        proof {
            assert(prefix2.drop_last() =~= prefix);
            assert(prefix2.last() == tv);
        }
        let found = find_album_group(&groups, album.as_str());
        match found {
            Option::Some(gi) => {
                let ghost old_groups = groups@;
                let mut g = groups.remove(gi);
                g.tracks.push(t);
                groups.insert(gi, g);
                proof {
                    assert(groups@ =~= old_groups.update(gi as int, g));
                    reveal(Seq::filter);
                    assert forall|k: int| 0 <= k < groups@.len() implies #[trigger] groups@[k]
                        .tracks@ == prefix2.filter(has_album(groups@[k].album@)) by {
                        if k == gi as int {
                            assert(has_album(groups@[k].album@)(tv));
                            assert(groups@[k].tracks@ =~= prefix.filter(
                                has_album(groups@[k].album@),
                            ).push(tv));
                        } else {
                            assert(groups@[k] == old_groups[k]);
                            assert(groups@[k].album@ != album@);
                            assert(!has_album(groups@[k].album@)(tv));
                        }
                    }
                    assert forall|j: int|
                        0 <= j < i + 1 implies #[trigger] album_covered(
                        groups@,
                        album_of(tracks@[j]),
                    ) by {
                        if j < i {
                            lemma_covered_same_albums(
                                old_groups,
                                groups@,
                                album_of(tracks@[j]),
                            );
                        } else {
                            assert(groups@[gi as int].album@ == album_of(tracks@[j]));
                        }
                    }
                }
            },
            Option::None => {
                let mut fresh_tracks: Vec<Track> = Vec::new();
                fresh_tracks.push(t);
                let ghost old_groups = groups@;
                groups.push(AlbumGroup { album, tracks: fresh_tracks });
                proof {
                    let ghost key = groups@[groups@.len() - 1].album@;
                    assert(key == album@);
                    reveal(Seq::filter);
                    assert forall|k: int| 0 <= k < groups@.len() implies #[trigger] groups@[k]
                        .tracks@ == prefix2.filter(has_album(groups@[k].album@)) by {
                        if k < groups@.len() - 1 {
                            assert(groups@[k] == old_groups[k]);
                            assert(groups@[k].album@ != album@);
                            assert(!has_album(groups@[k].album@)(tv));
                        } else {
                            assert forall|j: int| 0 <= j < prefix.len() implies !(has_album(
                                key,
                            )(prefix[j])) by {
                                assert(prefix[j] == tracks@[j]);
                                assert(album_covered(old_groups, album_of(tracks@[j])));
                                let kj = choose|k2: int|
                                    0 <= k2 < old_groups.len() && #[trigger] old_groups[k2].album@
                                        == album_of(tracks@[j]);
                                assert(old_groups[kj].album@ != album@);
                            }
                            prefix.lemma_all_neg_filter_empty(has_album(key));
                            assert(has_album(key)(tv));
                            assert(groups@[k].tracks@ =~= prefix.filter(has_album(key)).push(tv));
                        }
                    }
                    assert forall|j: int|
                        0 <= j < i + 1 implies #[trigger] album_covered(
                        groups@,
                        album_of(tracks@[j]),
                    ) by {
                        if j < i {
                            lemma_covered_same_albums(
                                old_groups,
                                groups@,
                                album_of(tracks@[j]),
                            );
                        } else {
                            assert(groups@[groups@.len() - 1].album@ == album_of(tracks@[j]));
                        }
                    }
                }
            },
        }
        i = i + 1;
    }
    proof {
        assert(tracks@.subrange(0, n as int) =~= tracks@);
        assert(i == n);
    }
    groups
}


/// One artist and that artist's tracks, in library order.
#[derive(Debug)]
pub struct ArtistTracks {
    pub artist: String,
    pub tracks: Vec<Track>,
}

/// Whether all artist names in the flat groups are distinct.
pub open spec fn unique_artist_tracks(gs: Seq<ArtistTracks>) -> bool {
    forall|a: int, b: int| 0 <= a < b < gs.len() ==> gs[a].artist@ != gs[b].artist@
}

/// Whether some flat group files under the given artist name.
pub open spec fn artist_covered(gs: Seq<ArtistTracks>, a: Seq<char>) -> bool {
    exists|k: int| 0 <= k < gs.len() && #[trigger] gs[k].artist@ == a
}

proof fn lemma_artist_covered_same(a: Seq<ArtistTracks>, b: Seq<ArtistTracks>, x: Seq<char>)
    requires
        artist_covered(a, x),
        a.len() <= b.len(),
        forall|k: int| 0 <= k < a.len() ==> a[k].artist@ == b[k].artist@,
    ensures
        artist_covered(b, x),
{
    let k0 = choose|k: int| 0 <= k < a.len() && #[trigger] a[k].artist@ == x;
    assert(b[k0].artist@ == x);
}

fn find_artist_group(groups: &Vec<ArtistTracks>, artist: &str) -> (r: Option<usize>)
    ensures
        match r {
            Option::Some(i) => i < groups@.len() && groups@[i as int].artist@ == artist@,
            Option::None => forall|k: int|
                0 <= k < groups@.len() ==> groups@[k].artist@ != artist@,
        },
{
    let n = groups.len();
    let mut i: usize = 0;
    while i < n
        invariant
            i <= n,
            n == groups@.len(),
            forall|k: int| 0 <= k < i ==> groups@[k].artist@ != artist@,
        decreases n - i,
    {
        if str_eq(groups[i].artist.as_str(), artist) {
            return Some(i);
        }
        i = i + 1;
    }
    None
}

/// Files the given tracks under their artists: every artist once, holding
/// exactly that artist's tracks in their original order.
pub fn group_tracks_by_artist(tracks: &Vec<Track>) -> (r: Vec<ArtistTracks>)
    ensures
        unique_artist_tracks(r@),
        forall|k: int|
            0 <= k < r@.len() ==> #[trigger] r@[k].tracks@ == tracks@.filter(
                has_artist(r@[k].artist@),
            ),
        forall|i: int|
            0 <= i < tracks@.len() ==> #[trigger] artist_covered(r@, artist_of(tracks@[i])),
{
    let n = tracks.len();
    let mut groups: Vec<ArtistTracks> = Vec::new();
    let mut i: usize = 0;
    proof {
        assert(tracks@.subrange(0, 0) =~= Seq::<Track>::empty());
    }
    while i < n
        invariant
            i <= n,
            n == tracks@.len(),
            unique_artist_tracks(groups@),
            forall|k: int|
                0 <= k < groups@.len() ==> #[trigger] groups@[k].tracks@ == tracks@.subrange(
                    0,
                    i as int,
                ).filter(has_artist(groups@[k].artist@)),
            forall|j: int|
                0 <= j < i ==> #[trigger] artist_covered(groups@, artist_of(tracks@[j])),
        decreases n - i,
    {
        let ghost prefix = tracks@.subrange(0, i as int);
        let ghost prefix2 = tracks@.subrange(0, i + 1);
        let t = tracks[i].clone();
        let ghost tv = tracks@[i as int];
        let artist = artist_name(&t);
        proof {
            assert(prefix2.drop_last() =~= prefix);
            assert(prefix2.last() == tv);
        }
        let found = find_artist_group(&groups, artist.as_str());
        match found {
            Option::Some(gi) => {
                let ghost old_groups = groups@;
                let mut g = groups.remove(gi);
                g.tracks.push(t);
                groups.insert(gi, g);
                proof {
                    assert(groups@ =~= old_groups.update(gi as int, g));
                    reveal(Seq::filter);
                    assert forall|k: int| 0 <= k < groups@.len() implies #[trigger] groups@[k]
                        .tracks@ == prefix2.filter(has_artist(groups@[k].artist@)) by {
                        if k == gi as int {
                            assert(has_artist(groups@[k].artist@)(tv));
                            assert(groups@[k].tracks@ =~= prefix.filter(
                                has_artist(groups@[k].artist@),
                            ).push(tv));
                        } else {
                            assert(groups@[k] == old_groups[k]);
                            assert(groups@[k].artist@ != artist@);
                            assert(!has_artist(groups@[k].artist@)(tv));
                        }
                    }
                    assert forall|j: int|
                        0 <= j < i + 1 implies #[trigger] artist_covered(
                        groups@,
                        artist_of(tracks@[j]),
                    ) by {
                        if j < i {
                            lemma_artist_covered_same(
                                old_groups,
                                groups@,
                                artist_of(tracks@[j]),
                            );
                        } else {
                            assert(groups@[gi as int].artist@ == artist_of(tracks@[j]));
                        }
                    }
                }
            },
            Option::None => {
                let mut fresh_tracks: Vec<Track> = Vec::new();
                fresh_tracks.push(t);
                let ghost old_groups = groups@;
                groups.push(ArtistTracks { artist, tracks: fresh_tracks });
                proof {
                    let ghost key = groups@[groups@.len() - 1].artist@;
                    assert(key == artist@);
                    reveal(Seq::filter);
                    assert forall|k: int| 0 <= k < groups@.len() implies #[trigger] groups@[k]
                        .tracks@ == prefix2.filter(has_artist(groups@[k].artist@)) by {
                        if k < groups@.len() - 1 {
                            assert(groups@[k] == old_groups[k]);
                            assert(groups@[k].artist@ != artist@);
                            assert(!has_artist(groups@[k].artist@)(tv));
                        } else {
                            assert forall|j: int| 0 <= j < prefix.len() implies !(has_artist(
                                key,
                            )(prefix[j])) by {
                                assert(prefix[j] == tracks@[j]);
                                assert(artist_covered(old_groups, artist_of(tracks@[j])));
                                let kj = choose|k2: int|
                                    0 <= k2 < old_groups.len() && #[trigger] old_groups[k2].artist@
                                        == artist_of(tracks@[j]);
                                assert(old_groups[kj].artist@ != artist@);
                            }
                            prefix.lemma_all_neg_filter_empty(has_artist(key));
                            assert(has_artist(key)(tv));
                            assert(groups@[k].tracks@ =~= prefix.filter(has_artist(key)).push(tv));
                        }
                    }
                    assert forall|j: int|
                        0 <= j < i + 1 implies #[trigger] artist_covered(
                        groups@,
                        artist_of(tracks@[j]),
                    ) by {
                        if j < i {
                            lemma_artist_covered_same(
                                old_groups,
                                groups@,
                                artist_of(tracks@[j]),
                            );
                        } else {
                            assert(groups@[groups@.len() - 1].artist@ == artist_of(tracks@[j]));
                        }
                    }
                }
            },
        }
        i = i + 1;
    }
    proof {
        assert(tracks@.subrange(0, n as int) =~= tracks@);
        assert(i == n);
    }
    groups
}

/// Sorts tracks by their track number, keeping exactly the same tracks.
pub fn sort_tracks_by_number(tracks: Vec<Track>) -> (r: Vec<Track>)
    ensures
        sorted_by_track_number(r@),
        r@.to_multiset() == tracks@.to_multiset(),
        r@.len() == tracks@.len(),
{
    let mut rest = tracks;
    let mut out: Vec<Track> = Vec::new();
    proof {
        broadcast use vstd::seq_lib::group_to_multiset_ensures;

        assert(out@.to_multiset() =~= Multiset::<Track>::empty());
        assert(out@.to_multiset().add(rest@.to_multiset()) =~= tracks@.to_multiset());
    }
    while rest.len() > 0
        invariant
            sorted_by_track_number(out@),
            forall|a: int, b: int|
                0 <= a < out@.len() && 0 <= b < rest@.len() ==> track_number_of(out@[a])
                    <= track_number_of(rest@[b]),
            out@.to_multiset().add(rest@.to_multiset()) == tracks@.to_multiset(),
            out@.len() + rest@.len() == tracks@.len(),
        decreases rest.len(),
    {
        let m = rest.len();
        let mut min_idx: usize = 0;
        let mut j: usize = 1;
        while j < m
            invariant
                m == rest@.len(),
                min_idx < j <= m,
                forall|k: int|
                    0 <= k < j ==> track_number_of(rest@[min_idx as int]) <= track_number_of(
                        rest@[k],
                    ),
            decreases m - j,
        {
            if track_number(&rest[j]) < track_number(&rest[min_idx]) {
                min_idx = j;
            }
            j = j + 1;
        }
        let ghost old_out = out@;
        let ghost old_rest = rest@;
        let picked = rest.remove(min_idx);
        out.push(picked);
        proof {
            broadcast use vstd::seq_lib::group_to_multiset_ensures;

            assert(old_rest.remove(min_idx as int).to_multiset() =~= old_rest.to_multiset()
                .remove(picked));
            assert(out@.to_multiset() =~= old_out.to_multiset().insert(picked));
            assert(out@.to_multiset().add(rest@.to_multiset()) =~= tracks@.to_multiset());
            assert forall|a: int, b: int|
                0 <= a < out@.len() && 0 <= b < rest@.len() implies track_number_of(out@[a])
                <= track_number_of(rest@[b]) by {
                if b < min_idx {
                    assert(rest@[b] == old_rest[b]);
                } else {
                    assert(rest@[b] == old_rest[b + 1]);
                }
            }
        }
    }
    proof {
        broadcast use vstd::seq_lib::group_to_multiset_ensures;

        assert(rest@.to_multiset() =~= Multiset::<Track>::empty());
        assert(out@.to_multiset() =~= tracks@.to_multiset());
    }
    out
}


/// Whether some artist group files under the given artist name.
pub open spec fn artist_group_covered(gs: Seq<ArtistGroup>, a: Seq<char>) -> bool {
    exists|k: int| 0 <= k < gs.len() && #[trigger] gs[k].artist@ == a
}

/// The library behind its service face: path queries, scan updates, and the
/// grouped views the shelf-style browsers ask for.
pub struct LibraryService {
    pub library: Library,
}

impl LibraryService {
    pub fn new(library: Library) -> (r: LibraryService)
        ensures
            r.library == library,
    {
        LibraryService { library }
    }

    /// Where the library lives.
    pub fn get_library_path(&self) -> (r: Result<String, PlayerError>)
        ensures
            r matches Ok(p) && p@ == self.library.path@,
    {
        Ok(self.library.path.clone())
    }

    /// Points the library elsewhere; the caller rescans and hands the result
    /// to `rescan_library`.
    pub fn set_library_path(&mut self, path: String) -> (r: Result<(), PlayerError>)
        ensures
            final(self).library.path == path,
            final(self).library.name == old(self).library.name,
            final(self).library.tracks@ == old(self).library.tracks@,
            r is Ok,
    {
        self.library.update(Some(path), None);
        Ok(())
    }

    /// Takes a fresh scan's tracks as the library's contents.
    pub fn rescan_library(&mut self, tracks: Vec<Track>) -> (r: Result<(), PlayerError>)
        ensures
            final(self).library.tracks@ == tracks@,
            final(self).library.path == old(self).library.path,
            final(self).library.name == old(self).library.name,
            r is Ok,
    {
        self.library.replace_tracks(tracks);
        Ok(())
    }

    /// The library's tracks filed under their albums, every album once.
    pub fn get_library_tracks(&self) -> (r: Result<Vec<AlbumGroup>, PlayerError>)
        ensures
            r matches Ok(gs) && unique_albums(gs@) && (forall|k: int|
                0 <= k < gs@.len() ==> #[trigger] gs@[k].tracks@ == self.library.tracks@.filter(
                    has_album(gs@[k].album@),
                )) && (forall|i: int|
                0 <= i < self.library.tracks@.len() ==> #[trigger] album_covered(
                    gs@,
                    album_of(self.library.tracks@[i]),
                )),
    {
        Ok(group_tracks_by_album(&self.library.tracks))
    }


    /// The whole library shelved: every artist once, each with their albums
    /// once, each album's tracks sorted by track number.
    pub fn get_albums_by_artist(&self) -> (r: Result<Vec<ArtistGroup>, PlayerError>)
        ensures
            r matches Ok(gs) && unique_artists(gs@) && (forall|k: int|
                0 <= k < gs@.len() ==> #[trigger] unique_albums(gs@[k].albums@)) && (forall|
                k: int,
                a: int,
            |
                0 <= k < gs@.len() && 0 <= a < gs@[k].albums@.len() ==> sorted_by_track_number(
                    #[trigger] gs@[k].albums@[a].tracks@,
                ) && gs@[k].albums@[a].tracks@.to_multiset() == self.library.tracks@.filter(
                    has_artist(gs@[k].artist@),
                ).filter(has_album(gs@[k].albums@[a].album@)).to_multiset()) && (forall|i: int|
                0 <= i < self.library.tracks@.len() ==> #[trigger] artist_group_covered(
                    gs@,
                    artist_of(self.library.tracks@[i]),
                )) && (forall|k: int, j: int|
                0 <= k < gs@.len() && 0 <= j < self.library.tracks@.filter(
                    has_artist(gs@[k].artist@),
                ).len() ==> #[trigger] album_covered(
                    gs@[k].albums@,
                    album_of(self.library.tracks@.filter(has_artist(gs@[k].artist@))[j]),
                )),
    {
        let ghost lib = self.library.tracks@;
        let flat = group_tracks_by_artist(&self.library.tracks);
        let ghost flat0 = flat@;
        let mut rest = flat;
        let mut out: Vec<ArtistGroup> = Vec::new();
        proof {
            assert(rest@ =~= flat0.subrange(0, flat0.len() as int));
        }
        while rest.len() > 0
            invariant
                out@.len() + rest@.len() == flat0.len(),
                rest@ == flat0.subrange(out@.len() as int, flat0.len() as int),
                lib == self.library.tracks@,
                unique_artist_tracks(flat0),
                forall|k: int|
                    0 <= k < flat0.len() ==> #[trigger] flat0[k].tracks@ == lib.filter(
                        has_artist(flat0[k].artist@),
                    ),
                forall|k: int|
                    0 <= k < out@.len() ==> #[trigger] out@[k].artist@ == flat0[k].artist@,
                forall|k: int| 0 <= k < out@.len() ==> #[trigger] unique_albums(out@[k].albums@),
                forall|k: int, a: int|
                    0 <= k < out@.len() && 0 <= a < out@[k].albums@.len()
                        ==> sorted_by_track_number(#[trigger] out@[k].albums@[a].tracks@)
                        && out@[k].albums@[a].tracks@.to_multiset() == flat0[k].tracks@.filter(
                        has_album(out@[k].albums@[a].album@),
                    ).to_multiset(),
                forall|k: int, j: int|
                    0 <= k < out@.len() && 0 <= j < flat0[k].tracks@.len()
                        ==> #[trigger] album_covered(
                        out@[k].albums@,
                        album_of(flat0[k].tracks@[j]),
                    ),
            decreases rest@.len(),
        {
            let ghost ki = out@.len() as int;
            let g = rest.remove(0);
            proof {
                assert(g == flat0[ki]);
                assert(rest@ =~= flat0.subrange(ki + 1, flat0.len() as int));
            }
            let albums_raw = group_tracks_by_album(&g.tracks);
            let ghost araw0 = albums_raw@;
            let mut araw = albums_raw;
            let mut albums: Vec<AlbumGroup> = Vec::new();
            proof {
                assert(araw@ =~= araw0.subrange(0, araw0.len() as int));
            }
            while araw.len() > 0
                invariant
                    albums@.len() + araw@.len() == araw0.len(),
                    araw@ == araw0.subrange(albums@.len() as int, araw0.len() as int),
                    forall|a: int|
                        0 <= a < albums@.len() ==> #[trigger] albums@[a].album@
                            == araw0[a].album@,
                    forall|a: int|
                        0 <= a < albums@.len() ==> sorted_by_track_number(
                            #[trigger] albums@[a].tracks@,
                        ) && albums@[a].tracks@.to_multiset() == araw0[a].tracks@.to_multiset(),
                decreases araw@.len(),
            {
                let ghost ai = albums@.len() as int;
                let a = araw.remove(0);
                proof {
                    assert(a == araw0[ai]);
                    assert(araw@ =~= araw0.subrange(ai + 1, araw0.len() as int));
                }
                let sorted_tracks = sort_tracks_by_number(a.tracks);
                albums.push(AlbumGroup { album: a.album, tracks: sorted_tracks });
            }
            proof {
                assert forall|a: int, b: int|
                    0 <= a < b < albums@.len() implies albums@[a].album@ != albums@[b]
                    .album@ by {
                    assert(araw0[a].album@ != araw0[b].album@);
                }
            }
            out.push(ArtistGroup { artist: g.artist, albums });
            proof {
                assert(out@[ki].albums@ == albums@);
                assert(out@[ki].artist@ == flat0[ki].artist@);
                assert forall|a: int|
                    0 <= a < out@[ki].albums@.len() implies sorted_by_track_number(
                    #[trigger] out@[ki].albums@[a].tracks@,
                ) && out@[ki].albums@[a].tracks@.to_multiset() == flat0[ki].tracks@.filter(
                    has_album(out@[ki].albums@[a].album@),
                ).to_multiset() by {
                    assert(albums@[a].tracks@.to_multiset() == araw0[a].tracks@.to_multiset());
                    assert(araw0[a].tracks@ == g.tracks@.filter(has_album(araw0[a].album@)));
                    assert(albums@[a].album@ == araw0[a].album@);
                }
                assert forall|j: int| 0 <= j < flat0[ki].tracks@.len() implies #[trigger]
                    album_covered(out@[ki].albums@, album_of(flat0[ki].tracks@[j])) by {
                    assert(album_covered(araw0, album_of(g.tracks@[j])));
                    lemma_covered_same_albums(
                        araw0,
                        albums@,
                        album_of(flat0[ki].tracks@[j]),
                    );
                }
            }
        }
        proof {
            assert(out@.len() == flat0.len());
            assert forall|a: int, b: int| 0 <= a < b < out@.len() implies out@[a].artist@
                != out@[b].artist@ by {
                assert(flat0[a].artist@ != flat0[b].artist@);
            }
            assert forall|i: int| 0 <= i < lib.len() implies #[trigger] artist_group_covered(
                out@,
                artist_of(lib[i]),
            ) by {
                assert(artist_covered(flat0, artist_of(lib[i])));
                let k0 = choose|k: int|
                    0 <= k < flat0.len() && #[trigger] flat0[k].artist@ == artist_of(lib[i]);
                assert(out@[k0].artist@ == artist_of(lib[i]));
            }
            assert forall|k: int, a: int|
                0 <= k < out@.len() && 0 <= a < out@[k].albums@.len()
                    implies sorted_by_track_number(#[trigger] out@[k].albums@[a].tracks@)
                && out@[k].albums@[a].tracks@.to_multiset() == lib.filter(
                has_artist(out@[k].artist@),
            ).filter(has_album(out@[k].albums@[a].album@)).to_multiset() by {
                assert(flat0[k].tracks@ == lib.filter(has_artist(flat0[k].artist@)));
                assert(out@[k].artist@ == flat0[k].artist@);
            }
            assert forall|k: int, j: int|
                0 <= k < out@.len() && 0 <= j < lib.filter(has_artist(out@[k].artist@)).len()
                    implies #[trigger] album_covered(
                out@[k].albums@,
                album_of(lib.filter(has_artist(out@[k].artist@))[j]),
            ) by {
                assert(out@[k].artist@ == flat0[k].artist@);
                assert(flat0[k].tracks@ == lib.filter(has_artist(flat0[k].artist@)));
                assert(album_covered(out@[k].albums@, album_of(flat0[k].tracks@[j])));
            }
        }
        Ok(out)
    }

    /// A single track by id, copied out of the library.
    pub fn get_track_by_id(&self, track_id: &str) -> (r: Result<Track, PlayerError>)
        ensures
            match r {
                Ok(t) => exists|i: int|
                    0 <= i < self.library.tracks@.len() && self.library.tracks@[i] == t
                        && self.library.tracks@[i].id@ == track_id@,
                Err(e) => e == PlayerError::TrackNotInLibrary && (forall|i: int|
                    0 <= i < self.library.tracks@.len() ==> self.library.tracks@[i].id@
                        != track_id@),
            },
    {
        match self.library.track_by_id(track_id) {
            Option::Some(t) => Ok(t),
            Option::None => Err(PlayerError::TrackNotInLibrary),
        }
    }

    /// The tracks of one album by one artist, sorted by track number; an
    /// unknown pairing is an error.
    pub fn get_tracks_by_album(&self, album_name_q: &str, artist_name_q: &str) -> (r: Result<
        Vec<Track>,
        PlayerError,
    >)
        ensures
            ({
                let matching = self.library.tracks@.filter(has_album(album_name_q@)).filter(
                    has_artist(artist_name_q@),
                );
                match r {
                    Ok(ts) => matching.len() > 0 && sorted_by_track_number(ts@)
                        && ts@.to_multiset() == matching.to_multiset(),
                    Err(e) => e == PlayerError::AlbumNotFound && matching.len() == 0,
                }
            }),
    {
        let ghost pred_album = has_album(album_name_q@);
        let ghost pred_artist = has_artist(artist_name_q@);
        let n = self.library.tracks.len();
        let mut matching: Vec<Track> = Vec::new();
        let mut i: usize = 0;
        proof {
            reveal(Seq::filter);
            assert(self.library.tracks@.subrange(0, 0).filter(pred_album).filter(pred_artist)
                =~= Seq::<Track>::empty());
        }
        while i < n
            invariant
                i <= n,
                n == self.library.tracks@.len(),
                matching@ == self.library.tracks@.subrange(0, i as int).filter(
                    has_album(album_name_q@),
                ).filter(has_artist(artist_name_q@)),
            decreases n - i,
        {
            let ghost prefix = self.library.tracks@.subrange(0, i as int);
            let ghost prefix2 = self.library.tracks@.subrange(0, i + 1);
            let t = &self.library.tracks[i];
            let ghost tv = self.library.tracks@[i as int];
            let t_album = album_name(t);
            let t_artist = artist_name(t);
            let keep = str_eq(t_album.as_str(), album_name_q) && str_eq(
                t_artist.as_str(),
                artist_name_q,
            );
            if keep {
                matching.push(t.clone());
            }
            proof {
                reveal(Seq::filter);
                assert(prefix2.drop_last() =~= prefix);
                let fa = prefix.filter(has_album(album_name_q@));
                let fa2 = prefix2.filter(has_album(album_name_q@));
                if has_album(album_name_q@)(tv) {
                    assert(fa2 == fa.push(tv));
                    assert(fa2.drop_last() =~= fa);
                    if has_artist(artist_name_q@)(tv) {
                        assert(matching@ =~= fa2.filter(has_artist(artist_name_q@)));
                    } else {
                        assert(matching@ =~= fa2.filter(has_artist(artist_name_q@)));
                    }
                } else {
                    assert(fa2 == fa);
                    assert(matching@ =~= fa2.filter(has_artist(artist_name_q@)));
                }
            }
            i = i + 1;
        }
        proof {
            assert(self.library.tracks@.subrange(0, n as int) =~= self.library.tracks@);
        }
        if matching.len() == 0 {
            return Err(PlayerError::AlbumNotFound);
        }
        Ok(sort_tracks_by_number(matching))
    }
}

} // verus!
