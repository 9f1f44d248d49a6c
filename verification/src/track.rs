use vstd::prelude::*;

use crate::text::lower_seq;
use crate::text::eq_ignore_ascii_case;

verus! {

/// Tag data read out of an audio file's metadata, all optional.
#[derive(Debug)]
pub struct TrackMetadata {
    pub title: Option<String>,
    pub album: Option<String>,
    pub artist: Option<String>,
    pub album_artist: Option<String>,
    pub track_number: Option<i32>,
    pub disc_number: Option<i32>,
    pub genre: Option<String>,
    pub year: Option<String>,
}

/// One playable audio file: identity, location and derived data.
///
/// A track is immutable once constructed; its id is freshly drawn at
/// construction and is the key under which the queue de-duplicates.
#[derive(Debug)]
pub struct Track {
    pub id: String,
    pub path: String,
    pub total_frames: u64,
    pub duration_ms: u64,
    pub metadata: Option<TrackMetadata>,
}

fn clone_opt_string(a: &Option<String>) -> (r: Option<String>)
    ensures
        r == *a,
{
    match a {
        Option::None => Option::None,
        Option::Some(s) => Option::Some(s.clone()),
    }
}

impl Clone for TrackMetadata {
    fn clone(&self) -> (res: Self)
        ensures
            res == *self,
    {
        TrackMetadata {
            title: clone_opt_string(&self.title),
            album: clone_opt_string(&self.album),
            artist: clone_opt_string(&self.artist),
            album_artist: clone_opt_string(&self.album_artist),
            track_number: self.track_number,
            disc_number: self.disc_number,
            genre: clone_opt_string(&self.genre),
            year: clone_opt_string(&self.year),
        }
    }
}

impl Clone for Track {
    fn clone(&self) -> (res: Self)
        ensures
            res == *self,
    {
        Track {
            id: self.id.clone(),
            path: self.path.clone(),
            total_frames: self.total_frames,
            duration_ms: self.duration_ms,
            metadata: match &self.metadata {
                Option::None => Option::None,
                Option::Some(m) => Option::Some(m.clone()),
            },
        }
    }
}

/// What `==` means for two optional strings: same presence, same characters.
pub open spec fn opt_string_eqv(a: Option<String>, b: Option<String>) -> bool {
    match (a, b) {
        (Option::None, Option::None) => true,
        (Option::Some(x), Option::Some(y)) => x@ == y@,
        _ => false,
    }
}

/// What `==` means for two metadata records: field-wise character equality.
pub open spec fn metadata_eqv(a: TrackMetadata, b: TrackMetadata) -> bool {
    &&& opt_string_eqv(a.title, b.title)
    &&& opt_string_eqv(a.album, b.album)
    &&& opt_string_eqv(a.artist, b.artist)
    &&& opt_string_eqv(a.album_artist, b.album_artist)
    &&& a.track_number == b.track_number
    &&& a.disc_number == b.disc_number
    &&& opt_string_eqv(a.genre, b.genre)
    &&& opt_string_eqv(a.year, b.year)
}

/// What `==` means for two tracks: identity and content, character for character.
pub open spec fn track_eqv(a: Track, b: Track) -> bool {
    &&& a.id@ == b.id@
    &&& a.path@ == b.path@
    &&& a.total_frames == b.total_frames
    &&& a.duration_ms == b.duration_ms
    &&& match (a.metadata, b.metadata) {
        (Option::None, Option::None) => true,
        (Option::Some(x), Option::Some(y)) => metadata_eqv(x, y),
        _ => false,
    }
}

fn opt_string_eq(a: &Option<String>, b: &Option<String>) -> (r: bool)
    ensures
        r == opt_string_eqv(*a, *b),
{
    match (a, b) {
        (Option::None, Option::None) => true,
        (Option::Some(x), Option::Some(y)) => *x == *y,
        _ => false,
    }
}

fn opt_i32_eq(a: &Option<i32>, b: &Option<i32>) -> (r: bool)
    ensures
        r == (*a == *b),
{
    match (a, b) {
        (Option::None, Option::None) => true,
        (Option::Some(x), Option::Some(y)) => *x == *y,
        _ => false,
    }
}

impl PartialEq for TrackMetadata {
    fn eq(&self, other: &TrackMetadata) -> (r: bool) {
        opt_string_eq(&self.title, &other.title)
            && opt_string_eq(&self.album, &other.album)
            && opt_string_eq(&self.artist, &other.artist)
            && opt_string_eq(&self.album_artist, &other.album_artist)
            && opt_i32_eq(&self.track_number, &other.track_number)
            && opt_i32_eq(&self.disc_number, &other.disc_number)
            && opt_string_eq(&self.genre, &other.genre)
            && opt_string_eq(&self.year, &other.year)
    }
}

impl vstd::std_specs::cmp::PartialEqSpecImpl for TrackMetadata {
    open spec fn obeys_eq_spec() -> bool {
        true
    }

    open spec fn eq_spec(&self, other: &TrackMetadata) -> bool {
        metadata_eqv(*self, *other)
    }
}

impl PartialEq for Track {
    fn eq(&self, other: &Track) -> (r: bool) {
        self.id == other.id && self.path == other.path
            && self.total_frames == other.total_frames
            && self.duration_ms == other.duration_ms
            && match (&self.metadata, &other.metadata) {
            (Option::None, Option::None) => true,
            (Option::Some(x), Option::Some(y)) => x == y,
            _ => false,
        }
    }
}

impl vstd::std_specs::cmp::PartialEqSpecImpl for Track {
    open spec fn obeys_eq_spec() -> bool {
        true
    }

    open spec fn eq_spec(&self, other: &Track) -> bool {
        track_eqv(*self, *other)
    }
}

/// A path with its trailing `/` separators removed.
pub open spec fn trim_trailing_slashes(s: Seq<char>) -> Seq<char>
    decreases s.len(),
{
    if s.len() > 0 && s.last() == '/' {
        trim_trailing_slashes(s.drop_last())
    } else {
        s
    }
}

/// The characters after the last `/` (the whole sequence when none occurs).
pub open spec fn suffix_after_last_slash(s: Seq<char>) -> Seq<char>
    decreases s.len(),
{
    if s.len() == 0 {
        s
    } else if s.last() == '/' {
        Seq::<char>::empty()
    } else {
        suffix_after_last_slash(s.drop_last()).push(s.last())
    }
}

/// The file-name portion of a path: what follows the last separator,
/// ignoring trailing separators.
pub open spec fn file_name_of(s: Seq<char>) -> Seq<char> {
    suffix_after_last_slash(trim_trailing_slashes(s))
}

/// The title a track falls back to: the path's file name, or "Unknown" when
/// the path has none (empty, or a bare `.` / `..`).
pub open spec fn spec_default_title(s: Seq<char>) -> Seq<char> {
    let f = file_name_of(s);
    if f.len() == 0 || f == seq!['.'] || f == seq!['.', '.'] {
        "Unknown"@
    } else {
        f
    }
}

proof fn lemma_suffix_after_last_slash(t: Seq<char>, k: int)
    requires
        0 <= k <= t.len(),
        forall|j: int| k <= j < t.len() ==> t[j] != '/',
        k > 0 ==> t[k - 1] == '/',
    ensures
        suffix_after_last_slash(t) == t.subrange(k, t.len() as int),
    decreases t.len(),
{
    if t.len() == 0 {
        assert(suffix_after_last_slash(t) =~= t.subrange(0, 0));
    } else if k == t.len() {
        assert(t.last() == '/');
        assert(suffix_after_last_slash(t) =~= t.subrange(k, t.len() as int));
    } else {
        assert(t.last() != '/');
        lemma_suffix_after_last_slash(t.drop_last(), k);
        assert(suffix_after_last_slash(t.drop_last()) == t.drop_last().subrange(
            k,
            t.len() - 1,
        ));
        assert(t.drop_last().subrange(k, t.len() - 1).push(t.last()) =~= t.subrange(
            k,
            t.len() as int,
        ));
    }
}

proof fn lemma_trim_prefix(s: Seq<char>, end: int)
    requires
        0 <= end <= s.len(),
        forall|j: int| end <= j < s.len() ==> s[j] == '/',
        end > 0 ==> s[end - 1] != '/',
    ensures
        trim_trailing_slashes(s) == s.subrange(0, end),
    decreases s.len(),
{
    if s.len() == 0 {
        assert(trim_trailing_slashes(s) =~= s.subrange(0, 0));
    } else if end == s.len() {
        assert(s.last() != '/');
        assert(trim_trailing_slashes(s) =~= s.subrange(0, end));
    } else {
        assert(s.last() == '/');
        lemma_trim_prefix(s.drop_last(), end);
        assert(s.drop_last().subrange(0, end) =~= s.subrange(0, end));
    }
}

impl Track {
    /// The title shown for a track whose tags name none: the file name of its
    /// path, or "Unknown" where the path has no file name.
    pub fn default_title(path: &str) -> (r: String)
        ensures
            r@ == spec_default_title(path@),
    {
        let n = path.unicode_len();
        let ghost s = path@;

        // Drop trailing separators.
        let mut end: usize = n;
        while end > 0 && path.get_char(end - 1) == '/'
            invariant
                s == path@,
                end <= n,
                n == s.len(),
                forall|j: int| end <= j < s.len() ==> s[j] == '/',
            decreases end,
        {
            end = end - 1;
        }
        proof {
            lemma_trim_prefix(s, end as int);
        }
        let ghost t = s.subrange(0, end as int);

        // Find the character just after the last remaining separator.
        let mut start: usize = end;
        while start > 0 && path.get_char(start - 1) != '/'
            invariant
                s == path@,
                start <= end <= n,
                n == s.len(),
                forall|j: int| start <= j < end ==> s[j] != '/',
            decreases start,
        {
            start = start - 1;
        }
        proof {
            assert(forall|j: int| start <= j < t.len() ==> t[j] == s[j]);
            lemma_suffix_after_last_slash(t, start as int);
        }
        let name = path.substring_char(start, end);
        let ghost f = file_name_of(s);
        assert(name@ == f);

        let len = end - start;
        let empty_or_dots = if len == 0 {
            true
        } else if len == 1 {
            let ok = name.get_char(0) == '.';
            proof {
                if ok {
                    assert(f =~= seq!['.']);
                } else {
                    assert(f != seq!['.']);
                    assert(f != seq!['.', '.']);
                }
            }
            ok
        } else if len == 2 {
            let ok = name.get_char(0) == '.' && name.get_char(1) == '.';
            proof {
                if ok {
                    assert(f =~= seq!['.', '.']);
                } else {
                    assert(f != seq!['.', '.']);
                    assert(f != seq!['.']);
                }
            }
            ok
        } else {
            proof {
                assert(f != seq!['.']);
                assert(f != seq!['.', '.']);
            }
            false
        };
        if empty_or_dots {
            "Unknown".to_owned()
        } else {
            name.to_owned()
        }
    }

    /// A freshly identified track for a path nothing could be read from:
    /// zero frames, zero duration, no metadata.
    pub fn new(path: &str) -> (t: Track)
        ensures
            t.id@.len() == 36,
            t.path@ == path@,
            t.total_frames == 0,
            t.duration_ms == 0,
            t.metadata is None,
    {
        Track {
            id: fresh_track_id(),
            path: path.to_owned(),
            total_frames: 0,
            duration_ms: 0,
            metadata: Option::None,
        }
    }

    /// A freshly identified track built from what probing the file yielded.
    /// Missing frame and duration figures fall back to zero; a metadata record
    /// without a title gets the path's default title.
    pub fn from_probe(
        path: &str,
        total_frames: Option<u64>,
        duration_ms: Option<u64>,
        metadata: Option<TrackMetadata>,
    ) -> (t: Track)
        ensures
            t.id@.len() == 36,
            t.path@ == path@,
            t.total_frames == (match total_frames {
                Option::Some(f) => f,
                Option::None => 0,
            }),
            t.duration_ms == (match duration_ms {
                Option::Some(d) => d,
                Option::None => 0,
            }),
            match metadata {
                Option::None => t.metadata is None,
                Option::Some(m) => {
                    &&& t.metadata is Some
                    &&& (m.title is Some ==> t.metadata->Some_0 == m)
                    &&& (m.title is None ==> {
                        let filled = t.metadata->Some_0;
                        &&& filled.title is Some
                        &&& filled.title->Some_0@ == spec_default_title(path@)
                        &&& filled == (TrackMetadata { title: filled.title, ..m })
                    })
                },
            },
    {
        let filled_metadata = match metadata {
            Option::None => Option::None,
            Option::Some(m) => {
                if m.title.is_none() {
                    Option::Some(
                        TrackMetadata { title: Option::Some(Self::default_title(path)), ..m },
                    )
                } else {
                    Option::Some(m)
                }
            },
        };
        Track {
            id: fresh_track_id(),
            path: path.to_owned(),
            total_frames: match total_frames {
                Option::Some(f) => f,
                Option::None => 0,
            },
            duration_ms: match duration_ms {
                Option::Some(d) => d,
                Option::None => 0,
            },
            metadata: filled_metadata,
        }
    }
}

/// The whole-millisecond duration of `n_frames` frames at `sample_rate`
/// frames per second, saturating at the largest representable value.
pub open spec fn spec_duration_ms(n_frames: u64, sample_rate: u32) -> u64 {
    if sample_rate == 0 {
        0
    } else if n_frames * 1000 / (sample_rate as int) > u64::MAX {
        u64::MAX
    } else {
        (n_frames * 1000 / (sample_rate as int)) as u64
    }
}

/// Computes a track's duration from its frame count and sample rate.
pub fn duration_ms_from(n_frames: u64, sample_rate: u32) -> (r: u64)
    ensures
        r == spec_duration_ms(n_frames, sample_rate),
{
    if sample_rate == 0 {
        return 0;
    }
    let wide: u128 = (n_frames as u128) * 1000 / (sample_rate as u128);
    if wide > u64::MAX as u128 {
        u64::MAX
    } else {
        wide as u64
    }
}

/// Whether a file extension names a format the player accepts,
/// compared without regard to ASCII case.
pub open spec fn spec_supported_extension(s: Seq<char>) -> bool {
    let l = lower_seq(s);
    ||| l == lower_seq("aac"@)
    ||| l == lower_seq("adpcm"@)
    ||| l == lower_seq("aif"@)
    ||| l == lower_seq("aifc"@)
    ||| l == lower_seq("aiff"@)
    ||| l == lower_seq("alac"@)
    ||| l == lower_seq("caf"@)
    ||| l == lower_seq("flac"@)
    ||| l == lower_seq("m4a"@)
    ||| l == lower_seq("m4b"@)
    ||| l == lower_seq("m4p"@)
    ||| l == lower_seq("m4r"@)
    ||| l == lower_seq("m4v"@)
    ||| l == lower_seq("mka"@)
    ||| l == lower_seq("mkv"@)
    ||| l == lower_seq("mp1"@)
    ||| l == lower_seq("mp2"@)
    ||| l == lower_seq("mp3"@)
    ||| l == lower_seq("mp4"@)
    ||| l == lower_seq("oga"@)
    ||| l == lower_seq("ogg"@)
    ||| l == lower_seq("ogv"@)
    ||| l == lower_seq("ogx"@)
    ||| l == lower_seq("wav"@)
    ||| l == lower_seq("wave"@)
    ||| l == lower_seq("weba"@)
    ||| l == lower_seq("webm"@)
}

/// Whether files with this extension are scanned into the library.
pub fn is_supported_extension(ext: &str) -> (r: bool)
    ensures
        r == spec_supported_extension(ext@),
{
    eq_ignore_ascii_case(ext, "aac") || eq_ignore_ascii_case(ext, "adpcm")
        || eq_ignore_ascii_case(ext, "aif") || eq_ignore_ascii_case(ext, "aifc")
        || eq_ignore_ascii_case(ext, "aiff") || eq_ignore_ascii_case(ext, "alac")
        || eq_ignore_ascii_case(ext, "caf") || eq_ignore_ascii_case(ext, "flac")
        || eq_ignore_ascii_case(ext, "m4a") || eq_ignore_ascii_case(ext, "m4b")
        || eq_ignore_ascii_case(ext, "m4p") || eq_ignore_ascii_case(ext, "m4r")
        || eq_ignore_ascii_case(ext, "m4v") || eq_ignore_ascii_case(ext, "mka")
        || eq_ignore_ascii_case(ext, "mkv") || eq_ignore_ascii_case(ext, "mp1")
        || eq_ignore_ascii_case(ext, "mp2") || eq_ignore_ascii_case(ext, "mp3")
        || eq_ignore_ascii_case(ext, "mp4") || eq_ignore_ascii_case(ext, "oga")
        || eq_ignore_ascii_case(ext, "ogg") || eq_ignore_ascii_case(ext, "ogv")
        || eq_ignore_ascii_case(ext, "ogx") || eq_ignore_ascii_case(ext, "wav")
        || eq_ignore_ascii_case(ext, "wave") || eq_ignore_ascii_case(ext, "weba")
        || eq_ignore_ascii_case(ext, "webm")
}

/// Relies on uuid::Uuid::new_v4 and its lower-case hyphenated rendering:
/// the result is always 36 characters; nothing else is assumed of a random id.
#[verifier::external_body]
fn fresh_track_id() -> (r: String)
    ensures
        r@.len() == 36,
{
    uuid::Uuid::new_v4().to_string()
}

} // verus!
