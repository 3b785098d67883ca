//! What is known of one song, and how it is put together from what its tags say.
use vstd::prelude::*;
use crate::paths::{file_stem, stem_of};

verus! {

/// The metadata of one song.
pub struct SongMetadata {
    pub title: String,
    pub artist: String,
    pub album: String,
    /// Length in milliseconds, when it could be found.
    pub duration_ms: Option<u64>,
    pub album_art: Option<Vec<u8>>,
}

pub struct MetadataView {
    pub title: Seq<char>,
    pub artist: Seq<char>,
    pub album: Seq<char>,
    pub duration_ms: Option<u64>,
    pub album_art: Option<Seq<u8>>,
}

impl View for SongMetadata {
    type V = MetadataView;

    open spec fn view(&self) -> MetadataView {
        MetadataView {
            title: self.title@,
            artist: self.artist@,
            album: self.album@,
            duration_ms: self.duration_ms,
            album_art: match self.album_art {
                Some(a) => Some(a@),
                None => None,
            },
        }
    }
}

/// What a tag reader found in a file; a field is absent when the tag lacks it or could
/// not be read.
pub struct TagFields {
    pub title: Option<String>,
    pub artist: Option<String>,
    pub album: Option<String>,
    /// The data of the first embedded picture.
    pub picture: Option<Vec<u8>>,
}

/// What the decoder reported of a stream: a duration tag, and the stream's frame count,
/// sample rate and time base (numerator, denominator).
pub struct StreamFacts {
    pub tag_duration_ms: Option<u64>,
    pub n_frames: Option<u64>,
    pub sample_rate: Option<u32>,
    pub time_base: Option<(u32, u32)>,
}

pub open spec fn unknown_artist() -> Seq<char> {
    "Unknown Artist"@
}

pub open spec fn unknown_album() -> Seq<char> {
    "Unknown Album"@
}

/// Artist and album shown while a song's metadata is still being loaded.
pub open spec fn loading_text() -> Seq<char> {
    "Loading…"@
}

pub open spec fn unknown_title() -> Seq<char> {
    "Unknown"@
}

pub open spec fn string_or(s: Option<String>, default: Seq<char>) -> Seq<char> {
    match s {
        Some(v) => v@,
        None => default,
    }
}

pub open spec fn bytes_of(b: Option<Vec<u8>>) -> Option<Seq<u8>> {
    match b {
        Some(v) => Some(v@),
        None => None,
    }
}

pub open spec fn stem_or(path: Seq<char>, default: Seq<char>) -> Seq<char> {
    match stem_of(path) {
        Some(s) => s,
        None => default,
    }
}

/// The metadata of the song at `path`, from what its tags say: each field falls back to
/// the file's stem or to the "unknown" text.
pub open spec fn metadata_from(path: Seq<char>, tags: TagFields, duration_ms: Option<u64>) -> MetadataView {
    MetadataView {
        title: string_or(tags.title, stem_or(path, Seq::empty())),
        artist: string_or(tags.artist, unknown_artist()),
        album: string_or(tags.album, unknown_album()),
        duration_ms: duration_ms,
        album_art: bytes_of(tags.picture),
    }
}

/// The metadata shown for `path` before its own has been loaded.
pub open spec fn placeholder_of(path: Seq<char>) -> MetadataView {
    MetadataView {
        title: stem_or(path, unknown_title()),
        artist: loading_text(),
        album: loading_text(),
        duration_ms: None,
        album_art: None,
    }
}

pub open spec fn clamp_ms(x: int) -> u64 {
    if x <= u64::MAX {
        x as u64
    } else {
        u64::MAX
    }
}

/// Duration of `n_frames` frames at `rate` frames per second.
pub open spec fn rate_duration(n_frames: Option<u64>, rate: Option<u32>) -> Option<u64> {
    match (n_frames, rate) {
        (Some(n), Some(r)) => if r > 0 {
            Some(clamp_ms(n * 1000 / (r as int)))
        } else {
            None
        },
        _ => None,
    }
}

/// Duration of `n_frames` ticks of `num / den` seconds each.
pub open spec fn time_base_duration(n_frames: Option<u64>, time_base: Option<(u32, u32)>) -> Option<u64> {
    match (n_frames, time_base) {
        (Some(n), Some((num, den))) => if den > 0 {
            Some(clamp_ms(n * num * 1000 / (den as int)))
        } else {
            None
        },
        _ => None,
    }
}

/// The first of the stream's ways to know its length that gives one.
pub open spec fn stream_duration(f: StreamFacts) -> Option<u64> {
    if f.tag_duration_ms is Some {
        f.tag_duration_ms
    } else if rate_duration(f.n_frames, f.sample_rate) is Some {
        rate_duration(f.n_frames, f.sample_rate)
    } else {
        time_base_duration(f.n_frames, f.time_base)
    }
}

/// A song's duration: from the probed stream if it tells, else from what the decoder reports.
pub open spec fn duration_from(probe: Option<StreamFacts>, decoder_ms: Option<u64>) -> Option<u64> {
    match probe {
        Some(f) => if stream_duration(f) is Some {
            stream_duration(f)
        } else {
            decoder_ms
        },
        None => decoder_ms,
    }
}

fn clamp_exec(x: u128) -> (r: u64)
    ensures
        r == clamp_ms(x as int),
{
    if x <= u64::MAX as u128 {
        x as u64
    } else {
        u64::MAX
    }
}

fn stream_duration_exec(f: &StreamFacts) -> (r: Option<u64>)
    ensures
        r == stream_duration(*f),
{
    if let Some(d) = f.tag_duration_ms {
        return Some(d);
    }
    if let (Some(n), Some(rate)) = (f.n_frames, f.sample_rate) {
        if rate > 0 {
            let ms = (n as u128) * 1000 / (rate as u128);
            return Some(clamp_exec(ms));
        }
    }
    if let (Some(n), Some((num, den))) = (f.n_frames, f.time_base) {
        if den > 0 {
            assert((n as int) * (num as int) <= u64::MAX * u32::MAX) by (nonlinear_arith)
                requires
                    n <= u64::MAX,
                    num <= u32::MAX,
            ;
            let ticks = (n as u128) * (num as u128);
            assert(ticks * 1000 <= u128::MAX);
            let ms = ticks * 1000 / (den as u128);
            return Some(clamp_exec(ms));
        }
    }
    None
}

/// The duration of a song, in milliseconds, from what probing its stream found (absent
/// when probing failed) and from what a decoder reports.
pub fn duration_ms(probe: Option<StreamFacts>, decoder_ms: Option<u64>) -> (r: Option<u64>)
    ensures
        r == duration_from(probe, decoder_ms),
{
    match probe {
        Some(f) => match stream_duration_exec(&f) {
            Some(d) => Some(d),
            None => decoder_ms,
        },
        None => decoder_ms,
    }
}

pub fn copy_bytes(b: &Vec<u8>) -> (r: Vec<u8>)
    ensures
        r@ == b@,
{
    let mut r: Vec<u8> = Vec::new();
    let mut i: usize = 0;
    while i < b.len()
        invariant
            i <= b@.len(),
            r@ == b@.take(i as int),
        decreases b@.len() - i,
    {
        r.push(b[i]);
        assert(b@.take(i + 1) =~= b@.take(i as int).push(b@[i as int]));
        i = i + 1;
    }
    assert(b@.take(i as int) =~= b@);
    r
}

fn text_or(s: Option<String>, default: &str) -> (r: String)
    ensures
        r@ == string_or(s, default@),
{
    match s {
        Some(v) => v,
        None => default.to_owned(),
    }
}

impl SongMetadata {
    /// A copy of this metadata.
    pub fn duplicate(&self) -> (r: SongMetadata)
        ensures
            r@ == self@,
    {
        SongMetadata {
            title: self.title.clone(),
            artist: self.artist.clone(),
            album: self.album.clone(),
            duration_ms: self.duration_ms,
            album_art: match &self.album_art {
                Some(a) => Some(copy_bytes(a)),
                None => None,
            },
        }
    }

    /// The metadata of the song at `path`, given what its tags say and how long it is.
    pub fn from_tags(path: &str, tags: TagFields, duration_ms: Option<u64>) -> (r: SongMetadata)
        ensures
            r@ == metadata_from(path@, tags, duration_ms),
    {
        let ghost t = tags;
        let stem = match file_stem(path) {
            Some(s) => s,
            None => String::new(),
        };
        let title = match tags.title {
            Some(v) => v,
            None => stem,
        };
        let r = SongMetadata {
            title,
            artist: text_or(tags.artist, "Unknown Artist"),
            album: text_or(tags.album, "Unknown Album"),
            duration_ms,
            album_art: tags.picture,
        };
        assert(r@ == metadata_from(path@, t, duration_ms));
        r
    }

    /// The metadata shown for `path` while its own is loading.
    pub fn placeholder(path: &str) -> (r: SongMetadata)
        ensures
            r@ == placeholder_of(path@),
    {
        let title = match file_stem(path) {
            Some(s) => s,
            None => "Unknown".to_owned(),
        };
        let r = SongMetadata {
            title,
            artist: "Loading…".to_owned(),
            album: "Loading…".to_owned(),
            duration_ms: None,
            album_art: None,
        };
        assert(r@ == placeholder_of(path@));
        r
    }

    /// Whether this is still the placeholder text of a song being loaded.
    pub fn is_loading(&self) -> (r: bool)
        ensures
            r == (self.artist@ == loading_text()),
    {
        let loading = "Loading…".to_owned();
        self.artist == loading
    }
}

} // verus!
