//! The domain model: songs and playlists as fully materialized values, their
//! ghost views, and the schema with defaults for loosely-typed authoring
//! input.

use vstd::prelude::*;

verus! {

/// One song, assembled from a track-record chunk and its data-object
/// children.
#[derive(Clone, Debug)]
pub struct Song {
    pub persistent_id: u64,
    pub title: String,
    pub artist: String,
    pub album: String,
    pub genre: String,
    pub file_kind: String,
    pub location: String,
    pub size_bytes: u32,
    pub duration_ms: u32,
    pub track_number: u32,
    pub year: u32,
    pub bitrate: u32,
    pub sample_rate: u32,
    pub play_count: u32,
    pub rating: u32,
    pub date_added: u32,
}

/// The mathematical view of a song.
#[verifier::ext_equal]
pub ghost struct SongV {
    pub persistent_id: u64,
    pub title: Seq<char>,
    pub artist: Seq<char>,
    pub album: Seq<char>,
    pub genre: Seq<char>,
    pub file_kind: Seq<char>,
    pub location: Seq<char>,
    pub size_bytes: u32,
    pub duration_ms: u32,
    pub track_number: u32,
    pub year: u32,
    pub bitrate: u32,
    pub sample_rate: u32,
    pub play_count: u32,
    pub rating: u32,
    pub date_added: u32,
}

impl DeepView for Song {
    type V = SongV;

    open spec fn deep_view(&self) -> SongV {
        SongV {
            persistent_id: self.persistent_id,
            title: self.title@,
            artist: self.artist@,
            album: self.album@,
            genre: self.genre@,
            file_kind: self.file_kind@,
            location: self.location@,
            size_bytes: self.size_bytes,
            duration_ms: self.duration_ms,
            track_number: self.track_number,
            year: self.year,
            bitrate: self.bitrate,
            sample_rate: self.sample_rate,
            play_count: self.play_count,
            rating: self.rating,
            date_added: self.date_added,
        }
    }
}

/// One playlist to encode: its name, persistent id, and the referenced track
/// persistent ids in order.
#[derive(Clone, Debug)]
pub struct Playlist {
    pub name: String,
    pub persistent_id: u64,
    pub items: Vec<u64>,
}

/// The mathematical view of a playlist.
#[verifier::ext_equal]
pub ghost struct PlaylistV {
    pub name: Seq<char>,
    pub persistent_id: u64,
    pub items: Seq<u64>,
}

impl DeepView for Playlist {
    type V = PlaylistV;

    open spec fn deep_view(&self) -> PlaylistV {
        PlaylistV { name: self.name@, persistent_id: self.persistent_id, items: self.items@ }
    }
}

/// One decoded playlist entry: the referenced track persistent id and whether
/// the reference resolved against the decoded track list.
#[derive(Clone, Copy, Debug, PartialEq, Eq, Structural)]
pub struct PlaylistEntry {
    pub track_id: u64,
    pub resolved: bool,
}

/// One decoded playlist, its references resolved against the track list.
#[derive(Clone, Debug)]
pub struct DecodedPlaylist {
    pub name: String,
    pub persistent_id: u64,
    pub entries: Vec<PlaylistEntry>,
}

/// The mathematical view of a decoded playlist.
#[verifier::ext_equal]
pub ghost struct DecodedPlaylistV {
    pub name: Seq<char>,
    pub persistent_id: u64,
    pub entries: Seq<PlaylistEntry>,
}

impl DeepView for DecodedPlaylist {
    type V = DecodedPlaylistV;

    open spec fn deep_view(&self) -> DecodedPlaylistV {
        DecodedPlaylistV {
            name: self.name@,
            persistent_id: self.persistent_id,
            entries: self.entries@,
        }
    }
}

/// A song as authored in a loosely-typed side file: every field optional.
pub struct SongDraft {
    pub persistent_id: Option<u64>,
    pub title: Option<String>,
    pub artist: Option<String>,
    pub album: Option<String>,
    pub genre: Option<String>,
    pub file_kind: Option<String>,
    pub location: Option<String>,
    pub size_bytes: Option<u32>,
    pub duration_ms: Option<u32>,
    pub track_number: Option<u32>,
    pub year: Option<u32>,
    pub bitrate: Option<u32>,
    pub sample_rate: Option<u32>,
    pub play_count: Option<u32>,
    pub rating: Option<u32>,
    pub date_added: Option<u32>,
}

pub open spec fn str_or_empty(o: Option<String>) -> Seq<char> {
    match o {
        Some(s) => s@,
        None => Seq::empty(),
    }
}

pub open spec fn u32_or_zero(o: Option<u32>) -> u32 {
    match o {
        Some(v) => v,
        None => 0,
    }
}

pub open spec fn u64_or_zero(o: Option<u64>) -> u64 {
    match o {
        Some(v) => v,
        None => 0,
    }
}

fn take_str(o: Option<String>) -> (r: String)
    ensures
        r@ == str_or_empty(o),
{
    match o {
        Some(s) => s,
        None => String::new(),
    }
}

impl SongDraft {
    /// A draft with every field absent.
    pub fn empty() -> (r: SongDraft)
        ensures
            r.persistent_id is None,
            r.title is None,
            r.artist is None,
            r.album is None,
            r.genre is None,
            r.file_kind is None,
            r.location is None,
            r.size_bytes is None,
            r.duration_ms is None,
            r.track_number is None,
            r.year is None,
            r.bitrate is None,
            r.sample_rate is None,
            r.play_count is None,
            r.rating is None,
            r.date_added is None,
    {
        SongDraft {
            persistent_id: None,
            title: None,
            artist: None,
            album: None,
            genre: None,
            file_kind: None,
            location: None,
            size_bytes: None,
            duration_ms: None,
            track_number: None,
            year: None,
            bitrate: None,
            sample_rate: None,
            play_count: None,
            rating: None,
            date_added: None,
        }
    }

    /// Resolves the draft into a song: an absent string is empty, an absent
    /// number is zero.
    pub fn into_song(self) -> (r: Song)
        ensures
            r.deep_view() == (SongV {
                persistent_id: u64_or_zero(self.persistent_id),
                title: str_or_empty(self.title),
                artist: str_or_empty(self.artist),
                album: str_or_empty(self.album),
                genre: str_or_empty(self.genre),
                file_kind: str_or_empty(self.file_kind),
                location: str_or_empty(self.location),
                size_bytes: u32_or_zero(self.size_bytes),
                duration_ms: u32_or_zero(self.duration_ms),
                track_number: u32_or_zero(self.track_number),
                year: u32_or_zero(self.year),
                bitrate: u32_or_zero(self.bitrate),
                sample_rate: u32_or_zero(self.sample_rate),
                play_count: u32_or_zero(self.play_count),
                rating: u32_or_zero(self.rating),
                date_added: u32_or_zero(self.date_added),
            }),
    {
        let r = Song {
            persistent_id: match self.persistent_id {
                Some(v) => v,
                None => 0,
            },
            title: take_str(self.title),
            artist: take_str(self.artist),
            album: take_str(self.album),
            genre: take_str(self.genre),
            file_kind: take_str(self.file_kind),
            location: take_str(self.location),
            size_bytes: match self.size_bytes {
                Some(v) => v,
                None => 0,
            },
            duration_ms: match self.duration_ms {
                Some(v) => v,
                None => 0,
            },
            track_number: match self.track_number {
                Some(v) => v,
                None => 0,
            },
            year: match self.year {
                Some(v) => v,
                None => 0,
            },
            bitrate: match self.bitrate {
                Some(v) => v,
                None => 0,
            },
            sample_rate: match self.sample_rate {
                Some(v) => v,
                None => 0,
            },
            play_count: match self.play_count {
                Some(v) => v,
                None => 0,
            },
            rating: match self.rating {
                Some(v) => v,
                None => 0,
            },
            date_added: match self.date_added {
                Some(v) => v,
                None => 0,
            },
        };
        proof {
            assert(r.deep_view() =~= SongV {
                persistent_id: u64_or_zero(self.persistent_id),
                title: str_or_empty(self.title),
                artist: str_or_empty(self.artist),
                album: str_or_empty(self.album),
                genre: str_or_empty(self.genre),
                file_kind: str_or_empty(self.file_kind),
                location: str_or_empty(self.location),
                size_bytes: u32_or_zero(self.size_bytes),
                duration_ms: u32_or_zero(self.duration_ms),
                track_number: u32_or_zero(self.track_number),
                year: u32_or_zero(self.year),
                bitrate: u32_or_zero(self.bitrate),
                sample_rate: u32_or_zero(self.sample_rate),
                play_count: u32_or_zero(self.play_count),
                rating: u32_or_zero(self.rating),
                date_added: u32_or_zero(self.date_added),
            });
        }
        r
    }
}

} // verus!
