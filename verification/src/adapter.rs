//! Format adapter: walks a decoded chunk tree read-only and materializes the
//! domain model. A data object whose type or payload it does not recognize is
//! skipped, never failing the whole song; a playlist item whose referenced
//! track id is absent from the track list is kept, marked unresolved.

use vstd::prelude::*;

use crate::chunk::ChunkNode;
use crate::chunk::ChunkTag;
use crate::chunk::DATA_TYPE_ALBUM;
use crate::chunk::DATA_TYPE_ARTIST;
use crate::chunk::DATA_TYPE_FILE_KIND;
use crate::chunk::DATA_TYPE_GENRE;
use crate::chunk::DATA_TYPE_LOCATION;
use crate::chunk::DATA_TYPE_TITLE;
use crate::chunk::NodeV;
use crate::chunk::SECTION_TYPE_PLAYLISTS;
use crate::chunk::SECTION_TYPE_TRACKS;
use crate::chunk::children_v;
use crate::chunk::lemma_children_v_len;
use crate::model::DecodedPlaylist;
use crate::model::DecodedPlaylistV;
use crate::model::PlaylistEntry;
use crate::model::Song;
use crate::model::SongV;
use crate::strings::StrEncoding;
use crate::strings::decode_spec;
use crate::strings::decode_string;

verus! {

/// The string a data-object node carries, when its encoding indicator is
/// known and its payload is well formed for it.
pub open spec fn mhod_string(n: NodeV) -> Option<Seq<char>> {
    if n.fields[2] == 1 {
        decode_spec(n.payload, StrEncoding::Utf16Le)
    } else if n.fields[2] == 0 {
        decode_spec(n.payload, StrEncoding::SingleByte)
    } else {
        None
    }
}

/// True when a child is a readable data object of the wanted data type.
pub open spec fn is_wanted_mhod(n: NodeV, dtype: u64) -> bool {
    n.tag == ChunkTag::DataObject && n.fields.len() == 3 && n.fields[0] == dtype && mhod_string(
        n,
    ) is Some
}

/// The first readable data object of the wanted type among a node's
/// children, or the empty string.
pub open spec fn find_str(kids: Seq<NodeV>, dtype: u64) -> Seq<char>
    decreases kids.len(),
{
    if kids.len() == 0 {
        Seq::empty()
    } else if is_wanted_mhod(kids[0], dtype) {
        mhod_string(kids[0]).unwrap()
    } else {
        find_str(kids.drop_first(), dtype)
    }
}

/// The song a track-record node describes.
pub open spec fn song_of_track(n: NodeV) -> SongV {
    SongV {
        persistent_id: n.fields[0],
        title: find_str(n.children, DATA_TYPE_TITLE as u64),
        artist: find_str(n.children, DATA_TYPE_ARTIST as u64),
        album: find_str(n.children, DATA_TYPE_ALBUM as u64),
        genre: find_str(n.children, DATA_TYPE_GENRE as u64),
        file_kind: find_str(n.children, DATA_TYPE_FILE_KIND as u64),
        location: find_str(n.children, DATA_TYPE_LOCATION as u64),
        size_bytes: n.fields[1] as u32,
        duration_ms: n.fields[2] as u32,
        track_number: n.fields[3] as u32,
        year: n.fields[4] as u32,
        bitrate: n.fields[5] as u32,
        sample_rate: n.fields[6] as u32,
        play_count: n.fields[7] as u32,
        rating: n.fields[8] as u32,
        date_added: n.fields[9] as u32,
    }
}

pub open spec fn is_track(n: NodeV) -> bool {
    n.tag == ChunkTag::TrackRecord && n.fields.len() == 11
}

/// The songs of a track list's children, in order.
pub open spec fn songs_in_list(kids: Seq<NodeV>) -> Seq<SongV>
    decreases kids.len(),
{
    if kids.len() == 0 {
        Seq::empty()
    } else if is_track(kids[0]) {
        seq![song_of_track(kids[0])] + songs_in_list(kids.drop_first())
    } else {
        songs_in_list(kids.drop_first())
    }
}

/// The songs of every track list among a section's children.
pub open spec fn songs_in_section(kids: Seq<NodeV>) -> Seq<SongV>
    decreases kids.len(),
{
    if kids.len() == 0 {
        Seq::empty()
    } else if kids[0].tag == ChunkTag::TrackList {
        songs_in_list(kids[0].children) + songs_in_section(kids.drop_first())
    } else {
        songs_in_section(kids.drop_first())
    }
}

pub open spec fn is_section(n: NodeV, stype: u64) -> bool {
    n.tag == ChunkTag::Section && n.fields.len() == 1 && n.fields[0] == stype
}

/// All songs under the root's tracks sections, in order.
pub open spec fn songs_of_sections(kids: Seq<NodeV>) -> Seq<SongV>
    decreases kids.len(),
{
    if kids.len() == 0 {
        Seq::empty()
    } else if is_section(kids[0], SECTION_TYPE_TRACKS as u64) {
        songs_in_section(kids[0].children) + songs_of_sections(kids.drop_first())
    } else {
        songs_of_sections(kids.drop_first())
    }
}

pub open spec fn songs_of_root(root: NodeV) -> Seq<SongV> {
    songs_of_sections(root.children)
}

/// The persistent ids of a song list, in order.
pub open spec fn ids_of(songs: Seq<SongV>) -> Seq<u64> {
    Seq::new(songs.len(), |i: int| songs[i].persistent_id)
}

/// One playlist entry: the referenced track id, marked resolved exactly when
/// that id occurs in the track list.
pub open spec fn entry_of_item(n: NodeV, ids: Seq<u64>) -> PlaylistEntry {
    PlaylistEntry { track_id: n.fields[0], resolved: ids.contains(n.fields[0]) }
}

pub open spec fn is_item(n: NodeV) -> bool {
    n.tag == ChunkTag::PlaylistItem && n.fields.len() == 2
}

pub open spec fn entries_in(kids: Seq<NodeV>, ids: Seq<u64>) -> Seq<PlaylistEntry>
    decreases kids.len(),
{
    if kids.len() == 0 {
        Seq::empty()
    } else if is_item(kids[0]) {
        seq![entry_of_item(kids[0], ids)] + entries_in(kids.drop_first(), ids)
    } else {
        entries_in(kids.drop_first(), ids)
    }
}

/// The decoded playlist a playlist-header node describes, its references
/// resolved against the given track ids.
pub open spec fn playlist_of(n: NodeV, ids: Seq<u64>) -> DecodedPlaylistV {
    DecodedPlaylistV {
        name: find_str(n.children, DATA_TYPE_TITLE as u64),
        persistent_id: n.fields[1],
        entries: entries_in(n.children, ids),
    }
}

pub open spec fn is_playlist(n: NodeV) -> bool {
    n.tag == ChunkTag::PlaylistHeader && n.fields.len() == 2
}

pub open spec fn playlists_in_list(kids: Seq<NodeV>, ids: Seq<u64>) -> Seq<DecodedPlaylistV>
    decreases kids.len(),
{
    if kids.len() == 0 {
        Seq::empty()
    } else if is_playlist(kids[0]) {
        seq![playlist_of(kids[0], ids)] + playlists_in_list(kids.drop_first(), ids)
    } else {
        playlists_in_list(kids.drop_first(), ids)
    }
}

pub open spec fn playlists_in_section(kids: Seq<NodeV>, ids: Seq<u64>) -> Seq<DecodedPlaylistV>
    decreases kids.len(),
{
    if kids.len() == 0 {
        Seq::empty()
    } else if kids[0].tag == ChunkTag::PlaylistList {
        playlists_in_list(kids[0].children, ids) + playlists_in_section(kids.drop_first(), ids)
    } else {
        playlists_in_section(kids.drop_first(), ids)
    }
}

pub open spec fn playlists_of_sections(kids: Seq<NodeV>, ids: Seq<u64>) -> Seq<DecodedPlaylistV>
    decreases kids.len(),
{
    if kids.len() == 0 {
        Seq::empty()
    } else if is_section(kids[0], SECTION_TYPE_PLAYLISTS as u64) {
        playlists_in_section(kids[0].children, ids) + playlists_of_sections(
            kids.drop_first(),
            ids,
        )
    } else {
        playlists_of_sections(kids.drop_first(), ids)
    }
}

pub open spec fn playlists_of_root(root: NodeV, ids: Seq<u64>) -> Seq<DecodedPlaylistV> {
    playlists_of_sections(root.children, ids)
}

/// Finds the first readable data object of the wanted type among a node's
/// children; the empty string when none exists.
fn find_string(kids: &Vec<ChunkNode>, dtype: u64) -> (r: String)
    ensures
        r@ == find_str(children_v(kids@), dtype),
{
    let ghost all = children_v(kids@);
    let mut i: usize = 0;
    proof {
        lemma_children_v_len(kids@);
        assert(all.skip(0) =~= all);
    }
    while i < kids.len()
        invariant
            i <= kids@.len(),
            all == children_v(kids@),
            all.len() == kids@.len(),
            forall|j: int| 0 <= j < kids@.len() ==> all[j] == crate::chunk::node_v(kids@[j]),
            find_str(all, dtype) == find_str(all.skip(i as int), dtype),
        decreases kids@.len() - i,
    {
        let n = &kids[i];
        let ghost head = all[i as int];
        if matches!(n.tag, ChunkTag::DataObject) && n.fields.len() == 3 && n.fields[0] == dtype {
            let enc = n.fields[2];
            if enc == 0 || enc == 1 {
                let encoding = if enc == 1 {
                    StrEncoding::Utf16Le
                } else {
                    StrEncoding::SingleByte
                };
                match decode_string(&n.payload, encoding) {
                    Ok(s) => {
                        proof {
                            assert(all.skip(i as int)[0] == head);
                            assert(is_wanted_mhod(head, dtype));
                            assert(mhod_string(head) == Some(s@));
                        }
                        return s;
                    },
                    Err(_) => {
                        proof {
                            assert(all.skip(i as int)[0] == head);
                            assert(!is_wanted_mhod(head, dtype));
                            assert(all.skip(i as int).drop_first() =~= all.skip(i + 1));
                        }
                    },
                }
            } else {
                proof {
                    assert(all.skip(i as int)[0] == head);
                    assert(!is_wanted_mhod(head, dtype));
                    assert(all.skip(i as int).drop_first() =~= all.skip(i + 1));
                }
            }
        } else {
            proof {
                assert(all.skip(i as int)[0] == head);
                assert(!is_wanted_mhod(head, dtype));
                assert(all.skip(i as int).drop_first() =~= all.skip(i + 1));
            }
        }
        i = i + 1;
    }
    proof {
        assert(all.skip(all.len() as int) =~= Seq::<NodeV>::empty());
    }
    String::new()
}

/// Builds the song a track-record node describes.
fn song_from_track(n: &ChunkNode) -> (r: Song)
    requires
        is_track(crate::chunk::node_v(*n)),
    ensures
        r.deep_view() == song_of_track(crate::chunk::node_v(*n)),
{
    let song = Song {
        persistent_id: n.fields[0],
        title: find_string(&n.children, DATA_TYPE_TITLE as u64),
        artist: find_string(&n.children, DATA_TYPE_ARTIST as u64),
        album: find_string(&n.children, DATA_TYPE_ALBUM as u64),
        genre: find_string(&n.children, DATA_TYPE_GENRE as u64),
        file_kind: find_string(&n.children, DATA_TYPE_FILE_KIND as u64),
        location: find_string(&n.children, DATA_TYPE_LOCATION as u64),
        size_bytes: #[verifier::truncate] (n.fields[1] as u32),
        duration_ms: #[verifier::truncate] (n.fields[2] as u32),
        track_number: #[verifier::truncate] (n.fields[3] as u32),
        year: #[verifier::truncate] (n.fields[4] as u32),
        bitrate: #[verifier::truncate] (n.fields[5] as u32),
        sample_rate: #[verifier::truncate] (n.fields[6] as u32),
        play_count: #[verifier::truncate] (n.fields[7] as u32),
        rating: #[verifier::truncate] (n.fields[8] as u32),
        date_added: #[verifier::truncate] (n.fields[9] as u32),
    };
    proof {
        assert(song.deep_view() =~= song_of_track(crate::chunk::node_v(*n)));
    }
    song
}

/// Collects the songs of every track record among a node's children.
fn songs_from_kids(kids: &Vec<ChunkNode>) -> (r: Vec<Song>)
    ensures
        r.deep_view() == songs_in_list(children_v(kids@)),
{
    let ghost all = children_v(kids@);
    let mut out: Vec<Song> = Vec::new();
    let mut i: usize = 0;
    proof {
        lemma_children_v_len(kids@);
        assert(all.skip(0) =~= all);
        assert(out.deep_view() =~= Seq::<SongV>::empty());
    }
    while i < kids.len()
        invariant
            i <= kids@.len(),
            all == children_v(kids@),
            all.len() == kids@.len(),
            forall|j: int| 0 <= j < kids@.len() ==> all[j] == crate::chunk::node_v(kids@[j]),
            songs_in_list(all) == out.deep_view() + songs_in_list(all.skip(i as int)),
        decreases kids@.len() - i,
    {
        let n = &kids[i];
        let ghost head = all[i as int];
        let ghost prev = out.deep_view();
        if matches!(n.tag, ChunkTag::TrackRecord) && n.fields.len() == 11 {
            let song = song_from_track(n);
            out.push(song);
        }
        i = i + 1;
        proof {
            assert(all.skip(i - 1)[0] == head);
            assert(all.skip(i - 1).drop_first() =~= all.skip(i as int));
            assert(out.deep_view() =~= if is_track(head) {
                prev.push(song_of_track(head))
            } else {
                prev
            });
            if is_track(head) {
                assert(prev + (seq![song_of_track(head)] + songs_in_list(all.skip(i as int)))
                    =~= out.deep_view() + songs_in_list(all.skip(i as int)));
            }
        }
    }
    proof {
        assert(all.skip(all.len() as int) =~= Seq::<NodeV>::empty());
        assert(out.deep_view() + Seq::<SongV>::empty() =~= out.deep_view());
    }
    out
}

/// Collects the songs of every track list among a node's children.
fn songs_from_section(kids: &Vec<ChunkNode>) -> (r: Vec<Song>)
    ensures
        r.deep_view() == songs_in_section(children_v(kids@)),
{
    let ghost all = children_v(kids@);
    let mut out: Vec<Song> = Vec::new();
    let mut i: usize = 0;
    proof {
        lemma_children_v_len(kids@);
        assert(all.skip(0) =~= all);
        assert(out.deep_view() =~= Seq::<SongV>::empty());
    }
    while i < kids.len()
        invariant
            i <= kids@.len(),
            all == children_v(kids@),
            all.len() == kids@.len(),
            forall|j: int| 0 <= j < kids@.len() ==> all[j] == crate::chunk::node_v(kids@[j]),
            songs_in_section(all) == out.deep_view() + songs_in_section(all.skip(i as int)),
        decreases kids@.len() - i,
    {
        let n = &kids[i];
        let ghost head = all[i as int];
        let ghost prev = out.deep_view();
        if matches!(n.tag, ChunkTag::TrackList) {
            let mut part = songs_from_kids(&n.children);
            let ghost part_dv = part.deep_view();
            out.append(&mut part);
            proof {
                assert(head.children == children_v(n.children@));
                assert(out.deep_view() =~= prev + part_dv);
            }
        }
        i = i + 1;
        proof {
            assert(all.skip(i - 1)[0] == head);
            assert(all.skip(i - 1).drop_first() =~= all.skip(i as int));
            if head.tag == ChunkTag::TrackList {
                assert(prev + (songs_in_list(head.children) + songs_in_section(
                    all.skip(i as int),
                )) =~= out.deep_view() + songs_in_section(all.skip(i as int)));
            }
        }
    }
    proof {
        assert(all.skip(all.len() as int) =~= Seq::<NodeV>::empty());
        assert(out.deep_view() + Seq::<SongV>::empty() =~= out.deep_view());
    }
    out
}

/// Extracts every song under the root's tracks sections, in order.
pub fn extract_songs(root: &ChunkNode) -> (r: Vec<Song>)
    ensures
        r.deep_view() == songs_of_root(root@),
{
    let kids = &root.children;
    let ghost all = children_v(kids@);
    let mut out: Vec<Song> = Vec::new();
    let mut i: usize = 0;
    proof {
        lemma_children_v_len(kids@);
        assert(all.skip(0) =~= all);
        assert(out.deep_view() =~= Seq::<SongV>::empty());
    }
    while i < kids.len()
        invariant
            i <= kids@.len(),
            kids == &root.children,
            all == children_v(kids@),
            all.len() == kids@.len(),
            forall|j: int| 0 <= j < kids@.len() ==> all[j] == crate::chunk::node_v(kids@[j]),
            songs_of_sections(all) == out.deep_view() + songs_of_sections(all.skip(i as int)),
        decreases kids@.len() - i,
    {
        let n = &kids[i];
        let ghost head = all[i as int];
        let ghost prev = out.deep_view();
        if matches!(n.tag, ChunkTag::Section) && n.fields.len() == 1 && n.fields[0]
            == SECTION_TYPE_TRACKS as u64 {
            let mut part = songs_from_section(&n.children);
            let ghost part_dv = part.deep_view();
            out.append(&mut part);
            proof {
                assert(head.children == children_v(n.children@));
                assert(out.deep_view() =~= prev + part_dv);
            }
        }
        i = i + 1;
        proof {
            assert(all.skip(i - 1)[0] == head);
            assert(all.skip(i - 1).drop_first() =~= all.skip(i as int));
            if is_section(head, SECTION_TYPE_TRACKS as u64) {
                assert(prev + (songs_in_section(head.children) + songs_of_sections(
                    all.skip(i as int),
                )) =~= out.deep_view() + songs_of_sections(all.skip(i as int)));
            }
        }
    }
    proof {
        assert(all.skip(all.len() as int) =~= Seq::<NodeV>::empty());
        assert(out.deep_view() + Seq::<SongV>::empty() =~= out.deep_view());
    }
    out
}

/// True exactly when one of the songs carries this persistent id.
fn track_ids_contain(songs: &Vec<Song>, id: u64) -> (r: bool)
    ensures
        r == ids_of(songs.deep_view()).contains(id),
{
    let ghost ids = ids_of(songs.deep_view());
    let mut i: usize = 0;
    while i < songs.len()
        invariant
            i <= songs@.len(),
            ids == ids_of(songs.deep_view()),
            ids.len() == songs@.len(),
            forall|j: int| 0 <= j < i ==> ids[j] != id,
        decreases songs@.len() - i,
    {
        if songs[i].persistent_id == id {
            proof {
                assert(ids[i as int] == id);
            }
            return true;
        }
        i = i + 1;
    }
    proof {
        assert forall|j: int| 0 <= j < ids.len() implies ids[j] != id by {}
        if ids.contains(id) {
            let j = choose|j: int| 0 <= j < ids.len() && ids[j] == id;
            assert(false);
        }
    }
    false
}

/// Builds the entries of one playlist header's item children, each marked
/// resolved exactly when its referenced id is in the track list.
fn entries_from_kids(kids: &Vec<ChunkNode>, songs: &Vec<Song>) -> (r: Vec<PlaylistEntry>)
    ensures
        r@ == entries_in(children_v(kids@), ids_of(songs.deep_view())),
{
    let ghost all = children_v(kids@);
    let ghost ids = ids_of(songs.deep_view());
    let mut out: Vec<PlaylistEntry> = Vec::new();
    let mut i: usize = 0;
    proof {
        lemma_children_v_len(kids@);
        assert(all.skip(0) =~= all);
        assert(out@ =~= Seq::<PlaylistEntry>::empty());
    }
    while i < kids.len()
        invariant
            i <= kids@.len(),
            all == children_v(kids@),
            ids == ids_of(songs.deep_view()),
            all.len() == kids@.len(),
            forall|j: int| 0 <= j < kids@.len() ==> all[j] == crate::chunk::node_v(kids@[j]),
            entries_in(all, ids) == out@ + entries_in(all.skip(i as int), ids),
        decreases kids@.len() - i,
    {
        let n = &kids[i];
        let ghost head = all[i as int];
        let ghost prev = out@;
        if matches!(n.tag, ChunkTag::PlaylistItem) && n.fields.len() == 2 {
            let id = n.fields[0];
            let resolved = track_ids_contain(songs, id);
            out.push(PlaylistEntry { track_id: id, resolved });
        }
        i = i + 1;
        proof {
            assert(all.skip(i - 1)[0] == head);
            assert(all.skip(i - 1).drop_first() =~= all.skip(i as int));
            if is_item(head) {
                assert(out@ =~= prev.push(entry_of_item(head, ids)));
                assert(prev + (seq![entry_of_item(head, ids)] + entries_in(
                    all.skip(i as int),
                    ids,
                )) =~= out@ + entries_in(all.skip(i as int), ids));
            }
        }
    }
    proof {
        assert(all.skip(all.len() as int) =~= Seq::<NodeV>::empty());
        assert(out@ + Seq::<PlaylistEntry>::empty() =~= out@);
    }
    out
}

/// Builds the decoded playlist a playlist-header node describes.
fn playlist_from_header(n: &ChunkNode, songs: &Vec<Song>) -> (r: DecodedPlaylist)
    requires
        is_playlist(crate::chunk::node_v(*n)),
    ensures
        r.deep_view() == playlist_of(crate::chunk::node_v(*n), ids_of(songs.deep_view())),
{
    let pl = DecodedPlaylist {
        name: find_string(&n.children, DATA_TYPE_TITLE as u64),
        persistent_id: n.fields[1],
        entries: entries_from_kids(&n.children, songs),
    };
    proof {
        assert(pl.deep_view() =~= playlist_of(
            crate::chunk::node_v(*n),
            ids_of(songs.deep_view()),
        ));
    }
    pl
}

/// Collects the playlists of every playlist header among a node's children.
fn playlists_from_kids(kids: &Vec<ChunkNode>, songs: &Vec<Song>) -> (r: Vec<DecodedPlaylist>)
    ensures
        r.deep_view() == playlists_in_list(children_v(kids@), ids_of(songs.deep_view())),
{
    let ghost all = children_v(kids@);
    let ghost ids = ids_of(songs.deep_view());
    let mut out: Vec<DecodedPlaylist> = Vec::new();
    let mut i: usize = 0;
    proof {
        lemma_children_v_len(kids@);
        assert(all.skip(0) =~= all);
        assert(out.deep_view() =~= Seq::<DecodedPlaylistV>::empty());
    }
    while i < kids.len()
        invariant
            i <= kids@.len(),
            all == children_v(kids@),
            ids == ids_of(songs.deep_view()),
            all.len() == kids@.len(),
            forall|j: int| 0 <= j < kids@.len() ==> all[j] == crate::chunk::node_v(kids@[j]),
            playlists_in_list(all, ids) == out.deep_view() + playlists_in_list(
                all.skip(i as int),
                ids,
            ),
        decreases kids@.len() - i,
    {
        let n = &kids[i];
        let ghost head = all[i as int];
        let ghost prev = out.deep_view();
        if matches!(n.tag, ChunkTag::PlaylistHeader) && n.fields.len() == 2 {
            let pl = playlist_from_header(n, songs);
            out.push(pl);
        }
        i = i + 1;
        proof {
            assert(all.skip(i - 1)[0] == head);
            assert(all.skip(i - 1).drop_first() =~= all.skip(i as int));
            if is_playlist(head) {
                assert(out.deep_view() =~= prev.push(playlist_of(head, ids)));
                assert(prev + (seq![playlist_of(head, ids)] + playlists_in_list(
                    all.skip(i as int),
                    ids,
                )) =~= out.deep_view() + playlists_in_list(all.skip(i as int), ids));
            }
        }
    }
    proof {
        assert(all.skip(all.len() as int) =~= Seq::<NodeV>::empty());
        assert(out.deep_view() + Seq::<DecodedPlaylistV>::empty() =~= out.deep_view());
    }
    out
}

/// Collects the playlists of every playlist list among a node's children.
fn playlists_from_section(kids: &Vec<ChunkNode>, songs: &Vec<Song>) -> (r: Vec<DecodedPlaylist>)
    ensures
        r.deep_view() == playlists_in_section(children_v(kids@), ids_of(songs.deep_view())),
{
    let ghost all = children_v(kids@);
    let ghost ids = ids_of(songs.deep_view());
    let mut out: Vec<DecodedPlaylist> = Vec::new();
    let mut i: usize = 0;
    proof {
        lemma_children_v_len(kids@);
        assert(all.skip(0) =~= all);
        assert(out.deep_view() =~= Seq::<DecodedPlaylistV>::empty());
    }
    while i < kids.len()
        invariant
            i <= kids@.len(),
            all == children_v(kids@),
            ids == ids_of(songs.deep_view()),
            all.len() == kids@.len(),
            forall|j: int| 0 <= j < kids@.len() ==> all[j] == crate::chunk::node_v(kids@[j]),
            playlists_in_section(all, ids) == out.deep_view() + playlists_in_section(
                all.skip(i as int),
                ids,
            ),
        decreases kids@.len() - i,
    {
        let n = &kids[i];
        let ghost head = all[i as int];
        let ghost prev = out.deep_view();
        if matches!(n.tag, ChunkTag::PlaylistList) {
            let mut part = playlists_from_kids(&n.children, songs);
            let ghost part_dv = part.deep_view();
            out.append(&mut part);
            proof {
                assert(head.children == children_v(n.children@));
                assert(out.deep_view() =~= prev + part_dv);
            }
        }
        i = i + 1;
        proof {
            assert(all.skip(i - 1)[0] == head);
            assert(all.skip(i - 1).drop_first() =~= all.skip(i as int));
            if head.tag == ChunkTag::PlaylistList {
                assert(prev + (playlists_in_list(head.children, ids) + playlists_in_section(
                    all.skip(i as int),
                    ids,
                )) =~= out.deep_view() + playlists_in_section(all.skip(i as int), ids));
            }
        }
    }
    proof {
        assert(all.skip(all.len() as int) =~= Seq::<NodeV>::empty());
        assert(out.deep_view() + Seq::<DecodedPlaylistV>::empty() =~= out.deep_view());
    }
    out
}

/// Extracts every playlist under the root's playlists sections, each item
/// marked resolved exactly when its referenced track id occurs among the
/// given songs: an absent reference is kept and marked, never dropped.
pub fn extract_playlists(root: &ChunkNode, songs: &Vec<Song>) -> (r: Vec<DecodedPlaylist>)
    ensures
        r.deep_view() == playlists_of_root(root@, ids_of(songs.deep_view())),
{
    let kids = &root.children;
    let ghost all = children_v(kids@);
    let ghost ids = ids_of(songs.deep_view());
    let mut out: Vec<DecodedPlaylist> = Vec::new();
    let mut i: usize = 0;
    proof {
        lemma_children_v_len(kids@);
        assert(all.skip(0) =~= all);
        assert(out.deep_view() =~= Seq::<DecodedPlaylistV>::empty());
    }
    while i < kids.len()
        invariant
            i <= kids@.len(),
            kids == &root.children,
            all == children_v(kids@),
            ids == ids_of(songs.deep_view()),
            all.len() == kids@.len(),
            forall|j: int| 0 <= j < kids@.len() ==> all[j] == crate::chunk::node_v(kids@[j]),
            playlists_of_sections(all, ids) == out.deep_view() + playlists_of_sections(
                all.skip(i as int),
                ids,
            ),
        decreases kids@.len() - i,
    {
        let n = &kids[i];
        let ghost head = all[i as int];
        let ghost prev = out.deep_view();
        if matches!(n.tag, ChunkTag::Section) && n.fields.len() == 1 && n.fields[0]
            == SECTION_TYPE_PLAYLISTS as u64 {
            let mut part = playlists_from_section(&n.children, songs);
            let ghost part_dv = part.deep_view();
            out.append(&mut part);
            proof {
                assert(head.children == children_v(n.children@));
                assert(out.deep_view() =~= prev + part_dv);
            }
        }
        i = i + 1;
        proof {
            assert(all.skip(i - 1)[0] == head);
            assert(all.skip(i - 1).drop_first() =~= all.skip(i as int));
            if is_section(head, SECTION_TYPE_PLAYLISTS as u64) {
                assert(prev + (playlists_in_section(head.children, ids) + playlists_of_sections(
                    all.skip(i as int),
                    ids,
                )) =~= out.deep_view() + playlists_of_sections(all.skip(i as int), ids));
            }
        }
    }
    proof {
        assert(all.skip(all.len() as int) =~= Seq::<NodeV>::empty());
        assert(out.deep_view() + Seq::<DecodedPlaylistV>::empty() =~= out.deep_view());
    }
    out
}

} // verus!
