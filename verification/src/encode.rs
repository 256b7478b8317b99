//! Bottom-up encoder: builds a chunk tree from songs and playlists with every
//! length field recomputed, then serializes it depth-first into bytes.

use vstd::prelude::*;

use crate::DbError;
use crate::chunk::ChunkNode;
use crate::chunk::ChunkTag;
use crate::chunk::DATA_TYPE_ALBUM;
use crate::chunk::DATA_TYPE_ARTIST;
use crate::chunk::DATA_TYPE_FILE_KIND;
use crate::chunk::DATA_TYPE_GENRE;
use crate::chunk::DATA_TYPE_LOCATION;
use crate::chunk::DATA_TYPE_TITLE;
use crate::chunk::FORMAT_VERSION;
use crate::chunk::NodeV;
use crate::chunk::SECTION_TYPE_PLAYLISTS;
use crate::chunk::SECTION_TYPE_TRACKS;
use crate::chunk::all_shape;
use crate::chunk::children_v;
use crate::chunk::lemma_all_shape_concat;
use crate::chunk::lemma_children_v_snoc;
use crate::chunk::lemma_ser_kids_snoc;
use crate::chunk::lemma_sum_tlen_concat;
use crate::chunk::lemma_sum_tlen_elem;
use crate::chunk::node_v;
use crate::chunk::ser_fields;
use crate::chunk::ser_kids;
use crate::chunk::ser_node;
use crate::chunk::shape_ok;
use crate::chunk::sum_tlen;
use crate::chunk::tag_bytes;
use crate::chunk::tag_to_bytes;
use crate::cursor::ByteWriter;
use crate::model::Playlist;
use crate::model::PlaylistV;
use crate::model::Song;
use crate::model::SongV;
use crate::strings::encode_utf16le;
use crate::strings::utf16le_bytes;

verus! {

/// The data-object node carrying one string attribute, as UTF-16LE.
pub open spec fn data_object_v(dtype: u32, s: Seq<char>) -> NodeV {
    let payload = utf16le_bytes(s);
    NodeV {
        tag: ChunkTag::DataObject,
        hlen: (24 + payload.len()) as nat,
        tlen: (24 + payload.len()) as nat,
        fields: seq![dtype as u64, payload.len() as u64, 1u64],
        payload,
        children: Seq::empty(),
    }
}

/// One data object for a non-empty string, nothing for an empty one.
pub open spec fn mhod_opt(dtype: u32, s: Seq<char>) -> Seq<NodeV> {
    if s.len() > 0 {
        seq![data_object_v(dtype, s)]
    } else {
        Seq::empty()
    }
}

/// The data-object children of one track record, in the table's order.
pub open spec fn song_mhods(s: SongV) -> Seq<NodeV> {
    mhod_opt(DATA_TYPE_TITLE, s.title) + mhod_opt(DATA_TYPE_ARTIST, s.artist) + mhod_opt(
        DATA_TYPE_ALBUM,
        s.album,
    ) + mhod_opt(DATA_TYPE_GENRE, s.genre) + mhod_opt(DATA_TYPE_FILE_KIND, s.file_kind) + mhod_opt(
        DATA_TYPE_LOCATION,
        s.location,
    )
}

/// The track-record node of one song.
pub open spec fn track_node_v(s: SongV) -> NodeV {
    let kids = song_mhods(s);
    NodeV {
        tag: ChunkTag::TrackRecord,
        hlen: 60,
        tlen: 60 + sum_tlen(kids),
        fields: seq![
            s.persistent_id,
            s.size_bytes as u64,
            s.duration_ms as u64,
            s.track_number as u64,
            s.year as u64,
            s.bitrate as u64,
            s.sample_rate as u64,
            s.play_count as u64,
            s.rating as u64,
            s.date_added as u64,
            0u64,
        ],
        payload: Seq::empty(),
        children: kids,
    }
}

pub open spec fn track_nodes_v(songs: Seq<SongV>) -> Seq<NodeV> {
    Seq::new(songs.len(), |i: int| track_node_v(songs[i]))
}

/// The track-list node over all track records.
pub open spec fn track_list_v(songs: Seq<SongV>) -> NodeV {
    let kids = track_nodes_v(songs);
    NodeV {
        tag: ChunkTag::TrackList,
        hlen: 16,
        tlen: 16 + sum_tlen(kids),
        fields: seq![songs.len() as u64],
        payload: Seq::empty(),
        children: kids,
    }
}

/// The playlist-item node of one referenced track id.
pub open spec fn item_node_v(id: u64) -> NodeV {
    NodeV {
        tag: ChunkTag::PlaylistItem,
        hlen: 24,
        tlen: 24,
        fields: seq![id, 0u64],
        payload: Seq::empty(),
        children: Seq::empty(),
    }
}

pub open spec fn item_nodes_v(items: Seq<u64>) -> Seq<NodeV> {
    Seq::new(items.len(), |i: int| item_node_v(items[i]))
}

/// The playlist-header node of one playlist: its name as a data object, then
/// its items.
pub open spec fn playlist_node_v(p: PlaylistV) -> NodeV {
    let kids = mhod_opt(DATA_TYPE_TITLE, p.name) + item_nodes_v(p.items);
    NodeV {
        tag: ChunkTag::PlaylistHeader,
        hlen: 24,
        tlen: 24 + sum_tlen(kids),
        fields: seq![p.items.len() as u64, p.persistent_id],
        payload: Seq::empty(),
        children: kids,
    }
}

pub open spec fn playlist_nodes_v(pls: Seq<PlaylistV>) -> Seq<NodeV> {
    Seq::new(pls.len(), |i: int| playlist_node_v(pls[i]))
}

/// The playlist-list node over all playlist headers.
pub open spec fn playlist_list_v(pls: Seq<PlaylistV>) -> NodeV {
    let kids = playlist_nodes_v(pls);
    NodeV {
        tag: ChunkTag::PlaylistList,
        hlen: 16,
        tlen: 16 + sum_tlen(kids),
        fields: seq![pls.len() as u64],
        payload: Seq::empty(),
        children: kids,
    }
}

/// A section node wrapping one list.
pub open spec fn section_v(stype: u32, inner: NodeV) -> NodeV {
    NodeV {
        tag: ChunkTag::Section,
        hlen: 16,
        tlen: 16 + sum_tlen(seq![inner]),
        fields: seq![stype as u64],
        payload: Seq::empty(),
        children: seq![inner],
    }
}

/// The whole database tree of a song list and a playlist list: the root, a
/// tracks section, and a playlists section.
pub open spec fn build_library_v(songs: Seq<SongV>, pls: Seq<PlaylistV>) -> NodeV {
    let s1 = section_v(SECTION_TYPE_TRACKS, track_list_v(songs));
    let s2 = section_v(SECTION_TYPE_PLAYLISTS, playlist_list_v(pls));
    NodeV {
        tag: ChunkTag::Root,
        hlen: 20,
        tlen: 20 + sum_tlen(seq![s1, s2]),
        fields: seq![FORMAT_VERSION as u64, 2u64],
        payload: Seq::empty(),
        children: seq![s1, s2],
    }
}

/// Builds one data-object chunk; fails exactly when the payload would not fit
/// the 32-bit length fields.
fn build_data_object(dtype: u32, s: &String) -> (r: Result<ChunkNode, DbError>)
    ensures
        match r {
            Ok(n) => node_v(n) == data_object_v(dtype, s@) && data_object_v(dtype, s@).tlen
                <= u32::MAX,
            Err(e) => e == DbError::TooLarge && data_object_v(dtype, s@).tlen > u32::MAX,
        },
{
    let payload = encode_utf16le(s.as_str());
    if payload.len() as u64 > 0xFFFF_FFFFu64 - 24 {
        return Err(DbError::TooLarge);
    }
    let hlen: u32 = (24 + payload.len() as u64) as u32;
    let mut fields: Vec<u64> = Vec::new();
    fields.push(dtype as u64);
    fields.push(payload.len() as u64);
    fields.push(1u64);
    let node = ChunkNode {
        tag: ChunkTag::DataObject,
        header_length: hlen,
        total_length: hlen,
        fields,
        payload,
        children: Vec::new(),
    };
    proof {
        assert(node.fields@ =~= seq![dtype as u64, utf16le_bytes(s@).len() as u64, 1u64]);
        assert(children_v(node.children@) =~= Seq::<NodeV>::empty());
        assert(node_v(node) =~= data_object_v(dtype, s@));
    }
    Ok(node)
}

/// Appends the data object of one non-empty string field to a child list,
/// keeping the running sum of child total lengths.
fn push_mhod(children: &mut Vec<ChunkNode>, sum: &mut u64, dtype: u32, s: &String) -> (r: Result<
    (),
    DbError,
>)
    requires
        *old(sum) <= 0xFFFF_FFFF0u64,
    ensures
        match r {
            Ok(()) => children_v(final(children)@) == children_v(old(children)@) + mhod_opt(
                dtype,
                s@,
            ) && *final(sum) == *old(sum) + sum_tlen(mhod_opt(dtype, s@)) && sum_tlen(
                mhod_opt(dtype, s@),
            ) <= u32::MAX,
            Err(e) => e == DbError::TooLarge && sum_tlen(mhod_opt(dtype, s@)) > u32::MAX
                && final(children)@ == old(children)@ && *final(sum) == *old(sum),
        },
{
    if s.as_str().unicode_len() == 0 {
        proof {
            assert(sum_tlen(Seq::<NodeV>::empty()) == 0);
            assert(children_v(children@) + mhod_opt(dtype, s@) =~= children_v(children@));
        }
        return Ok(());
    }
    match build_data_object(dtype, s) {
        Err(e) => {
            proof {
                assert(mhod_opt(dtype, s@) =~= seq![data_object_v(dtype, s@)]);
                assert(seq![data_object_v(dtype, s@)].drop_first() =~= Seq::<NodeV>::empty());
                assert(sum_tlen(Seq::<NodeV>::empty()) == 0);
            }
            Err(e)
        },
        Ok(node) => {
            let ghost oldc = children@;
            let t = node.total_length;
            children.push(node);
            *sum = *sum + t as u64;
            proof {
                lemma_children_v_snoc(oldc, node);
                assert(mhod_opt(dtype, s@) =~= seq![data_object_v(dtype, s@)]);
                assert(children_v(oldc).push(node_v(node)) =~= children_v(oldc) + mhod_opt(
                    dtype,
                    s@,
                ));
                assert(seq![data_object_v(dtype, s@)].drop_first() =~= Seq::<NodeV>::empty());
                assert(sum_tlen(Seq::<NodeV>::empty()) == 0);
            }
            Ok(())
        },
    }
}

/// Builds the track-record chunk of one song, its non-empty string fields as
/// data-object children.
#[verifier::rlimit(100)]
fn build_track_node(song: &Song) -> (r: Result<ChunkNode, DbError>)
    ensures
        match r {
            Ok(n) => node_v(n) == track_node_v(song.deep_view()) && track_node_v(
                song.deep_view(),
            ).tlen <= u32::MAX,
            Err(e) => e == DbError::TooLarge && track_node_v(song.deep_view()).tlen > u32::MAX,
        },
{
    let ghost sv = song.deep_view();
    let mut children: Vec<ChunkNode> = Vec::new();
    let mut sum: u64 = 0;
    proof {
        assert(children_v(children@) =~= Seq::<NodeV>::empty());
        assert(Seq::<NodeV>::empty() + mhod_opt(DATA_TYPE_TITLE, sv.title) =~= mhod_opt(
            DATA_TYPE_TITLE,
            sv.title,
        ));
    }
    let ghost m1 = mhod_opt(DATA_TYPE_TITLE, sv.title);
    let ghost m2 = mhod_opt(DATA_TYPE_ARTIST, sv.artist);
    let ghost m3 = mhod_opt(DATA_TYPE_ALBUM, sv.album);
    let ghost m4 = mhod_opt(DATA_TYPE_GENRE, sv.genre);
    let ghost m5 = mhod_opt(DATA_TYPE_FILE_KIND, sv.file_kind);
    let ghost m6 = mhod_opt(DATA_TYPE_LOCATION, sv.location);
    proof {
        lemma_sum_tlen_concat(m1, m2);
        lemma_sum_tlen_concat(m1 + m2, m3);
        lemma_sum_tlen_concat(m1 + m2 + m3, m4);
        lemma_sum_tlen_concat(m1 + m2 + m3 + m4, m5);
        lemma_sum_tlen_concat(m1 + m2 + m3 + m4 + m5, m6);
    }
    if let Err(e) = push_mhod(&mut children, &mut sum, DATA_TYPE_TITLE, &song.title) {
        return Err(DbError::TooLarge);
    }
    if let Err(e) = push_mhod(&mut children, &mut sum, DATA_TYPE_ARTIST, &song.artist) {
        return Err(DbError::TooLarge);
    }
    if let Err(e) = push_mhod(&mut children, &mut sum, DATA_TYPE_ALBUM, &song.album) {
        return Err(DbError::TooLarge);
    }
    if let Err(e) = push_mhod(&mut children, &mut sum, DATA_TYPE_GENRE, &song.genre) {
        return Err(DbError::TooLarge);
    }
    if let Err(e) = push_mhod(&mut children, &mut sum, DATA_TYPE_FILE_KIND, &song.file_kind) {
        return Err(DbError::TooLarge);
    }
    if let Err(e) = push_mhod(&mut children, &mut sum, DATA_TYPE_LOCATION, &song.location) {
        return Err(DbError::TooLarge);
    }
    proof {
        assert(children_v(children@) =~= song_mhods(sv));
        assert(sum == sum_tlen(song_mhods(sv)));
    }
    if sum > 0xFFFF_FFFFu64 - 60 {
        return Err(DbError::TooLarge);
    }
    let tlen: u32 = (60 + sum) as u32;
    let mut fields: Vec<u64> = Vec::new();
    fields.push(song.persistent_id);
    fields.push(song.size_bytes as u64);
    fields.push(song.duration_ms as u64);
    fields.push(song.track_number as u64);
    fields.push(song.year as u64);
    fields.push(song.bitrate as u64);
    fields.push(song.sample_rate as u64);
    fields.push(song.play_count as u64);
    fields.push(song.rating as u64);
    fields.push(song.date_added as u64);
    fields.push(0u64);
    let node = ChunkNode {
        tag: ChunkTag::TrackRecord,
        header_length: 60,
        total_length: tlen,
        fields,
        payload: Vec::new(),
        children,
    };
    proof {
        assert(node.fields@ =~= track_node_v(sv).fields);
        assert(node.payload@ =~= Seq::<u8>::empty());
        assert(node_v(node) =~= track_node_v(sv));
    }
    Ok(node)
}

/// Builds the playlist-header chunk of one playlist: the name data object,
/// then one playlist-item child per referenced track id.
fn build_playlist_node(p: &Playlist) -> (r: Result<ChunkNode, DbError>)
    ensures
        match r {
            Ok(n) => node_v(n) == playlist_node_v(p.deep_view()) && playlist_node_v(
                p.deep_view(),
            ).tlen <= u32::MAX,
            Err(e) => e == DbError::TooLarge && playlist_node_v(p.deep_view()).tlen > u32::MAX,
        },
{
    let ghost pv = p.deep_view();
    let ghost m = mhod_opt(DATA_TYPE_TITLE, pv.name);
    let ghost its = item_nodes_v(pv.items);
    proof {
        lemma_sum_tlen_concat(m, its);
    }
    let mut children: Vec<ChunkNode> = Vec::new();
    let mut sum: u64 = 0;
    proof {
        assert(children_v(children@) =~= Seq::<NodeV>::empty());
        assert(Seq::<NodeV>::empty() + m =~= m);
    }
    if let Err(e) = push_mhod(&mut children, &mut sum, DATA_TYPE_TITLE, &p.name) {
        return Err(DbError::TooLarge);
    }
    let mut i: usize = 0;
    while i < p.items.len()
        invariant
            i <= pv.items.len(),
            children_v(children@) == m + item_nodes_v(pv.items.take(i as int)),
            sum == sum_tlen(m) + sum_tlen(item_nodes_v(pv.items.take(i as int))),
            sum_tlen(m) <= u32::MAX,
            sum <= 0xFFFF_FFFFu64 + 24 * i,
            sum_tlen(item_nodes_v(pv.items.take(i as int))) == 24 * i,
            pv == p.deep_view(),
            m == mhod_opt(DATA_TYPE_TITLE, pv.name),
            its == item_nodes_v(pv.items),
        decreases pv.items.len() - i,
    {
        if sum > 0xFFFF_FFFFu64 - 24 {
            proof {
                lemma_take_prefix_sum(pv.items, i as int);
                lemma_sum_tlen_concat(m, its);
            }
            return Err(DbError::TooLarge);
        }
        let id = p.items[i];
        let mut fields: Vec<u64> = Vec::new();
        fields.push(id);
        fields.push(0u64);
        let node = ChunkNode {
            tag: ChunkTag::PlaylistItem,
            header_length: 24,
            total_length: 24,
            fields,
            payload: Vec::new(),
            children: Vec::new(),
        };
        let ghost oldc = children@;
        children.push(node);
        sum = sum + 24;
        i = i + 1;
        proof {
            assert(node.fields@ =~= item_node_v(id).fields);
            assert(children_v(node.children@) =~= Seq::<NodeV>::empty());
            assert(node_v(node) =~= item_node_v(id));
            lemma_children_v_snoc(oldc, node);
            assert(item_nodes_v(pv.items.take(i as int)) =~= item_nodes_v(
                pv.items.take(i - 1),
            ).push(item_node_v(id)));
            assert((m + item_nodes_v(pv.items.take(i - 1))).push(node_v(node)) =~= m
                + item_nodes_v(pv.items.take(i as int)));
            lemma_sum_tlen_concat(item_nodes_v(pv.items.take(i - 1)), seq![item_node_v(id)]);
            assert(item_nodes_v(pv.items.take(i - 1)) + seq![item_node_v(id)] =~= item_nodes_v(
                pv.items.take(i as int),
            ));
            assert(seq![item_node_v(id)].drop_first() =~= Seq::<NodeV>::empty());
            assert(sum_tlen(Seq::<NodeV>::empty()) == 0);
        }
    }
    proof {
        assert(pv.items.take(pv.items.len() as int) =~= pv.items);
        lemma_sum_tlen_concat(m, its);
    }
    if sum > 0xFFFF_FFFFu64 - 24 {
        return Err(DbError::TooLarge);
    }
    let tlen: u32 = (24 + sum) as u32;
    let mut fields: Vec<u64> = Vec::new();
    fields.push(p.items.len() as u64);
    fields.push(p.persistent_id);
    let node = ChunkNode {
        tag: ChunkTag::PlaylistHeader,
        header_length: 24,
        total_length: tlen,
        fields,
        payload: Vec::new(),
        children,
    };
    proof {
        assert(node.fields@ =~= playlist_node_v(pv).fields);
        assert(node.payload@ =~= Seq::<u8>::empty());
        assert(node_v(node) =~= playlist_node_v(pv));
    }
    Ok(node)
}

/// The items of a prefix never out-sum the whole list.
proof fn lemma_take_prefix_sum(items: Seq<u64>, i: int)
    requires
        0 <= i <= items.len(),
    ensures
        sum_tlen(item_nodes_v(items)) >= sum_tlen(item_nodes_v(items.take(i))),
    decreases items.len() - i,
{
    if i < items.len() {
        lemma_take_prefix_sum(items, i + 1);
        lemma_sum_tlen_concat(item_nodes_v(items.take(i)), seq![item_node_v(items[i])]);
        assert(item_nodes_v(items.take(i)) + seq![item_node_v(items[i])] =~= item_nodes_v(
            items.take(i + 1),
        ));
        assert(seq![item_node_v(items[i])].drop_first() =~= Seq::<NodeV>::empty());
        assert(sum_tlen(Seq::<NodeV>::empty()) == 0);
    } else {
        assert(items.take(items.len() as int) =~= items);
    }
}


/// Builds the track-list chunk over all songs.
fn build_track_list(songs: &Vec<Song>) -> (r: Result<ChunkNode, DbError>)
    ensures
        match r {
            Ok(n) => node_v(n) == track_list_v(songs.deep_view()) && track_list_v(
                songs.deep_view(),
            ).tlen <= u32::MAX,
            Err(e) => e == DbError::TooLarge && track_list_v(songs.deep_view()).tlen > u32::MAX,
        },
{
    let ghost sv = songs.deep_view();
    let ghost tns = track_nodes_v(sv);
    let mut children: Vec<ChunkNode> = Vec::new();
    let mut sum: u64 = 0;
    let mut i: usize = 0;
    proof {
        assert(children_v(children@) =~= track_nodes_v(sv.take(0)));
        assert(sum_tlen(track_nodes_v(sv.take(0))) == 0);
    }
    while i < songs.len()
        invariant
            i <= sv.len(),
            sv == songs.deep_view(),
            tns == track_nodes_v(sv),
            sv.len() == songs@.len(),
            children_v(children@) == track_nodes_v(sv.take(i as int)),
            sum == sum_tlen(track_nodes_v(sv.take(i as int))),
            sum <= u32::MAX,
        decreases sv.len() - i,
    {
        match build_track_node(&songs[i]) {
            Err(_) => {
                proof {
                    lemma_sum_tlen_elem(tns, i as int);
                }
                return Err(DbError::TooLarge);
            },
            Ok(tn) => {
                let t = tn.total_length;
                let ghost oldc = children@;
                children.push(tn);
                proof {
                    lemma_children_v_snoc(oldc, tn);
                    assert(track_nodes_v(sv.take(i + 1)) =~= track_nodes_v(sv.take(i as int)).push(
                        track_node_v(sv[i as int]),
                    ));
                    lemma_sum_tlen_concat(
                        track_nodes_v(sv.take(i as int)),
                        seq![track_node_v(sv[i as int])],
                    );
                    assert(track_nodes_v(sv.take(i as int)) + seq![track_node_v(sv[i as int])]
                        =~= track_nodes_v(sv.take(i + 1)));
                    assert(seq![track_node_v(sv[i as int])].drop_first() =~= Seq::<NodeV>::empty());
                    assert(sum_tlen(Seq::<NodeV>::empty()) == 0);
                }
                sum = sum + t as u64;
                i = i + 1;
                if sum > 0xFFFF_FFFFu64 {
                    proof {
                        assert(track_nodes_v(sv).take(i as int) =~= track_nodes_v(
                            sv.take(i as int),
                        ));
                        crate::chunk::lemma_sum_tlen_prefix(track_nodes_v(sv), i as int);
                    }
                    return Err(DbError::TooLarge);
                }
            },
        }
    }
    proof {
        assert(sv.take(sv.len() as int) =~= sv);
    }
    if sum > 0xFFFF_FFFFu64 - 16 {
        return Err(DbError::TooLarge);
    }
    let tlen: u32 = (16 + sum) as u32;
    let mut fields: Vec<u64> = Vec::new();
    fields.push(songs.len() as u64);
    let node = ChunkNode {
        tag: ChunkTag::TrackList,
        header_length: 16,
        total_length: tlen,
        fields,
        payload: Vec::new(),
        children,
    };
    proof {
        assert(node.fields@ =~= track_list_v(sv).fields);
        assert(node.payload@ =~= Seq::<u8>::empty());
        assert(node_v(node) =~= track_list_v(sv));
    }
    Ok(node)
}

/// Builds the playlist-list chunk over all playlists.
fn build_playlist_list(pls: &Vec<Playlist>) -> (r: Result<ChunkNode, DbError>)
    ensures
        match r {
            Ok(n) => node_v(n) == playlist_list_v(pls.deep_view()) && playlist_list_v(
                pls.deep_view(),
            ).tlen <= u32::MAX,
            Err(e) => e == DbError::TooLarge && playlist_list_v(pls.deep_view()).tlen > u32::MAX,
        },
{
    let ghost pv = pls.deep_view();
    let ghost pns = playlist_nodes_v(pv);
    let mut children: Vec<ChunkNode> = Vec::new();
    let mut sum: u64 = 0;
    let mut i: usize = 0;
    proof {
        assert(children_v(children@) =~= playlist_nodes_v(pv.take(0)));
        assert(sum_tlen(playlist_nodes_v(pv.take(0))) == 0);
    }
    while i < pls.len()
        invariant
            i <= pv.len(),
            pv == pls.deep_view(),
            pns == playlist_nodes_v(pv),
            pv.len() == pls@.len(),
            children_v(children@) == playlist_nodes_v(pv.take(i as int)),
            sum == sum_tlen(playlist_nodes_v(pv.take(i as int))),
            sum <= u32::MAX,
        decreases pv.len() - i,
    {
        match build_playlist_node(&pls[i]) {
            Err(_) => {
                proof {
                    lemma_sum_tlen_elem(pns, i as int);
                }
                return Err(DbError::TooLarge);
            },
            Ok(pn) => {
                let t = pn.total_length;
                let ghost oldc = children@;
                children.push(pn);
                proof {
                    lemma_children_v_snoc(oldc, pn);
                    assert(playlist_nodes_v(pv.take(i + 1)) =~= playlist_nodes_v(
                        pv.take(i as int),
                    ).push(playlist_node_v(pv[i as int])));
                    lemma_sum_tlen_concat(
                        playlist_nodes_v(pv.take(i as int)),
                        seq![playlist_node_v(pv[i as int])],
                    );
                    assert(playlist_nodes_v(pv.take(i as int)) + seq![
                        playlist_node_v(pv[i as int]),
                    ] =~= playlist_nodes_v(pv.take(i + 1)));
                    assert(seq![playlist_node_v(pv[i as int])].drop_first() =~= Seq::<
                        NodeV,
                    >::empty());
                    assert(sum_tlen(Seq::<NodeV>::empty()) == 0);
                }
                sum = sum + t as u64;
                i = i + 1;
                if sum > 0xFFFF_FFFFu64 {
                    proof {
                        assert(playlist_nodes_v(pv).take(i as int) =~= playlist_nodes_v(
                            pv.take(i as int),
                        ));
                        crate::chunk::lemma_sum_tlen_prefix(playlist_nodes_v(pv), i as int);
                    }
                    return Err(DbError::TooLarge);
                }
            },
        }
    }
    proof {
        assert(pv.take(pv.len() as int) =~= pv);
    }
    if sum > 0xFFFF_FFFFu64 - 16 {
        return Err(DbError::TooLarge);
    }
    let tlen: u32 = (16 + sum) as u32;
    let mut fields: Vec<u64> = Vec::new();
    fields.push(pls.len() as u64);
    let node = ChunkNode {
        tag: ChunkTag::PlaylistList,
        header_length: 16,
        total_length: tlen,
        fields,
        payload: Vec::new(),
        children,
    };
    proof {
        assert(node.fields@ =~= playlist_list_v(pv).fields);
        assert(node.payload@ =~= Seq::<u8>::empty());
        assert(node_v(node) =~= playlist_list_v(pv));
    }
    Ok(node)
}

proof fn lemma_sum_single(a: NodeV)
    ensures
        sum_tlen(seq![a]) == a.tlen,
{
    assert(seq![a].drop_first() =~= Seq::<NodeV>::empty());
    assert(sum_tlen(Seq::<NodeV>::empty()) == 0);
}

proof fn lemma_sum_pair(a: NodeV, b: NodeV)
    ensures
        sum_tlen(seq![a, b]) == a.tlen + b.tlen,
{
    assert(seq![a, b].drop_first() =~= seq![b]);
    lemma_sum_single(b);
}

/// Builds the section chunk wrapping one list.
fn build_section(stype: u32, inner: ChunkNode) -> (r: Result<ChunkNode, DbError>)
    ensures
        match r {
            Ok(n) => node_v(n) == section_v(stype, node_v(inner)) && section_v(
                stype,
                node_v(inner),
            ).tlen <= u32::MAX,
            Err(e) => e == DbError::TooLarge && section_v(stype, node_v(inner)).tlen > u32::MAX,
        },
{
    proof {
        lemma_sum_single(node_v(inner));
    }
    let t64: u64 = 16 + inner.total_length as u64;
    if t64 > 0xFFFF_FFFFu64 {
        return Err(DbError::TooLarge);
    }
    let tlen: u32 = t64 as u32;
    let mut fields: Vec<u64> = Vec::new();
    fields.push(stype as u64);
    let ghost iv = node_v(inner);
    let mut children: Vec<ChunkNode> = Vec::new();
    children.push(inner);
    let node = ChunkNode {
        tag: ChunkTag::Section,
        header_length: 16,
        total_length: tlen,
        fields,
        payload: Vec::new(),
        children,
    };
    proof {
        assert(node.children@ =~= seq![node.children@[0]]);
        assert(node.children@.drop_first() =~= Seq::<ChunkNode>::empty());
        assert(children_v(Seq::<ChunkNode>::empty()) =~= Seq::<NodeV>::empty());
        assert(children_v(node.children@) =~= seq![iv]);
        assert(node.fields@ =~= section_v(stype, iv).fields);
        assert(node.payload@ =~= Seq::<u8>::empty());
        assert(node_v(node) =~= section_v(stype, iv));
    }
    Ok(node)
}

/// Builds the whole database tree from songs and playlists, every length
/// recomputed bottom-up; fails exactly when the tree outgrows the 32-bit
/// length fields.
pub fn build_library(songs: &Vec<Song>, playlists: &Vec<Playlist>) -> (r: Result<
    ChunkNode,
    DbError,
>)
    ensures
        match r {
            Ok(n) => node_v(n) == build_library_v(songs.deep_view(), playlists.deep_view())
                && build_library_v(songs.deep_view(), playlists.deep_view()).tlen <= u32::MAX,
            Err(e) => e == DbError::TooLarge && build_library_v(
                songs.deep_view(),
                playlists.deep_view(),
            ).tlen > u32::MAX,
        },
{
    let ghost sv = songs.deep_view();
    let ghost pv = playlists.deep_view();
    let ghost s1v = section_v(SECTION_TYPE_TRACKS, track_list_v(sv));
    let ghost s2v = section_v(SECTION_TYPE_PLAYLISTS, playlist_list_v(pv));
    proof {
        lemma_sum_pair(s1v, s2v);
        lemma_sum_single(track_list_v(sv));
        lemma_sum_single(playlist_list_v(pv));
    }
    let tl = match build_track_list(songs) {
        Ok(n) => n,
        Err(_) => {
            return Err(DbError::TooLarge);
        },
    };
    let s1 = match build_section(SECTION_TYPE_TRACKS, tl) {
        Ok(n) => n,
        Err(_) => {
            return Err(DbError::TooLarge);
        },
    };
    let pl = match build_playlist_list(playlists) {
        Ok(n) => n,
        Err(_) => {
            return Err(DbError::TooLarge);
        },
    };
    let s2 = match build_section(SECTION_TYPE_PLAYLISTS, pl) {
        Ok(n) => n,
        Err(_) => {
            return Err(DbError::TooLarge);
        },
    };
    let t64: u64 = 20 + s1.total_length as u64 + s2.total_length as u64;
    if t64 > 0xFFFF_FFFFu64 {
        return Err(DbError::TooLarge);
    }
    let tlen: u32 = t64 as u32;
    let mut fields: Vec<u64> = Vec::new();
    fields.push(FORMAT_VERSION as u64);
    fields.push(2u64);
    let mut children: Vec<ChunkNode> = Vec::new();
    children.push(s1);
    children.push(s2);
    let node = ChunkNode {
        tag: ChunkTag::Root,
        header_length: 20,
        total_length: tlen,
        fields,
        payload: Vec::new(),
        children,
    };
    proof {
        reveal_with_fuel(children_v, 4);
        assert(node.children@ =~= seq![node.children@[0], node.children@[1]]);
        assert(node.children@.drop_first() =~= seq![node.children@[1]]);
        assert(seq![node.children@[1]].drop_first() =~= Seq::<ChunkNode>::empty());
        assert(children_v(Seq::<ChunkNode>::empty()) =~= Seq::<NodeV>::empty());
        assert(children_v(node.children@) =~= seq![s1v, s2v]);
        assert(node.fields@ =~= build_library_v(sv, pv).fields);
        assert(node.payload@ =~= Seq::<u8>::empty());
        assert(node_v(node) =~= build_library_v(sv, pv));
    }
    Ok(node)
}



proof fn lemma_shape_mhod_opt(d: u32, s: Seq<char>)
    ensures
        all_shape(mhod_opt(d, s)),
{
    assert forall|i: int| 0 <= i < mhod_opt(d, s).len() implies shape_ok(
        #[trigger] mhod_opt(d, s)[i],
    ) by {
        assert(mhod_opt(d, s)[i] == data_object_v(d, s));
    }
}

proof fn lemma_shape_track(s: SongV)
    ensures
        shape_ok(track_node_v(s)),
{
    let m1 = mhod_opt(DATA_TYPE_TITLE, s.title);
    let m2 = mhod_opt(DATA_TYPE_ARTIST, s.artist);
    let m3 = mhod_opt(DATA_TYPE_ALBUM, s.album);
    let m4 = mhod_opt(DATA_TYPE_GENRE, s.genre);
    let m5 = mhod_opt(DATA_TYPE_FILE_KIND, s.file_kind);
    let m6 = mhod_opt(DATA_TYPE_LOCATION, s.location);
    lemma_shape_mhod_opt(DATA_TYPE_TITLE, s.title);
    lemma_shape_mhod_opt(DATA_TYPE_ARTIST, s.artist);
    lemma_shape_mhod_opt(DATA_TYPE_ALBUM, s.album);
    lemma_shape_mhod_opt(DATA_TYPE_GENRE, s.genre);
    lemma_shape_mhod_opt(DATA_TYPE_FILE_KIND, s.file_kind);
    lemma_shape_mhod_opt(DATA_TYPE_LOCATION, s.location);
    lemma_all_shape_concat(m1, m2);
    lemma_all_shape_concat(m1 + m2, m3);
    lemma_all_shape_concat(m1 + m2 + m3, m4);
    lemma_all_shape_concat(m1 + m2 + m3 + m4, m5);
    lemma_all_shape_concat(m1 + m2 + m3 + m4 + m5, m6);
}

proof fn lemma_shape_playlist(p: PlaylistV)
    ensures
        shape_ok(playlist_node_v(p)),
{
    let m = mhod_opt(DATA_TYPE_TITLE, p.name);
    let its = item_nodes_v(p.items);
    lemma_shape_mhod_opt(DATA_TYPE_TITLE, p.name);
    assert forall|i: int| 0 <= i < its.len() implies shape_ok(#[trigger] its[i]) by {
        assert(its[i] == item_node_v(p.items[i]));
    }
    lemma_all_shape_concat(m, its);
}

/// The built tree carries the table's field counts at every node.
pub proof fn lemma_build_shape(songs: Seq<SongV>, pls: Seq<PlaylistV>)
    ensures
        shape_ok(build_library_v(songs, pls)),
{
    let tns = track_nodes_v(songs);
    assert forall|i: int| 0 <= i < tns.len() implies shape_ok(#[trigger] tns[i]) by {
        lemma_shape_track(songs[i]);
        assert(tns[i] == track_node_v(songs[i]));
    }
    let pns = playlist_nodes_v(pls);
    assert forall|i: int| 0 <= i < pns.len() implies shape_ok(#[trigger] pns[i]) by {
        lemma_shape_playlist(pls[i]);
        assert(pns[i] == playlist_node_v(pls[i]));
    }
    let s1 = section_v(SECTION_TYPE_TRACKS, track_list_v(songs));
    let s2 = section_v(SECTION_TYPE_PLAYLISTS, playlist_list_v(pls));
    assert(shape_ok(track_list_v(songs)));
    assert(shape_ok(playlist_list_v(pls)));
    lemma_all_shape_single(track_list_v(songs));
    lemma_all_shape_single(playlist_list_v(pls));
    assert(shape_ok(s1));
    assert(shape_ok(s2));
    lemma_all_shape_pair(s1, s2);
}

proof fn lemma_all_shape_single(a: NodeV)
    requires
        shape_ok(a),
    ensures
        all_shape(seq![a]),
{
    let s = seq![a];
    assert forall|i: int| 0 <= i < s.len() implies shape_ok(#[trigger] s[i]) by {
        assert(s[i] == a);
    }
}

proof fn lemma_all_shape_pair(a: NodeV, b: NodeV)
    requires
        shape_ok(a),
        shape_ok(b),
    ensures
        all_shape(seq![a, b]),
{
    let s = seq![a, b];
    assert forall|i: int| 0 <= i < s.len() implies shape_ok(#[trigger] s[i]) by {
        if i == 0 {
            assert(s[i] == a);
        } else {
            assert(s[i] == b);
        }
    }
}

/// Writes one node's framing, fixed fields and payload, everything before
/// its children.
#[verifier::rlimit(100)]
fn write_prefix(w: &mut ByteWriter, n: &ChunkNode)
    requires
        n.fields@.len() == crate::chunk::spec_field_count(n.tag),
    ensures
        final(w).out@ == old(w).out@ + tag_bytes(node_v(*n).tag) + crate::cursor::le32(
            node_v(*n).hlen as u32,
        ) + crate::cursor::le32(node_v(*n).tlen as u32) + ser_fields(
            node_v(*n).tag,
            node_v(*n).fields,
        ) + node_v(*n).payload,
{
    let ghost start = w.out@;
    let ghost nv = node_v(*n);
    let (a, b, c, d) = tag_to_bytes(&n.tag);
    w.write_u8(a);
    w.write_u8(b);
    w.write_u8(c);
    w.write_u8(d);
    proof {
        assert(w.out@ =~= start + tag_bytes(nv.tag));
    }
    w.write_u32(n.header_length);
    w.write_u32(n.total_length);
    let ghost hdr = start + tag_bytes(nv.tag) + crate::cursor::le32(nv.hlen as u32)
        + crate::cursor::le32(nv.tlen as u32);
    proof {
        assert(nv.fields == n.fields@);
        assert(n.fields@.len() == crate::chunk::spec_field_count(n.tag));
        assert(w.out@ == hdr);
    }
    match &n.tag {
        ChunkTag::Root => {
            w.write_u32(#[verifier::truncate] (n.fields[0] as u32));
            w.write_u32(#[verifier::truncate] (n.fields[1] as u32));
            proof {
                crate::cursor::lemma_concat_assoc(
                    hdr,
                    crate::cursor::le32(nv.fields[0] as u32),
                    crate::cursor::le32(nv.fields[1] as u32),
                );
            }
        },
        ChunkTag::Section | ChunkTag::TrackList | ChunkTag::PlaylistList => {
            w.write_u32(#[verifier::truncate] (n.fields[0] as u32));
        },
        ChunkTag::TrackRecord => {
            write_track_fields(w, &n.fields);
        },
        ChunkTag::DataObject => {
            w.write_u32(#[verifier::truncate] (n.fields[0] as u32));
            w.write_u32(#[verifier::truncate] (n.fields[1] as u32));
            w.write_u32(#[verifier::truncate] (n.fields[2] as u32));
            proof {
                crate::cursor::lemma_concat_assoc(
                    hdr,
                    crate::cursor::le32(nv.fields[0] as u32),
                    crate::cursor::le32(nv.fields[1] as u32),
                );
                crate::cursor::lemma_concat_assoc(
                    hdr,
                    crate::cursor::le32(nv.fields[0] as u32) + crate::cursor::le32(
                        nv.fields[1] as u32,
                    ),
                    crate::cursor::le32(nv.fields[2] as u32),
                );
            }
        },
        ChunkTag::PlaylistHeader => {
            w.write_u32(#[verifier::truncate] (n.fields[0] as u32));
            w.write_u64(n.fields[1]);
            proof {
                crate::cursor::lemma_concat_assoc(
                    hdr,
                    crate::cursor::le32(nv.fields[0] as u32),
                    crate::cursor::le64(nv.fields[1]),
                );
            }
        },
        ChunkTag::PlaylistItem => {
            w.write_u64(n.fields[0]);
            w.write_u32(#[verifier::truncate] (n.fields[1] as u32));
            proof {
                crate::cursor::lemma_concat_assoc(
                    hdr,
                    crate::cursor::le64(nv.fields[0]),
                    crate::cursor::le32(nv.fields[1] as u32),
                );
            }
        },
        ChunkTag::Unknown(..) => {
            proof {
                crate::cursor::lemma_concat_empty(hdr);
            }
        },
    }
    proof {
        assert(w.out@ == hdr + ser_fields(nv.tag, nv.fields));
    }
    w.write_bytes(n.payload.as_slice());
}

/// Serializes one node depth-first onto the writer: framing, fixed fields,
/// payload, children in order.
#[verifier::rlimit(100)]
pub fn write_node(w: &mut ByteWriter, n: &ChunkNode)
    requires
        shape_ok(node_v(*n)),
    ensures
        final(w).out@ == old(w).out@ + ser_node(node_v(*n)),
    decreases *n,
{
    let ghost start = w.out@;
    let ghost nv = node_v(*n);
    write_prefix(w, n);
    let ghost base = w.out@;
    proof {
        crate::chunk::lemma_children_v_len(n.children@);
        assert(children_v(n.children@).take(0) =~= Seq::<NodeV>::empty());
        assert(base + ser_kids(children_v(n.children@).take(0)) =~= base);
    }
    let mut i: usize = 0;
    while i < n.children.len()
        invariant
            i <= n.children@.len(),
            shape_ok(node_v(*n)),
            nv == node_v(*n),
            base == start + tag_bytes(nv.tag) + crate::cursor::le32(nv.hlen as u32)
                + crate::cursor::le32(nv.tlen as u32) + ser_fields(nv.tag, nv.fields) + nv.payload,
            w.out@ == base + ser_kids(children_v(n.children@).take(i as int)),
        decreases n.children@.len() - i,
    {
        proof {
            crate::chunk::lemma_children_v_len(n.children@);
            assert(children_v(n.children@)[i as int] == node_v(n.children@[i as int]));
        }
        write_node(w, &n.children[i]);
        i = i + 1;
        proof {
            lemma_ser_kids_snoc(
                children_v(n.children@).take(i - 1),
                node_v(n.children@[i - 1]),
            );
            assert(children_v(n.children@).take(i as int) =~= children_v(n.children@).take(
                i - 1,
            ).push(node_v(n.children@[i - 1])));
        }
    }
    proof {
        assert(children_v(n.children@).take(n.children@.len() as int) =~= children_v(n.children@));
        let a1 = tag_bytes(nv.tag);
        let a2 = crate::cursor::le32(nv.hlen as u32);
        let a3 = crate::cursor::le32(nv.tlen as u32);
        let a4 = ser_fields(nv.tag, nv.fields);
        let a5 = nv.payload;
        let a6 = ser_kids(nv.children);
        crate::cursor::lemma_concat_assoc(start, a1, a2);
        crate::cursor::lemma_concat_assoc(start, a1 + a2, a3);
        crate::cursor::lemma_concat_assoc(start, a1 + a2 + a3, a4);
        crate::cursor::lemma_concat_assoc(start, a1 + a2 + a3 + a4, a5);
        crate::cursor::lemma_concat_assoc(start, a1 + a2 + a3 + a4 + a5, a6);
        assert(w.out@ == start + ser_node(nv));
    }
}

/// The first `k` four-byte fields of a track record after its wide id.
pub open spec fn partial_track_fields(f: Seq<u64>, k: int) -> Seq<u8>
    decreases k,
{
    if k <= 1 {
        crate::cursor::le64(f[0])
    } else {
        partial_track_fields(f, k - 1) + crate::cursor::le32(f[k - 1] as u32)
    }
}

/// Writes the eleven fixed fields of a track record.
#[verifier::rlimit(100)]
fn write_track_fields(w: &mut ByteWriter, fields: &Vec<u64>)
    requires
        fields@.len() == 11,
    ensures
        final(w).out@ == old(w).out@ + ser_fields(ChunkTag::TrackRecord, fields@),
{
    let ghost start = w.out@;
    w.write_u64(fields[0]);
    let mut k: usize = 1;
    while k < 11
        invariant
            1 <= k <= 11,
            fields@.len() == 11,
            w.out@ == start + partial_track_fields(fields@, k as int),
        decreases 11 - k,
    {
        w.write_u32(#[verifier::truncate] (fields[k] as u32));
        k = k + 1;
        proof {
            crate::cursor::lemma_concat_assoc(
                start,
                partial_track_fields(fields@, k - 1),
                crate::cursor::le32(fields@[k - 1] as u32),
            );
            assert(partial_track_fields(fields@, k as int) == partial_track_fields(fields@, k - 1)
                + crate::cursor::le32(fields@[k - 1] as u32));
        }
    }
    proof {
        assert(partial_track_fields(fields@, 11) == ser_fields(ChunkTag::TrackRecord, fields@))
            by {
            reveal_with_fuel(partial_track_fields, 12);
        }
    }
}

/// Serializes a whole tree into a fresh byte buffer.
pub fn serialize_tree(tree: &ChunkNode) -> (r: Vec<u8>)
    requires
        shape_ok(node_v(*tree)),
    ensures
        r@ == ser_node(node_v(*tree)),
{
    let mut w = ByteWriter::new();
    write_node(&mut w, tree);
    proof {
        crate::cursor::lemma_concat_empty(ser_node(node_v(*tree)));
    }
    w.into_bytes()
}

/// Encodes a song list and a playlist list into the container's bytes: the
/// serialized form of the bottom-up tree, or `TooLarge` exactly when that
/// tree outgrows the 32-bit length fields.
pub fn encode(songs: &Vec<Song>, playlists: &Vec<Playlist>) -> (r: Result<Vec<u8>, DbError>)
    ensures
        match r {
            Ok(bytes) => bytes@ == ser_node(
                build_library_v(songs.deep_view(), playlists.deep_view()),
            ) && build_library_v(songs.deep_view(), playlists.deep_view()).tlen <= u32::MAX,
            Err(e) => e == DbError::TooLarge && build_library_v(
                songs.deep_view(),
                playlists.deep_view(),
            ).tlen > u32::MAX,
        },
{
    match build_library(songs, playlists) {
        Err(e) => Err(e),
        Ok(tree) => {
            proof {
                lemma_build_shape(songs.deep_view(), playlists.deep_view());
            }
            Ok(serialize_tree(&tree))
        },
    }
}


} // verus!
