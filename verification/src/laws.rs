//! Laws of the codec, stated over the ghost model and proved: the
//! length-accounting invariant of every tree the decoder or the encoder
//! produces, and that truncating a buffer strictly inside its root chunk can
//! only yield an out-of-bounds error, never a successful parse.

use vstd::prelude::*;

use crate::DbError;
use crate::chunk::NodeV;
use crate::chunk::node_len_ok;
use crate::chunk::spec_fixed_len;
use crate::chunk::sum_tlen;
use crate::decode::KidsRes;
use crate::decode::NodeRes;
use crate::decode::parse_kids;
use crate::decode::parse_node;
use crate::decode::parse_root;
use crate::decode::peek_tag_at;
use crate::decode::peek_u32;
use crate::encode::build_library_v;
use crate::encode::data_object_v;
use crate::encode::item_node_v;
use crate::encode::item_nodes_v;
use crate::encode::mhod_opt;
use crate::encode::playlist_list_v;
use crate::encode::playlist_node_v;
use crate::encode::playlist_nodes_v;
use crate::encode::section_v;
use crate::encode::song_mhods;
use crate::encode::track_list_v;
use crate::encode::track_node_v;
use crate::encode::track_nodes_v;
use crate::adapter::entries_in;
use crate::adapter::entry_of_item;
use crate::adapter::find_str;
use crate::adapter::ids_of;
use crate::adapter::is_item;
use crate::adapter::is_section;
use crate::adapter::is_track;
use crate::adapter::is_wanted_mhod;
use crate::adapter::mhod_string;
use crate::adapter::playlist_of;
use crate::adapter::playlists_in_list;
use crate::adapter::playlists_in_section;
use crate::adapter::playlists_of_root;
use crate::adapter::playlists_of_sections;
use crate::adapter::song_of_track;
use crate::adapter::songs_in_list;
use crate::adapter::songs_in_section;
use crate::adapter::songs_of_root;
use crate::adapter::songs_of_sections;
use crate::model::DecodedPlaylistV;
use crate::model::PlaylistEntry;
use crate::model::PlaylistV;
use crate::model::SongV;
use crate::strings::lemma_utf16_roundtrip;

verus! {

/// The length-accounting invariant over a whole tree: at every node,
/// `total_length` is the header plus the children's totals (or, for an
/// unknown chunk, the framing plus its opaque payload), and the header is at
/// least the tag's fixed width.
pub open spec fn tree_len_ok(n: NodeV) -> bool
    decreases n,
{
    node_len_ok(n) && all_len_ok(n.children)
}

pub open spec fn all_len_ok(s: Seq<NodeV>) -> bool
    decreases s,
{
    forall|i: int| 0 <= i < s.len() ==> tree_len_ok(#[trigger] s[i])
}

proof fn lemma_all_len_concat(a: Seq<NodeV>, b: Seq<NodeV>)
    requires
        all_len_ok(a),
        all_len_ok(b),
    ensures
        all_len_ok(a + b),
{
    assert forall|i: int| 0 <= i < (a + b).len() implies tree_len_ok(#[trigger] (a + b)[i]) by {
        if i < a.len() {
            assert((a + b)[i] == a[i]);
        } else {
            assert((a + b)[i] == b[i - a.len()]);
        }
    }
}

proof fn lemma_len_ok_mhod_opt(d: u32, s: Seq<char>)
    ensures
        all_len_ok(mhod_opt(d, s)),
{
    assert forall|i: int| 0 <= i < mhod_opt(d, s).len() implies tree_len_ok(
        #[trigger] mhod_opt(d, s)[i],
    ) by {
        assert(mhod_opt(d, s)[i] == data_object_v(d, s));
        assert(sum_tlen(data_object_v(d, s).children) == 0);
    }
}

proof fn lemma_len_ok_track(s: SongV)
    ensures
        tree_len_ok(track_node_v(s)),
{
    let m1 = mhod_opt(crate::chunk::DATA_TYPE_TITLE, s.title);
    let m2 = mhod_opt(crate::chunk::DATA_TYPE_ARTIST, s.artist);
    let m3 = mhod_opt(crate::chunk::DATA_TYPE_ALBUM, s.album);
    let m4 = mhod_opt(crate::chunk::DATA_TYPE_GENRE, s.genre);
    let m5 = mhod_opt(crate::chunk::DATA_TYPE_FILE_KIND, s.file_kind);
    let m6 = mhod_opt(crate::chunk::DATA_TYPE_LOCATION, s.location);
    lemma_len_ok_mhod_opt(crate::chunk::DATA_TYPE_TITLE, s.title);
    lemma_len_ok_mhod_opt(crate::chunk::DATA_TYPE_ARTIST, s.artist);
    lemma_len_ok_mhod_opt(crate::chunk::DATA_TYPE_ALBUM, s.album);
    lemma_len_ok_mhod_opt(crate::chunk::DATA_TYPE_GENRE, s.genre);
    lemma_len_ok_mhod_opt(crate::chunk::DATA_TYPE_FILE_KIND, s.file_kind);
    lemma_len_ok_mhod_opt(crate::chunk::DATA_TYPE_LOCATION, s.location);
    lemma_all_len_concat(m1, m2);
    lemma_all_len_concat(m1 + m2, m3);
    lemma_all_len_concat(m1 + m2 + m3, m4);
    lemma_all_len_concat(m1 + m2 + m3 + m4, m5);
    lemma_all_len_concat(m1 + m2 + m3 + m4 + m5, m6);
    assert(song_mhods(s) == m1 + m2 + m3 + m4 + m5 + m6);
}

proof fn lemma_len_ok_playlist(p: PlaylistV)
    ensures
        tree_len_ok(playlist_node_v(p)),
{
    let m = mhod_opt(crate::chunk::DATA_TYPE_TITLE, p.name);
    let its = item_nodes_v(p.items);
    lemma_len_ok_mhod_opt(crate::chunk::DATA_TYPE_TITLE, p.name);
    assert forall|i: int| 0 <= i < its.len() implies tree_len_ok(#[trigger] its[i]) by {
        assert(its[i] == item_node_v(p.items[i]));
        assert(sum_tlen(item_node_v(p.items[i]).children) == 0);
    }
    lemma_all_len_concat(m, its);
}

proof fn lemma_all_len_single(a: NodeV)
    requires
        tree_len_ok(a),
    ensures
        all_len_ok(seq![a]),
{
    let s = seq![a];
    assert forall|i: int| 0 <= i < s.len() implies tree_len_ok(#[trigger] s[i]) by {
        assert(s[i] == a);
    }
}

proof fn lemma_all_len_pair(a: NodeV, b: NodeV)
    requires
        tree_len_ok(a),
        tree_len_ok(b),
    ensures
        all_len_ok(seq![a, b]),
{
    let s = seq![a, b];
    assert forall|i: int| 0 <= i < s.len() implies tree_len_ok(#[trigger] s[i]) by {
        if i == 0 {
            assert(s[i] == a);
        } else {
            assert(s[i] == b);
        }
    }
}

/// A well-formed tree, the shape the serializer is given, satisfies the
/// length-accounting invariant at every node.
pub proof fn lemma_wf_implies_len_ok(n: NodeV)
    requires
        crate::chunk::wf_node(n),
    ensures
        tree_len_ok(n),
    decreases n, 0nat,
{
    match n.tag {
        crate::chunk::ChunkTag::Unknown(..) => {
            assert(all_len_ok(n.children));
        },
        crate::chunk::ChunkTag::DataObject => {
            assert(sum_tlen(n.children) == 0);
            assert(all_len_ok(n.children));
        },
        _ => {
            lemma_wf_kids_len(n.tag, n.children);
        },
    }
}

proof fn lemma_wf_kids_len(p: crate::chunk::ChunkTag, s: Seq<NodeV>)
    requires
        crate::chunk::wf_kids(p, s),
    ensures
        all_len_ok(s),
    decreases s, 1nat,
{
    if s.len() > 0 {
        lemma_wf_implies_len_ok(s[0]);
        lemma_wf_kids_len(p, s.drop_first());
        assert forall|i: int| 0 <= i < s.len() implies tree_len_ok(#[trigger] s[i]) by {
            if i > 0 {
                assert(s[i] == s.drop_first()[i - 1]);
            }
        }
    } else {
        assert(all_len_ok(s));
    }
}

/// Law: every node of a tree the encoder builds satisfies the
/// length-accounting invariant, whatever the songs and playlists.
pub proof fn lemma_encode_length_invariant(songs: Seq<SongV>, pls: Seq<PlaylistV>)
    ensures
        tree_len_ok(build_library_v(songs, pls)),
{
    let tns = track_nodes_v(songs);
    assert forall|i: int| 0 <= i < tns.len() implies tree_len_ok(#[trigger] tns[i]) by {
        lemma_len_ok_track(songs[i]);
        assert(tns[i] == track_node_v(songs[i]));
    }
    let pns = playlist_nodes_v(pls);
    assert forall|i: int| 0 <= i < pns.len() implies tree_len_ok(#[trigger] pns[i]) by {
        lemma_len_ok_playlist(pls[i]);
        assert(pns[i] == playlist_node_v(pls[i]));
    }
    let s1 = section_v(crate::chunk::SECTION_TYPE_TRACKS, track_list_v(songs));
    let s2 = section_v(crate::chunk::SECTION_TYPE_PLAYLISTS, playlist_list_v(pls));
    assert(tree_len_ok(track_list_v(songs)));
    assert(tree_len_ok(playlist_list_v(pls)));
    lemma_all_len_single(track_list_v(songs));
    lemma_all_len_single(playlist_list_v(pls));
    assert(tree_len_ok(s1));
    assert(tree_len_ok(s2));
    lemma_all_len_pair(s1, s2);
}

proof fn lemma_parse_node_len(b: Seq<u8>, pos: int, depth: nat)
    requires
        0 <= pos,
        12 <= peek_u32(b, pos + 4) <= peek_u32(b, pos + 8),
        pos + peek_u32(b, pos + 8) <= b.len(),
    ensures
        (match parse_node(b, pos, depth) {
            NodeRes::Good { node, failed } => {
                &&& node.hlen == peek_u32(b, pos + 4)
                &&& node.tlen == peek_u32(b, pos + 8)
                &&& (failed == 0 ==> tree_len_ok(node))
            },
            _ => true,
        }),
    decreases depth, 0int, 0nat,
{
    let t = peek_tag_at(b, pos);
    let hlen = peek_u32(b, pos + 4) as int;
    let tlen = peek_u32(b, pos + 8) as int;
    if t is Unknown {
        match parse_node(b, pos, depth) {
            NodeRes::Good { node, failed } => {
                assert(node.payload.len() == tlen - 12);
                assert(all_len_ok(node.children));
            },
            _ => {},
        }
    } else if hlen >= spec_fixed_len(t) {
        if pos + hlen >= pos + tlen {
            match parse_node(b, pos, depth) {
                NodeRes::Good { node, failed } => {
                    assert(sum_tlen(node.children) == 0);
                    assert(all_len_ok(node.children));
                },
                _ => {},
            }
        } else if depth > 0 {
            lemma_parse_kids_len(b, pos + hlen, pos + tlen, (depth - 1) as nat);
        }
    }
}

proof fn lemma_parse_kids_len(b: Seq<u8>, pos: int, end: int, depth: nat)
    requires
        0 <= pos <= end <= b.len(),
    ensures
        (match parse_kids(b, pos, end, depth) {
            KidsRes::Good { nodes, failed } => failed == 0 ==> all_len_ok(nodes) && sum_tlen(nodes)
                == end - pos,
            _ => true,
        }),
    decreases depth, end - pos, 1nat,
{
    if pos >= end {
        match parse_kids(b, pos, end, depth) {
            KidsRes::Good { nodes, failed } => {
                assert(all_len_ok(nodes));
                assert(sum_tlen(nodes) == 0);
            },
            _ => {},
        }
    } else if pos + 12 > end {
    } else {
        let hlen = peek_u32(b, pos + 4) as int;
        let tlen = peek_u32(b, pos + 8) as int;
        if 12 <= hlen && hlen <= tlen && pos + tlen <= end {
            lemma_parse_node_len(b, pos, depth);
            lemma_parse_kids_len(b, pos + tlen, end, depth);
            match parse_node(b, pos, depth) {
                NodeRes::Good { node, failed } => {
                    match parse_kids(b, pos + tlen, end, depth) {
                        KidsRes::Good { nodes, failed: f2 } => {
                            if failed == 0 && f2 == 0 {
                                let w = seq![node] + nodes;
                                assert(w[0] == node);
                                assert(w.drop_first() =~= nodes);
                                assert(sum_tlen(w) == node.tlen + sum_tlen(nodes));
                                assert forall|i: int| 0 <= i < w.len() implies tree_len_ok(
                                    #[trigger] w[i],
                                ) by {
                                    if i == 0 {
                                        assert(w[i] == node);
                                    } else {
                                        assert(w[i] == nodes[i - 1]);
                                    }
                                }
                            }
                        },
                        _ => {},
                    }
                },
                _ => {},
            }
        }
    }
}

/// Law: every node of a tree the decoder produces without dropping any
/// subtree satisfies the length-accounting invariant.
pub proof fn lemma_decode_length_invariant(b: Seq<u8>, depth: nat)
    ensures
        (match parse_root(b, depth) {
            Ok((node, failed)) => failed == 0 ==> tree_len_ok(node),
            Err(_) => true,
        }),
{
    if b.len() >= 12 {
        let hlen = peek_u32(b, 4) as int;
        let tlen = peek_u32(b, 8) as int;
        if peek_tag_at(b, 0) == crate::chunk::ChunkTag::Root && tlen <= b.len() && 12 <= hlen
            && hlen <= tlen {
            lemma_parse_node_len(b, 0, depth);
        }
    }
}

/// Law: truncating a buffer whose decode succeeded, at any offset strictly
/// inside its root chunk, yields an out-of-bounds error: never a successful
/// decode of the shortened bytes.
pub proof fn lemma_truncation_out_of_bounds(b: Seq<u8>, depth: nat, k: int)
    requires
        parse_root(b, depth) is Ok,
        0 <= k < peek_u32(b, 8),
    ensures
        (match parse_root(b.take(k), depth) {
            Err(e) => e is OutOfBounds,
            Ok(_) => false,
        }),
{
    let t = b.take(k);
    assert(t.len() == k);
    if k >= 12 {
        assert(t[0] == b[0] && t[1] == b[1] && t[2] == b[2] && t[3] == b[3]);
        assert(t[4] == b[4] && t[5] == b[5] && t[6] == b[6] && t[7] == b[7]);
        assert(t[8] == b[8] && t[9] == b[9] && t[10] == b[10] && t[11] == b[11]);
        assert(peek_tag_at(t, 0) == peek_tag_at(b, 0));
        assert(peek_u32(t, 4) == peek_u32(b, 4));
        assert(peek_u32(t, 8) == peek_u32(b, 8));
        assert(peek_u32(t, 8) > t.len());
    }
}


/// True when no element is a readable data object of the wanted type.
pub open spec fn all_unwanted(s: Seq<NodeV>, d: u64) -> bool {
    forall|i: int| 0 <= i < s.len() ==> !is_wanted_mhod(#[trigger] s[i], d)
}

proof fn lemma_all_unwanted_concat(a: Seq<NodeV>, b: Seq<NodeV>, d: u64)
    requires
        all_unwanted(a, d),
        all_unwanted(b, d),
    ensures
        all_unwanted(a + b, d),
{
    assert forall|i: int| 0 <= i < (a + b).len() implies !is_wanted_mhod(
        #[trigger] (a + b)[i],
        d,
    ) by {
        if i < a.len() {
            assert((a + b)[i] == a[i]);
        } else {
            assert((a + b)[i] == b[i - a.len()]);
        }
    }
}

proof fn lemma_mhod_opt_unwanted(have: u32, s: Seq<char>, want: u64)
    requires
        have as u64 != want || s.len() == 0,
    ensures
        all_unwanted(mhod_opt(have, s), want),
{
    assert forall|i: int| 0 <= i < mhod_opt(have, s).len() implies !is_wanted_mhod(
        #[trigger] mhod_opt(have, s)[i],
        want,
    ) by {
        assert(mhod_opt(have, s)[i] == data_object_v(have, s));
    }
}

proof fn lemma_find_str_skip(a: Seq<NodeV>, b: Seq<NodeV>, d: u64)
    requires
        all_unwanted(a, d),
    ensures
        find_str(a + b, d) == find_str(b, d),
    decreases a.len(),
{
    if a.len() == 0 {
        assert(a + b =~= b);
    } else {
        assert((a + b)[0] == a[0]);
        assert(!is_wanted_mhod(a[0], d));
        assert((a + b).drop_first() =~= a.drop_first() + b);
        assert forall|i: int| 0 <= i < a.drop_first().len() implies !is_wanted_mhod(
            #[trigger] a.drop_first()[i],
            d,
        ) by {
            assert(a.drop_first()[i] == a[i + 1]);
        }
        lemma_find_str_skip(a.drop_first(), b, d);
    }
}

proof fn lemma_find_str_none(a: Seq<NodeV>, d: u64)
    requires
        all_unwanted(a, d),
    ensures
        find_str(a, d) == Seq::<char>::empty(),
{
    lemma_find_str_skip(a, Seq::empty(), d);
    assert(a + Seq::<NodeV>::empty() =~= a);
}

proof fn lemma_find_str_hit(d: u32, s: Seq<char>, rest: Seq<NodeV>)
    requires
        s.len() > 0,
    ensures
        find_str(mhod_opt(d, s) + rest, d as u64) == s,
{
    lemma_utf16_roundtrip(s);
    let w = mhod_opt(d, s) + rest;
    assert(w[0] == data_object_v(d, s));
    assert(is_wanted_mhod(w[0], d as u64));
    assert(mhod_string(w[0]) == Some(s));
}

/// The data-object children the encoder writes after the title, artist,
/// album, genre, file-kind and location fields, as one left-nested list.
#[verifier::rlimit(100)]
proof fn lemma_song_field_strings(s: SongV)
    ensures
        find_str(song_mhods(s), crate::chunk::DATA_TYPE_TITLE as u64) == s.title,
        find_str(song_mhods(s), crate::chunk::DATA_TYPE_ARTIST as u64) == s.artist,
        find_str(song_mhods(s), crate::chunk::DATA_TYPE_ALBUM as u64) == s.album,
        find_str(song_mhods(s), crate::chunk::DATA_TYPE_GENRE as u64) == s.genre,
        find_str(song_mhods(s), crate::chunk::DATA_TYPE_FILE_KIND as u64) == s.file_kind,
        find_str(song_mhods(s), crate::chunk::DATA_TYPE_LOCATION as u64) == s.location,
{
    let m1 = mhod_opt(crate::chunk::DATA_TYPE_TITLE, s.title);
    let m2 = mhod_opt(crate::chunk::DATA_TYPE_ARTIST, s.artist);
    let m3 = mhod_opt(crate::chunk::DATA_TYPE_ALBUM, s.album);
    let m4 = mhod_opt(crate::chunk::DATA_TYPE_GENRE, s.genre);
    let m5 = mhod_opt(crate::chunk::DATA_TYPE_FILE_KIND, s.file_kind);
    let m6 = mhod_opt(crate::chunk::DATA_TYPE_LOCATION, s.location);
    let kids = song_mhods(s);
    lemma_nodes_assoc(m1 + m2 + m3 + m4, m5, m6);
    lemma_nodes_assoc(m1 + m2 + m3, m4, m5 + m6);
    lemma_nodes_assoc(m1 + m2, m3, m4 + (m5 + m6));
    lemma_nodes_assoc(m1, m2, m3 + (m4 + (m5 + m6)));
    lemma_nodes_empty(m1 + (m2 + (m3 + (m4 + (m5 + m6)))));
    lemma_nodes_empty(m6);
    lemma_one_field(1, s.title, kids, Seq::empty(), m2 + (m3 + (m4 + (m5 + m6))));
    lemma_one_field(2, s.artist, kids, m1, m3 + (m4 + (m5 + m6)));
    lemma_one_field(3, s.album, kids, m1 + m2, m4 + (m5 + m6));
    lemma_one_field(4, s.genre, kids, m1 + m2 + m3, m5 + m6);
    lemma_one_field(5, s.file_kind, kids, m1 + m2 + m3 + m4, m6);
    lemma_one_field(6, s.location, kids, m1 + m2 + m3 + m4 + m5, Seq::empty());
}

/// Concatenation of node lists is associative.
proof fn lemma_nodes_assoc(a: Seq<NodeV>, b: Seq<NodeV>, c: Seq<NodeV>)
    ensures
        a + b + c == a + (b + c),
{
    assert(a + b + c =~= a + (b + c));
}

proof fn lemma_nodes_empty(a: Seq<NodeV>)
    ensures
        a + Seq::<NodeV>::empty() == a,
        Seq::<NodeV>::empty() + a == a,
{
    assert(a + Seq::<NodeV>::empty() =~= a);
    assert(Seq::<NodeV>::empty() + a =~= a);
}

/// One wanted field among the six: everything before carries another data
/// type, everything after is irrelevant once the wanted one is found or
/// also carries another data type.
proof fn lemma_one_field(
    d: u32,
    text: Seq<char>,
    kids: Seq<NodeV>,
    before: Seq<NodeV>,
    after: Seq<NodeV>,
)
    requires
        1 <= d <= 6,
        kids == before + (mhod_opt(d, text) + after),
        all_unwanted(before, d as u64),
        all_unwanted(after, d as u64),
    ensures
        find_str(kids, d as u64) == text,
{
    lemma_find_str_skip(before, mhod_opt(d, text) + after, d as u64);
    if text.len() > 0 {
        lemma_find_str_hit(d, text, after);
    } else {
        assert(mhod_opt(d, text) + after =~= after);
        lemma_find_str_none(after, d as u64);
        assert(text =~= Seq::<char>::empty());
    }
}

proof fn lemma_song_roundtrip(s: SongV)
    ensures
        song_of_track(track_node_v(s)) == s,
{
    lemma_song_field_strings(s);
    assert(song_of_track(track_node_v(s)) =~= s);
}

proof fn lemma_songs_in_list(songs: Seq<SongV>)
    ensures
        songs_in_list(track_nodes_v(songs)) == songs,
    decreases songs.len(),
{
    let tns = track_nodes_v(songs);
    if songs.len() == 0 {
        assert(songs_in_list(tns) =~= songs);
    } else {
        assert(tns[0] == track_node_v(songs[0]));
        assert(is_track(tns[0]));
        lemma_song_roundtrip(songs[0]);
        assert(tns.drop_first() =~= track_nodes_v(songs.drop_first()));
        lemma_songs_in_list(songs.drop_first());
        assert(seq![songs[0]] + songs.drop_first() =~= songs);
    }
}

/// One playlist entry as decode resolves it: the referenced id, marked by
/// whether it occurs among the track ids.
pub open spec fn resolved_entries(items: Seq<u64>, ids: Seq<u64>) -> Seq<PlaylistEntry> {
    Seq::new(items.len(), |i: int| PlaylistEntry { track_id: items[i], resolved: ids.contains(items[i]) })
}

/// A playlist as decode reproduces it from what the encoder wrote.
pub open spec fn resolved_playlist(p: PlaylistV, ids: Seq<u64>) -> DecodedPlaylistV {
    DecodedPlaylistV {
        name: p.name,
        persistent_id: p.persistent_id,
        entries: resolved_entries(p.items, ids),
    }
}

proof fn lemma_entries_skip(a: Seq<NodeV>, b: Seq<NodeV>, ids: Seq<u64>)
    requires
        forall|i: int| 0 <= i < a.len() ==> !is_item(#[trigger] a[i]),
    ensures
        entries_in(a + b, ids) == entries_in(b, ids),
    decreases a.len(),
{
    if a.len() == 0 {
        assert(a + b =~= b);
    } else {
        assert((a + b)[0] == a[0]);
        assert((a + b).drop_first() =~= a.drop_first() + b);
        assert forall|i: int| 0 <= i < a.drop_first().len() implies !is_item(
            #[trigger] a.drop_first()[i],
        ) by {
            assert(a.drop_first()[i] == a[i + 1]);
        }
        lemma_entries_skip(a.drop_first(), b, ids);
    }
}

proof fn lemma_entries_items(items: Seq<u64>, ids: Seq<u64>)
    ensures
        entries_in(item_nodes_v(items), ids) == resolved_entries(items, ids),
    decreases items.len(),
{
    let its = item_nodes_v(items);
    if items.len() == 0 {
        assert(entries_in(its, ids) =~= resolved_entries(items, ids));
    } else {
        assert(its[0] == item_node_v(items[0]));
        assert(is_item(its[0]));
        assert(entry_of_item(its[0], ids) == PlaylistEntry {
            track_id: items[0],
            resolved: ids.contains(items[0]),
        });
        assert(its.drop_first() =~= item_nodes_v(items.drop_first()));
        lemma_entries_items(items.drop_first(), ids);
        assert(seq![entry_of_item(its[0], ids)] + resolved_entries(items.drop_first(), ids)
            =~= resolved_entries(items, ids));
    }
}

proof fn lemma_playlist_roundtrip(p: PlaylistV, ids: Seq<u64>)
    ensures
        playlist_of(playlist_node_v(p), ids) == resolved_playlist(p, ids),
{
    let m = mhod_opt(crate::chunk::DATA_TYPE_TITLE, p.name);
    let its = item_nodes_v(p.items);
    assert forall|i: int| 0 <= i < its.len() implies !is_wanted_mhod(
        #[trigger] its[i],
        crate::chunk::DATA_TYPE_TITLE as u64,
    ) by {
        assert(its[i] == item_node_v(p.items[i]));
    }
    if p.name.len() > 0 {
        lemma_find_str_hit(crate::chunk::DATA_TYPE_TITLE, p.name, its);
    } else {
        assert(m + its =~= its);
        lemma_find_str_none(its, crate::chunk::DATA_TYPE_TITLE as u64);
        assert(p.name =~= Seq::<char>::empty());
    }
    assert forall|i: int| 0 <= i < m.len() implies !is_item(#[trigger] m[i]) by {
        assert(m[i] == data_object_v(crate::chunk::DATA_TYPE_TITLE, p.name));
    }
    lemma_entries_skip(m, its, ids);
    lemma_entries_items(p.items, ids);
    assert(playlist_of(playlist_node_v(p), ids) =~= resolved_playlist(p, ids));
}

proof fn lemma_playlists_in_list(pls: Seq<PlaylistV>, ids: Seq<u64>)
    ensures
        playlists_in_list(playlist_nodes_v(pls), ids) == Seq::new(
            pls.len(),
            |i: int| resolved_playlist(pls[i], ids),
        ),
    decreases pls.len(),
{
    let pns = playlist_nodes_v(pls);
    let want = Seq::new(pls.len(), |i: int| resolved_playlist(pls[i], ids));
    if pls.len() == 0 {
        assert(playlists_in_list(pns, ids) =~= want);
    } else {
        assert(pns[0] == playlist_node_v(pls[0]));
        lemma_playlist_roundtrip(pls[0], ids);
        assert(pns.drop_first() =~= playlist_nodes_v(pls.drop_first()));
        lemma_playlists_in_list(pls.drop_first(), ids);
        assert(seq![resolved_playlist(pls[0], ids)] + Seq::new(
            pls.drop_first().len(),
            |i: int| resolved_playlist(pls.drop_first()[i], ids),
        ) =~= want);
    }
}

/// The songs side of the round trip.
#[verifier::rlimit(60)]
proof fn lemma_songs_side(songs: Seq<SongV>, pls: Seq<PlaylistV>)
    ensures
        songs_of_root(build_library_v(songs, pls)) == songs,
{
    let tl = track_list_v(songs);
    let s1 = section_v(crate::chunk::SECTION_TYPE_TRACKS, tl);
    let s2 = section_v(crate::chunk::SECTION_TYPE_PLAYLISTS, playlist_list_v(pls));
    let pair = seq![s1, s2];
    assert(build_library_v(songs, pls).children == pair);
    assert(pair[0] == s1 && pair[1] == s2);
    assert(pair.drop_first() =~= seq![s2]);
    assert(seq![s2].drop_first() =~= Seq::<NodeV>::empty());
    assert(songs_of_sections(Seq::<NodeV>::empty()) =~= Seq::<SongV>::empty());
    assert(!is_section(s2, crate::chunk::SECTION_TYPE_TRACKS as u64));
    assert(songs_of_sections(seq![s2]) =~= Seq::<SongV>::empty());
    assert(is_section(s1, crate::chunk::SECTION_TYPE_TRACKS as u64));
    assert(s1.children == seq![tl]);
    assert(seq![tl].drop_first() =~= Seq::<NodeV>::empty());
    assert(songs_in_section(Seq::<NodeV>::empty()) =~= Seq::<SongV>::empty());
    lemma_songs_in_list(songs);
    assert(songs_in_section(seq![tl]) =~= songs);
    assert(songs_of_sections(pair) =~= songs);
}

/// The playlists side of the round trip.
#[verifier::rlimit(60)]
proof fn lemma_playlists_side(songs: Seq<SongV>, pls: Seq<PlaylistV>)
    ensures
        playlists_of_root(build_library_v(songs, pls), ids_of(songs)) == Seq::new(
            pls.len(),
            |i: int| resolved_playlist(pls[i], ids_of(songs)),
        ),
{
    let ids = ids_of(songs);
    let pl = playlist_list_v(pls);
    let s1 = section_v(crate::chunk::SECTION_TYPE_TRACKS, track_list_v(songs));
    let s2 = section_v(crate::chunk::SECTION_TYPE_PLAYLISTS, pl);
    let pair = seq![s1, s2];
    let want = Seq::new(pls.len(), |i: int| resolved_playlist(pls[i], ids));
    assert(build_library_v(songs, pls).children == pair);
    assert(pair[0] == s1 && pair[1] == s2);
    assert(pair.drop_first() =~= seq![s2]);
    assert(seq![s2].drop_first() =~= Seq::<NodeV>::empty());
    assert(playlists_of_sections(Seq::<NodeV>::empty(), ids) =~= Seq::<DecodedPlaylistV>::empty());
    assert(playlists_in_section(Seq::<NodeV>::empty(), ids) =~= Seq::<DecodedPlaylistV>::empty());
    assert(!is_section(s1, crate::chunk::SECTION_TYPE_PLAYLISTS as u64));
    assert(is_section(s2, crate::chunk::SECTION_TYPE_PLAYLISTS as u64));
    assert(s2.children == seq![pl]);
    assert(seq![pl].drop_first() =~= Seq::<NodeV>::empty());
    lemma_playlists_in_list(pls, ids);
    assert(playlists_in_section(seq![pl], ids) =~= want);
    assert(playlists_of_sections(seq![s2], ids) =~= want);
    assert(playlists_of_sections(pair, ids) =~= want);
}

/// Law, the round trip's domain half: the adapter recovers from the tree the
/// encoder builds exactly the songs that went in, field for field, and each
/// playlist with its name, id and references in order, every reference to a
/// present track marked resolved and every other marked unresolved.
pub proof fn lemma_adapter_inverts_encoder(songs: Seq<SongV>, pls: Seq<PlaylistV>)
    ensures
        songs_of_root(build_library_v(songs, pls)) == songs,
        playlists_of_root(build_library_v(songs, pls), ids_of(songs)) == Seq::new(
            pls.len(),
            |i: int| resolved_playlist(pls[i], ids_of(songs)),
        ),
{
    lemma_songs_side(songs, pls);
    lemma_playlists_side(songs, pls);
}

} // verus!
