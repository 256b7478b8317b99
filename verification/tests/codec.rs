use itunesdb::DbError;
use itunesdb::adapter::extract_playlists;
use itunesdb::adapter::extract_songs;
use itunesdb::chunk::ChunkNode;
use itunesdb::chunk::ChunkTag;
use itunesdb::cursor::ByteCursor;
use itunesdb::cursor::ByteWriter;
use itunesdb::decode::decode;
use itunesdb::decode::decode_with_depth;
use itunesdb::encode::encode;
use itunesdb::model::Playlist;
use itunesdb::model::Song;
use itunesdb::model::SongDraft;
use itunesdb::strings::StrEncoding;
use itunesdb::strings::decode_string;
use itunesdb::strings::encode_utf16le;

fn song(id: u64, title: &str, artist: &str) -> Song {
    Song {
        persistent_id: id,
        title: title.to_string(),
        artist: artist.to_string(),
        album: "Album".to_string(),
        genre: "Genre".to_string(),
        file_kind: "MPEG audio file".to_string(),
        location: "/music/file.mp3".to_string(),
        size_bytes: 1234,
        duration_ms: 215000,
        track_number: 7,
        year: 1999,
        bitrate: 320,
        sample_rate: 44100,
        play_count: 42,
        rating: 80,
        date_added: 123456789,
    }
}

fn push_u32(out: &mut Vec<u8>, v: u32) {
    out.extend_from_slice(&v.to_le_bytes());
}

fn push_u64(out: &mut Vec<u8>, v: u64) {
    out.extend_from_slice(&v.to_le_bytes());
}

/// A minimal track record with no data objects.
fn raw_track(id: u64) -> Vec<u8> {
    let mut c = Vec::new();
    c.extend_from_slice(b"mhit");
    push_u32(&mut c, 60);
    push_u32(&mut c, 60);
    push_u64(&mut c, id);
    for _ in 0..10 {
        push_u32(&mut c, 0);
    }
    c
}

fn wrap(tag: &[u8; 4], fixed: &[u32], children: &[u8]) -> Vec<u8> {
    let hlen = 12 + 4 * fixed.len() as u32;
    let tlen = hlen + children.len() as u32;
    let mut c = Vec::new();
    c.extend_from_slice(tag);
    push_u32(&mut c, hlen);
    push_u32(&mut c, tlen);
    for f in fixed {
        push_u32(&mut c, *f);
    }
    c.extend_from_slice(children);
    c
}

fn check_lengths(n: &ChunkNode) {
    match n.tag {
        ChunkTag::Unknown(..) => {
            assert_eq!(n.total_length as usize, 12 + n.payload.len());
            assert!(n.header_length >= 12);
            assert!(n.header_length <= n.total_length);
        }
        _ => {
            let sum: u64 = n.children.iter().map(|c| c.total_length as u64).sum();
            assert_eq!(n.total_length as u64, n.header_length as u64 + sum);
        }
    }
    for c in &n.children {
        check_lengths(c);
    }
}

#[test]
fn roundtrip_library() {
    let songs = vec![
        song(11, "Café", "Sigur Rós"),
        song(22, "Программа", "日本語のアーティスト"),
        song(33, "Plain", ""),
    ];
    let playlists = vec![Playlist {
        name: "Déjà vu 🎵".to_string(),
        persistent_id: 900,
        items: vec![22, 11],
    }];
    let bytes = encode(&songs, &playlists).unwrap();
    let out = decode(&bytes).unwrap();
    assert_eq!(out.failed_subtrees, 0);
    let got_songs = extract_songs(&out.root);
    assert_eq!(got_songs.len(), 3);
    for (a, b) in songs.iter().zip(got_songs.iter()) {
        assert_eq!(a.persistent_id, b.persistent_id);
        assert_eq!(a.title, b.title);
        assert_eq!(a.artist, b.artist);
        assert_eq!(a.album, b.album);
        assert_eq!(a.genre, b.genre);
        assert_eq!(a.file_kind, b.file_kind);
        assert_eq!(a.location, b.location);
        assert_eq!(a.size_bytes, b.size_bytes);
        assert_eq!(a.duration_ms, b.duration_ms);
        assert_eq!(a.track_number, b.track_number);
        assert_eq!(a.year, b.year);
        assert_eq!(a.bitrate, b.bitrate);
        assert_eq!(a.sample_rate, b.sample_rate);
        assert_eq!(a.play_count, b.play_count);
        assert_eq!(a.rating, b.rating);
        assert_eq!(a.date_added, b.date_added);
    }
    let got_pls = extract_playlists(&out.root, &got_songs);
    assert_eq!(got_pls.len(), 1);
    assert_eq!(got_pls[0].name, "Déjà vu 🎵");
    assert_eq!(got_pls[0].persistent_id, 900);
    let ids: Vec<u64> = got_pls[0].entries.iter().map(|e| e.track_id).collect();
    assert_eq!(ids, vec![22, 11]);
    assert!(got_pls[0].entries.iter().all(|e| e.resolved));
}

#[test]
fn utf16_cafe_fidelity() {
    let bytes = encode_utf16le("Café");
    assert_eq!(bytes, vec![0x43, 0, 0x61, 0, 0x66, 0, 0xE9, 0]);
    let back = decode_string(&bytes, StrEncoding::Utf16Le).unwrap();
    assert_eq!(back, "Café");

    // The same title survives a whole encode+decode of the container.
    let songs = vec![song(1, "Café", "A")];
    let bytes1 = encode(&songs, &vec![]).unwrap();
    let out = decode(&bytes1).unwrap();
    let got = extract_songs(&out.root);
    assert_eq!(got[0].title, "Café");
    let bytes2 = encode(&got, &vec![]).unwrap();
    assert_eq!(bytes1, bytes2);
}

#[test]
fn utf16_surrogate_pair_roundtrip() {
    let bytes = encode_utf16le("🎵");
    assert_eq!(bytes, vec![0x3C, 0xD8, 0xB5, 0xDF]);
    let back = decode_string(&bytes, StrEncoding::Utf16Le).unwrap();
    assert_eq!(back, "🎵");
}

#[test]
fn utf16_lone_surrogate_rejected() {
    let bytes = vec![0x3C, 0xD8];
    assert_eq!(decode_string(&bytes, StrEncoding::Utf16Le), Err(DbError::Encoding));
}

#[test]
fn utf16_odd_length_rejected() {
    let bytes = vec![0x41, 0x00, 0x42];
    assert_eq!(decode_string(&bytes, StrEncoding::Utf16Le), Err(DbError::Encoding));
}

#[test]
fn single_byte_decoding() {
    let bytes = vec![0x43, 0x61, 0x66, 0xE9];
    let s = decode_string(&bytes, StrEncoding::SingleByte).unwrap();
    assert_eq!(s, "Café");
}

#[test]
fn empty_library_is_valid() {
    let bytes = encode(&vec![], &vec![]).unwrap();
    let out = decode(&bytes).unwrap();
    assert_eq!(out.failed_subtrees, 0);
    assert_eq!(out.root.tag, ChunkTag::Root);
    assert_eq!(out.root.children.len(), 2);
    assert_eq!(out.root.children[0].tag, ChunkTag::Section);
    assert_eq!(out.root.children[0].children[0].tag, ChunkTag::TrackList);
    assert_eq!(out.root.children[0].children[0].children.len(), 0);
    check_lengths(&out.root);
    assert_eq!(extract_songs(&out.root).len(), 0);
}

#[test]
fn length_invariant_holds_everywhere() {
    let songs = vec![song(1, "One", "A"), song(2, "Two", "B")];
    let playlists = vec![Playlist { name: "P".to_string(), persistent_id: 5, items: vec![1, 2] }];
    let bytes = encode(&songs, &playlists).unwrap();
    let out = decode(&bytes).unwrap();
    assert_eq!(out.failed_subtrees, 0);
    check_lengths(&out.root);
}

#[test]
fn tolerant_of_unknown_sibling() {
    // A syntactically valid chunk with a tag not in the table, between two
    // track records.
    let mut unknown = Vec::new();
    unknown.extend_from_slice(b"zzzz");
    push_u32(&mut unknown, 16);
    push_u32(&mut unknown, 21);
    unknown.extend_from_slice(&[1, 2, 3, 4, 5, 6, 7, 8, 9]);

    let mut kids = raw_track(7);
    kids.extend_from_slice(&unknown);
    kids.extend_from_slice(&raw_track(8));
    let list = wrap(b"mhlt", &[2], &kids);
    let sec = wrap(b"mhsd", &[1], &list);
    let root = wrap(b"mhbd", &[1, 1], &sec);

    let out = decode(&root).unwrap();
    assert_eq!(out.failed_subtrees, 0);
    let got = extract_songs(&out.root);
    assert_eq!(got.len(), 2);
    assert_eq!(got[0].persistent_id, 7);
    assert_eq!(got[1].persistent_id, 8);
    let list_node = &out.root.children[0].children[0];
    assert_eq!(list_node.children.len(), 3);
    assert_eq!(list_node.children[1].tag, ChunkTag::Unknown(0x7A, 0x7A, 0x7A, 0x7A));
    assert_eq!(list_node.children[1].payload, vec![1, 2, 3, 4, 5, 6, 7, 8, 9]);
}

#[test]
fn truncation_yields_out_of_bounds() {
    let songs = vec![song(1, "Café", "A")];
    let bytes = encode(&songs, &vec![]).unwrap();
    for k in 0..bytes.len() {
        match decode(&bytes[..k]) {
            Err(DbError::OutOfBounds { .. }) => {}
            other => panic!("truncation at {} gave {:?}", k, other),
        }
    }
}

#[test]
fn unresolved_reference_is_marked() {
    let songs = vec![song(1, "One", "A")];
    let playlists =
        vec![Playlist { name: "P".to_string(), persistent_id: 5, items: vec![1, 999] }];
    let bytes = encode(&songs, &playlists).unwrap();
    let out = decode(&bytes).unwrap();
    let got_songs = extract_songs(&out.root);
    let got_pls = extract_playlists(&out.root, &got_songs);
    assert_eq!(got_pls.len(), 1);
    assert_eq!(got_pls[0].entries.len(), 2);
    assert_eq!(got_pls[0].entries[0].track_id, 1);
    assert!(got_pls[0].entries[0].resolved);
    assert_eq!(got_pls[0].entries[1].track_id, 999);
    assert!(!got_pls[0].entries[1].resolved);
}

#[test]
fn wrong_root_tag_is_fatal() {
    let sec = wrap(b"mhsd", &[1], &[]);
    match decode(&sec) {
        Err(e) => assert_eq!(e, DbError::TagMismatch),
        Ok(_) => panic!("expected a tag mismatch"),
    }
}

#[test]
fn depth_bound_is_fatal() {
    let list = wrap(b"mhlt", &[0], &[]);
    let sec = wrap(b"mhsd", &[1], &list);
    let root = wrap(b"mhbd", &[1, 1], &sec);
    match decode_with_depth(&root, 0) {
        Err(e) => assert_eq!(e, DbError::DepthExceeded),
        Ok(_) => panic!("expected a depth error"),
    }
    assert!(decode_with_depth(&root, 3).is_ok());
}

#[test]
fn bad_child_is_dropped_siblings_kept() {
    // A data object declaring an odd UTF-16 byte length is dropped; the track
    // and its siblings still decode.
    let mut mhod = Vec::new();
    mhod.extend_from_slice(b"mhod");
    push_u32(&mut mhod, 24 + 3);
    push_u32(&mut mhod, 24 + 3);
    push_u32(&mut mhod, 1); // data type: title
    push_u32(&mut mhod, 3); // odd byte length
    push_u32(&mut mhod, 1); // UTF-16
    mhod.extend_from_slice(&[0x41, 0x00, 0x42]);

    let mut track = Vec::new();
    track.extend_from_slice(b"mhit");
    push_u32(&mut track, 60);
    push_u32(&mut track, 60 + mhod.len() as u32);
    push_u64(&mut track, 77);
    for _ in 0..10 {
        push_u32(&mut track, 0);
    }
    track.extend_from_slice(&mhod);

    let list = wrap(b"mhlt", &[1], &track);
    let sec = wrap(b"mhsd", &[1], &list);
    let root = wrap(b"mhbd", &[1, 1], &sec);
    let out = decode(&root).unwrap();
    assert_eq!(out.failed_subtrees, 1);
    let got = extract_songs(&out.root);
    assert_eq!(got.len(), 1);
    assert_eq!(got[0].persistent_id, 77);
    assert_eq!(got[0].title, "");
}

#[test]
fn song_draft_defaults() {
    let s = SongDraft::empty().into_song();
    assert_eq!(s.persistent_id, 0);
    assert_eq!(s.title, "");
    assert_eq!(s.location, "");
    assert_eq!(s.play_count, 0);
    assert_eq!(s.year, 0);
}

#[test]
fn cursor_reads_little_endian() {
    let buf = [0x78u8, 0x56, 0x34, 0x12, 0xAA, 0xBB];
    let mut cur = ByteCursor::new(&buf);
    assert_eq!(cur.read_u32(), Ok(0x12345678));
    assert_eq!(cur.read_u16(), Ok(0xBBAA));
    assert_eq!(cur.remaining(), 0);
    assert_eq!(
        cur.read_u8(),
        Err(DbError::OutOfBounds { offset: 6, requested: 1, buffer_len: 6 })
    );
}

#[test]
fn cursor_bounds_and_seek() {
    let buf = [1u8, 2, 3];
    let mut cur = ByteCursor::new(&buf);
    assert_eq!(
        cur.read_u32(),
        Err(DbError::OutOfBounds { offset: 0, requested: 4, buffer_len: 3 })
    );
    assert!(cur.seek(2).is_ok());
    assert_eq!(cur.read_u8(), Ok(3));
    assert!(cur.seek(9).is_err());
}

#[test]
fn cursor_reads_strings() {
    let buf = [0x43u8, 0x61, 0x66, 0xE9];
    let mut cur = ByteCursor::new(&buf);
    let s = cur.read_string(4, StrEncoding::SingleByte).unwrap();
    assert_eq!(s, "Café");
}

#[test]
fn writer_is_symmetric_with_cursor() {
    let mut w = ByteWriter::new();
    w.write_u8(0x01);
    w.write_u16(0x2345);
    w.write_u32(0x6789ABCD);
    w.write_u64(0x1122334455667788);
    let bytes = w.into_bytes();
    let mut cur = ByteCursor::new(&bytes);
    assert_eq!(cur.read_u8(), Ok(0x01));
    assert_eq!(cur.read_u16(), Ok(0x2345));
    assert_eq!(cur.read_u32(), Ok(0x6789ABCD));
    assert_eq!(cur.read_u64(), Ok(0x1122334455667788));
}

#[test]
fn peek_tag_does_not_advance() {
    let buf = *b"mhbdrest";
    let mut cur = ByteCursor::new(&buf);
    assert_eq!(cur.peek_tag(), Ok((0x6D, 0x68, 0x62, 0x64)));
    assert_eq!(cur.read_u8(), Ok(0x6D));
}
