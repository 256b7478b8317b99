//! The chunk tree: tags, the per-tag field table, the typed node, its ghost
//! model, well-formedness, and the serialized form of a tree.

use vstd::prelude::*;

use crate::cursor::le32;
use crate::cursor::le64;

verus! {

/// The 4-byte tag at a chunk's start, as a closed set of known roles plus a
/// catch-all for tags this crate does not know, kept with their bytes.
#[derive(Clone, Copy, Debug, PartialEq, Eq, Structural)]
pub enum ChunkTag {
    /// `mhbd`, the whole-database wrapper.
    Root,
    /// `mhsd`, one section grouping records by kind.
    Section,
    /// `mhlt`, the container of all track records.
    TrackList,
    /// `mhlp`, the container of all playlist headers.
    PlaylistList,
    /// `mhit`, one song's fixed metadata.
    TrackRecord,
    /// `mhod`, one variable-length attribute of a track or playlist.
    DataObject,
    /// `mhyp`, one playlist's metadata.
    PlaylistHeader,
    /// `mhip`, one playlist entry.
    PlaylistItem,
    /// Any other tag, preserved byte for byte.
    Unknown(u8, u8, u8, u8),
}

/// The four bytes of a tag.
pub open spec fn tag_bytes(t: ChunkTag) -> Seq<u8> {
    match t {
        ChunkTag::Root => seq![0x6Du8, 0x68u8, 0x62u8, 0x64u8],
        ChunkTag::Section => seq![0x6Du8, 0x68u8, 0x73u8, 0x64u8],
        ChunkTag::TrackList => seq![0x6Du8, 0x68u8, 0x6Cu8, 0x74u8],
        ChunkTag::PlaylistList => seq![0x6Du8, 0x68u8, 0x6Cu8, 0x70u8],
        ChunkTag::TrackRecord => seq![0x6Du8, 0x68u8, 0x69u8, 0x74u8],
        ChunkTag::DataObject => seq![0x6Du8, 0x68u8, 0x6Fu8, 0x64u8],
        ChunkTag::PlaylistHeader => seq![0x6Du8, 0x68u8, 0x79u8, 0x70u8],
        ChunkTag::PlaylistItem => seq![0x6Du8, 0x68u8, 0x69u8, 0x70u8],
        ChunkTag::Unknown(a, b, c, d) => seq![a, b, c, d],
    }
}

/// The tag four bytes name.
pub open spec fn tag_of(a: u8, b: u8, c: u8, d: u8) -> ChunkTag {
    if a == 0x6D && b == 0x68 {
        if c == 0x62 && d == 0x64 {
            ChunkTag::Root
        } else if c == 0x73 && d == 0x64 {
            ChunkTag::Section
        } else if c == 0x6C && d == 0x74 {
            ChunkTag::TrackList
        } else if c == 0x6C && d == 0x70 {
            ChunkTag::PlaylistList
        } else if c == 0x69 && d == 0x74 {
            ChunkTag::TrackRecord
        } else if c == 0x6F && d == 0x64 {
            ChunkTag::DataObject
        } else if c == 0x79 && d == 0x70 {
            ChunkTag::PlaylistHeader
        } else if c == 0x69 && d == 0x70 {
            ChunkTag::PlaylistItem
        } else {
            ChunkTag::Unknown(a, b, c, d)
        }
    } else {
        ChunkTag::Unknown(a, b, c, d)
    }
}

/// An unknown tag's bytes must not spell a known tag, so that re-reading the
/// serialized tree gives the same tags back.
pub open spec fn tag_wf(t: ChunkTag) -> bool {
    match t {
        ChunkTag::Unknown(a, b, c, d) => tag_of(a, b, c, d) == t,
        _ => true,
    }
}

/// Reading a well-formed tag back from its own four bytes gives it back.
pub proof fn lemma_tag_roundtrip(t: ChunkTag)
    requires
        tag_wf(t),
    ensures
        tag_bytes(t).len() == 4,
        tag_of(tag_bytes(t)[0], tag_bytes(t)[1], tag_bytes(t)[2], tag_bytes(t)[3]) == t,
{
}

/// Reads a tag from four bytes.
pub fn tag_from_bytes(a: u8, b: u8, c: u8, d: u8) -> (t: ChunkTag)
    ensures
        t == tag_of(a, b, c, d),
        tag_wf(t),
{
    if a == 0x6D && b == 0x68 {
        if c == 0x62 && d == 0x64 {
            ChunkTag::Root
        } else if c == 0x73 && d == 0x64 {
            ChunkTag::Section
        } else if c == 0x6C && d == 0x74 {
            ChunkTag::TrackList
        } else if c == 0x6C && d == 0x70 {
            ChunkTag::PlaylistList
        } else if c == 0x69 && d == 0x74 {
            ChunkTag::TrackRecord
        } else if c == 0x6F && d == 0x64 {
            ChunkTag::DataObject
        } else if c == 0x79 && d == 0x70 {
            ChunkTag::PlaylistHeader
        } else if c == 0x69 && d == 0x70 {
            ChunkTag::PlaylistItem
        } else {
            ChunkTag::Unknown(a, b, c, d)
        }
    } else {
        ChunkTag::Unknown(a, b, c, d)
    }
}

/// The four bytes of a tag, for the serializer.
pub fn tag_to_bytes(t: &ChunkTag) -> (r: (u8, u8, u8, u8))
    ensures
        tag_bytes(*t) == seq![r.0, r.1, r.2, r.3],
{
    let r = match t {
        ChunkTag::Root => (0x6Du8, 0x68u8, 0x62u8, 0x64u8),
        ChunkTag::Section => (0x6Du8, 0x68u8, 0x73u8, 0x64u8),
        ChunkTag::TrackList => (0x6Du8, 0x68u8, 0x6Cu8, 0x74u8),
        ChunkTag::PlaylistList => (0x6Du8, 0x68u8, 0x6Cu8, 0x70u8),
        ChunkTag::TrackRecord => (0x6Du8, 0x68u8, 0x69u8, 0x74u8),
        ChunkTag::DataObject => (0x6Du8, 0x68u8, 0x6Fu8, 0x64u8),
        ChunkTag::PlaylistHeader => (0x6Du8, 0x68u8, 0x79u8, 0x70u8),
        ChunkTag::PlaylistItem => (0x6Du8, 0x68u8, 0x69u8, 0x70u8),
        ChunkTag::Unknown(a, b, c, d) => (*a, *b, *c, *d),
    };
    proof {
        assert(tag_bytes(*t) =~= seq![r.0, r.1, r.2, r.3]);
    }
    r
}

/// Number of fixed fields the table declares for a tag.
pub open spec fn spec_field_count(t: ChunkTag) -> nat {
    match t {
        ChunkTag::Root => 2,
        ChunkTag::Section => 1,
        ChunkTag::TrackList => 1,
        ChunkTag::PlaylistList => 1,
        ChunkTag::TrackRecord => 11,
        ChunkTag::DataObject => 3,
        ChunkTag::PlaylistHeader => 2,
        ChunkTag::PlaylistItem => 2,
        ChunkTag::Unknown(..) => 0,
    }
}

/// Byte offset, from the chunk start, where the fixed fields end: the tag's
/// minimum header length.
pub open spec fn spec_fixed_len(t: ChunkTag) -> nat {
    match t {
        ChunkTag::Root => 20,
        ChunkTag::Section => 16,
        ChunkTag::TrackList => 16,
        ChunkTag::PlaylistList => 16,
        ChunkTag::TrackRecord => 60,
        ChunkTag::DataObject => 24,
        ChunkTag::PlaylistHeader => 24,
        ChunkTag::PlaylistItem => 24,
        ChunkTag::Unknown(..) => 12,
    }
}

/// The table entry of `spec_fixed_len`, for the decoder and encoder.
pub fn fixed_len(t: &ChunkTag) -> (r: usize)
    ensures
        r == spec_fixed_len(*t),
{
    match t {
        ChunkTag::Root => 20,
        ChunkTag::Section => 16,
        ChunkTag::TrackList => 16,
        ChunkTag::PlaylistList => 16,
        ChunkTag::TrackRecord => 60,
        ChunkTag::DataObject => 24,
        ChunkTag::PlaylistHeader => 24,
        ChunkTag::PlaylistItem => 24,
        ChunkTag::Unknown(..) => 12,
    }
}

/// True for the fields the table declares eight bytes wide; all others are
/// four bytes.
pub open spec fn wide_field(t: ChunkTag, i: int) -> bool {
    ||| (t == ChunkTag::TrackRecord && i == 0)
    ||| (t == ChunkTag::PlaylistHeader && i == 1)
    ||| (t == ChunkTag::PlaylistItem && i == 0)
}

/// Which child tags the table allows under a parent tag. An unknown chunk is
/// additionally tolerated anywhere a child list exists.
pub open spec fn allowed_child(p: ChunkTag, c: ChunkTag) -> bool {
    match p {
        ChunkTag::Root => c == ChunkTag::Section,
        ChunkTag::Section => c == ChunkTag::TrackList || c == ChunkTag::PlaylistList,
        ChunkTag::TrackList => c == ChunkTag::TrackRecord,
        ChunkTag::PlaylistList => c == ChunkTag::PlaylistHeader,
        ChunkTag::TrackRecord => c == ChunkTag::DataObject,
        ChunkTag::PlaylistHeader => c == ChunkTag::DataObject || c == ChunkTag::PlaylistItem,
        _ => false,
    }
}

pub open spec fn child_ok(p: ChunkTag, c: ChunkTag) -> bool {
    allowed_child(p, c) || c is Unknown
}

/// One decoded chunk: its tag, the two recorded length fields, the fixed
/// fields in table order, the variable payload (a data object's string bytes,
/// or an unknown chunk's whole content past the framing), and the children.
#[derive(Debug)]
pub struct ChunkNode {
    pub tag: ChunkTag,
    pub header_length: u32,
    pub total_length: u32,
    pub fields: Vec<u64>,
    pub payload: Vec<u8>,
    pub children: Vec<ChunkNode>,
}

/// The mathematical model of a chunk node.
#[verifier::ext_equal]
pub ghost struct NodeV {
    pub tag: ChunkTag,
    pub hlen: nat,
    pub tlen: nat,
    pub fields: Seq<u64>,
    pub payload: Seq<u8>,
    pub children: Seq<NodeV>,
}

pub open spec fn children_v(s: Seq<ChunkNode>) -> Seq<NodeV>
    decreases s,
{
    if s.len() == 0 {
        Seq::empty()
    } else {
        seq![node_v(s[0])] + children_v(s.drop_first())
    }
}

pub open spec fn node_v(n: ChunkNode) -> NodeV
    decreases n,
{
    NodeV {
        tag: n.tag,
        hlen: n.header_length as nat,
        tlen: n.total_length as nat,
        fields: n.fields@,
        payload: n.payload@,
        children: children_v(n.children@),
    }
}

impl View for ChunkNode {
    type V = NodeV;

    open spec fn view(&self) -> NodeV {
        node_v(*self)
    }
}

pub proof fn lemma_children_v_len(s: Seq<ChunkNode>)
    ensures
        children_v(s).len() == s.len(),
        forall|i: int| 0 <= i < s.len() ==> children_v(s)[i] == node_v(s[i]),
    decreases s,
{
    if s.len() > 0 {
        lemma_children_v_len(s.drop_first());
    }
}

/// Sum of the recorded total lengths of a child list.
pub open spec fn sum_tlen(s: Seq<NodeV>) -> nat
    decreases s,
{
    if s.len() == 0 {
        0
    } else {
        s[0].tlen + sum_tlen(s.drop_first())
    }
}

/// The length-accounting invariant at one node: children (or an unknown
/// chunk's opaque payload) fill the span between `header_length` and
/// `total_length` exactly, and the header is at least the tag's fixed width.
pub open spec fn node_len_ok(n: NodeV) -> bool {
    match n.tag {
        ChunkTag::Unknown(..) => n.hlen >= 12 && n.hlen <= n.tlen && n.tlen == 12
            + n.payload.len() && n.children.len() == 0,
        _ => n.hlen >= spec_fixed_len(n.tag) && n.tlen == n.hlen + sum_tlen(n.children),
    }
}

/// The fixed fields fit the table: right count, and four-byte fields hold
/// 32-bit values.
pub open spec fn fields_wf(t: ChunkTag, fields: Seq<u64>) -> bool {
    &&& fields.len() == spec_field_count(t)
    &&& forall|i: int| 0 <= i < fields.len() && !wide_field(t, i) ==> fields[i] < 0x1_0000_0000
}

/// Well-formed chunk tree, the shape the encoder produces and the serializer
/// expects: exact header lengths, consistent length accounting, table-legal
/// children, and a data object whose declared byte length, encoding flag and
/// payload agree.
pub open spec fn wf_node(n: NodeV) -> bool
    decreases n,
{
    &&& tag_wf(n.tag)
    &&& n.tlen <= u32::MAX
    &&& fields_wf(n.tag, n.fields)
    &&& match n.tag {
        ChunkTag::Unknown(..) => n.hlen >= 12 && n.hlen <= n.tlen && n.tlen == 12
            + n.payload.len() && n.children.len() == 0,
        ChunkTag::DataObject => {
            &&& n.hlen == 24 + n.payload.len()
            &&& n.tlen == n.hlen
            &&& n.children.len() == 0
            &&& n.fields[1] == n.payload.len()
            &&& (n.fields[2] == 0 || n.fields[2] == 1)
            &&& (n.fields[2] == 1 ==> n.payload.len() % 2 == 0)
        },
        _ => {
            &&& n.hlen == spec_fixed_len(n.tag)
            &&& n.payload.len() == 0
            &&& n.tlen == n.hlen + sum_tlen(n.children)
            &&& wf_kids(n.tag, n.children)
        },
    }
}

pub open spec fn wf_kids(p: ChunkTag, s: Seq<NodeV>) -> bool
    decreases s,
{
    if s.len() == 0 {
        true
    } else {
        child_ok(p, s[0].tag) && wf_node(s[0]) && wf_kids(p, s.drop_first())
    }
}

/// The serialized fixed fields of a node, per the table's widths.
pub open spec fn ser_fields(t: ChunkTag, f: Seq<u64>) -> Seq<u8> {
    match t {
        ChunkTag::Root => le32(f[0] as u32) + le32(f[1] as u32),
        ChunkTag::Section => le32(f[0] as u32),
        ChunkTag::TrackList => le32(f[0] as u32),
        ChunkTag::PlaylistList => le32(f[0] as u32),
        ChunkTag::TrackRecord => le64(f[0]) + le32(f[1] as u32) + le32(f[2] as u32) + le32(
            f[3] as u32,
        ) + le32(f[4] as u32) + le32(f[5] as u32) + le32(f[6] as u32) + le32(f[7] as u32) + le32(
            f[8] as u32,
        ) + le32(f[9] as u32) + le32(f[10] as u32),
        ChunkTag::DataObject => le32(f[0] as u32) + le32(f[1] as u32) + le32(f[2] as u32),
        ChunkTag::PlaylistHeader => le32(f[0] as u32) + le64(f[1]),
        ChunkTag::PlaylistItem => le64(f[0]) + le32(f[1] as u32),
        ChunkTag::Unknown(..) => Seq::empty(),
    }
}

/// The bytes of one serialized node: framing, fixed fields, payload, then the
/// children in order.
pub open spec fn ser_node(n: NodeV) -> Seq<u8>
    decreases n, 0nat,
{
    tag_bytes(n.tag) + le32(n.hlen as u32) + le32(n.tlen as u32) + ser_fields(n.tag, n.fields)
        + n.payload + ser_kids(n.children)
}

pub open spec fn ser_kids(s: Seq<NodeV>) -> Seq<u8>
    decreases s, 1nat,
{
    if s.len() == 0 {
        Seq::empty()
    } else {
        ser_node(s[0]) + ser_kids(s.drop_first())
    }
}

/// The format version the encoder writes into the root header.
pub const FORMAT_VERSION: u32 = 1;

/// Section-type identifier of the tracks section.
pub const SECTION_TYPE_TRACKS: u32 = 1;

/// Section-type identifier of the playlists section.
pub const SECTION_TYPE_PLAYLISTS: u32 = 2;

/// Data-type enumeration of a title data object.
pub const DATA_TYPE_TITLE: u32 = 1;

/// Data-type enumeration of an artist data object.
pub const DATA_TYPE_ARTIST: u32 = 2;

/// Data-type enumeration of an album data object.
pub const DATA_TYPE_ALBUM: u32 = 3;

/// Data-type enumeration of a genre data object.
pub const DATA_TYPE_GENRE: u32 = 4;

/// Data-type enumeration of a file-kind data object.
pub const DATA_TYPE_FILE_KIND: u32 = 5;

/// Data-type enumeration of an on-device-location data object.
pub const DATA_TYPE_LOCATION: u32 = 6;

/// Encoding indicator of a single-byte string payload.
pub const ENCODING_SINGLE_BYTE: u32 = 0;

/// Encoding indicator of a UTF-16LE string payload.
pub const ENCODING_UTF16LE: u32 = 1;

/// Every node of the tree carries exactly the field count its tag's table
/// entry declares; what the serializer needs of its input.
pub open spec fn shape_ok(n: NodeV) -> bool
    decreases n,
{
    n.fields.len() == spec_field_count(n.tag) && all_shape(n.children)
}

pub open spec fn all_shape(s: Seq<NodeV>) -> bool
    decreases s,
{
    forall|i: int| 0 <= i < s.len() ==> shape_ok(#[trigger] s[i])
}

pub proof fn lemma_all_shape_concat(a: Seq<NodeV>, b: Seq<NodeV>)
    requires
        all_shape(a),
        all_shape(b),
    ensures
        all_shape(a + b),
{
    assert forall|i: int| 0 <= i < (a + b).len() implies shape_ok(#[trigger] (a + b)[i]) by {
        if i < a.len() {
            assert((a + b)[i] == a[i]);
        } else {
            assert((a + b)[i] == b[i - a.len()]);
        }
    }
}

pub proof fn lemma_sum_tlen_concat(a: Seq<NodeV>, b: Seq<NodeV>)
    ensures
        sum_tlen(a + b) == sum_tlen(a) + sum_tlen(b),
    decreases a.len(),
{
    if a.len() == 0 {
        assert(a + b =~= b);
    } else {
        lemma_sum_tlen_concat(a.drop_first(), b);
        assert((a + b).drop_first() =~= a.drop_first() + b);
    }
}

/// The whole sum bounds each element's total length from above.
pub proof fn lemma_sum_tlen_elem(s: Seq<NodeV>, i: int)
    requires
        0 <= i < s.len(),
    ensures
        sum_tlen(s) >= s[i].tlen,
    decreases s.len(),
{
    if i > 0 {
        lemma_sum_tlen_elem(s.drop_first(), i - 1);
    }
}

/// A prefix never out-sums the whole list.
pub proof fn lemma_sum_tlen_prefix(s: Seq<NodeV>, i: int)
    requires
        0 <= i <= s.len(),
    ensures
        sum_tlen(s) >= sum_tlen(s.take(i)),
    decreases s.len(),
{
    if i == 0 {
        assert(s.take(0) =~= Seq::<NodeV>::empty());
        assert(sum_tlen(Seq::<NodeV>::empty()) == 0);
    } else {
        lemma_sum_tlen_prefix(s.drop_first(), i - 1);
        assert(s.take(i)[0] == s[0]);
        assert(s.take(i).drop_first() =~= s.drop_first().take(i - 1));
    }
}

pub proof fn lemma_children_v_snoc(s: Seq<ChunkNode>, n: ChunkNode)
    ensures
        children_v(s.push(n)) == children_v(s).push(node_v(n)),
    decreases s,
{
    if s.len() == 0 {
        assert(s.push(n)[0] == n);
        assert(s.push(n).drop_first() =~= Seq::<ChunkNode>::empty());
        assert(children_v(Seq::<ChunkNode>::empty()) =~= Seq::<NodeV>::empty());
        assert(children_v(s.push(n)) =~= children_v(s).push(node_v(n)));
    } else {
        lemma_children_v_snoc(s.drop_first(), n);
        assert(s.push(n)[0] == s[0]);
        assert(s.push(n).drop_first() =~= s.drop_first().push(n));
        assert(seq![node_v(s[0])] + children_v(s.drop_first()).push(node_v(n)) =~= (seq![
            node_v(s[0]),
        ] + children_v(s.drop_first())).push(node_v(n)));
    }
}

pub proof fn lemma_ser_kids_concat(a: Seq<NodeV>, b: Seq<NodeV>)
    ensures
        ser_kids(a + b) == ser_kids(a) + ser_kids(b),
    decreases a.len(),
{
    if a.len() == 0 {
        assert(a + b =~= b);
        assert(ser_kids(a) + ser_kids(b) =~= ser_kids(b));
    } else {
        lemma_ser_kids_concat(a.drop_first(), b);
        assert((a + b).drop_first() =~= a.drop_first() + b);
        assert((a + b)[0] == a[0]);
        assert(ser_node(a[0]) + (ser_kids(a.drop_first()) + ser_kids(b)) =~= (ser_node(a[0])
            + ser_kids(a.drop_first())) + ser_kids(b));
    }
}

pub proof fn lemma_ser_kids_snoc(s: Seq<NodeV>, n: NodeV)
    ensures
        ser_kids(s.push(n)) == ser_kids(s) + ser_node(n),
{
    lemma_ser_kids_concat(s, seq![n]);
    assert(s.push(n) =~= s + seq![n]);
    assert(seq![n].drop_first() =~= Seq::<NodeV>::empty());
    assert(ser_node(n) + ser_kids(Seq::<NodeV>::empty()) =~= ser_node(n));
}

/// A serialized well-formed node occupies exactly its recorded total length.
pub proof fn lemma_ser_len(n: NodeV)
    requires
        wf_node(n),
    ensures
        ser_node(n).len() == n.tlen,
    decreases n, 0nat,
{
    lemma_ser_kids_len(n.tag, n.children);
}

pub proof fn lemma_ser_kids_len(p: ChunkTag, s: Seq<NodeV>)
    requires
        wf_kids(p, s) || s.len() == 0,
    ensures
        ser_kids(s).len() == sum_tlen(s),
    decreases s, 1nat,
{
    if s.len() > 0 {
        lemma_ser_len(s[0]);
        lemma_ser_kids_len(p, s.drop_first());
    }
}

} // verus!
