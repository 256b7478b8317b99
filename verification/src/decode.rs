//! Recursive-descent decoder: walks a byte buffer into a chunk tree, tolerant
//! of unknown tags, dropping a child whose framing is broken while keeping its
//! siblings, and bounding recursion depth.

use vstd::prelude::*;

use crate::DbError;
use crate::chunk::ChunkNode;
use crate::chunk::ChunkTag;
use crate::chunk::NodeV;
use crate::chunk::children_v;
use crate::chunk::fixed_len;
use crate::chunk::node_v;
use crate::chunk::spec_fixed_len;
use crate::chunk::tag_from_bytes;
use crate::chunk::tag_of;
use crate::cursor::ByteCursor;
use crate::cursor::u32_of_le;
use crate::cursor::u64_of_le;

verus! {

/// The 32-bit little-endian value at `pos`.
pub open spec fn peek_u32(b: Seq<u8>, pos: int) -> nat {
    u32_of_le(b[pos], b[pos + 1], b[pos + 2], b[pos + 3]) as nat
}

/// The 64-bit little-endian value at `pos`.
pub open spec fn peek_u64(b: Seq<u8>, pos: int) -> u64 {
    u64_of_le(b.subrange(pos, pos + 8)) as u64
}

/// The tag named by the four bytes at `pos`.
pub open spec fn peek_tag_at(b: Seq<u8>, pos: int) -> ChunkTag {
    tag_of(b[pos], b[pos + 1], b[pos + 2], b[pos + 3])
}

/// The fixed fields of a chunk at `pos`, read at the table's offsets.
pub open spec fn parse_fields(b: Seq<u8>, pos: int, t: ChunkTag) -> Seq<u64> {
    match t {
        ChunkTag::Root => seq![peek_u32(b, pos + 12) as u64, peek_u32(b, pos + 16) as u64],
        ChunkTag::Section => seq![peek_u32(b, pos + 12) as u64],
        ChunkTag::TrackList => seq![peek_u32(b, pos + 12) as u64],
        ChunkTag::PlaylistList => seq![peek_u32(b, pos + 12) as u64],
        ChunkTag::TrackRecord => seq![
            peek_u64(b, pos + 12),
            peek_u32(b, pos + 20) as u64,
            peek_u32(b, pos + 24) as u64,
            peek_u32(b, pos + 28) as u64,
            peek_u32(b, pos + 32) as u64,
            peek_u32(b, pos + 36) as u64,
            peek_u32(b, pos + 40) as u64,
            peek_u32(b, pos + 44) as u64,
            peek_u32(b, pos + 48) as u64,
            peek_u32(b, pos + 52) as u64,
            peek_u32(b, pos + 56) as u64,
        ],
        ChunkTag::DataObject => seq![
            peek_u32(b, pos + 12) as u64,
            peek_u32(b, pos + 16) as u64,
            peek_u32(b, pos + 20) as u64,
        ],
        ChunkTag::PlaylistHeader => seq![peek_u32(b, pos + 12) as u64, peek_u64(b, pos + 16)],
        ChunkTag::PlaylistItem => seq![peek_u64(b, pos + 12), peek_u32(b, pos + 20) as u64],
        ChunkTag::Unknown(..) => Seq::empty(),
    }
}

/// Outcome of parsing one chunk whose framing the caller validated: a node
/// with the count of dropped descendants, a localized rejection of this one
/// chunk, or a fatal error for the whole parse.
pub ghost enum NodeRes {
    Good { node: NodeV, failed: nat },
    Bad,
    Fatal { e: DbError },
}

/// Outcome of parsing the children filling a byte span.
pub ghost enum KidsRes {
    Good { nodes: Seq<NodeV>, failed: nat },
    Fatal { e: DbError },
}

/// Parses the chunk at `pos`; the caller has checked that, with `hlen` and
/// `tlen` the two length fields at `pos`, `12 <= hlen <= tlen` and the span of
/// `tlen` bytes lies inside the buffer.
pub open spec fn parse_node(b: Seq<u8>, pos: int, depth: nat) -> NodeRes
    decreases depth, 0int, 0nat,
{
    let t = peek_tag_at(b, pos);
    let hlen = peek_u32(b, pos + 4) as int;
    let tlen = peek_u32(b, pos + 8) as int;
    if t is Unknown {
        NodeRes::Good {
            node: NodeV {
                tag: t,
                hlen: hlen as nat,
                tlen: tlen as nat,
                fields: Seq::empty(),
                payload: b.subrange(pos + 12, pos + tlen),
                children: Seq::empty(),
            },
            failed: 0,
        }
    } else if hlen < spec_fixed_len(t) {
        NodeRes::Bad
    } else {
        let fields = parse_fields(b, pos, t);
        if t == ChunkTag::DataObject && !(24 + fields[1] <= hlen && (fields[2] == 0 || fields[2]
            == 1) && (fields[2] == 1 ==> fields[1] % 2 == 0)) {
            NodeRes::Bad
        } else {
            let payload = if t == ChunkTag::DataObject {
                b.subrange(pos + 24, pos + 24 + fields[1])
            } else {
                Seq::<u8>::empty()
            };
            if pos + hlen >= pos + tlen {
                NodeRes::Good {
                    node: NodeV {
                        tag: t,
                        hlen: hlen as nat,
                        tlen: tlen as nat,
                        fields,
                        payload,
                        children: Seq::empty(),
                    },
                    failed: 0,
                }
            } else if depth == 0 {
                NodeRes::Fatal { e: DbError::DepthExceeded }
            } else {
                match parse_kids(b, pos + hlen, pos + tlen, (depth - 1) as nat) {
                    KidsRes::Fatal { e } => NodeRes::Fatal { e },
                    KidsRes::Good { nodes, failed } => NodeRes::Good {
                        node: NodeV {
                            tag: t,
                            hlen: hlen as nat,
                            tlen: tlen as nat,
                            fields,
                            payload,
                            children: nodes,
                        },
                        failed,
                    },
                }
            }
        }
    }
}

/// Parses the sequence of sibling chunks filling `pos .. end`. A child whose
/// framing is broken ends the list and is counted as one dropped subtree; a
/// child rejected for its content is skipped over its declared length and
/// counted, and its siblings still parse.
pub open spec fn parse_kids(b: Seq<u8>, pos: int, end: int, depth: nat) -> KidsRes
    decreases depth, end - pos, 1nat,
{
    if pos >= end {
        KidsRes::Good { nodes: Seq::empty(), failed: 0 }
    } else if pos + 12 > end {
        KidsRes::Good { nodes: Seq::empty(), failed: 1 }
    } else {
        let hlen = peek_u32(b, pos + 4) as int;
        let tlen = peek_u32(b, pos + 8) as int;
        if !(12 <= hlen && hlen <= tlen && pos + tlen <= end) {
            KidsRes::Good { nodes: Seq::empty(), failed: 1 }
        } else {
            match parse_node(b, pos, depth) {
                NodeRes::Fatal { e } => KidsRes::Fatal { e },
                NodeRes::Bad => match parse_kids(b, pos + tlen, end, depth) {
                    KidsRes::Fatal { e } => KidsRes::Fatal { e },
                    KidsRes::Good { nodes, failed } => KidsRes::Good { nodes, failed: failed + 1 },
                },
                NodeRes::Good { node, failed } => match parse_kids(b, pos + tlen, end, depth) {
                    KidsRes::Fatal { e } => KidsRes::Fatal { e },
                    KidsRes::Good { nodes, failed: f2 } => KidsRes::Good {
                        nodes: seq![node] + nodes,
                        failed: failed + f2,
                    },
                },
            }
        }
    }
}

/// What decoding a whole buffer yields: the root node and the count of
/// dropped subtrees, or the fatal error.
pub open spec fn parse_root(b: Seq<u8>, depth: nat) -> Result<(NodeV, nat), DbError> {
    if b.len() < 12 {
        Err(DbError::OutOfBounds { offset: 0, requested: 12, buffer_len: b.len() as usize })
    } else {
        let t = peek_tag_at(b, 0);
        let hlen = peek_u32(b, 4) as int;
        let tlen = peek_u32(b, 8) as int;
        if t != ChunkTag::Root {
            Err(DbError::TagMismatch)
        } else if tlen > b.len() {
            Err(
                DbError::OutOfBounds {
                    offset: 0,
                    requested: tlen as usize,
                    buffer_len: b.len() as usize,
                },
            )
        } else if !(12 <= hlen && hlen <= tlen) {
            Err(DbError::LengthInvariant)
        } else {
            match parse_node(b, 0, depth) {
                NodeRes::Fatal { e } => Err(e),
                NodeRes::Bad => Err(DbError::LengthInvariant),
                NodeRes::Good { node, failed } => Ok((node, failed)),
            }
        }
    }
}

/// A dropped-subtree count never exceeds the width of the span it came from.
pub proof fn lemma_node_failed_bound(b: Seq<u8>, pos: int, depth: nat)
    ensures
        (match parse_node(b, pos, depth) {
            NodeRes::Good { failed, .. } => failed <= peek_u32(b, pos + 8),
            _ => true,
        }),
    decreases depth, 0int, 0nat,
{
    let hlen = peek_u32(b, pos + 4) as int;
    let tlen = peek_u32(b, pos + 8) as int;
    if !(peek_tag_at(b, pos) is Unknown) && hlen >= spec_fixed_len(peek_tag_at(b, pos)) && pos
        + hlen < pos + tlen && depth > 0 {
        lemma_kids_failed_bound(b, pos + hlen, pos + tlen, (depth - 1) as nat);
    }
}

pub proof fn lemma_kids_failed_bound(b: Seq<u8>, pos: int, end: int, depth: nat)
    requires
        pos <= end,
    ensures
        (match parse_kids(b, pos, end, depth) {
            KidsRes::Good { failed, .. } => failed <= end - pos,
            _ => true,
        }),
    decreases depth, end - pos, 1nat,
{
    if pos >= end || pos + 12 > end {
    } else {
        let hlen = peek_u32(b, pos + 4) as int;
        let tlen = peek_u32(b, pos + 8) as int;
        if 12 <= hlen && hlen <= tlen && pos + tlen <= end {
            lemma_node_failed_bound(b, pos, depth);
            lemma_kids_failed_bound(b, pos + tlen, end, depth);
        }
    }
}

/// Exec outcome mirroring `NodeRes`.
pub enum NodeOutcome {
    Good(ChunkNode, usize),
    Bad,
    Fatal(DbError),
}

/// Exec outcome mirroring `KidsRes`.
pub enum KidsOutcome {
    Good(Vec<ChunkNode>, usize),
    Fatal(DbError),
}

pub open spec fn node_matches(s: NodeRes, r: NodeOutcome) -> bool {
    match s {
        NodeRes::Good { node, failed } => match r {
            NodeOutcome::Good(n, f) => node_v(n) == node && f == failed,
            _ => false,
        },
        NodeRes::Bad => r is Bad,
        NodeRes::Fatal { e } => match r {
            NodeOutcome::Fatal(e2) => e2 == e,
            _ => false,
        },
    }
}

pub open spec fn kids_matches(s: KidsRes, r: KidsOutcome) -> bool {
    match s {
        KidsRes::Good { nodes, failed } => match r {
            KidsOutcome::Good(v, f) => children_v(v@) == nodes && f == failed,
            _ => false,
        },
        KidsRes::Fatal { e } => match r {
            KidsOutcome::Fatal(e2) => e2 == e,
            _ => false,
        },
    }
}

proof fn lemma_children_v_cons(n: ChunkNode, s: Seq<ChunkNode>)
    ensures
        children_v(seq![n] + s) == seq![node_v(n)] + children_v(s),
{
    let w = seq![n] + s;
    assert(w[0] == n);
    assert(w.drop_first() =~= s);
    assert(children_v(w) == seq![node_v(w[0])] + children_v(w.drop_first()));
}

/// Reads a chunk's framing: tag and the two length fields.
fn read_node_header(b: &[u8], pos: usize) -> (r: (ChunkTag, u32, u32))
    requires
        pos + 12 <= b@.len(),
    ensures
        r.0 == peek_tag_at(b@, pos as int),
        r.1 == peek_u32(b@, pos + 4),
        r.2 == peek_u32(b@, pos + 8),
{
    let blen = b.len();
    let mut cur = ByteCursor::new(b);
    let sr = cur.seek(pos);
    proof {
        assert(sr is Ok);
    }
    let (a, b0, c, d) = match cur.peek_tag() {
        Ok(t) => t,
        Err(_) => {
            proof {
                assert(false);
            }
            (0, 0, 0, 0)
        },
    };
    let tag = tag_from_bytes(a, b0, c, d);
    let sr2 = cur.seek(pos + 4);
    proof {
        assert(sr2 is Ok);
    }
    let hlen = match cur.read_u32() {
        Ok(v) => v,
        Err(_) => {
            proof {
                assert(false);
            }
            0
        },
    };
    let tlen = match cur.read_u32() {
        Ok(v) => v,
        Err(_) => {
            proof {
                assert(false);
            }
            0
        },
    };
    (tag, hlen, tlen)
}

/// Reads the fixed fields of a known tag at the table's offsets.
#[verifier::rlimit(60)]
fn read_fields(b: &[u8], pos: usize, t: &ChunkTag) -> (r: Vec<u64>)
    requires
        pos + spec_fixed_len(*t) <= b@.len(),
    ensures
        r@ == parse_fields(b@, pos as int, *t),
{
    let blen = b.len();
    proof {
        assert(spec_fixed_len(*t) >= 12);
    }
    let mut cur = ByteCursor::new(b);
    let sr = cur.seek(pos + 12);
    proof {
        assert(sr is Ok);
    }
    let mut out: Vec<u64> = Vec::new();
    match t {
        ChunkTag::Root => {
            out.push(read_one_u32(&mut cur) as u64);
            out.push(read_one_u32(&mut cur) as u64);
        },
        ChunkTag::Section | ChunkTag::TrackList | ChunkTag::PlaylistList => {
            out.push(read_one_u32(&mut cur) as u64);
        },
        ChunkTag::TrackRecord => {
            out.push(read_one_u64(&mut cur));
            let mut k: usize = 0;
            while k < 10
                invariant
                    k <= 10,
                    cur.wf(),
                    cur.buf@ == b@,
                    pos + 60 <= b@.len(),
                    cur.pos == pos + 20 + 4 * k,
                    out@.len() == 1 + k,
                    out@[0] == peek_u64(b@, pos + 12),
                    forall|j: int|
                        1 <= j < out@.len() ==> out@[j] == peek_u32(b@, pos + 16 + 4 * j) as u64,
                decreases 10 - k,
            {
                out.push(read_one_u32(&mut cur) as u64);
                k = k + 1;
            }
        },
        ChunkTag::DataObject => {
            out.push(read_one_u32(&mut cur) as u64);
            out.push(read_one_u32(&mut cur) as u64);
            out.push(read_one_u32(&mut cur) as u64);
        },
        ChunkTag::PlaylistHeader => {
            out.push(read_one_u32(&mut cur) as u64);
            out.push(read_one_u64(&mut cur));
        },
        ChunkTag::PlaylistItem => {
            out.push(read_one_u64(&mut cur));
            out.push(read_one_u32(&mut cur) as u64);
        },
        ChunkTag::Unknown(..) => {},
    }
    proof {
        assert(out@ =~= parse_fields(b@, pos as int, *t));
    }
    out
}

/// Reads one 32-bit field the caller knows to be in bounds.
fn read_one_u32(cur: &mut ByteCursor) -> (r: u32)
    requires
        old(cur).wf(),
        old(cur).can_read(4),
    ensures
        final(cur).buf@ == old(cur).buf@,
        final(cur).pos == old(cur).pos + 4,
        final(cur).wf(),
        r == peek_u32(old(cur).buf@, old(cur).pos as int),
{
    match cur.read_u32() {
        Ok(v) => v,
        Err(_) => {
            proof {
                assert(false);
            }
            0
        },
    }
}

/// Reads one 64-bit field the caller knows to be in bounds.
fn read_one_u64(cur: &mut ByteCursor) -> (r: u64)
    requires
        old(cur).wf(),
        old(cur).can_read(8),
    ensures
        final(cur).buf@ == old(cur).buf@,
        final(cur).pos == old(cur).pos + 8,
        final(cur).wf(),
        r == peek_u64(old(cur).buf@, old(cur).pos as int),
{
    match cur.read_u64() {
        Ok(v) => v,
        Err(_) => {
            proof {
                assert(false);
            }
            0
        },
    }
}

/// Reads the byte span `from .. from + n` as an owned copy.
fn read_span(b: &[u8], from: usize, n: usize) -> (r: Vec<u8>)
    requires
        from + n <= b@.len(),
    ensures
        r@ == b@.subrange(from as int, from + n),
{
    let mut cur = ByteCursor::new(b);
    let sr = cur.seek(from);
    proof {
        assert(sr is Ok);
    }
    match cur.read_fixed_bytes(n) {
        Ok(v) => v,
        Err(_) => {
            proof {
                assert(false);
            }
            Vec::new()
        },
    }
}

/// Decodes the chunk at `pos` whose framing the caller has validated.
fn decode_node(b: &[u8], pos: usize, depth: u32) -> (r: NodeOutcome)
    requires
        pos + 12 <= b@.len(),
        12 <= peek_u32(b@, pos + 4) <= peek_u32(b@, pos + 8),
        pos + peek_u32(b@, pos + 8) <= b@.len(),
    ensures
        node_matches(parse_node(b@, pos as int, depth as nat), r),
    decreases depth, 0int, 0nat,
{
    let blen = b.len();
    let (tag, hlen32, tlen32) = read_node_header(b, pos);
    let hlen = hlen32 as usize;
    let tlen = tlen32 as usize;
    if let ChunkTag::Unknown(..) = tag {
        let payload = read_span(b, pos + 12, tlen - 12);
        let node = ChunkNode {
            tag,
            header_length: hlen32,
            total_length: tlen32,
            fields: Vec::new(),
            payload,
            children: Vec::new(),
        };
        proof {
            assert(children_v(node.children@) =~= Seq::<NodeV>::empty());
            assert(node.fields@ =~= Seq::<u64>::empty());
        }
        return NodeOutcome::Good(node, 0);
    }
    if hlen < fixed_len(&tag) {
        return NodeOutcome::Bad;
    }
    let fields = read_fields(b, pos, &tag);
    let mut payload: Vec<u8> = Vec::new();
    if tag == ChunkTag::DataObject {
        let byte_len = fields[1];
        let enc = fields[2];
        if !(byte_len <= (hlen as u64) - 24 && (enc == 0 || enc == 1) && !(enc == 1 && byte_len % 2
            != 0)) {
            return NodeOutcome::Bad;
        }
        payload = read_span(b, pos + 24, byte_len as usize);
    }
    proof {
        if tag != ChunkTag::DataObject {
            assert(payload@ =~= Seq::<u8>::empty());
        }
    }
    let cpos = pos + hlen;
    let cend = pos + tlen;
    if cpos >= cend {
        let node = ChunkNode {
            tag,
            header_length: hlen32,
            total_length: tlen32,
            fields,
            payload,
            children: Vec::new(),
        };
        proof {
            assert(children_v(node.children@) =~= Seq::<NodeV>::empty());
        }
        return NodeOutcome::Good(node, 0);
    }
    if depth == 0 {
        return NodeOutcome::Fatal(DbError::DepthExceeded);
    }
    match decode_kids(b, cpos, cend, depth - 1) {
        KidsOutcome::Fatal(e) => NodeOutcome::Fatal(e),
        KidsOutcome::Good(kids, failed) => {
            let node = ChunkNode {
                tag,
                header_length: hlen32,
                total_length: tlen32,
                fields,
                payload,
                children: kids,
            };
            NodeOutcome::Good(node, failed)
        },
    }
}

/// Decodes the sibling chunks filling `pos .. end`.
fn decode_kids(b: &[u8], pos: usize, end: usize, depth: u32) -> (r: KidsOutcome)
    requires
        pos <= end <= b@.len(),
    ensures
        kids_matches(parse_kids(b@, pos as int, end as int, depth as nat), r),
    decreases depth, end - pos, 1int,
{
    let blen = b.len();
    if pos >= end {
        let v: Vec<ChunkNode> = Vec::new();
        proof {
            assert(children_v(v@) =~= Seq::<NodeV>::empty());
        }
        return KidsOutcome::Good(v, 0);
    }
    if end - pos < 12 {
        let v: Vec<ChunkNode> = Vec::new();
        proof {
            assert(children_v(v@) =~= Seq::<NodeV>::empty());
        }
        return KidsOutcome::Good(v, 1);
    }
    let (_tag, hlen32, tlen32) = read_node_header(b, pos);
    if !(12 <= hlen32 && hlen32 <= tlen32 && tlen32 as usize <= end - pos) {
        let v: Vec<ChunkNode> = Vec::new();
        proof {
            assert(children_v(v@) =~= Seq::<NodeV>::empty());
        }
        return KidsOutcome::Good(v, 1);
    }
    let tlen = tlen32 as usize;
    match decode_node(b, pos, depth) {
        NodeOutcome::Fatal(e) => KidsOutcome::Fatal(e),
        NodeOutcome::Bad => {
            proof {
                lemma_kids_failed_bound(b@, pos + tlen, end as int, depth as nat);
            }
            match decode_kids(b, pos + tlen, end, depth) {
                KidsOutcome::Fatal(e) => KidsOutcome::Fatal(e),
                KidsOutcome::Good(nodes, failed) => KidsOutcome::Good(nodes, failed + 1),
            }
        },
        NodeOutcome::Good(node, f) => {
            proof {
                lemma_node_failed_bound(b@, pos as int, depth as nat);
                lemma_kids_failed_bound(b@, pos + tlen, end as int, depth as nat);
            }
            match decode_kids(b, pos + tlen, end, depth) {
                KidsOutcome::Fatal(e) => KidsOutcome::Fatal(e),
                KidsOutcome::Good(nodes, f2) => {
                    let mut out: Vec<ChunkNode> = Vec::new();
                    out.push(node);
                    let mut rest = nodes;
                    out.append(&mut rest);
                    proof {
                        let ghost n0 = out@[0];
                        assert(out@ =~= seq![n0] + out@.drop_first());
                        lemma_children_v_cons(n0, out@.drop_first());
                        assert(out@.drop_first() =~= nodes@);
                    }
                    KidsOutcome::Good(out, f + f2)
                },
            }
        },
    }
}

/// A decoded tree with the number of subtrees that had to be dropped.
#[derive(Debug)]
pub struct DecodeOutcome {
    pub root: ChunkNode,
    pub failed_subtrees: usize,
}

/// The default bound on chunk nesting depth.
pub const DEFAULT_MAX_DEPTH: u32 = 32;

/// Decodes a whole buffer into a chunk tree, with an explicit bound on
/// recursion depth. The outcome and every error are exactly those of
/// `parse_root` on the buffer's bytes.
pub fn decode_with_depth(bytes: &[u8], max_depth: u32) -> (r: Result<DecodeOutcome, DbError>)
    ensures
        match parse_root(bytes@, max_depth as nat) {
            Ok((node, failed)) => match r {
                Ok(d) => d.root@ == node && d.failed_subtrees == failed,
                Err(_) => false,
            },
            Err(e) => r == Err::<DecodeOutcome, DbError>(e),
        },
{
    let blen = bytes.len();
    if blen < 12 {
        return Err(DbError::OutOfBounds { offset: 0, requested: 12, buffer_len: blen });
    }
    let (tag, hlen32, tlen32) = read_node_header(bytes, 0);
    if tag != ChunkTag::Root {
        return Err(DbError::TagMismatch);
    }
    if tlen32 as usize > blen {
        return Err(
            DbError::OutOfBounds { offset: 0, requested: tlen32 as usize, buffer_len: blen },
        );
    }
    if !(12 <= hlen32 && hlen32 <= tlen32) {
        return Err(DbError::LengthInvariant);
    }
    match decode_node(bytes, 0, max_depth) {
        NodeOutcome::Fatal(e) => Err(e),
        NodeOutcome::Bad => Err(DbError::LengthInvariant),
        NodeOutcome::Good(node, failed) => Ok(DecodeOutcome { root: node, failed_subtrees: failed }),
    }
}

/// Decodes a whole buffer with the default depth bound.
pub fn decode(bytes: &[u8]) -> (r: Result<DecodeOutcome, DbError>)
    ensures
        match parse_root(bytes@, DEFAULT_MAX_DEPTH as nat) {
            Ok((node, failed)) => match r {
                Ok(d) => d.root@ == node && d.failed_subtrees == failed,
                Err(_) => false,
            },
            Err(e) => r == Err::<DecodeOutcome, DbError>(e),
        },
{
    decode_with_depth(bytes, DEFAULT_MAX_DEPTH)
}

} // verus!
