//! What the `.vec` format promises across saving and loading: a saved
//! model loads back as itself, chunks of unknown tags are skipped, and a
//! file cut short inside its last chunk is rejected.

use vstd::prelude::*;

use crate::codec::{
    apply_chunk, chunk_bytes, decode_items, encode_file, encode_items, finish, items_payload,
    lemma_le32, lemma_vec3_roundtrip, parse_chunks, parse_file, parse_items, u32_at, vec3_bytes,
    VecItem, MAX_COUNT, TAG_AABB, TAG_EDGE, TAG_OCCL, TAG_PALT, TAG_VERT, VEC_MAGIC, VEC_VERSION,
    le32,
};
use crate::model::{
    empty_model, kind_in_range, lemma_valid_model_drawable, validation_error, EdgeKind, Vec3Bits,
    VecEdge, VecError, VecModelView,
};

verus! {

/// The counts of a model that the format can store: each list within the
/// corrupt-file guard.
pub open spec fn storable(m: VecModelView) -> bool {
    &&& m.palette.len() <= MAX_COUNT
    &&& m.vertices.len() <= MAX_COUNT
    &&& m.edges.len() <= MAX_COUNT
    &&& m.occluder_indices.len() <= MAX_COUNT
}

/// Whether a tag is none of the five the format knows.
pub open spec fn unknown_tag(tag: Seq<u8>) -> bool {
    &&& tag.len() == 4
    &&& tag != TAG_PALT@
    &&& tag != TAG_VERT@
    &&& tag != TAG_EDGE@
    &&& tag != TAG_OCCL@
    &&& tag != TAG_AABB@
}

proof fn lemma_subrange_left(x: Seq<u8>, y: Seq<u8>, i: int, j: int)
    requires
        0 <= i <= j <= x.len(),
    ensures
        (x + y).subrange(i, j) == x.subrange(i, j),
{
    assert((x + y).subrange(i, j) =~= x.subrange(i, j));
}

proof fn lemma_subrange_right(x: Seq<u8>, y: Seq<u8>)
    ensures
        (x + y).subrange(x.len() as int, (x.len() + y.len()) as int) == y,
{
    assert((x + y).subrange(x.len() as int, (x.len() + y.len()) as int) =~= y);
}

/// The bytes of a sequence of items are as long as the items times the
/// item size, and decode back to the items.
proof fn lemma_items_roundtrip<T: VecItem>(s: Seq<T>)
    ensures
        encode_items(s).len() == s.len() * T::item_len(),
        decode_items::<T>(encode_items(s), s.len()) == Ok::<Seq<T>, VecError>(s),
    decreases s.len(),
{
    if s.len() == 0 {
        assert(encode_items(s) =~= Seq::<u8>::empty());
        assert(s =~= Seq::<T>::empty());
    } else {
        let rest = s.drop_first();
        lemma_items_roundtrip(rest);
        s[0].lemma_item_roundtrip();
        let enc = encode_items(s);
        let len = T::item_len() as int;
        assert(enc == s[0].encode() + encode_items(rest));
        assert(enc.take(len) =~= s[0].encode());
        assert(enc.skip(len) =~= encode_items(rest));
        assert(seq![s[0]] + rest =~= s);
        assert(decode_items::<T>(enc, s.len()) == Ok::<Seq<T>, VecError>(seq![s[0]] + rest));
        assert(enc.len() == len + rest.len() * len);
        assert(s.len() * len == len + rest.len() * len) by (nonlinear_arith)
            requires
                s.len() == rest.len() + 1,
        ;
    }
}

/// An item-list chunk written for `s` reads back as `s`.
proof fn lemma_parse_items_roundtrip<T: VecItem>(s: Seq<T>)
    requires
        s.len() <= MAX_COUNT,
        1 <= T::item_len() <= 40,
    ensures
        items_payload(s).len() == 4 + s.len() * T::item_len(),
        parse_items::<T>(items_payload(s)) == Ok::<Seq<T>, VecError>(s),
{
    lemma_items_roundtrip(s);
    lemma_le32(s.len() as u32);
    let p = items_payload(s);
    assert(p.subrange(0, 4) =~= le32(s.len() as u32));
    assert(le32(s.len() as u32).subrange(0, 4) =~= le32(s.len() as u32));
    assert(u32_at(p, 0) == s.len());
    assert(p.skip(4) =~= encode_items(s));
}

/// A well-formed chunk at `pos` is parsed as that chunk, then the rest.
proof fn lemma_chunk_step(
    bytes: Seq<u8>,
    pos: int,
    m: VecModelView,
    tag: Seq<u8>,
    payload: Seq<u8>,
)
    requires
        tag.len() == 4,
        payload.len() <= u32::MAX,
        0 <= pos,
        pos + 8 + payload.len() <= bytes.len(),
        bytes.subrange(pos, pos + 8 + payload.len()) == chunk_bytes(
            tag,
            payload.len() as u32,
            payload,
        ),
    ensures
        parse_chunks(bytes, pos, m) == match apply_chunk(m, tag, payload) {
            Ok(next) => parse_chunks(bytes, pos + 8 + payload.len(), next),
            Err(e) => Err(e),
        },
{
    let c = chunk_bytes(tag, payload.len() as u32, payload);
    let field = le32(payload.len() as u32);
    lemma_le32(payload.len() as u32);
    assert(bytes.subrange(pos + 4, pos + 8) =~= c.subrange(4, 8));
    assert(c.subrange(4, 8) =~= field);
    assert(field.subrange(0, 4) =~= field);
    assert(u32_at(bytes, pos + 4) == payload.len());
    assert(bytes.subrange(pos, pos + 4) =~= tag);
    assert(c.subrange(8, 8 + payload.len() as int) =~= payload);
    assert(bytes.subrange(pos + 8, pos + 8 + payload.len()) =~= c.subrange(
        8,
        8 + payload.len() as int,
    ));
}

/// Where each chunk of a saved model starts.
pub open spec fn vert_start(m: VecModelView) -> int {
    (8 + 8 + 4 + m.palette.len() * 12) as int
}

pub open spec fn edge_start(m: VecModelView) -> int {
    vert_start(m) + 8 + 4 + m.vertices.len() * 12
}

pub open spec fn occl_start(m: VecModelView) -> int {
    edge_start(m) + 8 + 4 + m.edges.len() * 40
}

pub open spec fn aabb_start(m: VecModelView) -> int {
    occl_start(m) + 8 + 4 + m.occluder_indices.len() * 4
}

/// How long a saved model is, and where its bounds chunk starts.
proof fn lemma_encode_len(m: VecModelView)
    requires
        storable(m),
    ensures
        encode_file(m).len() == aabb_start(m) + 32,
        aabb_start(m) >= 8 + 4 * 12,
{
    vstd::bytes::lemma_auto_spec_u32_to_from_le_bytes();
    lemma_parse_items_roundtrip(m.palette);
    lemma_parse_items_roundtrip(m.vertices);
    lemma_parse_items_roundtrip(m.edges);
    lemma_parse_items_roundtrip(m.occluder_indices);
    lemma_vec3_roundtrip(m.aabb_min, Seq::empty(), Seq::empty());
    lemma_vec3_roundtrip(m.aabb_max, Seq::empty(), Seq::empty());
}

/// `m` with its bounds still at the origin: what the four list chunks
/// leave behind.
pub open spec fn without_bounds(m: VecModelView) -> VecModelView {
    VecModelView {
        aabb_min: Vec3Bits::spec_zero(),
        aabb_max: Vec3Bits::spec_zero(),
        ..m
    }
}

/// Bytes that agree with a saved model up to its bounds chunk parse, up to
/// there, into the model's four lists.
proof fn lemma_list_chunks(m: VecModelView, t: Seq<u8>)
    requires
        storable(m),
        aabb_start(m) <= t.len(),
        t.take(aabb_start(m)) == encode_file(m).take(aabb_start(m)),
    ensures
        aabb_start(m) + 32 == encode_file(m).len(),
        encode_file(m).subrange(aabb_start(m), aabb_start(m) + 32) == chunk_bytes(
            TAG_AABB@,
            24,
            vec3_bytes(m.aabb_min) + vec3_bytes(m.aabb_max),
        ),
        parse_chunks(t, 8, empty_model()) == parse_chunks(t, aabb_start(m), without_bounds(m)),
{
    vstd::bytes::lemma_auto_spec_u32_to_from_le_bytes();
    lemma_encode_len(m);
    lemma_parse_items_roundtrip(m.palette);
    lemma_parse_items_roundtrip(m.vertices);
    lemma_parse_items_roundtrip(m.edges);
    lemma_parse_items_roundtrip(m.occluder_indices);
    lemma_le32(VEC_VERSION);
    lemma_vec3_roundtrip(m.aabb_min, Seq::empty(), Seq::empty());
    lemma_vec3_roundtrip(m.aabb_max, Seq::empty(), Seq::empty());
    let head = VEC_MAGIC@ + le32(VEC_VERSION);
    let c1 = chunk_bytes(TAG_PALT@, (4 + m.palette.len() * 12) as u32, items_payload(m.palette));
    let c2 = chunk_bytes(
        TAG_VERT@,
        (4 + m.vertices.len() * 12) as u32,
        items_payload(m.vertices),
    );
    let c3 = chunk_bytes(TAG_EDGE@, (4 + m.edges.len() * 40) as u32, items_payload(m.edges));
    let c4 = chunk_bytes(
        TAG_OCCL@,
        (4 + m.occluder_indices.len() * 4) as u32,
        items_payload(m.occluder_indices),
    );
    let c5 = chunk_bytes(TAG_AABB@, 24, vec3_bytes(m.aabb_min) + vec3_bytes(m.aabb_max));
    let a1 = head + c1;
    let a2 = a1 + c2;
    let a3 = a2 + c3;
    let a4 = a3 + c4;
    let b = encode_file(m);
    assert(b == a4 + c5);
    assert(head.len() == 8);
    assert(a1.len() == vert_start(m));
    assert(a2.len() == edge_start(m));
    assert(a3.len() == occl_start(m));
    assert(a4.len() == aabb_start(m));
    assert(c5.len() == 32);
    lemma_subrange_right(a4, c5);
    // every list chunk lies in the agreed prefix
    let p = aabb_start(m);
    assert forall|i: int, j: int| 0 <= i <= j <= p implies #[trigger] t.subrange(i, j)
        == a4.subrange(i, j) by {
        assert(t.subrange(i, j) =~= t.take(p).subrange(i, j));
        assert(b.take(p).subrange(i, j) =~= b.subrange(i, j));
        lemma_subrange_left(a4, c5, i, j);
    }
    // chunk 1
    lemma_subrange_left(a1, c2 + c3 + c4, 8, vert_start(m));
    assert(a4 =~= a1 + (c2 + c3 + c4));
    lemma_subrange_right(head, c1);
    assert(t.subrange(8, vert_start(m)) == c1);
    lemma_chunk_step(t, 8, empty_model(), TAG_PALT@, items_payload(m.palette));
    let m1 = VecModelView { palette: m.palette, ..empty_model() };
    // chunk 2
    assert(a4 =~= a2 + (c3 + c4));
    lemma_subrange_left(a2, c3 + c4, vert_start(m), edge_start(m));
    lemma_subrange_right(a1, c2);
    assert(t.subrange(vert_start(m), edge_start(m)) == c2);
    lemma_chunk_step(t, vert_start(m), m1, TAG_VERT@, items_payload(m.vertices));
    let m2 = VecModelView { vertices: m.vertices, ..m1 };
    // chunk 3
    assert(a4 =~= a3 + c4);
    lemma_subrange_left(a3, c4, edge_start(m), occl_start(m));
    lemma_subrange_right(a2, c3);
    assert(t.subrange(edge_start(m), occl_start(m)) == c3);
    lemma_chunk_step(t, edge_start(m), m2, TAG_EDGE@, items_payload(m.edges));
    let m3 = VecModelView { edges: m.edges, ..m2 };
    // chunk 4
    lemma_subrange_right(a3, c4);
    assert(t.subrange(occl_start(m), aabb_start(m)) == c4);
    lemma_chunk_step(t, occl_start(m), m3, TAG_OCCL@, items_payload(m.occluder_indices));
    let m4 = VecModelView { occluder_indices: m.occluder_indices, ..m3 };
    assert(m4 == without_bounds(m));
}

/// A file in which a list is followed by the bytes after it still reads
/// the header the same way.
proof fn lemma_header(m: VecModelView, t: Seq<u8>)
    requires
        storable(m),
        aabb_start(m) <= t.len(),
        t.take(aabb_start(m)) == encode_file(m).take(aabb_start(m)),
    ensures
        parse_file(t) == finish(parse_chunks(t, 8, empty_model())),
{
    lemma_le32(VEC_VERSION);
    vstd::bytes::lemma_auto_spec_u32_to_from_le_bytes();
    lemma_encode_len(m);
    let b = encode_file(m);
    assert(t.take(4) =~= t.take(aabb_start(m)).take(4));
    assert(b.take(4) =~= b.take(aabb_start(m)).take(4));
    assert(b.take(4) =~= VEC_MAGIC@);
    assert(t.subrange(4, 8) =~= t.take(aabb_start(m)).subrange(4, 8));
    assert(b.subrange(4, 8) =~= b.take(aabb_start(m)).subrange(4, 8));
    assert(b.subrange(4, 8) =~= le32(VEC_VERSION));
    assert(le32(VEC_VERSION).subrange(0, 4) =~= le32(VEC_VERSION));
    assert(u32_at(t, 4) == VEC_VERSION);
}

/// A saved model loads back as itself: for every model whose lists fit the
/// format's count limit and whose indices are valid, parsing the bytes
/// that saving produces gives back that model.
pub proof fn lemma_save_load_roundtrip(m: VecModelView)
    requires
        storable(m),
        validation_error(m) is None,
    ensures
        parse_file(encode_file(m)) == Ok::<VecModelView, VecError>(m),
{
    let b = encode_file(m);
    lemma_encode_len(m);
    lemma_list_chunks(m, b);
    lemma_header(m, b);
    lemma_vec3_roundtrip(m.aabb_min, Seq::empty(), vec3_bytes(m.aabb_max));
    lemma_vec3_roundtrip(m.aabb_max, vec3_bytes(m.aabb_min), Seq::empty());
    let bounds = vec3_bytes(m.aabb_min) + vec3_bytes(m.aabb_max);
    assert(bounds =~= Seq::<u8>::empty() + vec3_bytes(m.aabb_min) + vec3_bytes(m.aabb_max));
    assert(bounds =~= vec3_bytes(m.aabb_min) + vec3_bytes(m.aabb_max) + Seq::<u8>::empty());
    lemma_chunk_step(b, aabb_start(m), without_bounds(m), TAG_AABB@, bounds);
    assert(apply_chunk(without_bounds(m), TAG_AABB@, bounds) == Ok::<VecModelView, VecError>(m));
}

/// Chunks that parse within `b` parse the same way when more bytes follow.
proof fn lemma_parse_chunks_extend(b: Seq<u8>, c: Seq<u8>, pos: int, acc: VecModelView)
    requires
        0 <= pos <= b.len(),
        parse_chunks(b, pos, acc) is Ok,
    ensures
        parse_chunks(b + c, pos, acc) == parse_chunks(
            b + c,
            b.len() as int,
            parse_chunks(b, pos, acc)->Ok_0,
        ),
    decreases b.len() - pos,
{
    if pos < b.len() {
        let len = u32_at(b, pos + 4);
        let end = pos + 8 + len;
        lemma_subrange_left(b, c, pos + 4, pos + 8);
        lemma_subrange_left(b, c, pos, pos + 4);
        lemma_subrange_left(b, c, pos + 8, end);
        let next = apply_chunk(acc, b.subrange(pos, pos + 4), b.subrange(pos + 8, end))->Ok_0;
        lemma_parse_chunks_extend(b, c, end, next);
    }
}

/// Chunks of unknown tags are skipped: appending one (its length field
/// true) to a file that loads leaves what it loads as unchanged.
pub proof fn lemma_unknown_chunk_skipped(b: Seq<u8>, tag: Seq<u8>, payload: Seq<u8>)
    requires
        parse_file(b) is Ok,
        unknown_tag(tag),
        payload.len() <= u32::MAX,
    ensures
        parse_file(b + chunk_bytes(tag, payload.len() as u32, payload)) == parse_file(b),
{
    let c = chunk_bytes(tag, payload.len() as u32, payload);
    let t = b + c;
    lemma_le32(payload.len() as u32);
    lemma_parse_chunks_extend(b, c, 8, empty_model());
    let r = parse_chunks(b, 8, empty_model())->Ok_0;
    lemma_subrange_right(b, c);
    lemma_chunk_step(t, b.len() as int, r, tag, payload);
    assert(t.len() == b.len() + 8 + payload.len());
    lemma_subrange_left(b, c, 0, 4);
    lemma_subrange_left(b, c, 4, 8);
    assert(t.take(4) =~= t.subrange(0, 4));
    assert(b.take(4) =~= b.subrange(0, 4));
}

/// A saved file cut short inside its last chunk (by 1 to 31 bytes) is
/// rejected as ending unexpectedly.
pub proof fn lemma_truncated_file_rejected(m: VecModelView, k: int)
    requires
        storable(m),
        1 <= k <= 31,
    ensures
        parse_file(encode_file(m).take(encode_file(m).len() - k)) == Err::<VecModelView, VecError>(
            VecError::UnexpectedEnd,
        ),
{
    let b = encode_file(m);
    vstd::bytes::lemma_auto_spec_u32_to_from_le_bytes();
    lemma_encode_len(m);
    lemma_list_chunks(m, b);
    let t = b.take(b.len() - k);
    assert(t.take(aabb_start(m)) =~= b.take(aabb_start(m)));
    lemma_list_chunks(m, t);
    lemma_header(m, t);
    let p = aabb_start(m);
    if t.len() - p >= 8 {
        assert(t.subrange(p + 4, p + 8) =~= b.subrange(p + 4, p + 8));
        let c5 = chunk_bytes(TAG_AABB@, 24, vec3_bytes(m.aabb_min) + vec3_bytes(m.aabb_max));
        assert(b.subrange(p + 4, p + 8) =~= c5.subrange(4, 8));
        assert(c5.subrange(4, 8) =~= le32(24));
        lemma_le32(24);
        assert(le32(24).subrange(0, 4) =~= le32(24));
        assert(u32_at(t, p + 4) == 24);
    }
}


/// Decoding `count` items yields exactly `count` items.
proof fn lemma_decode_items_len<T: VecItem>(data: Seq<u8>, count: nat)
    requires
        decode_items::<T>(data, count) is Ok,
    ensures
        decode_items::<T>(data, count)->Ok_0.len() == count,
    decreases count,
{
    if count > 0 {
        lemma_decode_items_len::<T>(data.skip(T::item_len() as int), (count - 1) as nat);
    }
}

proof fn lemma_parse_items_len<T: VecItem>(chunk: Seq<u8>)
    requires
        parse_items::<T>(chunk) is Ok,
    ensures
        parse_items::<T>(chunk)->Ok_0.len() <= MAX_COUNT,
{
    lemma_decode_items_len::<T>(chunk.skip(4), u32_at(chunk, 0) as nat);
}

/// Parsing chunks keeps every list within the count limit.
proof fn lemma_parse_chunks_storable(bytes: Seq<u8>, pos: int, m: VecModelView)
    requires
        storable(m),
        parse_chunks(bytes, pos, m) is Ok,
    ensures
        storable(parse_chunks(bytes, pos, m)->Ok_0),
    decreases bytes.len() - pos,
{
    if 0 <= pos < bytes.len() {
        let end = pos + 8 + u32_at(bytes, pos + 4);
        let tag = bytes.subrange(pos, pos + 4);
        let chunk = bytes.subrange(pos + 8, end);
        if tag == TAG_PALT@ || tag == TAG_VERT@ {
            lemma_parse_items_len::<Vec3Bits>(chunk);
        } else if tag == TAG_EDGE@ {
            lemma_parse_items_len::<VecEdge>(chunk);
        } else if tag == TAG_OCCL@ {
            lemma_parse_items_len::<u32>(chunk);
        }
        let next = apply_chunk(m, tag, chunk)->Ok_0;
        lemma_parse_chunks_storable(bytes, end, next);
    }
}

/// Whatever a file loads as is a valid model within the count limits: it
/// can be drawn (every edge of either kind names existing vertices), and
/// it can be saved again, which loads back as the same model.
pub proof fn lemma_loaded_model_drawable_and_savable(bytes: Seq<u8>)
    requires
        parse_file(bytes) is Ok,
    ensures
        storable(parse_file(bytes)->Ok_0),
        validation_error(parse_file(bytes)->Ok_0) is None,
        kind_in_range(parse_file(bytes)->Ok_0, EdgeKind::Always),
        kind_in_range(parse_file(bytes)->Ok_0, EdgeKind::Smooth),
        parse_file(encode_file(parse_file(bytes)->Ok_0)) == parse_file(bytes),
{
    lemma_parse_chunks_storable(bytes, 8, empty_model());
    let m = parse_file(bytes)->Ok_0;
    lemma_valid_model_drawable(m, EdgeKind::Always);
    lemma_valid_model_drawable(m, EdgeKind::Smooth);
    lemma_save_load_roundtrip(m);
}

} // verus!
