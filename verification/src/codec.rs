//! The `.vec` binary format (little-endian):
//!
//! ```text
//! "VEC1" magic, u32 version
//! chunks: [u8;4] tag, u32 byte_len, payload   (unknown tags are skipped)
//!   PALT  u32 count, count × 3×f32 linear RGB
//!   VERT  u32 count, count × 3×f32 positions
//!   EDGE  u32 count, count × { u32 a, u32 b, u8 palette, u8 kind, u8 style,
//!                              u8 pad, f32 intensity, 3×f32 n1, 3×f32 n2 }
//!         style bitflags: 1 = dashed, 2 = flicker (0 in pre-style files)
//!   OCCL  u32 count, count × u32 triangle indices into VERT
//!   AABB  6 × f32 (min, max)
//! ```
//!
//! `parse_file` is the meaning of a byte string, `encode_file` the bytes a
//! model is written as; `VecModel::load_from` and `VecModel::save_to`
//! compute them.

use vstd::bytes::{
    spec_u32_from_le_bytes, spec_u32_to_le_bytes, u32_from_le_bytes, u32_to_le_bytes,
};
use vstd::prelude::*;

use crate::model::{
    empty_model, invalid, validation_error, EdgeKind, Vec3Bits, VecEdge, VecError, VecModel,
    VecModelView,
};

verus! {

pub const VEC_MAGIC: [u8; 4] = [0x56u8, 0x45u8, 0x43u8, 0x31u8];

pub const VEC_VERSION: u32 = 1;

/// Refuse to allocate for counts beyond this when reading (corrupt files).
pub const MAX_COUNT: u32 = 64_000_000;

/// Bytes of one stored edge.
pub const EDGE_BYTES: usize = 40;

pub const TAG_PALT: [u8; 4] = [0x50u8, 0x41u8, 0x4Cu8, 0x54u8];

pub const TAG_VERT: [u8; 4] = [0x56u8, 0x45u8, 0x52u8, 0x54u8];

pub const TAG_EDGE: [u8; 4] = [0x45u8, 0x44u8, 0x47u8, 0x45u8];

pub const TAG_OCCL: [u8; 4] = [0x4Fu8, 0x43u8, 0x43u8, 0x4Cu8];

pub const TAG_AABB: [u8; 4] = [0x41u8, 0x41u8, 0x42u8, 0x42u8];

/// Little-endian bytes of a `u32`.
pub open spec fn le32(x: u32) -> Seq<u8> {
    spec_u32_to_le_bytes(x)
}

/// The `u32` stored little-endian at `i`.
pub open spec fn u32_at(s: Seq<u8>, i: int) -> u32 {
    spec_u32_from_le_bytes(s.subrange(i, i + 4))
}

/// The three components stored at `i`.
pub open spec fn vec3_at(s: Seq<u8>, i: int) -> Vec3Bits {
    Vec3Bits { x: u32_at(s, i), y: u32_at(s, i + 4), z: u32_at(s, i + 8) }
}

pub open spec fn vec3_bytes(v: Vec3Bits) -> Seq<u8> {
    le32(v.x) + le32(v.y) + le32(v.z)
}

pub proof fn lemma_le32(x: u32)
    ensures
        le32(x).len() == 4,
        u32_at(le32(x), 0) == x,
{
    vstd::bytes::lemma_auto_spec_u32_to_from_le_bytes();
    assert(le32(x).subrange(0, 4) =~= le32(x));
}

/// A value that the format stores in a fixed number of bytes.
pub trait VecItem: Sized {
    /// Bytes per stored item.
    spec fn item_len() -> nat;

    /// The item that `bytes` (exactly `item_len` long) holds.
    spec fn decode(bytes: Seq<u8>) -> Result<Self, VecError>;

    /// The bytes the item is stored as.
    spec fn encode(self) -> Seq<u8>;

    fn item_bytes() -> (n: usize)
        ensures
            n == Self::item_len(),
            1 <= n <= EDGE_BYTES,
    ;

    /// Read one item; the cursor advances past it when it is accepted.
    fn read(cursor: &mut Cursor) -> (r: Result<Self, VecError>)
        requires
            old(cursor).wf(),
            old(cursor).bytes@.len() - old(cursor).offset >= Self::item_len(),
        ensures
            final(cursor).wf(),
            final(cursor).bytes@ == old(cursor).bytes@,
            r == Self::decode(
                old(cursor).bytes@.subrange(
                    old(cursor).offset as int,
                    old(cursor).offset + Self::item_len(),
                ),
            ),
            r is Ok ==> final(cursor).offset == old(cursor).offset + Self::item_len(),
            r is Err ==> old(cursor).offset <= final(cursor).offset <= old(cursor).offset
                + Self::item_len(),
    ;

    /// Append the item's bytes.
    fn write(&self, w: &mut Vec<u8>)
        ensures
            final(w)@ == old(w)@ + self.encode(),
    ;

    /// Stored items come back unchanged.
    proof fn lemma_item_roundtrip(self)
        ensures
            self.encode().len() == Self::item_len(),
            Self::decode(self.encode()) == Ok::<Self, VecError>(self),
    ;
}

/// `count` items decoded from the front of `data`; the first item that
/// does not decode is the error.
pub open spec fn decode_items<T: VecItem>(data: Seq<u8>, count: nat) -> Result<Seq<T>, VecError>
    decreases count,
{
    if count == 0 {
        Ok(Seq::empty())
    } else {
        match T::decode(data.take(T::item_len() as int)) {
            Err(e) => Err(e),
            Ok(x) => match decode_items::<T>(data.skip(T::item_len() as int), (count - 1) as nat) {
                Ok(rest) => Ok(seq![x] + rest),
                Err(e) => Err(e),
            },
        }
    }
}

/// The bytes of a sequence of items, one after another.
pub open spec fn encode_items<T: VecItem>(items: Seq<T>) -> Seq<u8>
    decreases items.len(),
{
    if items.len() == 0 {
        Seq::empty()
    } else {
        items[0].encode() + encode_items(items.drop_first())
    }
}

/// An item-list chunk: a count, the corrupt-file guard, an exact length
/// check, then the items.
pub open spec fn parse_items<T: VecItem>(chunk: Seq<u8>) -> Result<Seq<T>, VecError> {
    if chunk.len() < 4 {
        Err(VecError::UnexpectedEnd)
    } else if u32_at(chunk, 0) > MAX_COUNT {
        Err(VecError::CountTooLarge(u32_at(chunk, 0)))
    } else if chunk.len() - 4 != u32_at(chunk, 0) * T::item_len() {
        Err(VecError::ChunkLengthMismatch)
    } else {
        decode_items::<T>(chunk.skip(4), u32_at(chunk, 0) as nat)
    }
}

/// A model with one field replaced by what a known chunk holds; unknown
/// tags leave the model as it is.
pub open spec fn apply_chunk(m: VecModelView, tag: Seq<u8>, chunk: Seq<u8>) -> Result<
    VecModelView,
    VecError,
> {
    if tag == TAG_PALT@ {
        match parse_items::<Vec3Bits>(chunk) {
            Ok(p) => Ok(VecModelView { palette: p, ..m }),
            Err(e) => Err(e),
        }
    } else if tag == TAG_VERT@ {
        match parse_items::<Vec3Bits>(chunk) {
            Ok(v) => Ok(VecModelView { vertices: v, ..m }),
            Err(e) => Err(e),
        }
    } else if tag == TAG_EDGE@ {
        match parse_items::<VecEdge>(chunk) {
            Ok(e) => Ok(VecModelView { edges: e, ..m }),
            Err(e) => Err(e),
        }
    } else if tag == TAG_OCCL@ {
        match parse_items::<u32>(chunk) {
            Ok(o) => Ok(VecModelView { occluder_indices: o, ..m }),
            Err(e) => Err(e),
        }
    } else if tag == TAG_AABB@ {
        if chunk.len() < 24 {
            Err(VecError::UnexpectedEnd)
        } else {
            Ok(VecModelView { aabb_min: vec3_at(chunk, 0), aabb_max: vec3_at(chunk, 12), ..m })
        }
    } else {
        Ok(m)
    }
}

/// The chunks of `bytes` from `pos` on, applied in order to `m`.
pub open spec fn parse_chunks(bytes: Seq<u8>, pos: int, m: VecModelView) -> Result<
    VecModelView,
    VecError,
>
    decreases bytes.len() - pos,
{
    if pos < 0 || pos >= bytes.len() {
        Ok(m)
    } else if bytes.len() - pos < 8 {
        Err(VecError::UnexpectedEnd)
    } else if bytes.len() - (pos + 8) < u32_at(bytes, pos + 4) {
        Err(VecError::UnexpectedEnd)
    } else {
        let end = pos + 8 + u32_at(bytes, pos + 4);
        match apply_chunk(m, bytes.subrange(pos, pos + 4), bytes.subrange(pos + 8, end)) {
            Ok(next) => parse_chunks(bytes, end, next),
            Err(e) => Err(e),
        }
    }
}

/// What a `.vec` file holds: the magic and version, then its chunks,
/// then the model's validation.
pub open spec fn parse_file(bytes: Seq<u8>) -> Result<VecModelView, VecError> {
    if bytes.len() < 4 {
        Err(VecError::UnexpectedEnd)
    } else if bytes.take(4) != VEC_MAGIC@ {
        Err(VecError::BadMagic)
    } else if bytes.len() < 8 {
        Err(VecError::UnexpectedEnd)
    } else if u32_at(bytes, 4) != VEC_VERSION {
        Err(VecError::UnsupportedVersion(u32_at(bytes, 4)))
    } else {
        match parse_chunks(bytes, 8, empty_model()) {
            Err(e) => Err(e),
            Ok(m) => match validation_error(m) {
                Some(e) => Err(e),
                None => Ok(m),
            },
        }
    }
}

/// A chunk: its tag, the length field, the payload.
pub open spec fn chunk_bytes(tag: Seq<u8>, len: u32, payload: Seq<u8>) -> Seq<u8> {
    tag + le32(len) + payload
}

/// An item-list chunk's payload: the count, then the items.
pub open spec fn items_payload<T: VecItem>(items: Seq<T>) -> Seq<u8> {
    le32(items.len() as u32) + encode_items(items)
}

/// The bytes a model is saved as. The length and count fields are the
/// 32-bit truncations of the true values.
pub open spec fn encode_file(m: VecModelView) -> Seq<u8> {
    VEC_MAGIC@ + le32(VEC_VERSION) + chunk_bytes(
        TAG_PALT@,
        (4 + m.palette.len() * 12) as u32,
        items_payload(m.palette),
    ) + chunk_bytes(TAG_VERT@, (4 + m.vertices.len() * 12) as u32, items_payload(m.vertices))
        + chunk_bytes(TAG_EDGE@, (4 + m.edges.len() * 40) as u32, items_payload(m.edges))
        + chunk_bytes(
        TAG_OCCL@,
        (4 + m.occluder_indices.len() * 4) as u32,
        items_payload(m.occluder_indices),
    ) + chunk_bytes(TAG_AABB@, 24, vec3_bytes(m.aabb_min) + vec3_bytes(m.aabb_max))
}

/// A read position in a byte slice.
pub struct Cursor<'a> {
    pub bytes: &'a [u8],
    pub offset: usize,
}

impl<'a> Cursor<'a> {
    pub open spec fn wf(&self) -> bool {
        self.offset <= self.bytes@.len()
    }

    /// The bytes not yet read.
    pub open spec fn rest(&self) -> Seq<u8> {
        self.bytes@.subrange(self.offset as int, self.bytes@.len() as int)
    }

    pub fn new(bytes: &'a [u8]) -> (c: Self)
        ensures
            c.wf(),
            c.bytes@ == bytes@,
            c.offset == 0,
    {
        Cursor { bytes, offset: 0 }
    }

    pub fn at_end(&self) -> (r: bool)
        requires
            self.wf(),
        ensures
            r == (self.offset >= self.bytes@.len()),
    {
        self.offset >= self.bytes.len()
    }

    pub fn remaining(&self) -> (r: usize)
        requires
            self.wf(),
        ensures
            r == self.bytes@.len() - self.offset,
    {
        self.bytes.len() - self.offset
    }

    /// The next `len` bytes, or the end-of-file error when fewer remain
    /// (the cursor then stays put).
    pub fn slice(&mut self, len: usize) -> (r: Result<&'a [u8], VecError>)
        requires
            old(self).wf(),
        ensures
            final(self).wf(),
            final(self).bytes@ == old(self).bytes@,
            old(self).bytes@.len() - old(self).offset < len ==> r == Err::<&'a [u8], VecError>(
                VecError::UnexpectedEnd,
            ) && final(self).offset == old(self).offset,
            old(self).bytes@.len() - old(self).offset >= len ==> (r matches Ok(s) && s@
                == old(self).bytes@.subrange(old(self).offset as int, old(self).offset + len))
                && final(self).offset == old(self).offset + len,
    {
        let total = self.bytes.len();
        if total - self.offset < len {
            return invalid(VecError::UnexpectedEnd);
        }
        let bytes: &'a [u8] = self.bytes;
        let slice = &bytes[self.offset..self.offset + len];
        self.offset = self.offset + len;
        Ok(slice)
    }

    pub fn take(&mut self, len: usize) -> (r: Result<&'a [u8], VecError>)
        requires
            old(self).wf(),
        ensures
            final(self).wf(),
            final(self).bytes@ == old(self).bytes@,
            old(self).bytes@.len() - old(self).offset < len ==> r == Err::<&'a [u8], VecError>(
                VecError::UnexpectedEnd,
            ) && final(self).offset == old(self).offset,
            old(self).bytes@.len() - old(self).offset >= len ==> (r matches Ok(s) && s@
                == old(self).bytes@.subrange(old(self).offset as int, old(self).offset + len))
                && final(self).offset == old(self).offset + len,
    {
        self.slice(len)
    }

    /// The next little-endian `u32`.
    pub fn u32(&mut self) -> (r: Result<u32, VecError>)
        requires
            old(self).wf(),
        ensures
            final(self).wf(),
            final(self).bytes@ == old(self).bytes@,
            old(self).bytes@.len() - old(self).offset < 4 ==> r == Err::<u32, VecError>(
                VecError::UnexpectedEnd,
            ) && final(self).offset == old(self).offset,
            old(self).bytes@.len() - old(self).offset >= 4 ==> r == Ok::<u32, VecError>(
                u32_at(old(self).bytes@, old(self).offset as int),
            ) && final(self).offset == old(self).offset + 4,
    {
        let s = self.slice(4)?;
        Ok(u32_from_le_bytes(s))
    }

    /// The next `f32`, as its bit pattern.
    pub fn float_bits(&mut self) -> (r: Result<u32, VecError>)
        requires
            old(self).wf(),
        ensures
            final(self).wf(),
            final(self).bytes@ == old(self).bytes@,
            old(self).bytes@.len() - old(self).offset < 4 ==> r == Err::<u32, VecError>(
                VecError::UnexpectedEnd,
            ) && final(self).offset == old(self).offset,
            old(self).bytes@.len() - old(self).offset >= 4 ==> r == Ok::<u32, VecError>(
                u32_at(old(self).bytes@, old(self).offset as int),
            ) && final(self).offset == old(self).offset + 4,
    {
        self.u32()
    }

    /// The next three `f32`s, as bit patterns.
    pub fn vec3(&mut self) -> (r: Result<Vec3Bits, VecError>)
        requires
            old(self).wf(),
        ensures
            final(self).wf(),
            final(self).bytes@ == old(self).bytes@,
            old(self).bytes@.len() - old(self).offset < 12 ==> r == Err::<Vec3Bits, VecError>(
                VecError::UnexpectedEnd,
            ) && final(self).offset == old(self).offset + 4 * ((
            old(self).bytes@.len() - old(self).offset) / 4),
            old(self).bytes@.len() - old(self).offset >= 12 ==> r == Ok::<Vec3Bits, VecError>(
                vec3_at(old(self).bytes@, old(self).offset as int),
            ) && final(self).offset == old(self).offset + 12,
    {
        let x = self.float_bits()?;
        let y = self.float_bits()?;
        let z = self.float_bits()?;
        Ok(Vec3Bits::new(x, y, z))
    }
}

impl VecItem for u32 {
    open spec fn item_len() -> nat {
        4
    }

    open spec fn decode(bytes: Seq<u8>) -> Result<u32, VecError> {
        Ok(u32_at(bytes, 0))
    }

    open spec fn encode(self) -> Seq<u8> {
        le32(self)
    }

    fn item_bytes() -> (n: usize) {
        4
    }

    fn read(cursor: &mut Cursor) -> (r: Result<u32, VecError>) {
        let ghost start = cursor.bytes@.subrange(cursor.offset as int, cursor.offset + 4);
        let r = cursor.u32();
        assert(start.subrange(0, 4) =~= start);
        r
    }

    fn write(&self, w: &mut Vec<u8>) {
        write_u32(w, *self);
    }

    proof fn lemma_item_roundtrip(self) {
        lemma_le32(self);
    }
}

impl VecItem for Vec3Bits {
    open spec fn item_len() -> nat {
        12
    }

    open spec fn decode(bytes: Seq<u8>) -> Result<Vec3Bits, VecError> {
        Ok(vec3_at(bytes, 0))
    }

    open spec fn encode(self) -> Seq<u8> {
        vec3_bytes(self)
    }

    fn item_bytes() -> (n: usize) {
        12
    }

    fn read(cursor: &mut Cursor) -> (r: Result<Vec3Bits, VecError>) {
        let ghost all = cursor.bytes@;
        let ghost off = cursor.offset as int;
        let r = cursor.vec3();
        let ghost item = all.subrange(off, off + 12);
        assert(item.subrange(0, 4) =~= all.subrange(off, off + 4));
        assert(item.subrange(4, 8) =~= all.subrange(off + 4, off + 8));
        assert(item.subrange(8, 12) =~= all.subrange(off + 8, off + 12));
        r
    }

    fn write(&self, w: &mut Vec<u8>) {
        write_vec3(w, *self);
    }

    proof fn lemma_item_roundtrip(self) {
        lemma_vec3_roundtrip(self, Seq::empty(), Seq::empty());
        assert(Seq::<u8>::empty() + vec3_bytes(self) + Seq::<u8>::empty() =~= vec3_bytes(self));
    }
}

/// A vector stored between two byte strings reads back from its position.
pub proof fn lemma_vec3_roundtrip(v: Vec3Bits, pre: Seq<u8>, post: Seq<u8>)
    ensures
        vec3_bytes(v).len() == 12,
        vec3_at(pre + vec3_bytes(v) + post, pre.len() as int) == v,
{
    lemma_le32(v.x);
    lemma_le32(v.y);
    lemma_le32(v.z);
    let s = pre + vec3_bytes(v) + post;
    let p = pre.len() as int;
    assert(s.subrange(p, p + 4) =~= le32(v.x));
    assert(s.subrange(p + 4, p + 8) =~= le32(v.y));
    assert(s.subrange(p + 8, p + 12) =~= le32(v.z));
    assert(le32(v.x).subrange(0, 4) =~= le32(v.x));
    assert(le32(v.y).subrange(0, 4) =~= le32(v.y));
    assert(le32(v.z).subrange(0, 4) =~= le32(v.z));
}

/// The bytes of one stored edge (the pad byte is written as 0).
pub open spec fn edge_bytes(e: VecEdge) -> Seq<u8> {
    le32(e.a) + le32(e.b) + seq![e.palette, e.kind.spec_byte(), e.style, 0u8] + le32(e.intensity)
        + vec3_bytes(e.n1) + vec3_bytes(e.n2)
}

impl VecItem for VecEdge {
    open spec fn item_len() -> nat {
        40
    }

    open spec fn decode(bytes: Seq<u8>) -> Result<VecEdge, VecError> {
        match EdgeKind::spec_from_byte(bytes[9]) {
            Err(e) => Err(e),
            Ok(kind) => Ok(
                VecEdge {
                    a: u32_at(bytes, 0),
                    b: u32_at(bytes, 4),
                    palette: bytes[8],
                    kind,
                    style: bytes[10],
                    intensity: u32_at(bytes, 12),
                    n1: vec3_at(bytes, 16),
                    n2: vec3_at(bytes, 28),
                },
            ),
        }
    }

    open spec fn encode(self) -> Seq<u8> {
        edge_bytes(self)
    }

    fn item_bytes() -> (n: usize) {
        EDGE_BYTES
    }

    fn read(cursor: &mut Cursor) -> (r: Result<VecEdge, VecError>) {
        let ghost all = cursor.bytes@;
        let ghost off = cursor.offset as int;
        let ghost item = all.subrange(off, off + 40);
        let a = cursor.u32()?;
        let b = cursor.u32()?;
        let meta = cursor.take(4)?;
        assert(item.subrange(0, 4) =~= all.subrange(off, off + 4));
        assert(item.subrange(4, 8) =~= all.subrange(off + 4, off + 8));
        assert(meta@[1] == item[9]);
        let kind = match EdgeKind::from_u8(meta[1]) {
            Ok(kind) => kind,
            Err(e) => return Err(e),
        };
        let palette = meta[0];
        let style = meta[2];
        let intensity = cursor.float_bits()?;
        let n1 = cursor.vec3()?;
        let n2 = cursor.vec3()?;
        assert(item.subrange(12, 16) =~= all.subrange(off + 12, off + 16));
        assert(item.subrange(16, 20) =~= all.subrange(off + 16, off + 20));
        assert(item.subrange(20, 24) =~= all.subrange(off + 20, off + 24));
        assert(item.subrange(24, 28) =~= all.subrange(off + 24, off + 28));
        assert(item.subrange(28, 32) =~= all.subrange(off + 28, off + 32));
        assert(item.subrange(32, 36) =~= all.subrange(off + 32, off + 36));
        assert(item.subrange(36, 40) =~= all.subrange(off + 36, off + 40));
        Ok(VecEdge { a, b, palette, kind, style, intensity, n1, n2 })
    }

    fn write(&self, w: &mut Vec<u8>) {
        let ghost start = w@;
        write_u32(w, self.a);
        write_u32(w, self.b);
        w.push(self.palette);
        w.push(self.kind.to_u8());
        w.push(self.style);
        w.push(0u8);
        write_u32(w, self.intensity);
        write_vec3(w, self.n1);
        write_vec3(w, self.n2);
        assert(w@ =~= start + edge_bytes(*self));
    }

    proof fn lemma_item_roundtrip(self) {
        let s = edge_bytes(self);
        lemma_le32(self.a);
        lemma_le32(self.b);
        lemma_le32(self.intensity);
        lemma_vec3_roundtrip(self.n1, s.take(16), s.skip(28));
        lemma_vec3_roundtrip(self.n2, s.take(28), Seq::empty());
        assert(s =~= s.take(16) + vec3_bytes(self.n1) + s.skip(28));
        assert(s =~= s.take(28) + vec3_bytes(self.n2) + Seq::<u8>::empty());
        assert(s.subrange(0, 4) =~= le32(self.a));
        assert(s.subrange(4, 8) =~= le32(self.b));
        assert(s.subrange(12, 16) =~= le32(self.intensity));
        assert(le32(self.a).subrange(0, 4) =~= le32(self.a));
        assert(le32(self.b).subrange(0, 4) =~= le32(self.b));
        assert(le32(self.intensity).subrange(0, 4) =~= le32(self.intensity));
    }
}

/// Where an edge's fields lie in its 40 stored bytes: the vertex indices
/// at 0 and 4, the palette index at byte 8, the kind at 9, the style at 10,
/// a zero pad byte at 11, then the intensity at 12 and the normals at 16
/// and 28.
pub proof fn lemma_edge_layout(e: VecEdge)
    ensures
        edge_bytes(e).len() == 40,
        u32_at(edge_bytes(e), 0) == e.a,
        u32_at(edge_bytes(e), 4) == e.b,
        edge_bytes(e)[8] == e.palette,
        edge_bytes(e)[9] == e.kind.spec_byte(),
        edge_bytes(e)[10] == e.style,
        edge_bytes(e)[11] == 0,
        u32_at(edge_bytes(e), 12) == e.intensity,
        vec3_at(edge_bytes(e), 16) == e.n1,
        vec3_at(edge_bytes(e), 28) == e.n2,
{
    e.lemma_item_roundtrip();
    lemma_le32(e.a);
    lemma_le32(e.b);
    let s = edge_bytes(e);
    assert(s[8] == e.palette);
    assert(s[11] == 0u8);
}

/// How a stored edge is read: given 40 bytes whose kind byte (9) is 0 or
/// 1, the edge takes its vertex indices from bytes 0 and 4, its palette
/// index from byte 8, its kind from byte 9, its style from byte 10, its
/// intensity from byte 12 and its normals from bytes 16 and 28.
pub proof fn lemma_edge_decode_fields(b: Seq<u8>)
    requires
        b.len() == 40,
        b[9] <= 1,
    ensures
        <VecEdge as VecItem>::decode(b) is Ok,
        <VecEdge as VecItem>::decode(b)->Ok_0.a == u32_at(b, 0),
        <VecEdge as VecItem>::decode(b)->Ok_0.b == u32_at(b, 4),
        <VecEdge as VecItem>::decode(b)->Ok_0.palette == b[8],
        <VecEdge as VecItem>::decode(b)->Ok_0.kind.spec_byte() == b[9],
        <VecEdge as VecItem>::decode(b)->Ok_0.style == b[10],
        <VecEdge as VecItem>::decode(b)->Ok_0.intensity == u32_at(b, 12),
        <VecEdge as VecItem>::decode(b)->Ok_0.n1 == vec3_at(b, 16),
        <VecEdge as VecItem>::decode(b)->Ok_0.n2 == vec3_at(b, 28),
{
}

/// The pad byte carries nothing: two stored edges that differ only in
/// byte 11 read as the same edge (or the same error).
pub proof fn lemma_edge_pad_ignored(b1: Seq<u8>, b2: Seq<u8>)
    requires
        b1.len() == 40,
        b2.len() == 40,
        forall|i: int| 0 <= i < 40 && i != 11 ==> b1[i] == b2[i],
    ensures
        <VecEdge as VecItem>::decode(b1) == <VecEdge as VecItem>::decode(b2),
{
    assert(b1.subrange(0, 4) =~= b2.subrange(0, 4));
    assert(b1.subrange(4, 8) =~= b2.subrange(4, 8));
    assert(b1.subrange(12, 16) =~= b2.subrange(12, 16));
    assert(b1.subrange(16, 20) =~= b2.subrange(16, 20));
    assert(b1.subrange(20, 24) =~= b2.subrange(20, 24));
    assert(b1.subrange(24, 28) =~= b2.subrange(24, 28));
    assert(b1.subrange(28, 32) =~= b2.subrange(28, 32));
    assert(b1.subrange(32, 36) =~= b2.subrange(32, 36));
    assert(b1.subrange(36, 40) =~= b2.subrange(36, 40));
    assert(b1[8] == b2[8] && b1[9] == b2[9] && b1[10] == b2[10]);
}

/// Append a `u32`, little-endian.
pub fn write_u32(w: &mut Vec<u8>, value: u32)
    ensures
        final(w)@ == old(w)@ + le32(value),
{
    let mut bytes = u32_to_le_bytes(value);
    w.append(&mut bytes);
}

/// Append an `f32` given as its bit pattern.
pub fn write_float_bits(w: &mut Vec<u8>, bits: u32)
    ensures
        final(w)@ == old(w)@ + le32(bits),
{
    write_u32(w, bits);
}

/// Append three `f32`s given as bit patterns.
pub fn write_vec3(w: &mut Vec<u8>, value: Vec3Bits)
    ensures
        final(w)@ == old(w)@ + vec3_bytes(value),
{
    let ghost start = w@;
    write_float_bits(w, value.x);
    write_float_bits(w, value.y);
    write_float_bits(w, value.z);
    assert(w@ =~= start + vec3_bytes(value));
}

/// Append a chunk header: the tag and the 32-bit truncation of the payload
/// length. The payload follows.
pub fn write_chunk(w: &mut Vec<u8>, tag: [u8; 4], len: usize)
    ensures
        final(w)@ == old(w)@ + tag@ + le32(len as u32),
{
    let ghost start = w@;
    w.push(tag[0]);
    w.push(tag[1]);
    w.push(tag[2]);
    w.push(tag[3]);
    assert(w@ =~= start + tag@);
    write_u32(w, len as u32);
    assert(w@ =~= start + tag@ + le32(len as u32));
}


/// One more item at the front of the count: decoding `k` items from `rest`
/// is decoding the first, then `k - 1` from the bytes after it.
proof fn lemma_count_step(k: nat, len: nat)
    requires
        k >= 1,
        len >= 1,
    ensures
        k * len >= len,
        k * len - len == ((k - 1) as nat) * len,
{
    assert(k * len >= len) by (nonlinear_arith)
        requires
            k >= 1,
            len >= 1,
    ;
    assert(k * len - len == (k - 1) * len) by (nonlinear_arith);
}

/// Read an item-list chunk: the count, the corrupt-file guard, the exact
/// length check, then the items in order.
pub fn read_items<T: VecItem>(chunk: &mut Cursor) -> (r: Result<Vec<T>, VecError>)
    requires
        old(chunk).wf(),
    ensures
        final(chunk).wf(),
        final(chunk).bytes@ == old(chunk).bytes@,
        r is Ok ==> final(chunk).offset == final(chunk).bytes@.len(),
        match r {
            Ok(items) => parse_items::<T>(old(chunk).rest()) == Ok::<Seq<T>, VecError>(items@),
            Err(e) => parse_items::<T>(old(chunk).rest()) == Err::<Seq<T>, VecError>(e),
        },
{
    let ghost whole = chunk.rest();
    let ghost bytes0 = chunk.bytes@;
    let ghost off0 = chunk.offset as int;
    let count = match chunk.u32() {
        Ok(count) => count,
        Err(e) => return Err(e),
    };
    assert(whole.subrange(0, 4) =~= bytes0.subrange(off0, off0 + 4));
    if count > MAX_COUNT {
        return invalid(VecError::CountTooLarge(count));
    }
    let item_bytes = T::item_bytes();
    assert(count as int * item_bytes as int <= 64_000_000 * 40) by (nonlinear_arith)
        requires
            count <= 64_000_000,
            item_bytes <= 40,
    ;
    let expected = count as usize * item_bytes;
    if chunk.remaining() != expected {
        return invalid(VecError::ChunkLengthMismatch);
    }
    let ghost data = whole.skip(4);
    assert(chunk.rest() =~= data);
    assert(parse_items::<T>(whole) == decode_items::<T>(data, count as nat));
    let mut items: Vec<T> = Vec::new();
    let mut i: u32 = 0;
    while i < count
        invariant
            chunk.wf(),
            chunk.bytes@ == bytes0,
            i <= count,
            item_bytes == T::item_len(),
            1 <= item_bytes,
            chunk.rest().len() == ((count - i) as nat) * T::item_len(),
            whole == old(chunk).rest(),
            bytes0 == old(chunk).bytes@,
            parse_items::<T>(whole) == decode_items::<T>(data, count as nat),
            decode_items::<T>(data, count as nat) == match decode_items::<T>(
                chunk.rest(),
                (count - i) as nat,
            ) {
                Ok(t) => Ok::<Seq<T>, VecError>(items@ + t),
                Err(e) => Err(e),
            },
        decreases count - i,
    {
        let ghost rest = chunk.rest();
        let ghost k = (count - i) as nat;
        proof {
            lemma_count_step(k, T::item_len());
        }
        let ghost off = chunk.offset as int;
        let ghost len = T::item_len() as int;
        assert(rest.take(len) =~= chunk.bytes@.subrange(off, off + len));
        match T::read(chunk) {
            Ok(x) => {
                assert(chunk.rest() =~= rest.skip(len));
                let ghost before = items@;
                items.push(x);
                proof {
                    match decode_items::<T>(chunk.rest(), (k - 1) as nat) {
                        Ok(t) => {
                            assert(items@ + t =~= before + (seq![x] + t));
                        },
                        Err(e) => {},
                    }
                }
            },
            Err(e) => {
                assert(decode_items::<T>(rest, k) == Err::<Seq<T>, VecError>(e));
                return Err(e);
            },
        }
        i = i + 1;
    }
    assert(items@ + Seq::<T>::empty() =~= items@);
    assert(chunk.rest().len() == 0) by (nonlinear_arith)
        requires
            chunk.rest().len() == ((count - i) as nat) * T::item_len(),
            i == count,
    ;
    Ok(items)
}


/// The bytes of `s` followed by one more item are the bytes of `s`
/// followed by that item's bytes.
pub proof fn lemma_encode_items_push<T: VecItem>(s: Seq<T>, x: T)
    ensures
        encode_items(s.push(x)) == encode_items(s) + x.encode(),
    decreases s.len(),
{
    if s.len() == 0 {
        assert(s.push(x).drop_first() =~= Seq::<T>::empty());
        assert(encode_items(Seq::<T>::empty()) =~= Seq::<u8>::empty());
        assert(encode_items(s.push(x)) =~= x.encode() + Seq::<u8>::empty());
        assert(encode_items(s) + x.encode() =~= x.encode());
    } else {
        assert(s.push(x).drop_first() =~= s.drop_first().push(x));
        lemma_encode_items_push(s.drop_first(), x);
        assert(encode_items(s.push(x)) =~= s[0].encode() + (encode_items(s.drop_first())
            + x.encode()));
    }
}

/// Append an item-list payload: the 32-bit count, then every item.
pub fn write_items<T: VecItem>(w: &mut Vec<u8>, items: &Vec<T>)
    ensures
        final(w)@ == old(w)@ + items_payload(items@),
{
    let ghost start = w@;
    write_u32(w, items.len() as u32);
    let n = items.len();
    let mut i: usize = 0;
    while i < n
        invariant
            n == items@.len(),
            i <= n,
            w@ == start + le32(n as u32) + encode_items(items@.take(i as int)),
        decreases n - i,
    {
        let ghost before = w@;
        items[i].write(w);
        proof {
            assert(items@.take(i + 1) =~= items@.take(i as int).push(items@[i as int]));
            lemma_encode_items_push(items@.take(i as int), items@[i as int]);
        }
        assert(w@ =~= start + le32(n as u32) + encode_items(items@.take(i + 1)));
        i = i + 1;
    }
    assert(items@.take(n as int) =~= items@);
    assert(w@ =~= start + items_payload(items@));
}

/// Whether a 4-byte tag is `name`.
pub fn same_tag(tag: &[u8], name: [u8; 4]) -> (r: bool)
    requires
        tag@.len() == 4,
    ensures
        r == (tag@ == name@),
{
    let r = tag[0] == name[0] && tag[1] == name[1] && tag[2] == name[2] && tag[3] == name[3];
    if r {
        assert(tag@ =~= name@);
    } else {
        assert(tag@ != name@) by {
            if tag@ == name@ {
                assert(tag@[0] == name@[0] && tag@[1] == name@[1] && tag@[2] == name@[2]
                    && tag@[3] == name@[3]);
            }
        }
    }
    r
}

/// The loaded model after the chunks: validated, or the first validation
/// error.
pub open spec fn finish(r: Result<VecModelView, VecError>) -> Result<VecModelView, VecError> {
    match r {
        Err(e) => Err(e),
        Ok(m) => match validation_error(m) {
            Some(e) => Err(e),
            None => Ok(m),
        },
    }
}

impl VecModel {
    /// Append the model in `.vec` form.
    #[verifier::spinoff_prover]
    #[verifier::rlimit(40)]
    pub fn save_to(&self, w: &mut Vec<u8>)
        requires
            4 + self.palette@.len() * 12 <= usize::MAX,
            4 + self.vertices@.len() * 12 <= usize::MAX,
            4 + self.edges@.len() * 40 <= usize::MAX,
            4 + self.occluder_indices@.len() * 4 <= usize::MAX,
        ensures
            final(w)@ == old(w)@ + encode_file(self@),
    {
        let ghost start = w@;
        let magic = VEC_MAGIC;
        w.push(magic[0]);
        w.push(magic[1]);
        w.push(magic[2]);
        w.push(magic[3]);
        assert(w@ =~= start + VEC_MAGIC@);
        write_u32(w, VEC_VERSION);
        let ghost head = w@;
        let palette_len = 4 + self.palette.len() * 12;
        write_chunk(w, TAG_PALT, palette_len);
        write_items(w, &self.palette);
        let ghost p1 = w@;
        assert(p1 =~= head + chunk_bytes(TAG_PALT@, palette_len as u32, items_payload(self@.palette)));
        let vertices_len = 4 + self.vertices.len() * 12;
        write_chunk(w, TAG_VERT, vertices_len);
        write_items(w, &self.vertices);
        let ghost p2 = w@;
        assert(p2 =~= p1 + chunk_bytes(TAG_VERT@, vertices_len as u32, items_payload(self@.vertices)));
        let edges_len = 4 + self.edges.len() * EDGE_BYTES;
        write_chunk(w, TAG_EDGE, edges_len);
        write_items(w, &self.edges);
        let ghost p3 = w@;
        assert(p3 =~= p2 + chunk_bytes(TAG_EDGE@, edges_len as u32, items_payload(self@.edges)));
        let occluder_len = 4 + self.occluder_indices.len() * 4;
        write_chunk(w, TAG_OCCL, occluder_len);
        write_items(w, &self.occluder_indices);
        let ghost p4 = w@;
        assert(p4 =~= p3 + chunk_bytes(
            TAG_OCCL@,
            occluder_len as u32,
            items_payload(self@.occluder_indices),
        ));
        write_chunk(w, TAG_AABB, 24);
        write_vec3(w, self.aabb_min);
        write_vec3(w, self.aabb_max);
        assert(w@ =~= p4 + chunk_bytes(
            TAG_AABB@,
            24,
            vec3_bytes(self.aabb_min) + vec3_bytes(self.aabb_max),
        ));
        assert(w@ =~= start + encode_file(self@));
    }

    /// Parse a `.vec` file: the model it holds, or the first reason it is
    /// rejected. Unknown chunks are skipped; a later chunk of a known tag
    /// replaces an earlier one.
    pub fn load_from(bytes: &[u8]) -> (r: Result<VecModel, VecError>)
        ensures
            match r {
                Ok(m) => parse_file(bytes@) == Ok::<VecModelView, VecError>(m@),
                Err(e) => parse_file(bytes@) == Err::<VecModelView, VecError>(e),
            },
    {
        let mut cursor = Cursor::new(bytes);
        let magic = match cursor.take(4) {
            Ok(magic) => magic,
            Err(e) => return Err(e),
        };
        assert(bytes@.take(4) =~= magic@);
        if !same_tag(magic, VEC_MAGIC) {
            return invalid(VecError::BadMagic);
        }
        let version = match cursor.u32() {
            Ok(version) => version,
            Err(e) => return Err(e),
        };
        if version != VEC_VERSION {
            return invalid(VecError::UnsupportedVersion(version));
        }
        let mut model = VecModel::empty();
        assert(parse_file(bytes@) == finish(parse_chunks(bytes@, 8, empty_model())));
        while !cursor.at_end()
            invariant
                cursor.wf(),
                cursor.bytes@ == bytes@,
                8 <= cursor.offset,
                parse_file(bytes@) == finish(parse_chunks(bytes@, cursor.offset as int, model@)),
            decreases bytes@.len() - cursor.offset,
        {
            let ghost pos = cursor.offset as int;
            let ghost all = bytes@;
            let tag = match cursor.take(4) {
                Ok(tag) => tag,
                Err(e) => return Err(e),
            };
            let len32 = match cursor.u32() {
                Ok(len32) => len32,
                Err(e) => return Err(e),
            };
            let len = len32 as usize;
            let payload = match cursor.slice(len) {
                Ok(payload) => payload,
                Err(e) => return Err(e),
            };
            let ghost end = pos + 8 + len32;
            assert(parse_chunks(all, pos, model@) == match apply_chunk(
                model@,
                all.subrange(pos, pos + 4),
                all.subrange(pos + 8, end),
            ) {
                Ok(next) => parse_chunks(all, end, next),
                Err(e) => Err(e),
            });
            let mut chunk = Cursor::new(payload);
            assert(chunk.rest() =~= payload@);
            let ghost m0 = model@;
            if same_tag(tag, TAG_PALT) {
                match read_items::<Vec3Bits>(&mut chunk) {
                    Ok(items) => model.palette = items,
                    Err(e) => return Err(e),
                }
            } else if same_tag(tag, TAG_VERT) {
                match read_items::<Vec3Bits>(&mut chunk) {
                    Ok(items) => model.vertices = items,
                    Err(e) => return Err(e),
                }
            } else if same_tag(tag, TAG_EDGE) {
                match read_items::<VecEdge>(&mut chunk) {
                    Ok(items) => model.edges = items,
                    Err(e) => return Err(e),
                }
            } else if same_tag(tag, TAG_OCCL) {
                match read_items::<u32>(&mut chunk) {
                    Ok(items) => model.occluder_indices = items,
                    Err(e) => return Err(e),
                }
            } else if same_tag(tag, TAG_AABB) {
                let lo = match chunk.vec3() {
                    Ok(lo) => lo,
                    Err(e) => return Err(e),
                };
                let hi = match chunk.vec3() {
                    Ok(hi) => hi,
                    Err(e) => return Err(e),
                };
                model.aabb_min = lo;
                model.aabb_max = hi;
            }
            assert(apply_chunk(m0, all.subrange(pos, pos + 4), all.subrange(pos + 8, end))
                == Ok::<VecModelView, VecError>(model@));
        }
        match model.validate() {
            Ok(()) => {},
            Err(e) => return Err(e),
        }
        Ok(model)
    }
}

} // verus!
