//! The in-memory form of a `.vec` vector model: welded vertices,
//! classified edges and the occluder mesh, plus the rules a loaded model
//! must satisfy and the selection of edges that get drawn.
//!
//! Every `f32` of the format (positions, colors, intensities, normals) is
//! carried as its IEEE-754 bit pattern, so the model round-trips through
//! the file format bit for bit.

use vstd::prelude::*;

verus! {

/// Bit pattern of the `f32` value 1.0.
pub const F32_ONE_BITS: u32 = 0x3F80_0000;

/// Bit pattern of the `f32` value 0.0.
pub const F32_ZERO_BITS: u32 = 0;

/// Style bit: dashed stroke (world-unit dash period chosen at draw time).
pub const STYLE_DASH: u8 = 1;

/// Style bit: intensity flicker/pulse animation.
pub const STYLE_FLICKER: u8 = 2;

/// Three `f32` components (a position, a linear RGB color or a normal),
/// each held as its IEEE-754 bit pattern.
#[derive(Debug, Clone, Copy, PartialEq, Eq, Structural)]
pub struct Vec3Bits {
    pub x: u32,
    pub y: u32,
    pub z: u32,
}

impl Vec3Bits {
    pub fn new(x: u32, y: u32, z: u32) -> (v: Self)
        ensures
            v == (Vec3Bits { x, y, z }),
    {
        Vec3Bits { x, y, z }
    }

    /// The all-zero vector (bit pattern of `Vec3::ZERO`).
    pub open spec fn spec_zero() -> Self {
        Vec3Bits { x: F32_ZERO_BITS, y: F32_ZERO_BITS, z: F32_ZERO_BITS }
    }

    /// The all-one vector (bit pattern of `Vec3::ONE`).
    pub open spec fn spec_one() -> Self {
        Vec3Bits { x: F32_ONE_BITS, y: F32_ONE_BITS, z: F32_ONE_BITS }
    }

    pub fn zero() -> (v: Self)
        ensures
            v == Self::spec_zero(),
    {
        Vec3Bits { x: F32_ZERO_BITS, y: F32_ZERO_BITS, z: F32_ZERO_BITS }
    }

    pub fn one() -> (v: Self)
        ensures
            v == Self::spec_one(),
    {
        Vec3Bits { x: F32_ONE_BITS, y: F32_ONE_BITS, z: F32_ONE_BITS }
    }
}

/// Why a `.vec` file was rejected. Every rejection is invalid data.
#[derive(Debug, Clone, Copy, PartialEq, Eq, Structural)]
pub enum VecError {
    /// The file ends inside a header, a chunk or an item.
    UnexpectedEnd,
    /// The first four bytes are not `VEC1`.
    BadMagic,
    /// The version field is not `VEC_VERSION`.
    UnsupportedVersion(u32),
    /// An edge's kind byte is neither 0 nor 1.
    UnknownEdgeKind(u8),
    /// An item count beyond the corrupt-file guard.
    CountTooLarge(u32),
    /// A chunk's byte length disagrees with its item count.
    ChunkLengthMismatch,
    /// An edge names a vertex that does not exist.
    EdgeVertexOutOfRange,
    /// An edge names a palette entry that does not exist.
    EdgePaletteOutOfRange,
    /// The occluder index list is not made of whole triangles.
    OccluderNotTriangles,
    /// An occluder index names a vertex that does not exist.
    OccluderIndexOutOfRange,
}

/// The error result that rejects a file for `reason`.
pub fn invalid<T>(reason: VecError) -> (r: Result<T, VecError>)
    ensures
        r == Err::<T, VecError>(reason),
{
    Err(reason)
}

#[derive(Debug, Clone, Copy, PartialEq, Eq, Structural)]
pub enum EdgeKind {
    /// Boundary, crease, material-boundary, or authored decor line —
    /// always drawn.
    Always,
    /// Smooth-surface edge: drawn only while it is a silhouette.
    /// Carries both adjacent face normals for the runtime test.
    Smooth,
}

impl EdgeKind {
    /// The byte that stands for this kind in a file.
    pub open spec fn spec_byte(self) -> u8 {
        match self {
            EdgeKind::Always => 0,
            EdgeKind::Smooth => 1,
        }
    }

    /// The kind a byte stands for, or the rejection of an unknown byte.
    pub open spec fn spec_from_byte(value: u8) -> Result<EdgeKind, VecError> {
        if value == 0 {
            Ok(EdgeKind::Always)
        } else if value == 1 {
            Ok(EdgeKind::Smooth)
        } else {
            Err(VecError::UnknownEdgeKind(value))
        }
    }

    pub fn to_u8(self) -> (b: u8)
        ensures
            b == self.spec_byte(),
    {
        match self {
            EdgeKind::Always => 0,
            EdgeKind::Smooth => 1,
        }
    }

    pub fn from_u8(value: u8) -> (r: Result<EdgeKind, VecError>)
        ensures
            r == Self::spec_from_byte(value),
    {
        match value {
            0 => Ok(EdgeKind::Always),
            1 => Ok(EdgeKind::Smooth),
            other => invalid(VecError::UnknownEdgeKind(other)),
        }
    }
}

#[derive(Debug, Clone, Copy, PartialEq, Eq, Structural)]
pub struct VecEdge {
    pub a: u32,
    pub b: u32,
    pub palette: u8,
    pub kind: EdgeKind,
    /// Bitflags: `STYLE_DASH` | `STYLE_FLICKER`.
    pub style: u8,
    /// Bit pattern of the `f32` brightness multiplier.
    pub intensity: u32,
    /// Adjacent face normals (equal for boundary edges, zero for decor).
    pub n1: Vec3Bits,
    pub n2: Vec3Bits,
}

/// A loaded vector model. Vertices are shared by edges and the occluder.
#[derive(Debug, Clone, PartialEq)]
pub struct VecModel {
    pub palette: Vec<Vec3Bits>,
    pub vertices: Vec<Vec3Bits>,
    pub edges: Vec<VecEdge>,
    /// Occluder triangles, 3 indices each, into `vertices`.
    pub occluder_indices: Vec<u32>,
    pub aabb_min: Vec3Bits,
    pub aabb_max: Vec3Bits,
}

/// The mathematical content of a `VecModel`.
pub struct VecModelView {
    pub palette: Seq<Vec3Bits>,
    pub vertices: Seq<Vec3Bits>,
    pub edges: Seq<VecEdge>,
    pub occluder_indices: Seq<u32>,
    pub aabb_min: Vec3Bits,
    pub aabb_max: Vec3Bits,
}

impl View for VecModel {
    type V = VecModelView;

    open spec fn view(&self) -> VecModelView {
        VecModelView {
            palette: self.palette@,
            vertices: self.vertices@,
            edges: self.edges@,
            occluder_indices: self.occluder_indices@,
            aabb_min: self.aabb_min,
            aabb_max: self.aabb_max,
        }
    }
}

/// An edge materialized for drawing: endpoints, color and style, all as
/// bit patterns. The renderer multiplies `intensity` by its scale.
#[derive(Debug, Clone, Copy, PartialEq, Eq, Structural)]
pub struct EdgeStroke {
    pub a: Vec3Bits,
    pub b: Vec3Bits,
    pub rgb: Vec3Bits,
    pub intensity: u32,
    /// `STYLE_DASH` was set: the stroke gets the dash period.
    pub dashed: bool,
    /// `STYLE_FLICKER` was set: the stroke gets the flicker amount.
    pub flicker: bool,
}

/// The model with nothing in it (what loading starts from).
pub open spec fn empty_model() -> VecModelView {
    VecModelView {
        palette: Seq::empty(),
        vertices: Seq::empty(),
        edges: Seq::empty(),
        occluder_indices: Seq::empty(),
        aabb_min: Vec3Bits::spec_zero(),
        aabb_max: Vec3Bits::spec_zero(),
    }
}

/// The stroke that `e` becomes: its endpoints, its palette color (white
/// when the palette has no such entry) and its style flags.
pub open spec fn stroke_of(m: VecModelView, e: VecEdge) -> EdgeStroke {
    EdgeStroke {
        a: m.vertices[e.a as int],
        b: m.vertices[e.b as int],
        rgb: if (e.palette as int) < m.palette.len() {
            m.palette[e.palette as int]
        } else {
            Vec3Bits::spec_one()
        },
        intensity: e.intensity,
        dashed: e.style & STYLE_DASH != 0,
        flicker: e.style & STYLE_FLICKER != 0,
    }
}

/// The strokes of the edges of `kind` among `edges`, in order.
pub open spec fn strokes_of_kind(m: VecModelView, edges: Seq<VecEdge>, kind: EdgeKind) -> Seq<
    EdgeStroke,
>
    decreases edges.len(),
{
    if edges.len() == 0 {
        Seq::empty()
    } else {
        let before = strokes_of_kind(m, edges.drop_last(), kind);
        if edges.last().kind == kind {
            before.push(stroke_of(m, edges.last()))
        } else {
            before
        }
    }
}

/// Every edge is drawn as exactly one of the two kinds: the strokes of
/// `Always` and of `Smooth` edges together are as many as the edges.
pub proof fn lemma_kinds_partition_edges(m: VecModelView, edges: Seq<VecEdge>)
    ensures
        strokes_of_kind(m, edges, EdgeKind::Always).len() + strokes_of_kind(
            m,
            edges,
            EdgeKind::Smooth,
        ).len() == edges.len(),
    decreases edges.len(),
{
    if edges.len() > 0 {
        lemma_kinds_partition_edges(m, edges.drop_last());
    }
}

/// An edge's stroke is drawn in its own palette entry: with index `p`
/// inside the palette the color is `palette[p]`, and white beyond it. Its
/// endpoints are the vertices it names, and it keeps its intensity and
/// its dash and flicker bits.
pub proof fn lemma_stroke_color(m: VecModelView, e: VecEdge)
    ensures
        (e.palette as int) < m.palette.len() ==> stroke_of(m, e).rgb == m.palette[e.palette as int],
        (e.palette as int) >= m.palette.len() ==> stroke_of(m, e).rgb == (Vec3Bits {
            x: F32_ONE_BITS,
            y: F32_ONE_BITS,
            z: F32_ONE_BITS,
        }),
        stroke_of(m, e).a == m.vertices[e.a as int],
        stroke_of(m, e).b == m.vertices[e.b as int],
        stroke_of(m, e).intensity == e.intensity,
        stroke_of(m, e).dashed == (e.style & STYLE_DASH != 0),
        stroke_of(m, e).flicker == (e.style & STYLE_FLICKER != 0),
{
}

/// Edges whose palette entries differ are drawn in different colors.
pub proof fn lemma_palette_entries_distinguish(m: VecModelView, e1: VecEdge, e2: VecEdge)
    requires
        (e1.palette as int) < m.palette.len(),
        (e2.palette as int) < m.palette.len(),
        m.palette[e1.palette as int] != m.palette[e2.palette as int],
    ensures
        stroke_of(m, e1).rgb != stroke_of(m, e2).rgb,
{
}

/// Every stroke drawn for `kind` is the stroke of an edge of that kind,
/// and every edge of that kind is drawn: the strokes are as many as those
/// edges, and each edge of the kind has its stroke among them.
pub proof fn lemma_strokes_are_edges_of_kind(m: VecModelView, edges: Seq<VecEdge>, kind: EdgeKind)
    ensures
        forall|j: int|
            0 <= j < strokes_of_kind(m, edges, kind).len() ==> exists|i: int|
                0 <= i < edges.len() && edges[i].kind == kind && #[trigger] strokes_of_kind(
                    m,
                    edges,
                    kind,
                )[j] == stroke_of(m, edges[i]),
        forall|i: int|
            0 <= i < edges.len() && (#[trigger] edges[i]).kind == kind ==> strokes_of_kind(
                m,
                edges,
                kind,
            ).contains(stroke_of(m, edges[i])),
    decreases edges.len(),
{
    if edges.len() > 0 {
        let rest = edges.drop_last();
        lemma_strokes_are_edges_of_kind(m, rest, kind);
        let before = strokes_of_kind(m, rest, kind);
        let all = strokes_of_kind(m, edges, kind);
        assert forall|j: int| 0 <= j < all.len() implies exists|i: int|
            0 <= i < edges.len() && edges[i].kind == kind && #[trigger] all[j] == stroke_of(
                m,
                edges[i],
            ) by {
            if j < before.len() {
                assert(all[j] == before[j]);
                let i = choose|i: int|
                    0 <= i < rest.len() && rest[i].kind == kind && before[j] == stroke_of(
                        m,
                        rest[i],
                    );
                assert(edges[i] == rest[i]);
            } else {
                assert(edges[edges.len() - 1] == edges.last());
            }
        }
        assert forall|i: int| 0 <= i < edges.len() && (#[trigger] edges[i]).kind == kind implies all.contains(
            stroke_of(m, edges[i]),
        ) by {
            if i < rest.len() {
                assert(rest[i] == edges[i]);
                let j = choose|j: int| 0 <= j < before.len() && before[j] == stroke_of(m, rest[i]);
                assert(all[j] == before[j]);
            } else {
                assert(all[all.len() - 1] == stroke_of(m, edges[i]));
            }
        }
    }
}

/// Every edge of `kind` names existing vertices.
pub open spec fn kind_in_range(m: VecModelView, kind: EdgeKind) -> bool {
    forall|i: int|
        0 <= i < m.edges.len() && (#[trigger] m.edges[i]).kind == kind ==> {
            &&& (m.edges[i].a as int) < m.vertices.len()
            &&& (m.edges[i].b as int) < m.vertices.len()
        }
}

/// The vertex count as the 32-bit number that indices are checked against.
pub open spec fn vertex_count(m: VecModelView) -> u32 {
    m.vertices.len() as u32
}

/// What is wrong with one edge, if anything.
pub open spec fn edge_error(m: VecModelView, e: VecEdge) -> Option<VecError> {
    if e.a >= vertex_count(m) || e.b >= vertex_count(m) {
        Some(VecError::EdgeVertexOutOfRange)
    } else if m.palette.len() != 0 && e.palette as int >= m.palette.len() {
        Some(VecError::EdgePaletteOutOfRange)
    } else {
        None
    }
}

/// The error of the first faulty edge among `edges`.
pub open spec fn edges_error(m: VecModelView, edges: Seq<VecEdge>) -> Option<VecError>
    decreases edges.len(),
{
    if edges.len() == 0 {
        None
    } else {
        match edges_error(m, edges.drop_last()) {
            Some(e) => Some(e),
            None => edge_error(m, edges.last()),
        }
    }
}

/// Why a model is not acceptable, checked in order: the edges, then the
/// occluder's shape, then its indices. `None` for a valid model.
pub open spec fn validation_error(m: VecModelView) -> Option<VecError> {
    match edges_error(m, m.edges) {
        Some(e) => Some(e),
        None => if m.occluder_indices.len() % 3 != 0 {
            Some(VecError::OccluderNotTriangles)
        } else if exists|i: int|
            0 <= i < m.occluder_indices.len() && #[trigger] m.occluder_indices[i] >= vertex_count(
                m,
            ) {
            Some(VecError::OccluderIndexOutOfRange)
        } else {
            None
        },
    }
}

/// Once a prefix of the edges has an error, the whole sequence reports it.
pub proof fn lemma_edges_error_prefix(m: VecModelView, edges: Seq<VecEdge>, k: int)
    requires
        0 <= k <= edges.len(),
        edges_error(m, edges.take(k)) is Some,
    ensures
        edges_error(m, edges) == edges_error(m, edges.take(k)),
    decreases edges.len() - k,
{
    if k < edges.len() {
        assert(edges.take(k + 1).drop_last() =~= edges.take(k));
        lemma_edges_error_prefix(m, edges, k + 1);
    } else {
        assert(edges.take(k) =~= edges);
    }
}

/// When every edge of a sequence is sound, it reports no error.
pub proof fn lemma_edges_error_none(m: VecModelView, edges: Seq<VecEdge>)
    requires
        forall|i: int| 0 <= i < edges.len() ==> edge_error(m, #[trigger] edges[i]) is None,
    ensures
        edges_error(m, edges) is None,
    decreases edges.len(),
{
    if edges.len() > 0 {
        lemma_edges_error_none(m, edges.drop_last());
    }
}

/// A sequence reports no error only when none of its edges has one.
pub proof fn lemma_edges_error_each(m: VecModelView, edges: Seq<VecEdge>, i: int)
    requires
        edges_error(m, edges) is None,
        0 <= i < edges.len(),
    ensures
        edge_error(m, edges[i]) is None,
    decreases edges.len(),
{
    if i < edges.len() - 1 {
        assert(edges.drop_last()[i] == edges[i]);
        lemma_edges_error_each(m, edges.drop_last(), i);
    }
}

/// A valid model can be drawn: every edge, of either kind, names
/// existing vertices.
pub proof fn lemma_valid_model_drawable(m: VecModelView, kind: EdgeKind)
    requires
        validation_error(m) is None,
        m.vertices.len() <= u32::MAX,
    ensures
        kind_in_range(m, kind),
{
    assert forall|i: int| 0 <= i < m.edges.len() && (#[trigger] m.edges[i]).kind == kind implies {
        &&& (m.edges[i].a as int) < m.vertices.len()
        &&& (m.edges[i].b as int) < m.vertices.len()
    } by {
        lemma_edges_error_each(m, m.edges, i);
    }
}

impl VecModel {
    /// A model with no palette, vertices, edges or occluder, at the origin.
    pub fn empty() -> (m: Self)
        ensures
            m@ == empty_model(),
    {
        VecModel {
            palette: Vec::new(),
            vertices: Vec::new(),
            edges: Vec::new(),
            occluder_indices: Vec::new(),
            aabb_min: Vec3Bits::zero(),
            aabb_max: Vec3Bits::zero(),
        }
    }

    /// Materialize one edge as a stroke (style flags applied).
    pub fn materialize(&self, edge: &VecEdge) -> (s: EdgeStroke)
        requires
            (edge.a as int) < self.vertices@.len(),
            (edge.b as int) < self.vertices@.len(),
        ensures
            s == stroke_of(self@, *edge),
    {
        let rgb = if (edge.palette as usize) < self.palette.len() {
            self.palette[edge.palette as usize]
        } else {
            Vec3Bits::one()
        };
        EdgeStroke {
            a: self.vertices[edge.a as usize],
            b: self.vertices[edge.b as usize],
            rgb,
            intensity: edge.intensity,
            dashed: edge.style & STYLE_DASH != 0,
            flicker: edge.style & STYLE_FLICKER != 0,
        }
    }

    /// Materialize the edges of one kind as strokes (styles applied).
    pub fn edge_segments(&self, kind: EdgeKind) -> (strokes: Vec<EdgeStroke>)
        requires
            kind_in_range(self@, kind),
        ensures
            strokes@ == strokes_of_kind(self@, self@.edges, kind),
    {
        let mut strokes = Vec::new();
        self.edge_segments_into(kind, &mut strokes);
        strokes
    }

    /// Append the materialized edges of one kind to `out`.
    pub fn edge_segments_into(&self, kind: EdgeKind, out: &mut Vec<EdgeStroke>)
        requires
            kind_in_range(self@, kind),
        ensures
            final(out)@ == old(out)@ + strokes_of_kind(self@, self@.edges, kind),
    {
        let ghost start = out@;
        let n = self.edges.len();
        let mut i: usize = 0;
        while i < n
            invariant
                n == self.edges@.len(),
                i <= n,
                kind_in_range(self@, kind),
                out@ == start + strokes_of_kind(self@, self@.edges.take(i as int), kind),
            decreases n - i,
        {
            let edge = &self.edges[i];
            assert(self@.edges.take(i + 1).drop_last() =~= self@.edges.take(i as int));
            if edge.kind == kind {
                assert(self@.edges[i as int].kind == kind);
                let stroke = self.materialize(edge);
                out.push(stroke);
                assert(out@ =~= start + strokes_of_kind(self@, self@.edges.take(i + 1), kind));
            } else {
                assert(out@ =~= start + strokes_of_kind(self@, self@.edges.take(i + 1), kind));
            }
            i = i + 1;
        }
        assert(self@.edges.take(n as int) =~= self@.edges);
    }

    /// Check that every index names something that exists and that the
    /// occluder is made of whole triangles; the first problem found is
    /// the error.
    pub fn validate(&self) -> (r: Result<(), VecError>)
        ensures
            match validation_error(self@) {
                None => r is Ok,
                Some(e) => r == Err::<(), VecError>(e),
            },
    {
        let vertex_count = self.vertices.len() as u32;
        let n = self.edges.len();
        let mut i: usize = 0;
        while i < n
            invariant
                n == self.edges@.len(),
                i <= n,
                vertex_count == crate::model::vertex_count(self@),
                edges_error(self@, self@.edges.take(i as int)) is None,
            decreases n - i,
        {
            let edge = &self.edges[i];
            assert(self@.edges.take(i + 1).drop_last() =~= self@.edges.take(i as int));
            if edge.a >= vertex_count || edge.b >= vertex_count {
                proof {
                    lemma_edges_error_prefix(self@, self@.edges, i + 1);
                }
                return invalid(VecError::EdgeVertexOutOfRange);
            }
            if !self.palette.is_empty() && edge.palette as usize >= self.palette.len() {
                proof {
                    lemma_edges_error_prefix(self@, self@.edges, i + 1);
                }
                return invalid(VecError::EdgePaletteOutOfRange);
            }
            i = i + 1;
        }
        assert(self@.edges.take(n as int) =~= self@.edges);
        if self.occluder_indices.len() % 3 != 0 {
            return invalid(VecError::OccluderNotTriangles);
        }
        let m = self.occluder_indices.len();
        let mut j: usize = 0;
        while j < m
            invariant
                m == self.occluder_indices@.len(),
                j <= m,
                vertex_count == crate::model::vertex_count(self@),
                forall|k: int| 0 <= k < j ==> self.occluder_indices@[k] < vertex_count,
                edges_error(self@, self@.edges) is None,
                self@.occluder_indices.len() % 3 == 0,
            decreases m - j,
        {
            if self.occluder_indices[j] >= vertex_count {
                assert(self@.occluder_indices[j as int] >= crate::model::vertex_count(self@));
                return invalid(VecError::OccluderIndexOutOfRange);
            }
            j = j + 1;
        }
        Ok(())
    }
}

} // verus!
