use vex::{EdgeKind, Vec3Bits, VecEdge, VecError, VecModel, STYLE_DASH, STYLE_FLICKER};

fn v(x: f32, y: f32, z: f32) -> Vec3Bits {
    Vec3Bits::new(x.to_bits(), y.to_bits(), z.to_bits())
}

fn sample_model() -> VecModel {
    VecModel {
        palette: vec![v(0.05, 1.0, 0.15), v(0.05, 0.75, 1.0)],
        vertices: vec![v(0.0, 0.0, 0.0), v(1.0, 0.0, 0.0), v(0.0, 1.0, 0.0)],
        edges: vec![
            VecEdge {
                a: 0,
                b: 1,
                palette: 0,
                kind: EdgeKind::Always,
                style: STYLE_DASH,
                intensity: 1.0f32.to_bits(),
                n1: v(0.0, 0.0, 1.0),
                n2: v(0.0, 0.0, 1.0),
            },
            VecEdge {
                a: 1,
                b: 2,
                palette: 1,
                kind: EdgeKind::Smooth,
                style: 0,
                intensity: 0.5f32.to_bits(),
                n1: v(0.0, 0.0, 1.0),
                n2: v(0.0, 1.0, 0.0),
            },
        ],
        occluder_indices: vec![0, 1, 2],
        aabb_min: v(0.0, 0.0, 0.0),
        aabb_max: v(1.0, 1.0, 0.0),
    }
}

fn saved(model: &VecModel) -> Vec<u8> {
    let mut bytes = Vec::new();
    model.save_to(&mut bytes);
    bytes
}

fn chunk(tag: &[u8; 4], payload: &[u8]) -> Vec<u8> {
    let mut out = tag.to_vec();
    out.extend_from_slice(&(payload.len() as u32).to_le_bytes());
    out.extend_from_slice(payload);
    out
}

fn header() -> Vec<u8> {
    let mut out = b"VEC1".to_vec();
    out.extend_from_slice(&1u32.to_le_bytes());
    out
}

#[test]
fn roundtrip_preserves_model() {
    let model = sample_model();
    let bytes = saved(&model);
    assert_eq!(VecModel::load_from(&bytes).unwrap(), model);
}

#[test]
fn unknown_chunks_are_skipped() {
    let model = sample_model();
    let mut bytes = saved(&model);
    // Append a future chunk type; the loader must ignore it.
    bytes.extend_from_slice(b"CHAI");
    bytes.extend_from_slice(&4u32.to_le_bytes());
    bytes.extend_from_slice(&[1, 2, 3, 4]);
    assert_eq!(VecModel::load_from(&bytes).unwrap(), model);
}

#[test]
fn rejects_bad_magic_and_truncation() {
    assert!(VecModel::load_from(b"NOPE").is_err());
    let bytes = saved(&sample_model());
    assert!(VecModel::load_from(&bytes[..bytes.len() - 3]).is_err());
}

#[test]
fn rejects_out_of_range_indices() {
    let mut model = sample_model();
    model.edges[0].a = 99;
    let bytes = saved(&model);
    assert!(VecModel::load_from(&bytes).is_err());
}

#[test]
fn edge_segments_filter_by_kind_and_apply_palette() {
    let model = sample_model();
    let always = model.edge_segments(EdgeKind::Always);
    assert_eq!(always.len(), 1);
    assert_eq!(always[0].rgb, model.palette[0]);
    let smooth = model.edge_segments(EdgeKind::Smooth);
    assert_eq!(smooth.len(), 1);
    // The renderer scales the stored intensity: 0.5 × 2.0.
    assert!((f32::from_bits(smooth[0].intensity) * 2.0 - 1.0).abs() < 1e-6, "0.5 × 2.0");
}

#[test]
fn dash_style_survives_roundtrip_and_materialization() {
    let model = sample_model();
    let bytes = saved(&model);
    let loaded = VecModel::load_from(&bytes).unwrap();
    assert_eq!(loaded.edges[0].style, STYLE_DASH);
    let segments = loaded.edge_segments(EdgeKind::Always);
    assert!(segments[0].dashed);
    assert!(!segments[0].flicker);
}

#[test]
fn saved_bytes_follow_the_layout() {
    let bytes = saved(&sample_model());
    assert_eq!(&bytes[0..4], b"VEC1");
    assert_eq!(&bytes[4..8], &1u32.to_le_bytes());
    assert_eq!(&bytes[8..12], b"PALT");
    // 4-byte count plus two 12-byte colors.
    assert_eq!(&bytes[12..16], &28u32.to_le_bytes());
    assert_eq!(&bytes[16..20], &2u32.to_le_bytes());
    // header + PALT(8+28) + VERT(8+40) + EDGE(8+84) + OCCL(8+16) + AABB(8+24)
    assert_eq!(bytes.len(), 8 + 36 + 48 + 92 + 24 + 32);
    assert_eq!(&bytes[bytes.len() - 32..bytes.len() - 28], b"AABB");
}

#[test]
fn errors_name_the_reason() {
    assert_eq!(VecModel::load_from(b"VE"), Err(VecError::UnexpectedEnd));
    assert_eq!(VecModel::load_from(b"NOPE"), Err(VecError::BadMagic));
    assert_eq!(VecModel::load_from(b"VEC1\x01\x00"), Err(VecError::UnexpectedEnd));
    let mut wrong_version = b"VEC1".to_vec();
    wrong_version.extend_from_slice(&2u32.to_le_bytes());
    assert_eq!(VecModel::load_from(&wrong_version), Err(VecError::UnsupportedVersion(2)));

    // A bare header is an empty, valid model.
    assert_eq!(VecModel::load_from(&header()), Ok(VecModel::empty()));

    // Chunk header cut short, and payload longer than the file.
    let mut cut = header();
    cut.extend_from_slice(b"PAL");
    assert_eq!(VecModel::load_from(&cut), Err(VecError::UnexpectedEnd));
    let mut long = header();
    long.extend_from_slice(b"PALT");
    long.extend_from_slice(&100u32.to_le_bytes());
    assert_eq!(VecModel::load_from(&long), Err(VecError::UnexpectedEnd));

    let mut too_many = header();
    too_many.extend(chunk(b"OCCL", &64_000_001u32.to_le_bytes()));
    assert_eq!(VecModel::load_from(&too_many), Err(VecError::CountTooLarge(64_000_001)));

    let mut mismatch = header();
    let mut payload = 2u32.to_le_bytes().to_vec();
    payload.extend_from_slice(&[0, 0, 0, 0]);
    mismatch.extend(chunk(b"OCCL", &payload));
    assert_eq!(VecModel::load_from(&mismatch), Err(VecError::ChunkLengthMismatch));

    let mut bad_kind = sample_model();
    let mut bytes = saved(&bad_kind);
    // the kind byte of the first edge: header 8, PALT 36, VERT 48, EDGE tag/len 8, count 4, a b 8, palette 1
    let kind_at = 8 + 36 + 48 + 8 + 4 + 8 + 1;
    bytes[kind_at] = 7;
    assert_eq!(VecModel::load_from(&bytes), Err(VecError::UnknownEdgeKind(7)));

    bad_kind.edges[1].palette = 5;
    assert_eq!(VecModel::load_from(&saved(&bad_kind)), Err(VecError::EdgePaletteOutOfRange));

    let mut vertex = sample_model();
    vertex.edges[1].b = 3;
    assert_eq!(VecModel::load_from(&saved(&vertex)), Err(VecError::EdgeVertexOutOfRange));

    let mut triangles = sample_model();
    triangles.occluder_indices = vec![0, 1];
    assert_eq!(VecModel::load_from(&saved(&triangles)), Err(VecError::OccluderNotTriangles));

    let mut occluder = sample_model();
    occluder.occluder_indices = vec![0, 1, 3];
    assert_eq!(VecModel::load_from(&saved(&occluder)), Err(VecError::OccluderIndexOutOfRange));
}

#[test]
fn later_chunk_replaces_earlier_and_empty_palette_means_white() {
    let mut bytes = header();
    let mut verts = 2u32.to_le_bytes().to_vec();
    for f in [0.0f32, 0.0, 0.0, 2.0, 0.0, 0.0] {
        verts.extend_from_slice(&f.to_le_bytes());
    }
    let mut first = 1u32.to_le_bytes().to_vec();
    first.extend_from_slice(&[0u8; 12]);
    bytes.extend(chunk(b"VERT", &first));
    bytes.extend(chunk(b"VERT", &verts));
    let mut edge = 1u32.to_le_bytes().to_vec();
    edge.extend_from_slice(&0u32.to_le_bytes());
    edge.extend_from_slice(&1u32.to_le_bytes());
    edge.extend_from_slice(&[9, 0, STYLE_FLICKER, 0]);
    edge.extend_from_slice(&0.25f32.to_le_bytes());
    edge.extend_from_slice(&[0u8; 24]);
    bytes.extend(chunk(b"EDGE", &edge));
    let model = VecModel::load_from(&bytes).unwrap();
    assert_eq!(model.vertices.len(), 2);
    let strokes = model.edge_segments(EdgeKind::Always);
    assert_eq!(strokes.len(), 1);
    assert_eq!(strokes[0].b, v(2.0, 0.0, 0.0));
    assert_eq!(strokes[0].rgb, v(1.0, 1.0, 1.0));
    assert!(strokes[0].flicker && !strokes[0].dashed);
    assert!(model.edge_segments(EdgeKind::Smooth).is_empty());
}

#[test]
fn validate_reports_the_first_problem() {
    let mut model = sample_model();
    assert_eq!(model.validate(), Ok(()));
    model.occluder_indices = vec![9];
    model.edges[1].a = 40;
    assert_eq!(model.validate(), Err(VecError::EdgeVertexOutOfRange));
}

#[test]
fn edge_kind_bytes() {
    assert_eq!(EdgeKind::from_u8(0), Ok(EdgeKind::Always));
    assert_eq!(EdgeKind::from_u8(1), Ok(EdgeKind::Smooth));
    assert_eq!(EdgeKind::from_u8(2), Err(VecError::UnknownEdgeKind(2)));
    assert_eq!(EdgeKind::Smooth.to_u8(), 1);
}
