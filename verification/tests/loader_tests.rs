//! Tests of the two format loaders, through the real outside crates:
//! las byte streams written with the las crate's own writer, and opd
//! containers assembled byte by byte.

use las::Write;

use point_cloud_playback::las_loader::{
    build_asset_from_records, LasColor, LasLoader, LasLoaderError, LasPointRecord,
};
use point_cloud_playback::opd_loader::{OpdLoader, OpdLoaderError};
use point_cloud_playback::point_cloud::{PointColor, Position};
use point_cloud_playback::render::prepare_asset;

fn record(x: i64, y: i64, z: i64, intensity: u16) -> LasPointRecord {
    LasPointRecord { x, y, z, intensity, color: None }
}

#[test]
fn normalization_maps_extremes_to_unit_cube_faces() {
    // Four points spanning a known bounding box. After the axis swap the
    // normalized coordinates are numerator / denom; the extremal points
    // land exactly on 0 and on the denominator along the dominant axis.
    let records = vec![
        record(0, 0, 0, 1),
        record(10, 2, 4, 2),
        record(3, 1, 2, 3),
        record(5, 2, 1, 4),
    ];
    let asset = build_asset_from_records(&records).unwrap();
    // Swapped positions are (x, z, y): extents are 10, 4, 2; the scale is
    // the dominant extent 10.
    assert_eq!(asset.position_denom, 10);
    assert_eq!(asset.positions.len(), 4);
    assert_eq!(asset.positions[0], Position { x: 0, y: 0, z: 0 });
    assert_eq!(asset.positions[1], Position { x: 10, y: 4, z: 2 });
    assert_eq!(asset.positions[2], Position { x: 3, y: 2, z: 1 });
    assert_eq!(asset.positions[3], Position { x: 5, y: 1, z: 2 });
    // Exactly 0.0 and exactly 1.0 on the dominant axis.
    assert_eq!(asset.positions[0].x, 0);
    assert_eq!(asset.positions[1].x as u64, asset.position_denom);
}

#[test]
fn colors_match_positions_and_use_intensity_fallback() {
    let records = vec![
        LasPointRecord { x: 0, y: 0, z: 0, intensity: 37, color: None },
        LasPointRecord {
            x: 1,
            y: 1,
            z: 1,
            intensity: 0,
            color: Some(LasColor { red: 1000, green: 2000, blue: 3000 }),
        },
    ];
    let asset = build_asset_from_records(&records).unwrap();
    let colors = asset.colors.as_ref().unwrap();
    // Colors are present and there is exactly one per point.
    assert_eq!(colors.len(), asset.positions.len());
    assert_eq!(
        colors[0],
        PointColor { red: 37, green: 37, blue: 37, denom: 100 }
    );
    assert_eq!(
        colors[1],
        PointColor { red: 1000, green: 2000, blue: 3000, denom: 65535 }
    );
}

#[test]
fn empty_record_set_builds_empty_asset() {
    let asset = build_asset_from_records(&Vec::new()).unwrap();
    assert_eq!(asset.positions.len(), 0);
    assert_eq!(asset.position_denom, 1);
    assert_eq!(asset.colors.as_ref().unwrap().len(), 0);
    assert!(asset.animation.is_none());
}

#[test]
fn degenerate_cloud_maps_to_origin() {
    let records = vec![record(5, 5, 5, 1), record(5, 5, 5, 2)];
    let asset = build_asset_from_records(&records).unwrap();
    assert_eq!(asset.position_denom, 1);
    assert_eq!(asset.positions[0], Position { x: 0, y: 0, z: 0 });
    assert_eq!(asset.positions[1], Position { x: 0, y: 0, z: 0 });
}

fn write_las_bytes(points: Vec<las::Point>) -> Vec<u8> {
    let mut writer = las::Writer::default();
    for p in points {
        writer.write(p).unwrap();
    }
    writer.into_inner().unwrap().into_inner()
}

#[test]
fn las_end_to_end_normalizes_written_points() {
    // Written through the las crate's writer and read back through the
    // loader: the decoded records must reproduce the written coordinates,
    // so the normalized output matches building from those records.
    let points = vec![
        las::Point { x: 0.0, y: 0.0, z: 0.0, intensity: 10, ..Default::default() },
        las::Point { x: 8.0, y: 2.0, z: 4.0, intensity: 20, ..Default::default() },
        las::Point { x: 2.0, y: 1.0, z: 3.0, intensity: 30, ..Default::default() },
        las::Point { x: 5.0, y: 0.0, z: 1.0, intensity: 40, ..Default::default() },
    ];
    let bytes = write_las_bytes(points);
    let asset = LasLoader.load(&bytes).unwrap();
    let expected = build_asset_from_records(&vec![
        record(0, 0, 0, 10),
        record(8, 2, 4, 20),
        record(2, 1, 3, 30),
        record(5, 0, 1, 40),
    ])
    .unwrap();
    assert_eq!(asset.position_denom, expected.position_denom);
    assert_eq!(asset.positions, expected.positions);
    assert_eq!(asset.colors.as_ref().unwrap(), expected.colors.as_ref().unwrap());
    assert!(asset.animation.is_none());
    // The dominant (swapped x) axis spans [0, 8]: extremes map exactly.
    assert_eq!(asset.position_denom, 8);
    assert_eq!(asset.positions[0], Position { x: 0, y: 0, z: 0 });
    assert_eq!(asset.positions[1].x, 8);
}

#[test]
fn las_rejects_garbage() {
    let r = LasLoader.load(b"not a las file at all");
    assert!(matches!(r, Err(LasLoaderError::Parse(_))));
}

#[test]
fn las_forged_large_count_is_rejected_before_decode() {
    // A complete fixed-size header declaring the 64-bit count path: the
    // magic tag, version 1.4, a zero legacy count, and a 64-bit count
    // whose product with the record length exceeds 64-bit arithmetic.
    // The loader must reject it up front instead of handing it to the
    // decoder, whose size multiply would overflow.
    let mut b = vec![0u8; 375];
    b[0..4].copy_from_slice(b"LASF");
    b[24] = 1;
    b[25] = 4;
    b[94..96].copy_from_slice(&375u16.to_le_bytes());
    b[96..100].copy_from_slice(&375u32.to_le_bytes());
    b[104] = 6;
    b[105..107].copy_from_slice(&30u16.to_le_bytes());
    // Legacy count at 107..111 stays zero, selecting the 64-bit count.
    b[247..255].copy_from_slice(&(u64::MAX / 2).to_le_bytes());
    let r = LasLoader.load(&b);
    assert!(matches!(r, Err(LasLoaderError::SizeOverflow)));

    // The same header with a modest count is not caught by the guard.
    b[247..255].copy_from_slice(&4u64.to_le_bytes());
    let r2 = LasLoader.load(&b);
    assert!(!matches!(r2, Err(LasLoaderError::SizeOverflow)));
}

/// Assembles an opd container: the magic tag, the length-prefixed JSON
/// header, `n` centroid records, and the raw frame data.
fn opd_bytes(json: &str, centroids: &[(u32, f32, f32, f32)], frame_data: &[i8]) -> Vec<u8> {
    let mut b: Vec<u8> = Vec::new();
    b.extend_from_slice(b".opd");
    b.extend_from_slice(&(json.len() as u32).to_be_bytes());
    b.extend_from_slice(json.as_bytes());
    for &(parent, x, y, z) in centroids {
        b.extend_from_slice(&parent.to_be_bytes());
        b.extend_from_slice(&x.to_bits().to_be_bytes());
        b.extend_from_slice(&y.to_bits().to_be_bytes());
        b.extend_from_slice(&z.to_bits().to_be_bytes());
    }
    for &d in frame_data {
        b.push(d as u8);
    }
    b
}

fn three_frame_json() -> String {
    String::from("{\"version\":\"1\",\"type\":\"replay\",\"directive\":{\"version\":\"1\",\"meta\":{\"projectId\":\"p\",\"projectName\":\"n\"},\"numCentroids\":1,\"origin\":{\"x\":0.0,\"y\":0.0,\"z\":0.0},\"precision\":1,\"scale\":[1.0,1.0,1.0],\"frames\":[{\"time\":0.0,\"offset\":16},{\"time\":1000.0,\"offset\":19},{\"time\":2000.0,\"offset\":22}]}}")
}

#[test]
fn opd_end_to_end_concrete_scenario() {
    // The concrete scenario, loaded from bytes: one point, keyframes at
    // 0, 1000 and 2000 ms displacing by (1,0,0), (0,1,0), (0,0,1), unit
    // scale. Seeking to 500 ms enters frame 1 with interpolation 1/2 and
    // the target displacement in the "next" buffer.
    let bytes = opd_bytes(
        &three_frame_json(),
        &[(0, 2.0, 3.0, 4.0)],
        &[1, 0, 0, 0, 1, 0, 0, 0, 1],
    );
    let asset = OpdLoader.load(&bytes).unwrap();
    assert!(asset.colors.is_none());
    assert_eq!(asset.position_denom, 65536);
    // A single centroid recenters to the origin.
    assert_eq!(asset.positions, vec![Position { x: 0, y: 0, z: 0 }]);
    let one = 1.0f32.to_bits();
    assert_eq!(asset.animation_scale.x, one);
    let frames = asset.animation.as_ref().unwrap();
    assert_eq!(frames.len(), 3);
    assert_eq!(frames[0].time_ms, 0);
    assert_eq!(frames[1].time_ms, 1000);
    assert_eq!(frames[2].time_ms, 2000);
    assert_eq!(
        frames[1].displacements,
        vec![point_cloud_playback::point_cloud::Displacement { x: 0, y: 1, z: 0 }]
    );
    assert_eq!(asset.animation_duration(), Some(2000));

    let mut prepared = prepare_asset(&asset);
    prepared.seek(500);
    let anim = prepared.animation.as_ref().unwrap();
    assert_eq!(anim.current_frame, 1);
    let next = if anim.next_is_b { &anim.buffer_b } else { &anim.buffer_a };
    assert_eq!(
        next.data,
        vec![point_cloud_playback::point_cloud::Displacement { x: 0, y: 1, z: 0 }]
    );
    assert_eq!(
        next.interpolation,
        point_cloud_playback::numeric::Fraction { num: 500, den: 1000 }
    );
}

#[test]
fn opd_recenters_to_box_middle() {
    let json = String::from("{\"version\":\"1\",\"type\":\"replay\",\"directive\":{\"version\":\"1\",\"meta\":{\"projectId\":\"p\",\"projectName\":\"n\"},\"numCentroids\":2,\"origin\":{\"x\":0.0,\"y\":0.0,\"z\":0.0},\"precision\":1,\"scale\":[1.0,1.0,1.0],\"frames\":[]}}");
    let bytes = opd_bytes(&json, &[(0, 0.0, 0.0, 0.0), (1, 4.0, 2.0, 6.0)], &[]);
    let asset = OpdLoader.load(&bytes).unwrap();
    // The box middle (2, 1, 3) is subtracted; 2^16 units per whole unit.
    assert_eq!(
        asset.positions,
        vec![
            Position { x: -2 << 16, y: -1 << 16, z: -3 << 16 },
            Position { x: 2 << 16, y: 1 << 16, z: 3 << 16 },
        ]
    );
    // No frames: a static asset.
    assert!(asset.animation.is_none());
}

#[test]
fn opd_error_variants() {
    assert!(matches!(
        OpdLoader::load_opd(b"nope"),
        Err(OpdLoaderError::Magic)
    ));
    assert!(matches!(
        OpdLoader::load_opd(b".opd\x00\x00"),
        Err(OpdLoaderError::TruncatedHeader)
    ));
    assert!(matches!(
        OpdLoader::load_opd(b".opd\x00\x00\x00\xff"),
        Err(OpdLoaderError::TruncatedHeader)
    ));
    let bad_json = opd_bytes("{\"version\":2}", &[], &[]);
    assert!(matches!(
        OpdLoader::load_opd(&bad_json),
        Err(OpdLoaderError::HeaderJson(_))
    ));
    let no_count = String::from("{\"version\":\"1\",\"type\":\"replay\",\"directive\":{\"version\":\"1\",\"meta\":{\"projectId\":\"p\",\"projectName\":\"n\"},\"origin\":{\"x\":0.0,\"y\":0.0,\"z\":0.0},\"precision\":1,\"scale\":[1.0,1.0,1.0],\"frames\":[]}}");
    assert!(matches!(
        OpdLoader::load_opd(&opd_bytes(&no_count, &[], &[])),
        Err(OpdLoaderError::MissingCentroidCount)
    ));
    let wide = three_frame_json().replace("\"precision\":1", "\"precision\":2");
    assert!(matches!(
        OpdLoader::load_opd(&opd_bytes(&wide, &[(0, 0.0, 0.0, 0.0)], &[0; 9])),
        Err(OpdLoaderError::UnsupportedEncoding(2))
    ));
    // Centroid table truncated.
    assert!(matches!(
        OpdLoader::load_opd(&opd_bytes(&three_frame_json(), &[], &[])),
        Err(OpdLoaderError::Truncated)
    ));
    // A NaN coordinate.
    assert!(matches!(
        OpdLoader::load_opd(&opd_bytes(
            &three_frame_json(),
            &[(0, f32::NAN, 0.0, 0.0)],
            &[0; 9],
        )),
        Err(OpdLoaderError::InvalidCoordinate)
    ));
    // Frame data truncated: the last frame must hold exactly 3 bytes.
    assert!(matches!(
        OpdLoader::load_opd(&opd_bytes(
            &three_frame_json(),
            &[(0, 0.0, 0.0, 0.0)],
            &[1, 0, 0, 0, 1, 0],
        )),
        Err(OpdLoaderError::FrameSizeMismatch)
    ));
    // A frame offset before the end of the centroid table.
    let bad_offsets = three_frame_json().replace("\"offset\":16", "\"offset\":2");
    assert!(matches!(
        OpdLoader::load_opd(&opd_bytes(
            &bad_offsets,
            &[(0, 0.0, 0.0, 0.0)],
            &[1, 0, 0, 0, 1, 0, 0, 0, 1],
        )),
        Err(OpdLoaderError::InvalidFrameOffsets)
    ));
    // Timestamps out of order.
    let unordered = three_frame_json().replace("\"time\":2000.0", "\"time\":500.0");
    assert!(matches!(
        OpdLoader::load_opd(&opd_bytes(
            &unordered,
            &[(0, 0.0, 0.0, 0.0)],
            &[1, 0, 0, 0, 1, 0, 0, 0, 1],
        )),
        Err(OpdLoaderError::InvalidTimestamps)
    ));
}

#[test]
fn opd_zero_centroids_with_frames_is_rejected() {
    // An animated container declaring zero centroids: no frame extent of
    // three bytes per point can carry a frame.
    let json = String::from("{\"version\":\"1\",\"type\":\"replay\",\"directive\":{\"version\":\"1\",\"meta\":{\"projectId\":\"p\",\"projectName\":\"n\"},\"numCentroids\":0,\"origin\":{\"x\":0.0,\"y\":0.0,\"z\":0.0},\"precision\":1,\"scale\":[1.0,1.0,1.0],\"frames\":[{\"time\":1000.0,\"offset\":0}]}}");
    let r = OpdLoader::load_opd(&opd_bytes(&json, &[], &[]));
    assert!(matches!(r, Err(OpdLoaderError::FrameSizeMismatch)));
}

#[test]
fn loader_extensions() {
    assert_eq!(LasLoader.extensions(), vec!["las", "laz"]);
    assert_eq!(OpdLoader.extensions(), vec!["opd"]);
}
