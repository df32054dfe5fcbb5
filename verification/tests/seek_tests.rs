//! Tests of the seek state machine and the per-frame update pass.

use point_cloud_playback::numeric::Fraction;
use point_cloud_playback::playback::{
    PlaybackControls, PlaybackEntry, PointCloudPlaybackControls,
};
use point_cloud_playback::point_cloud::{
    Displacement, Keyframe, PointCloudAsset, Position, ScaleBits,
};
use point_cloud_playback::render::{
    prepare_animated_assets, prepare_asset, PreparedAssetEntry, SeekEffect,
};

fn disp(x: i8, y: i8, z: i8) -> Displacement {
    Displacement { x, y, z }
}

/// The synthetic asset of the concrete scenario: one point, keyframes at
/// 0, 1000 and 2000 ms displacing by (1,0,0), (0,1,0), (0,0,1), unit scale.
fn three_frame_asset() -> PointCloudAsset {
    let one = 1.0f32.to_bits();
    PointCloudAsset {
        positions: vec![Position { x: 0, y: 0, z: 0 }],
        position_denom: 65536,
        colors: None,
        animation: Some(vec![
            Keyframe { time_ms: 0, displacements: vec![disp(1, 0, 0)] },
            Keyframe { time_ms: 1000, displacements: vec![disp(0, 1, 0)] },
            Keyframe { time_ms: 2000, displacements: vec![disp(0, 0, 1)] },
        ]),
        animation_scale: ScaleBits { x: one, y: one, z: one },
    }
}

fn two_frame_asset() -> PointCloudAsset {
    PointCloudAsset {
        positions: vec![Position { x: 0, y: 0, z: 0 }],
        position_denom: 1,
        colors: None,
        animation: Some(vec![
            Keyframe { time_ms: 500, displacements: vec![disp(1, 2, 3)] },
            Keyframe { time_ms: 1000, displacements: vec![disp(4, 5, 6)] },
        ]),
        animation_scale: ScaleBits { x: 0, y: 0, z: 0 },
    }
}

#[test]
fn concrete_scenario_seek_to_midwindow() {
    let mut prepared = prepare_asset(&three_frame_asset());
    let effect = prepared.seek(500);
    let anim = prepared.animation.as_ref().unwrap();
    // Transitioning into the keyframe at 1000 ms, halfway through [0, 1000).
    assert_eq!(anim.current_frame, 1);
    assert_eq!(anim.frame_start_ms, 0);
    assert_eq!(anim.animation_time_ms, 500);
    assert_eq!(
        effect,
        SeekEffect::Swapped { wrote_prev_data: false, wrote_next_data: true }
    );
    // The "next" buffer holds the target keyframe's displacement and the
    // running interpolation scalar of one half.
    let next = if anim.next_is_b { &anim.buffer_b } else { &anim.buffer_a };
    assert_eq!(next.data, vec![disp(0, 1, 0)]);
    assert_eq!(next.interpolation, Fraction { num: 500, den: 1000 });
}

#[test]
fn seek_idempotence_no_swap_on_second_call() {
    let mut prepared = prepare_asset(&three_frame_asset());
    let first = prepared.seek(1700);
    assert!(matches!(first, SeekEffect::Swapped { .. }));
    let anim_before = prepared.animation.clone().unwrap();
    let second = prepared.seek(1700);
    // No swap and no displacement re-upload: only the scalar recompute,
    // to the numerically identical value.
    assert_eq!(second, SeekEffect::ScalarOnly);
    let anim_after = prepared.animation.as_ref().unwrap();
    assert_eq!(anim_after.current_frame, anim_before.current_frame);
    assert_eq!(anim_after.frame_start_ms, anim_before.frame_start_ms);
    assert_eq!(anim_after.next_is_b, anim_before.next_is_b);
    assert_eq!(anim_after.buffer_a.data, anim_before.buffer_a.data);
    assert_eq!(anim_after.buffer_b.data, anim_before.buffer_b.data);
    assert_eq!(
        anim_after.buffer_a.interpolation,
        anim_before.buffer_a.interpolation
    );
    assert_eq!(
        anim_after.buffer_b.interpolation,
        anim_before.buffer_b.interpolation
    );
}

#[test]
fn seek_round_trip_midpoint_is_half() {
    let mut prepared = prepare_asset(&three_frame_asset());
    prepared.seek(1700);
    let (frame, start, end) = {
        let anim = prepared.animation.as_ref().unwrap();
        let f = anim.current_frame;
        (f, anim.frame_start_ms, anim.keyframes[f].time_ms)
    };
    assert_eq!(frame, 2);
    let mid = (start + end) / 2;
    prepared.seek(mid);
    let anim = prepared.animation.as_ref().unwrap();
    assert_eq!(anim.current_frame, frame);
    let next = if anim.next_is_b { &anim.buffer_b } else { &anim.buffer_a };
    // Interpolation is exactly one half: 500 / 1000.
    assert_eq!(2 * next.interpolation.num, next.interpolation.den);
}

#[test]
fn single_keyframe_constant_interpolation_no_swap() {
    // A single-keyframe track degenerates: no seek ever swaps the buffers,
    // and the interpolation scalar is held constant at one.
    let asset = PointCloudAsset {
        positions: vec![Position { x: 0, y: 0, z: 0 }],
        position_denom: 1,
        colors: None,
        animation: Some(vec![Keyframe { time_ms: 1500, displacements: vec![disp(2, 0, 0)] }]),
        animation_scale: ScaleBits { x: 0, y: 0, z: 0 },
    };
    let mut prepared = prepare_asset(&asset);
    let first = prepared.seek(700);
    assert_eq!(first, SeekEffect::ScalarOnly);
    let second = prepared.seek(100);
    assert_eq!(second, SeekEffect::ScalarOnly);
    let anim = prepared.animation.as_ref().unwrap();
    assert_eq!(anim.current_frame, 0);
    assert_eq!(anim.frame_start_ms, 0);
    let next = if anim.next_is_b { &anim.buffer_b } else { &anim.buffer_a };
    assert_eq!(next.interpolation, Fraction { num: 1500, den: 1500 });
    // No displacement upload ever happened.
    assert_eq!(next.data, vec![disp(0, 0, 0)]);
}

#[test]
fn seek_wraparound_to_frame_zero() {
    let mut prepared = prepare_asset(&two_frame_asset());
    prepared.seek(700);
    assert_eq!(prepared.animation.as_ref().unwrap().current_frame, 1);
    // Seeking to the duration itself wraps to frame 0 at start time 0.
    prepared.seek(1000);
    let anim = prepared.animation.as_ref().unwrap();
    assert_eq!(anim.current_frame, 0);
    assert_eq!(anim.frame_start_ms, 0);
    assert_eq!(anim.animation_time_ms, 0);
}

#[test]
fn seek_beyond_duration_wraps() {
    let mut prepared = prepare_asset(&two_frame_asset());
    prepared.seek(2300);
    let anim = prepared.animation.as_ref().unwrap();
    // 2300 mod 1000 lands in frame 0's window [0, 500).
    assert_eq!(anim.animation_time_ms, 300);
    assert_eq!(anim.current_frame, 0);
    assert_eq!(anim.frame_start_ms, 0);
}

#[test]
fn monotonic_playback_matches_direct_seek() {
    // Advancing in small steps at natural speed accumulates exactly, and
    // the final (frame, interpolation) equals a single seek to the sum.
    let mut table = PointCloudPlaybackControls::new();
    table.set_controls(
        7,
        PlaybackControls { time_ms: 0, playing: true, speed_milli: 1000 },
    );
    let durations = vec![point_cloud_playback::playback::AssetDuration {
        handle: 7,
        duration_ms: 2000,
    }];
    let mut total: u64 = 0;
    for _ in 0..7 {
        table.playback_system(250, &durations);
        total += 250;
    }
    let time = table.controls(7).time_ms;
    assert_eq!(time, total % 2000);

    let mut stepped = prepare_asset(&three_frame_asset());
    for step in 1..8u64 {
        stepped.seek((step * 250) % 2000);
    }
    let mut direct = prepare_asset(&three_frame_asset());
    direct.seek(total % 2000);
    let a = stepped.animation.as_ref().unwrap();
    let b = direct.animation.as_ref().unwrap();
    assert_eq!(a.current_frame, b.current_frame);
    assert_eq!(a.frame_start_ms, b.frame_start_ms);
    let an = if a.next_is_b { &a.buffer_b } else { &a.buffer_a };
    let bn = if b.next_is_b { &b.buffer_b } else { &b.buffer_a };
    assert_eq!(an.interpolation, bn.interpolation);
}

#[test]
fn playback_reverse_speed_wraps_backward() {
    let mut table = PointCloudPlaybackControls::new();
    table.set_controls(
        1,
        PlaybackControls { time_ms: 100, playing: true, speed_milli: -1000 },
    );
    let durations = vec![point_cloud_playback::playback::AssetDuration {
        handle: 1,
        duration_ms: 1000,
    }];
    table.playback_system(300, &durations);
    assert_eq!(table.controls(1).time_ms, 800);
}

#[test]
fn playback_prunes_missing_assets() {
    let mut table = PointCloudPlaybackControls::new();
    table.set_controls(
        1,
        PlaybackControls { time_ms: 5, playing: false, speed_milli: 1000 },
    );
    table.set_controls(
        2,
        PlaybackControls { time_ms: 6, playing: false, speed_milli: 1000 },
    );
    let durations = vec![point_cloud_playback::playback::AssetDuration {
        handle: 2,
        duration_ms: 100,
    }];
    table.playback_system(10, &durations);
    // Entry 1 has no backing animated asset and is dropped; entry 2 is
    // paused and keeps its time.
    assert_eq!(table.entries.len(), 1);
    assert_eq!(
        table.entries[0],
        PlaybackEntry {
            handle: 2,
            controls: PlaybackControls { time_ms: 6, playing: false, speed_milli: 1000 },
        }
    );
    // An unknown handle reads as the defaults.
    assert_eq!(table.controls(1), PlaybackControls::default());
}

#[test]
fn controls_mut_creates_and_edits_entries() {
    let mut table = PointCloudPlaybackControls::new();
    // First access creates a default entry.
    assert_eq!(*table.controls_mut(5), PlaybackControls::default());
    // Edits through the borrow land in the table.
    table.controls_mut(5).playing = true;
    table.controls_mut(5).time_ms = 123;
    let c = table.controls(5);
    assert!(c.playing);
    assert_eq!(c.time_ms, 123);
    assert_eq!(c.speed_milli, 1000);
    // Other handles are untouched.
    assert_eq!(table.controls(6), PlaybackControls::default());
}

#[test]
fn paused_entry_does_not_advance() {
    let mut table = PointCloudPlaybackControls::new();
    table.set_controls(
        3,
        PlaybackControls { time_ms: 42, playing: false, speed_milli: 1000 },
    );
    let durations = vec![point_cloud_playback::playback::AssetDuration {
        handle: 3,
        duration_ms: 1000,
    }];
    table.playback_system(500, &durations);
    assert_eq!(table.controls(3).time_ms, 42);
}

#[test]
fn prepare_animated_assets_seeks_stale_assets() {
    let mut table = PointCloudPlaybackControls::new();
    table.set_controls(
        9,
        PlaybackControls { time_ms: 500, playing: true, speed_milli: 1000 },
    );
    let mut assets = vec![PreparedAssetEntry {
        handle: 9,
        asset: prepare_asset(&three_frame_asset()),
    }];
    prepare_animated_assets(&mut assets, &table);
    let anim = assets[0].asset.animation.as_ref().unwrap();
    assert_eq!(anim.animation_time_ms, 500);
    assert_eq!(anim.current_frame, 1);
    // A second pass with the same controller time changes nothing.
    let before = anim.clone();
    prepare_animated_assets(&mut assets, &table);
    let after = assets[0].asset.animation.as_ref().unwrap();
    assert_eq!(after.current_frame, before.current_frame);
    assert_eq!(after.next_is_b, before.next_is_b);
}

#[test]
fn prepare_asset_shapes() {
    let asset = three_frame_asset();
    let prepared = prepare_asset(&asset);
    assert_eq!(prepared.num_points, 1);
    assert!(!prepared.colored);
    // Three 4-byte position components per point.
    assert_eq!(prepared.static_buffer_size, 12);
    assert_eq!(
        point_cloud_playback::render::animation_buffer_size(1),
        12 + 4
    );
    assert_eq!(point_cloud_playback::render::static_buffer_size(10, true), 240);
    let anim = prepared.animation.as_ref().unwrap();
    assert_eq!(anim.current_frame, 0);
    assert_eq!(anim.buffer_a.data, vec![disp(0, 0, 0)]);
    assert_eq!(anim.buffer_b.data, vec![disp(0, 0, 0)]);
    assert_eq!(anim.buffer_a.interpolation, Fraction { num: 0, den: 1 });
}
