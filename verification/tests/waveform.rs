use prv_core::time::frames::Frames;
use prv_core::waveform::{
    check_chunk, covered_tiles, floor_divide, GenerationVersion, Viewport, Waveform, WaveformError,
    WaveformLevel, MAX_TILES_PER_LEVEL, RESOLUTION_LADDER,
};

#[test]
fn versions_are_compared_exactly() {
    assert!(GenerationVersion::current().is_current());
    assert!(!GenerationVersion::new(0).is_current());
    assert!(!GenerationVersion::new(GenerationVersion::current().get() + 1).is_current());
}

#[test]
fn a_degenerate_viewport_is_rejected() {
    assert!(Viewport::new(Frames::new(0), Frames::new(0), 100).is_none());
    assert!(Viewport::new(Frames::new(100), Frames::new(50), 100).is_none());
    assert!(Viewport::new(Frames::new(0), Frames::new(100), 0).is_none());
    assert!(Viewport::new(Frames::new(0), Frames::new(100), 10).is_some());
}

#[test]
fn a_viewport_spans_its_frames() {
    let viewport = Viewport::new(Frames::new(0), Frames::new(48_000), 1_000).expect("valid");
    assert_eq!(viewport.frame_span(), 48_000);
    let wide = Viewport::new(Frames::new(i64::MIN), Frames::new(i64::MAX), 1).expect("valid");
    assert_eq!(wide.frame_span(), i64::MAX);
}

#[test]
fn the_resolution_ladder_is_strictly_ascending_and_aligned() {
    let mut previous = 0_u32;
    for samples in RESOLUTION_LADDER {
        assert!(samples > previous, "the ladder must ascend");
        if previous > 0 {
            assert_eq!(samples % previous, 0, "{samples} must be a multiple of {previous}");
        }
        assert!(samples.is_power_of_two());
        previous = samples;
    }
}

#[test]
fn waveform_errors_read_as_sentences() {
    assert_eq!(
        WaveformError::ZeroChannels.to_text(),
        "a waveform must have at least one channel"
    );
    assert_eq!(
        WaveformError::ChannelCountMismatch {
            expected: 2,
            supplied: 1
        }
        .to_text(),
        "expected 2 channels, got 1"
    );
    assert_eq!(
        WaveformError::RaggedChunk.to_text(),
        "channels in a chunk must be the same length"
    );
    assert_eq!(
        WaveformError::TooLarge.to_text(),
        "waveform exceeds the allocation bound"
    );
}

#[test]
fn division_floors_before_the_start_of_the_audio() {
    assert_eq!(floor_divide(7, 2), 3);
    assert_eq!(floor_divide(-7, 2), -4);
    assert_eq!(floor_divide(-8, 2), -4);
    assert_eq!(floor_divide(0, 3), 0);
    assert_eq!(floor_divide(i64::MIN, 1), i64::MIN);
    assert_eq!(floor_divide(5, 0), 0);
}

#[test]
fn columns_partition_the_window_without_drift() {
    let viewport = Viewport::new(Frames::new(0), Frames::new(1_000), 3).expect("a window");
    assert_eq!(viewport.column_frames(0), (0, 333));
    assert_eq!(viewport.column_frames(1), (333, 666));
    assert_eq!(viewport.column_frames(2), (666, 1_000));

    let before = Viewport::new(Frames::new(-10), Frames::new(10), 4).expect("a window");
    assert_eq!(before.column_frames(0), (-10, -5));
    assert_eq!(before.column_frames(3), (5, 10));
}

#[test]
fn a_column_touches_every_tile_it_overlaps_and_no_other() {
    assert_eq!(covered_tiles(0, 64, 64, 10), Some((0, 1)));
    assert_eq!(covered_tiles(0, 65, 64, 10), Some((0, 2)));
    assert_eq!(covered_tiles(63, 64, 64, 10), Some((0, 1)));
    assert_eq!(covered_tiles(-100, 10, 64, 10), Some((0, 1)));
    assert_eq!(covered_tiles(0, 10_000, 64, 10), Some((0, 10)));
}

#[test]
fn a_column_beyond_the_audio_touches_nothing() {
    assert_eq!(covered_tiles(640, 700, 64, 10), None);
    assert_eq!(covered_tiles(10, 10, 64, 10), None);
    assert_eq!(covered_tiles(10, 5, 64, 10), None);
    assert_eq!(covered_tiles(0, 10, 0, 10), None);
    assert_eq!(covered_tiles(0, 10, 64, 0), None);
}

#[test]
fn channels_of_different_lengths_are_refused() {
    assert_eq!(check_chunk(2, 0, &[10, 9]), Err(WaveformError::RaggedChunk));
}

#[test]
fn a_chunk_with_another_channel_count_is_refused() {
    assert_eq!(
        check_chunk(2, 0, &[10]),
        Err(WaveformError::ChannelCountMismatch {
            expected: 2,
            supplied: 1
        })
    );
}

#[test]
fn a_chunk_without_channels_is_rejected() {
    assert_eq!(check_chunk(0, 0, &[]), Err(WaveformError::ZeroChannels));
}

#[test]
fn progress_is_the_frames_consumed_so_far() {
    assert_eq!(check_chunk(2, 0, &[1_000, 1_000]), Ok(1_000));
    assert_eq!(check_chunk(2, 1_000, &[24, 24]), Ok(1_024));
}

#[test]
fn more_audio_than_the_bound_allows_is_refused() {
    let limit = MAX_TILES_PER_LEVEL * 64 + 63;
    assert_eq!(check_chunk(1, limit, &[0]), Ok(limit));
    assert_eq!(check_chunk(1, limit, &[1]), Err(WaveformError::TooLarge));
    assert_eq!(check_chunk(1, u64::MAX, &[1]), Err(WaveformError::TooLarge));
}

#[test]
fn a_viewport_reads_its_frames_and_width() {
    let viewport = Viewport::new(Frames::new(0), Frames::new(44_100), 800).expect("a window");
    assert_eq!(viewport.to_text(), "0..44100 across 800 px");
}

#[test]
fn a_level_lays_its_channels_out_one_after_another() {
    let level = WaveformLevel::from_columns(64, vec![vec![1_u8, 2, 3], vec![4, 5, 6]]);
    assert_eq!(level.samples_per_tile(), 64);
    assert_eq!(level.channels(), 2);
    assert_eq!(level.tiles_per_channel(), 3);
    assert_eq!(level.channel(0), Some(&[1_u8, 2, 3][..]));
    assert_eq!(level.channel(1), Some(&[4_u8, 5, 6][..]));
    assert_eq!(level.tile(1, 2), Some(6));
}

#[test]
fn lookups_past_the_level_return_none_rather_than_panicking() {
    let level = WaveformLevel::from_columns(64, vec![vec![1.0_f32, 2.0], vec![3.0, 4.0]]);
    assert_eq!(level.channel(2), None);
    assert_eq!(level.channel(usize::MAX), None);
    assert_eq!(level.tile(0, 2), None);
    assert_eq!(level.tile(5, 0), None);

    let empty: WaveformLevel<f32> = WaveformLevel::from_columns(64, Vec::new());
    assert_eq!(empty.channels(), 0);
    assert_eq!(empty.tiles_per_channel(), 0);
}

#[test]
fn a_waveform_records_what_it_summarised_and_its_generation() {
    let levels = vec![
        WaveformLevel::from_columns(64, vec![vec![0_u8; 4]]),
        WaveformLevel::from_columns(256, vec![vec![0_u8; 1]]),
    ];
    let waveform = Waveform::new(1, 200, levels);
    assert_eq!(waveform.channels(), 1);
    assert_eq!(waveform.total_frames(), 200);
    assert!(waveform.is_current());
    assert_eq!(waveform.version(), GenerationVersion::current());
    assert_eq!(waveform.levels().len(), 2);
    assert_eq!(waveform.level(1).map(|level| level.samples_per_tile()), Some(256));
    assert!(waveform.level(2).is_none());
}

#[test]
fn a_generation_reads_with_its_number() {
    assert_eq!(GenerationVersion::current().to_text(), "v1");
    assert_eq!(GenerationVersion::new(12).to_text(), "v12");
}
