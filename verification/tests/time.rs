use prv_core::time::beat_grid::{
    floor_to_multiple, round_to_multiple, BeatGrid, SnapResolution, DEFAULT_PHRASE_BARS,
};
use prv_core::time::clock::TransportClock;
use prv_core::time::conversion::{div_round_nearest, frames_from_ticks, saturate_to_i64, ticks_from_frames};
use prv_core::time::error::TimeError;
use prv_core::time::frames::Frames;
use prv_core::time::musical_time::{MusicalTime, Ticks, TICKS_PER_BEAT, TICKS_PER_WHOLE_NOTE};
use prv_core::time::sample_rate::{SampleRate, MAX_HZ, MIN_HZ};
use prv_core::time::signature::TimeSignature;
use prv_core::time::tempo::Tempo;
use prv_core::time::tempo_map::{TempoMap, MAX_SEGMENTS};

/// A tempo given in beats per minute, rounded to the nearest microsecond per
/// beat; 120 BPM when out of range.
fn tempo_at(bpm: f64) -> Tempo {
    let micros = (60_000_000.0 / bpm).round() as u64;
    Tempo::from_rounded_beat_length(micros).unwrap_or(Tempo::bpm_120())
}

// ---- frames

#[test]
fn arithmetic_is_exact() {
    let a = Frames::new(22_050);
    let b = Frames::new(1_000);
    assert_eq!((a + b).get(), 23_050);
    assert_eq!((a - b).get(), 21_050);
    assert_eq!((-b).get(), -1_000);
    assert_eq!(b.abs().get(), 1_000);
    assert_eq!((-b).abs().get(), 1_000);
}

#[test]
fn addition_saturates_rather_than_wrapping() {
    let huge = Frames::new(i64::MAX);
    assert_eq!((huge + Frames::new(1)).get(), i64::MAX);
    assert_eq!(huge.checked_add(Frames::new(1)), None);
}

#[test]
fn subtraction_saturates_rather_than_wrapping() {
    let tiny = Frames::new(i64::MIN);
    assert_eq!((tiny - Frames::new(1)).get(), i64::MIN);
    assert_eq!(tiny.checked_sub(Frames::new(1)), None);
}

// ---- musical time

#[test]
fn tick_resolution_divides_every_common_subdivision() {
    for divisor in [2_u32, 3, 4, 5, 6, 8, 10, 12, 16, 24, 32, 64, 128] {
        assert_eq!(TICKS_PER_BEAT % divisor, 0, "TICKS_PER_BEAT must divide exactly by {divisor}");
    }
}

#[test]
fn whole_note_divides_by_every_supported_denominator() {
    for denominator in [1_u32, 2, 4, 8, 16, 32] {
        assert_eq!(TICKS_PER_WHOLE_NOTE % denominator, 0, "whole note must divide exactly by {denominator}");
    }
}

#[test]
fn ticks_arithmetic_saturates() {
    assert_eq!(Ticks::from_beats(2).get(), i64::from(TICKS_PER_BEAT) * 2);
    assert_eq!((Ticks::beat() + Ticks::beat()).get(), i64::from(TICKS_PER_BEAT) * 2);
    assert_eq!((Ticks::beat() - Ticks::beat()).get(), 0);
    assert_eq!(Ticks::new(i64::MAX) + Ticks::new(1), Ticks::new(i64::MAX));
}

#[test]
fn display_uses_counting_numbers() {
    assert_eq!(MusicalTime::zero().to_text(), "1.1.0");
    assert_eq!(MusicalTime::new(3, 2, 960).to_text(), "4.3.960");
}

#[test]
fn beat_and_bar_predicates() {
    assert!(MusicalTime::zero().is_on_beat());
    assert!(MusicalTime::zero().is_on_bar());
    assert!(MusicalTime::new(1, 2, 0).is_on_beat());
    assert!(!MusicalTime::new(1, 2, 0).is_on_bar());
    assert!(!MusicalTime::new(1, 0, 5).is_on_beat());
}

// ---- sample rate

#[test]
fn accepts_the_professional_rates() {
    for hz in [44_100, 48_000, 88_200, 96_000, 176_400, 192_000] {
        let rate = SampleRate::new(hz);
        assert!(rate.is_ok(), "{hz} Hz should be accepted");
        assert_eq!(rate.map(SampleRate::hz), Ok(hz));
    }
}

#[test]
fn rejects_zero() {
    assert_eq!(SampleRate::new(0), Err(TimeError::UnsupportedSampleRate { hz: 0 }));
}

#[test]
fn rejects_out_of_range() {
    assert!(SampleRate::new(MIN_HZ - 1).is_err());
    assert!(SampleRate::new(MAX_HZ + 1).is_err());
    assert!(SampleRate::new(MIN_HZ).is_ok());
    assert!(SampleRate::new(MAX_HZ).is_ok());
}

#[test]
fn constants_match_their_names() {
    assert_eq!(SampleRate::hz_44100().hz(), 44_100);
    assert_eq!(SampleRate::hz_48000().hz(), 48_000);
    assert_eq!(SampleRate::hz_88200().hz(), 88_200);
    assert_eq!(SampleRate::hz_96000().hz(), 96_000);
    assert_eq!(SampleRate::hz_176400().hz(), 176_400);
    assert_eq!(SampleRate::hz_192000().hz(), 192_000);
}

// ---- signature

#[test]
fn four_four_bar_is_four_beats() {
    assert_eq!(TimeSignature::four_four().ticks_per_bar(), TICKS_PER_BEAT * 4);
}

#[test]
fn six_eight_bar_is_three_quarter_notes() {
    assert_eq!(TimeSignature::six_eight().ticks_per_bar(), TICKS_PER_BEAT * 3);
}

#[test]
fn seven_eight_bar_is_three_and_a_half_quarter_notes() {
    let signature = TimeSignature::new(7, 8);
    assert!(signature.is_ok());
    if let Ok(signature) = signature {
        assert_eq!(signature.ticks_per_bar(), 1_920 * 7, "a 7/8 bar is exactly three and a half quarter notes");
    }
}

#[test]
fn rejects_invalid_signatures() {
    assert!(matches!(TimeSignature::new(0, 4), Err(TimeError::InvalidSignatureNumerator { numerator: 0 })));
    assert!(matches!(TimeSignature::new(4, 0), Err(TimeError::InvalidSignatureDenominator { denominator: 0 })));
    assert!(matches!(TimeSignature::new(4, 6), Err(TimeError::InvalidSignatureDenominator { denominator: 6 })));
    assert!(matches!(TimeSignature::new(4, 64), Err(TimeError::InvalidSignatureDenominator { denominator: 64 })));
}

#[test]
fn decomposition_is_correct_at_bar_boundaries() {
    let signature = TimeSignature::four_four();
    let one_bar = Ticks::new(i64::from(TICKS_PER_BEAT) * 4);
    assert_eq!(signature.ticks_to_musical(Ticks::zero()), MusicalTime::new(0, 0, 0));
    assert_eq!(signature.ticks_to_musical(one_bar), MusicalTime::new(1, 0, 0));
    assert_eq!(signature.ticks_to_musical(Ticks::new(one_bar.get() - 1)), MusicalTime::new(0, 3, TICKS_PER_BEAT - 1));
}

#[test]
fn negative_positions_floor_rather_than_truncate() {
    let signature = TimeSignature::four_four();
    let one_tick_before_origin = Ticks::new(-1);
    assert_eq!(signature.ticks_to_musical(one_tick_before_origin), MusicalTime::new(-1, 3, TICKS_PER_BEAT - 1));
    let one_bar_before = Ticks::new(-(i64::from(TICKS_PER_BEAT) * 4));
    assert_eq!(signature.ticks_to_musical(one_bar_before), MusicalTime::new(-1, 0, 0));
}

#[test]
fn composition_and_decomposition_round_trip() {
    let signatures = [TimeSignature::four_four(), TimeSignature::three_four(), TimeSignature::six_eight()];
    for signature in signatures {
        for raw in [-9_600_i64, -1, 0, 1, 960, 3_839, 15_360, 1_000_000] {
            let ticks = Ticks::new(raw);
            let musical = signature.ticks_to_musical(ticks);
            assert_eq!(signature.musical_to_ticks(musical), ticks, "round trip failed at {raw} ticks");
        }
    }
}

#[test]
fn out_of_range_components_carry_into_the_next_bar() {
    let signature = TimeSignature::four_four();
    let overflowing = MusicalTime::new(0, 4, 0);
    let normalised = signature.ticks_to_musical(signature.musical_to_ticks(overflowing));
    assert_eq!(normalised, MusicalTime::new(1, 0, 0));
}

// ---- tempo

#[test]
fn one_hundred_twenty_bpm_is_exactly_half_a_second_per_beat() {
    assert_eq!(tempo_at(120.0).micros_per_beat(), 500_000);
    assert_eq!(Tempo::bpm_120().micros_per_beat(), 500_000);
}

#[test]
fn every_tempo_from_twenty_to_nine_hundred_ninety_nine_bpm_is_held_once_rounded() {
    for bpm in [20.0_f64, 60.0, 90.0, 120.0, 124.0, 128.0, 140.0, 174.0, 200.0, 999.0] {
        let micros = (60_000_000.0 / bpm).round() as u64;
        let tempo = Tempo::from_rounded_beat_length(micros);
        assert!(tempo.is_ok(), "{bpm} BPM should be accepted");
        assert_eq!(tempo.map(Tempo::micros_per_beat), Ok(micros));
    }
    assert_eq!(
        Tempo::from_rounded_beat_length(60_059),
        Err(TimeError::TempoOutOfRange { micros_per_beat: 60_059 })
    );
    assert_eq!(
        Tempo::from_rounded_beat_length(3_000_001),
        Err(TimeError::TempoOutOfRange { micros_per_beat: 3_000_001 })
    );
}

#[test]
fn a_beat_length_given_exactly_must_lie_within_the_range() {
    assert_eq!(
        Tempo::from_micros_per_beat(60_060),
        Err(TimeError::TempoOutOfRange { micros_per_beat: 60_060 })
    );
    assert_eq!(Tempo::from_micros_per_beat(60_061).map(Tempo::micros_per_beat), Ok(60_061));
    assert_eq!(Tempo::from_micros_per_beat(3_000_000).map(Tempo::micros_per_beat), Ok(3_000_000));
}

#[test]
fn zero_micros_per_beat_is_rejected() {
    assert!(matches!(Tempo::from_micros_per_beat(0), Err(TimeError::TempoOutOfRange { .. })));
}

#[test]
fn half_and_double_time_are_exact_for_even_values() {
    let tempo = Tempo::bpm_120();
    let doubled = tempo.doubled();
    let halved = tempo.halved();
    assert_eq!(doubled.map(Tempo::micros_per_beat), Ok(250_000));
    assert_eq!(halved.map(Tempo::micros_per_beat), Ok(1_000_000));
}

#[test]
fn doubling_past_the_maximum_is_rejected() {
    let fast = tempo_at(900.0);
    assert_eq!(fast.micros_per_beat(), 66_667);
    assert!(matches!(fast.doubled(), Err(TimeError::TempoOutOfRange { .. })));
}

#[test]
fn halving_past_the_minimum_is_rejected() {
    let slow = tempo_at(25.0);
    assert_eq!(slow.micros_per_beat(), 2_400_000);
    assert!(matches!(slow.halved(), Err(TimeError::TempoOutOfRange { .. })));
}

// ---- conversion

#[test]
fn rounding_is_symmetric_about_zero() {
    assert_eq!(div_round_nearest(10, 4), 3);
    assert_eq!(div_round_nearest(-10, 4), -3);
    assert_eq!(div_round_nearest(2, 4), 1);
    assert_eq!(div_round_nearest(-2, 4), -1);
    assert_eq!(div_round_nearest(0, 4), 0);
    assert_eq!(div_round_nearest(1, 0), 0);
}

#[test]
fn saturation_clamps_rather_than_wrapping() {
    assert_eq!(saturate_to_i64(i128::from(i64::MAX) + 1), i64::MAX);
    assert_eq!(saturate_to_i64(i128::from(i64::MIN) - 1), i64::MIN);
    assert_eq!(saturate_to_i64(42), 42);
}

#[test]
fn conversion_one_beat_at_128_bpm_is_22500_frames_at_48k() {
    let frames = frames_from_ticks(i64::from(TICKS_PER_BEAT), SampleRate::hz_48000(), Tempo::bpm_128());
    assert_eq!(frames, 22_500);
    assert_eq!(ticks_from_frames(22_500, SampleRate::hz_48000(), Tempo::bpm_128()), i64::from(TICKS_PER_BEAT));
}

#[test]
fn conversions_are_sign_symmetric() {
    let rate = SampleRate::hz_48000();
    let tempo = Tempo::bpm_120();
    for beats in 1..64_i64 {
        let ticks = beats * i64::from(TICKS_PER_BEAT);
        let forward = frames_from_ticks(ticks, rate, tempo);
        let backward = frames_from_ticks(-ticks, rate, tempo);
        assert_eq!(forward, -backward, "conversion must be odd-symmetric");
    }
}

// ---- clock

fn clock_at(bpm: f64) -> TransportClock {
    TransportClock::new(SampleRate::hz_48000(), tempo_at(bpm), TimeSignature::four_four())
}

#[test]
fn clock_one_beat_at_128_bpm_is_22500_frames_at_48k() {
    let clock = clock_at(128.0);
    assert_eq!(clock.ticks_to_frames(Ticks::beat()), Frames::new(22_500));
}

#[test]
fn advancing_never_drifts() {
    let mut clock = clock_at(128.0);
    let block = 128_u32;
    let blocks = 100_000_u32;
    for _ in 0..blocks {
        clock.advance(block);
    }
    assert_eq!(clock.position(), Frames::new(i64::from(block) * i64::from(blocks)));
}

#[test]
fn six_hours_of_playback_has_zero_drift() {
    let mut clock = clock_at(124.0);
    let block = 512_u32;
    let blocks = 2_025_000_i64;
    for _ in 0..blocks {
        clock.advance(block);
    }
    let expected = Frames::new(blocks * i64::from(block));
    assert_eq!(expected.get(), 48_000 * 3_600 * 6);
    assert_eq!(clock.position(), expected);
    let ticks_direct = clock.frames_to_ticks(expected);
    assert_eq!(clock.ticks(), ticks_direct);
}

#[test]
fn tick_to_frame_round_trip_is_exact_across_the_musical_range() {
    for bpm in [20.0_f64, 60.0, 90.0, 120.0, 124.0, 128.0, 140.0, 174.0, 200.0, 300.0] {
        let clock = clock_at(bpm);
        for beats in 0..512_i64 {
            let ticks = Ticks::from_beats(beats);
            let frames = clock.ticks_to_frames(ticks);
            assert_eq!(clock.frames_to_ticks(frames), ticks, "round trip failed at {bpm} BPM, beat {beats}");
        }
    }
}

#[test]
fn musical_position_tracks_the_beat_grid() {
    let mut clock = clock_at(120.0);
    clock.advance(24_000);
    assert_eq!(clock.musical_position(), MusicalTime::new(0, 1, 0));
    clock.advance(24_000 * 3);
    assert_eq!(clock.musical_position(), MusicalTime::new(1, 0, 0));
}

#[test]
fn changing_tempo_preserves_the_current_musical_position() {
    let mut clock = clock_at(120.0);
    clock.advance(24_000 * 5);
    let before = clock.musical_position();
    assert_eq!(before, MusicalTime::new(1, 1, 0));
    clock.set_tempo(tempo_at(160.0));
    assert_eq!(clock.musical_position(), before);
    assert_eq!(clock.position(), Frames::new(24_000 * 5));
}

#[test]
fn tempo_change_advances_at_the_new_rate() {
    let mut clock = clock_at(120.0);
    clock.set_tempo(tempo_at(240.0));
    clock.advance(12_000);
    assert_eq!(clock.musical_position(), MusicalTime::new(0, 1, 0));
}

#[test]
fn sample_rate_change_preserves_musical_position() {
    let mut clock = clock_at(120.0);
    clock.advance(24_000 * 6);
    let before = clock.musical_position();
    clock.set_sample_rate(SampleRate::hz_96000());
    assert_eq!(clock.musical_position(), before);
    assert_eq!(clock.sample_rate(), SampleRate::hz_96000());
    assert_eq!(clock.position(), Frames::new(24_000 * 6 * 2));
}

#[test]
fn seek_musical_lands_on_the_requested_position() {
    let mut clock = clock_at(128.0);
    clock.seek_musical(MusicalTime::new(16, 2, 1_920));
    assert_eq!(clock.musical_position(), MusicalTime::new(16, 2, 1_920));
}

#[test]
fn snapshot_is_self_consistent() {
    let mut clock = clock_at(128.0);
    clock.advance(22_500 * 9);
    let snapshot = clock.snapshot();
    assert_eq!(snapshot.position, clock.position());
    assert_eq!(snapshot.ticks, clock.ticks());
    assert_eq!(snapshot.musical, clock.musical_position());
    assert_eq!(snapshot.tempo, clock.tempo());
    assert_eq!(snapshot.sample_rate, clock.sample_rate());
}

#[test]
fn negative_positions_are_representable() {
    let mut clock = clock_at(120.0);
    clock.seek(Frames::new(-24_000));
    assert_eq!(clock.musical_position(), MusicalTime::new(-1, 3, 0));
}

#[test]
fn rounding_helper_is_symmetric_about_zero() {
    assert_eq!(div_round_nearest(10, 4), 3);
    assert_eq!(div_round_nearest(-10, 4), -3);
    assert_eq!(div_round_nearest(2, 4), 1);
    assert_eq!(div_round_nearest(-2, 4), -1);
    assert_eq!(div_round_nearest(0, 4), 0);
    assert_eq!(div_round_nearest(1, 0), 0);
}

// ---- tempo map

fn beats(count: i64) -> Ticks {
    Ticks::from_beats(count)
}

fn map_at(bpm: f64) -> TempoMap {
    TempoMap::new(SampleRate::hz_48000(), tempo_at(bpm))
}

#[test]
fn a_new_map_has_one_segment_at_the_origin() {
    let map = map_at(120.0);
    assert_eq!(map.segment_count(), 1);
    let segment = map.segment_at_ticks(Ticks::zero());
    assert_eq!(segment.start_ticks, Ticks::zero());
    assert_eq!(segment.start_frames, Frames::zero());
}

#[test]
fn a_constant_map_agrees_with_direct_conversion() {
    let map = map_at(128.0);
    assert_eq!(map.frames_at(beats(1)), Frames::new(22_500));
    assert_eq!(map.ticks_at(Frames::new(22_500)), beats(1));
}

#[test]
fn a_tempo_change_only_affects_positions_after_it() {
    let mut map = map_at(120.0);
    assert!(map.set_tempo_at(beats(4), tempo_at(240.0)).is_ok());
    assert_eq!(map.frames_at(beats(2)), Frames::new(48_000));
    assert_eq!(map.frames_at(beats(4)), Frames::new(96_000));
    assert_eq!(map.frames_at(beats(5)), Frames::new(96_000 + 12_000));
    assert_eq!(map.frames_at(beats(8)), Frames::new(96_000 + 48_000));
}

#[test]
fn conversion_round_trips_across_segment_boundaries() {
    let mut map = map_at(120.0);
    for (beat, bpm) in [(4_i64, 140.0_f64), (12, 90.0), (20, 174.0)] {
        assert!(map.set_tempo_at(beats(beat), tempo_at(bpm)).is_ok());
    }
    assert_eq!(map.segment_count(), 4);
    for beat in 0..64_i64 {
        let ticks = beats(beat);
        let frames = map.frames_at(ticks);
        assert_eq!(map.ticks_at(frames), ticks, "round trip failed at beat {beat}");
    }
}

#[test]
fn positions_are_monotonic_across_segments() {
    let mut map = map_at(120.0);
    for (beat, bpm) in [(4_i64, 200.0_f64), (8, 60.0), (16, 174.0), (24, 90.0)] {
        assert!(map.set_tempo_at(beats(beat), tempo_at(bpm)).is_ok());
    }
    let mut previous = Frames::new(i64::MIN);
    for tick in 0..(32 * i64::from(TICKS_PER_BEAT)) {
        let frames = map.frames_at(Ticks::new(tick));
        assert!(frames >= previous, "frame position went backwards at tick {tick}");
        previous = frames;
    }
}

#[test]
fn setting_a_tempo_at_an_existing_boundary_replaces_it() {
    let mut map = map_at(120.0);
    let first = tempo_at(140.0);
    let second = tempo_at(160.0);
    assert!(map.set_tempo_at(beats(4), first).is_ok());
    assert!(map.set_tempo_at(beats(4), second).is_ok());
    assert_eq!(map.segment_count(), 2, "no duplicate segment may be created");
    assert_eq!(map.tempo_at_ticks(beats(4)), second);
}

#[test]
fn the_origin_segment_cannot_be_removed() {
    let mut map = map_at(120.0);
    assert!(!map.remove_tempo_at(Ticks::zero()));
    assert_eq!(map.segment_count(), 1);
}

#[test]
fn removing_a_segment_restores_the_preceding_tempo() {
    let mut map = map_at(120.0);
    assert!(map.set_tempo_at(beats(4), tempo_at(240.0)).is_ok());
    assert_eq!(map.frames_at(beats(8)), Frames::new(96_000 + 48_000));
    assert!(map.remove_tempo_at(beats(4)));
    assert_eq!(map.segment_count(), 1);
    assert_eq!(map.frames_at(beats(8)), Frames::new(192_000));
}

#[test]
fn removing_a_position_with_no_segment_reports_it() {
    let mut map = map_at(120.0);
    assert!(!map.remove_tempo_at(beats(7)));
}

#[test]
fn negative_tempo_positions_are_rejected() {
    let mut map = map_at(120.0);
    assert_eq!(map.set_tempo_at(Ticks::new(-1), Tempo::bpm_128()), Err(TimeError::ConversionOverflow));
}

#[test]
fn changing_the_sample_rate_preserves_musical_positions() {
    let mut map = map_at(120.0);
    assert!(map.set_tempo_at(beats(4), tempo_at(240.0)).is_ok());
    let before: Vec<Ticks> = (0..16).map(|beat| map.ticks_at(map.frames_at(beats(beat)))).collect();
    map.set_sample_rate(SampleRate::hz_96000());
    assert_eq!(map.frames_at(beats(4)), Frames::new(192_000));
    let after: Vec<Ticks> = (0..16).map(|beat| map.ticks_at(map.frames_at(beats(beat)))).collect();
    assert_eq!(before, after);
}

#[test]
fn tempo_lookup_by_frame_agrees_with_lookup_by_tick() {
    let mut map = map_at(120.0);
    assert!(map.set_tempo_at(beats(8), tempo_at(174.0)).is_ok());
    for beat in 0..24_i64 {
        let ticks = beats(beat);
        let frames = map.frames_at(ticks);
        assert_eq!(map.tempo_at_frames(frames), map.tempo_at_ticks(ticks), "tempo lookups disagreed at beat {beat}");
    }
}

#[test]
fn positions_before_the_origin_extrapolate_from_the_first_segment() {
    let map = map_at(120.0);
    assert_eq!(map.frames_at(beats(-2)), Frames::new(-48_000));
    assert_eq!(map.ticks_at(Frames::new(-48_000)), beats(-2));
}

#[test]
fn a_map_full_of_segments_refuses_further_insertion() {
    let mut map = map_at(120.0);
    let mut inserted = 1_usize;
    let mut beat = 1_i64;
    while inserted < MAX_SEGMENTS {
        if map.set_tempo_at(beats(beat), Tempo::bpm_128()).is_err() {
            break;
        }
        inserted += 1;
        beat += 1;
    }
    assert_eq!(map.segment_count(), MAX_SEGMENTS);
    assert!(map.set_tempo_at(beats(beat), Tempo::bpm_174()).is_err(), "the segment bound must be enforced");
}

// ---- beat grid

fn grid_at(bpm: f64) -> BeatGrid {
    BeatGrid::new(SampleRate::hz_48000(), tempo_at(bpm), TimeSignature::four_four(), Frames::zero())
}

#[test]
fn the_origin_defines_the_first_downbeat() {
    let mut grid = grid_at(120.0);
    grid.set_origin(Frames::new(5_000));
    assert_eq!(grid.musical_at(Frames::new(5_000)), MusicalTime::zero());
    assert_eq!(grid.musical_at(Frames::new(5_000 + 24_000)), MusicalTime::new(0, 1, 0));
}

#[test]
fn nudging_moves_the_whole_grid() {
    let mut grid = grid_at(120.0);
    grid.nudge(Frames::new(-120));
    assert_eq!(grid.origin(), Frames::new(-120));
    assert_eq!(grid.frames_at(Ticks::zero()), Frames::new(-120));
}

#[test]
fn snapping_to_a_beat_takes_the_nearer_side() {
    let grid = grid_at(120.0);
    let beat = 24_000_i64;
    let half_beat = 12_000_i64;
    assert_eq!(grid.snap(Frames::new(beat + 100), SnapResolution::Beat), Frames::new(beat));
    assert_eq!(grid.snap(Frames::new(2 * beat - 100), SnapResolution::Beat), Frames::new(2 * beat));
    assert_eq!(grid.snap(Frames::new(half_beat), SnapResolution::Beat), Frames::new(beat));
}

#[test]
fn snapping_to_a_bar_and_a_phrase() {
    let grid = grid_at(120.0);
    let beat = 24_000_i64;
    let bar = beat * 4;
    let phrase = bar * 8;
    assert_eq!(grid.snap(Frames::new(bar + 1_000), SnapResolution::Bar), Frames::new(bar));
    assert_eq!(grid.snap(Frames::new(phrase + 1_000), SnapResolution::Phrase), Frames::new(phrase));
    assert_eq!(grid.snap(Frames::new(bar * 3), SnapResolution::Phrase), Frames::new(0));
    assert_eq!(grid.snap(Frames::new(bar * 5), SnapResolution::Phrase), Frames::new(phrase));
}

#[test]
fn phrase_length_is_configurable() {
    let mut grid = grid_at(120.0);
    assert_eq!(grid.phrase_bars(), DEFAULT_PHRASE_BARS);
    grid.set_phrase_bars(16);
    assert_eq!(grid.phrase_bars(), 16);
    grid.set_phrase_bars(0);
    assert_eq!(grid.phrase_bars(), 1, "zero is meaningless and becomes one");
}

#[test]
fn divisions_cover_the_common_loop_lengths() {
    let grid = grid_at(120.0);
    assert_eq!(grid.snap(Frames::new(12_000 + 200), SnapResolution::Division(2)), Frames::new(12_000));
    assert_eq!(grid.snap(Frames::new(6_000 + 100), SnapResolution::Division(4)), Frames::new(6_000));
    assert_eq!(grid.snap(Frames::new(8_000 + 100), SnapResolution::Division(3)), Frames::new(8_000));
}

#[test]
fn sample_resolution_does_not_snap() {
    let grid = grid_at(120.0);
    let awkward = Frames::new(12_345);
    assert_eq!(grid.snap(awkward, SnapResolution::Sample), awkward);
    assert!(grid.is_aligned(awkward, SnapResolution::Sample));
}

#[test]
fn directional_snapping_never_crosses_the_position() {
    let grid = grid_at(120.0);
    let beat = 24_000_i64;
    for offset in 1..beat {
        let position = Frames::new(beat + offset);
        let back = grid.snap_back(position, SnapResolution::Beat);
        let forward = grid.snap_forward(position, SnapResolution::Beat);
        assert!(back <= position, "snap_back moved forwards at offset {offset}");
        assert!(forward >= position, "snap_forward moved backwards at offset {offset}");
        assert_eq!(back, Frames::new(beat), "at offset {offset}");
        assert_eq!(forward, Frames::new(2 * beat), "at offset {offset}");
    }
}

#[test]
fn directional_snapping_holds_at_every_resolution() {
    let grid = grid_at(128.0);
    for resolution in [
        SnapResolution::Tick,
        SnapResolution::Division(4),
        SnapResolution::Division(3),
        SnapResolution::Beat,
        SnapResolution::Bar,
        SnapResolution::Phrase,
    ] {
        for frame in (0..200_000_i64).step_by(997) {
            let position = Frames::new(frame);
            assert!(grid.snap_back(position, resolution) <= position, "snap_back crossed at {frame} for {resolution:?}");
            assert!(grid.snap_forward(position, resolution) >= position, "snap_forward crossed at {frame} for {resolution:?}");
        }
    }
}

#[test]
fn snapping_an_aligned_position_leaves_it_alone() {
    let grid = grid_at(128.0);
    for resolution in [SnapResolution::Beat, SnapResolution::Bar, SnapResolution::Phrase, SnapResolution::Division(4)] {
        let aligned = grid.snap(Frames::new(1_234_567), resolution);
        assert_eq!(grid.snap(aligned, resolution), aligned, "snapping must be idempotent");
        assert!(grid.is_aligned(aligned, resolution));
        assert_eq!(grid.snap_back(aligned, resolution), aligned, "an aligned position must not move backwards");
        assert_eq!(grid.snap_forward(aligned, resolution), aligned, "an aligned position must not move forwards");
    }
}

#[test]
fn snapping_follows_a_tempo_change() {
    let mut grid = grid_at(120.0);
    assert!(grid.tempo_map_mut().set_tempo_at(Ticks::from_beats(4), tempo_at(240.0)).is_ok());
    assert_eq!(grid.frames_at(Ticks::from_beats(4)), Frames::new(96_000));
    assert_eq!(grid.frames_at(Ticks::from_beats(5)), Frames::new(108_000));
    assert_eq!(grid.snap(Frames::new(108_000 + 500), SnapResolution::Beat), Frames::new(108_000));
}

#[test]
fn negative_positions_snap_correctly() {
    let grid = grid_at(120.0);
    let beat = 24_000_i64;
    assert_eq!(grid.snap(Frames::new(-100), SnapResolution::Beat), Frames::zero());
    assert_eq!(grid.snap(Frames::new(-beat - 100), SnapResolution::Beat), Frames::new(-beat));
    assert_eq!(grid.snap_back(Frames::new(-100), SnapResolution::Beat), Frames::new(-beat));
}

#[test]
fn rounding_helpers_floor_rather_than_truncate() {
    assert_eq!(floor_to_multiple(10, 4), 8);
    assert_eq!(floor_to_multiple(-10, 4), -12);
    assert_eq!(floor_to_multiple(8, 4), 8);
    assert_eq!(round_to_multiple(10, 4), 12);
    assert_eq!(round_to_multiple(9, 4), 8);
    assert_eq!(round_to_multiple(-10, 4), -8);
    assert_eq!(round_to_multiple(5, 1), 5);
}

#[test]
fn time_errors_read_as_sentences() {
    assert_eq!(
        TimeError::UnsupportedSampleRate { hz: 0 }.to_text(),
        "unsupported sample rate: 0 Hz"
    );
    assert_eq!(
        TimeError::TempoOutOfRange {
            micros_per_beat: 0
        }
        .to_text(),
        "tempo out of range: 0 microseconds per beat"
    );
    assert_eq!(
        TimeError::InvalidSignatureDenominator { denominator: 3 }.to_text(),
        "invalid time signature denominator: 3 (must be a power of two, 1 to 32)"
    );
    assert_eq!(
        TimeError::InvalidSignatureNumerator { numerator: 0 }.to_text(),
        "invalid time signature numerator: 0"
    );
    assert_eq!(TimeError::ConversionOverflow.to_text(), "time conversion overflowed");
}

#[test]
fn one_beat_at_128_bpm_and_48_khz_is_22500_frames_on_the_clock() {
    let mut clock = TransportClock::new(
        SampleRate::hz_48000(),
        tempo_at(128.0),
        TimeSignature::four_four(),
    );
    clock.advance(22_500);

    let position = clock.musical_position();
    assert_eq!(position.bar, 0);
    assert_eq!(position.beat, 1);
    assert_eq!(position.tick, 0);
    assert_eq!(clock.position(), Frames::new(22_500));
}

#[test]
fn time_values_read_as_a_person_reads_them() {
    assert_eq!(SampleRate::hz_48000().to_text(), "48000 Hz");
    assert_eq!(Ticks(3_840).to_text(), "3840 ticks");
    assert_eq!(Ticks(-1).to_text(), "-1 ticks");
    assert_eq!(TimeSignature::four_four().to_text(), "4/4");
    assert_eq!(TimeSignature::six_eight().to_text(), "6/8");
    let grid = BeatGrid::new(
        SampleRate::hz_48000(),
        Tempo::bpm_120(),
        TimeSignature::three_four(),
        Frames::new(1_000),
    );
    assert_eq!(
        grid.to_text(),
        "BeatGrid(origin 1000 frames, 3/4, 8 bars per phrase)"
    );
}

#[test]
fn a_rate_converts_from_hertz_only_when_supported() {
    assert_eq!(SampleRate::try_from(44_100).map(SampleRate::hz), Ok(44_100));
    assert_eq!(
        SampleRate::try_from(7_999),
        Err(TimeError::UnsupportedSampleRate { hz: 7_999 })
    );
}

#[test]
fn rounded_division_reaches_the_ends_of_the_range() {
    assert_eq!(div_round_nearest(i128::MAX - 2, 4), i128::MAX / 4);
    assert_eq!(div_round_nearest(i128::MIN + 2, 4), i128::MIN / 4);
    assert_eq!(div_round_nearest(7, 2), 4);
    assert_eq!(div_round_nearest(-7, 2), -4);
}

#[test]
fn a_tempo_set_between_changes_is_read_back_and_undone_by_its_removal() {
    let mut map = map_at(120.0);
    assert!(map.set_tempo_at(beats(8), tempo_at(174.0)).is_ok());
    let original = map.clone();
    let faster = tempo_at(240.0);
    assert!(map.set_tempo_at(beats(4), faster).is_ok());
    assert_eq!(map.tempo_at_ticks(beats(4)), faster);
    assert_eq!(map.tempo_at_ticks(beats(6)), faster);
    assert_eq!(map.segment_count(), original.segment_count() + 1);
    assert!(map.remove_tempo_at(beats(4)));
    assert_eq!(map, original);
}

#[test]
fn a_map_with_several_tempi_converts_every_beat_there_and_back() {
    let mut map = map_at(128.0);
    assert!(map.set_tempo_at(beats(4), tempo_at(90.0)).is_ok());
    assert!(map.set_tempo_at(beats(9), tempo_at(174.0)).is_ok());
    for tick in (-4_000..40_000_i64).step_by(7) {
        let ticks = Ticks::new(tick);
        assert_eq!(map.ticks_at(map.frames_at(ticks)), ticks, "round trip failed at tick {tick}");
    }
}

#[test]
fn a_grid_point_stays_under_every_snap_across_tempo_changes() {
    let mut grid = grid_at(128.0);
    assert!(grid.tempo_map_mut().set_tempo_at(Ticks::from_beats(6), tempo_at(100.0)).is_ok());
    grid.set_origin(Frames::new(1_111));
    for beat in 0..32_i64 {
        let point = grid.frames_at(Ticks::from_beats(beat));
        assert_eq!(grid.snap(point, SnapResolution::Beat), point);
        assert_eq!(grid.snap_back(point, SnapResolution::Beat), point);
        assert_eq!(grid.snap_forward(point, SnapResolution::Beat), point);
        assert!(grid.is_aligned(point, SnapResolution::Beat));
    }
}

#[test]
fn directional_snapping_saturates_at_the_ends_of_the_frame_range() {
    let mut grid = grid_at(120.0);
    grid.set_origin(Frames::new(1_000));
    let first = Frames::new(i64::MIN);
    assert_eq!(grid.snap_back(first, SnapResolution::Beat), Frames::new(i64::MIN + 1_000));
    grid.set_origin(Frames::new(-1_000));
    let last = Frames::new(i64::MAX);
    assert_eq!(grid.snap_forward(last, SnapResolution::Beat), Frames::new(i64::MAX - 1_000));
}

#[test]
fn snapping_at_the_end_of_the_frame_range_can_leave_the_grid() {
    let mut grid = grid_at(120.0);
    grid.set_origin(Frames::new(1_000_000));
    let snapped = grid.snap(Frames::new(i64::MAX), SnapResolution::Beat);
    assert_eq!(snapped, Frames::new(i64::MAX));
    assert!(!grid.is_aligned(snapped, SnapResolution::Beat));
}

#[test]
fn snapping_back_holds_when_a_tick_is_shorter_than_a_frame() {
    let grid = BeatGrid::new(SampleRate::hz_44100(), tempo_at(900.0), TimeSignature::four_four(), Frames::new(17));
    for frame in (-50_000..50_000_i64).step_by(13) {
        let position = Frames::new(frame);
        for resolution in [SnapResolution::Tick, SnapResolution::Division(4), SnapResolution::Beat, SnapResolution::Bar] {
            assert!(grid.snap_back(position, resolution) <= position, "snap_back crossed at {frame}");
            assert!(grid.snap_forward(position, resolution) >= position, "snap_forward crossed at {frame}");
        }
    }
}
