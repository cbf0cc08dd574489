use prv_core::time::beat_grid::{BeatGrid, SnapResolution};
use prv_core::time::frames::Frames;
use prv_core::time::sample_rate::SampleRate;
use prv_core::time::signature::TimeSignature;
use prv_core::time::tempo::Tempo;
use prv_core::timeline::automation::{
    AutomationError, AutomationLane, AutomationPoint, Interpolation, Reading, MAX_POINTS,
};
use prv_core::timeline::parameter::{
    ParameterAddress, ParameterError, ParameterKey, ParameterOwner, PluginParameterId,
    MAX_PLUGIN_PARAMETER_LENGTH,
};
use prv_core::timeline::snap::Snap;
use prv_core::timeline::timeline::{
    AutomationTrack, Clip, EditError, Operation, Placement, PlacementId, Timeline, TrackRef, MAX_CLIPS,
    MAX_LANES,
};

#[test]
fn interpolation_keys_are_distinct() {
    let keys = [
        Interpolation::Hold.key(),
        Interpolation::Linear.key(),
        Interpolation::Smooth.key(),
        Interpolation::Accelerating.key(),
        Interpolation::Decelerating.key(),
    ];
    for (index, key) in keys.iter().enumerate() {
        for (other, value) in keys.iter().enumerate() {
            assert!(index == other || key != value, "two shapes share {key}");
        }
    }
}

#[test]
fn a_full_lane_says_how_many_points_it_holds() {
    let error = AutomationError::TooManyPoints { maximum: MAX_POINTS };
    assert_eq!(
        error.to_text(),
        "an automation lane may hold at most 16384 points"
    );
}

#[test]
fn a_plugin_identifier_is_validated_before_it_is_stored() {
    assert!(PluginParameterId::new("cutoff").is_ok());
    assert!(PluginParameterId::new("reverb.decay_time").is_ok());

    assert_eq!(
        PluginParameterId::new("").err(),
        Some(ParameterError::EmptyPluginParameter)
    );
    assert!(matches!(
        PluginParameterId::new("Cut Off"),
        Err(ParameterError::InvalidPluginParameter { .. })
    ));
    assert!(matches!(
        PluginParameterId::new("../../etc/passwd"),
        Err(ParameterError::InvalidPluginParameter { .. })
    ));
    assert!(matches!(
        PluginParameterId::new("a\nb"),
        Err(ParameterError::InvalidPluginParameter { .. })
    ));
    assert!(matches!(
        PluginParameterId::new(&"x".repeat(MAX_PLUGIN_PARAMETER_LENGTH + 1)),
        Err(ParameterError::PluginParameterTooLong { .. })
    ));
}

#[test]
fn the_first_forbidden_character_is_the_one_reported() {
    assert_eq!(
        PluginParameterId::new("Cut Off").err(),
        Some(ParameterError::InvalidPluginParameter { character: 'C' })
    );
    assert_eq!(
        PluginParameterId::new("cut off").err(),
        Some(ParameterError::InvalidPluginParameter { character: ' ' })
    );
    assert_eq!(
        PluginParameterId::new(&"x".repeat(MAX_PLUGIN_PARAMETER_LENGTH + 1)).err(),
        Some(ParameterError::PluginParameterTooLong {
            length: MAX_PLUGIN_PARAMETER_LENGTH + 1,
            maximum: MAX_PLUGIN_PARAMETER_LENGTH,
        })
    );
    let longest = "x".repeat(MAX_PLUGIN_PARAMETER_LENGTH);
    assert_eq!(
        PluginParameterId::new(&longest).map(|id| id.as_str().to_owned()),
        Ok(longest.clone())
    );
}

#[test]
fn built_in_parameter_keys_are_distinct() {
    let keys = [
        ParameterKey::Gain,
        ParameterKey::EqLow,
        ParameterKey::EqMid,
        ParameterKey::EqHigh,
        ParameterKey::Filter,
        ParameterKey::Mix,
        ParameterKey::Crossfader,
    ];
    for (index, key) in keys.iter().enumerate() {
        assert!(!key.is_plugin());
        for (other, value) in keys.iter().enumerate() {
            assert!(
                index == other || key.key() != value.key(),
                "two parameters share the key {}",
                key.key()
            );
        }
    }

    let plugin = ParameterKey::Plugin(PluginParameterId::new("cutoff").expect("valid"));
    assert!(plugin.is_plugin());
    assert_eq!(plugin.key(), "cutoff");
}

#[test]
fn snapping_off_leaves_the_position_alone() {
    let grid = BeatGrid::new(
        SampleRate::hz_48000(),
        Tempo::bpm_120(),
        TimeSignature::four_four(),
        Frames::zero(),
    );
    assert_eq!(Snap::Off.apply(&grid, Frames::new(12_345)), Frames::new(12_345));
    assert_eq!(
        Snap::To(SnapResolution::Beat).apply(&grid, Frames::new(12_345)),
        Frames::new(24_000)
    );
    assert_eq!(
        Snap::To(SnapResolution::Beat).apply(&grid, Frames::new(11_000)),
        Frames::new(0)
    );
}

#[test]
fn parameter_errors_read_as_sentences() {
    assert_eq!(
        ParameterError::EmptyPluginParameter.to_text(),
        "plugin parameter identifier is empty"
    );
    assert_eq!(
        ParameterError::PluginParameterTooLong {
            length: 65,
            maximum: 64
        }
        .to_text(),
        "plugin parameter identifier is 65 bytes, the maximum is 64"
    );
    assert_eq!(
        ParameterError::InvalidPluginParameter { character: 'C' }.to_text(),
        "plugin parameter identifier contains the forbidden character 'C'"
    );
    assert_eq!(
        ParameterError::InvalidPluginParameter { character: '\n' }.to_text(),
        "plugin parameter identifier contains the forbidden character '\\n'"
    );
    assert_eq!(
        ParameterError::TooDeep {
            depth: 9,
            maximum: 8
        }
        .to_text(),
        "parameter owner nests 9 deep, the maximum is 8"
    );
}

// ---- the arrangement

/// A bar at 120 BPM and 44.1 kHz is 88 200 frames.
const BAR: i64 = 88_200;

fn grid() -> BeatGrid {
    BeatGrid::new(
        SampleRate::hz_44100(),
        Tempo::bpm_120(),
        TimeSignature::four_four(),
        Frames::zero(),
    )
}

fn clip(id: u64, lane: u32, start: i64, length: i64) -> Clip {
    Clip::new(
        PlacementId::new(id),
        TrackRef::new(id),
        lane,
        Frames::new(start),
        Frames::new(length),
    )
}

#[test]
fn an_added_clip_snaps_to_the_grid() {
    let mut timeline = Timeline::<f32>::new();
    let placed = timeline
        .add(
            clip(1, 0, BAR + 300, BAR * 4),
            &grid(),
            Snap::To(SnapResolution::Bar),
        )
        .expect("valid")
        .clip()
        .expect("one clip");
    assert_eq!(placed.start(), Frames::new(BAR));

    let exact = timeline
        .add(clip(2, 1, BAR + 300, BAR), &grid(), Snap::Off)
        .expect("valid")
        .clip()
        .expect("one clip");
    assert_eq!(exact.start(), Frames::new(BAR + 300));
}

#[test]
fn overlapping_clips_on_one_lane_are_refused_rather_than_truncated() {
    let mut timeline = Timeline::<f32>::new();
    timeline
        .add(clip(1, 0, 0, BAR * 4), &grid(), Snap::Off)
        .expect("valid");

    let result = timeline.add(clip(2, 0, BAR * 2, BAR * 4), &grid(), Snap::Off);
    assert_eq!(
        result.err(),
        Some(EditError::Overlap {
            existing: PlacementId::new(1)
        })
    );
    assert_eq!(timeline.clip_count(), 1, "the refused clip must not be added");

    assert!(timeline
        .add(clip(3, 1, BAR * 2, BAR * 4), &grid(), Snap::Off)
        .is_ok());
}

#[test]
fn trimming_the_front_does_not_slide_the_audio() {
    let mut timeline = Timeline::<f32>::new();
    timeline
        .add(clip(1, 0, BAR, BAR * 4), &grid(), Snap::Off)
        .expect("valid");

    let trimmed = timeline
        .trim_start(PlacementId::new(1), Frames::new(BAR * 2), &grid(), Snap::Off)
        .expect("valid")
        .clip()
        .expect("one clip");

    assert_eq!(trimmed.start(), Frames::new(BAR * 2));
    assert_eq!(trimmed.length(), Frames::new(BAR * 3));
    assert_eq!(trimmed.source_offset(), Frames::new(BAR));
    assert_eq!(trimmed.end(), Frames::new(BAR * 5), "the end moved");
}

#[test]
fn trimming_the_front_records_a_move_a_trim_and_the_new_source_offset() {
    let mut timeline = Timeline::<f32>::new();
    timeline
        .add(clip(1, 0, BAR, BAR * 4), &grid(), Snap::Off)
        .expect("valid");
    let edit = timeline
        .trim_start(PlacementId::new(1), Frames::new(BAR * 2), &grid(), Snap::Off)
        .expect("valid");
    assert_eq!(
        edit.operations(),
        &[
            Operation::MovePlacement {
                placement: PlacementId::new(1),
                position: Frames::new(BAR * 2),
                lane: 0
            },
            Operation::TrimPlacement {
                placement: PlacementId::new(1),
                length: Frames::new(BAR * 3)
            },
            Operation::SetPlacementSource {
                placement: PlacementId::new(1),
                source_offset: Frames::new(BAR)
            }
        ]
    );
    let extended = timeline
        .trim_start(PlacementId::new(1), Frames::new(0), &grid(), Snap::Off)
        .expect("valid")
        .clip()
        .expect("one clip");
    assert_eq!(extended.source_offset(), Frames::new(0), "the source cannot begin before itself");
    assert_eq!(extended.length(), Frames::new(BAR * 5));
}

#[test]
fn splitting_is_structural_and_changes_no_sound() {
    let mut timeline = Timeline::<f32>::new();
    timeline
        .add(
            clip(1, 0, BAR, BAR * 4).with_source_offset(Frames::new(1000)),
            &grid(),
            Snap::Off,
        )
        .expect("valid");

    let split = timeline
        .split(
            PlacementId::new(1),
            Frames::new(BAR * 3),
            PlacementId::new(2),
            &grid(),
            Snap::Off,
        )
        .expect("inside the clip");
    let first = split.clips().first().copied().expect("two halves");
    let second = split.clips().get(1).copied().expect("two halves");

    assert_eq!(first.start(), Frames::new(BAR));
    assert_eq!(first.end(), Frames::new(BAR * 3));
    assert_eq!(first.source_offset(), Frames::new(1000));

    assert_eq!(second.start(), Frames::new(BAR * 3));
    assert_eq!(second.end(), Frames::new(BAR * 5));
    assert_eq!(second.source_offset(), Frames::new(1000 + BAR * 2));

    assert_eq!(first.end(), second.start());
    assert_eq!(timeline.clip_count(), 2);
}

#[test]
fn a_split_outside_the_clip_is_refused() {
    let mut timeline = Timeline::<f32>::new();
    timeline
        .add(clip(1, 0, BAR, BAR * 2), &grid(), Snap::Off)
        .expect("valid");

    for position in [0_i64, BAR, BAR * 3, BAR * 10] {
        assert_eq!(
            timeline
                .split(
                    PlacementId::new(1),
                    Frames::new(position),
                    PlacementId::new(9),
                    &grid(),
                    Snap::Off,
                )
                .err(),
            Some(EditError::SplitOutsideClip),
            "a split at {position} should be refused"
        );
    }
    assert_eq!(timeline.clip_count(), 1);
}

#[test]
fn a_split_records_both_halves() {
    let mut timeline = Timeline::<f32>::new();
    timeline
        .add(clip(1, 0, 0, BAR * 8), &grid(), Snap::Off)
        .expect("valid");

    let split = timeline
        .split(
            PlacementId::new(1),
            Frames::new(BAR * 4),
            PlacementId::new(2),
            &grid(),
            Snap::Off,
        )
        .expect("inside the clip");

    assert_eq!(split.clips().len(), 2);
    assert_eq!(split.operations().len(), 2);
    assert_eq!(timeline.clips().len(), 2);
    assert_eq!(
        split.into_operations(),
        vec![
            Operation::TrimPlacement {
                placement: PlacementId::new(1),
                length: Frames::new(BAR * 4)
            },
            Operation::PlaceTrack {
                placement: PlacementId::new(2),
                track: TrackRef::new(1),
                position: Frames::new(BAR * 4),
                length: Frames::new(BAR * 4),
                lane: 0,
                source_offset: Frames::new(BAR * 4)
            }
        ]
    );
}

#[test]
fn removing_a_clip_records_it_and_forgets_it() {
    let mut timeline = Timeline::<f32>::new();
    timeline
        .add(clip(1, 0, 0, BAR * 4), &grid(), Snap::Off)
        .expect("valid");
    let removed = timeline.remove(PlacementId::new(1)).expect("it was there");
    assert_eq!(removed.clip().map(Clip::id), Some(PlacementId::new(1)));
    assert_eq!(
        removed.operations(),
        &[Operation::RemovePlacement {
            placement: PlacementId::new(1)
        }]
    );
    assert!(timeline.clip(PlacementId::new(1)).is_none());
    assert!(timeline.remove(PlacementId::new(1)).is_none());
}

#[test]
fn clips_at_a_position_finds_everything_sounding_there() {
    let mut timeline = Timeline::<f32>::new();
    timeline
        .add(clip(1, 0, 0, BAR * 8), &grid(), Snap::Off)
        .expect("valid");
    timeline
        .add(clip(2, 1, BAR * 4, BAR * 8), &grid(), Snap::Off)
        .expect("valid");

    let overlapping = timeline.clips_at(Frames::new(BAR * 5));
    assert_eq!(overlapping.len(), 2);

    let single = timeline.clips_at(Frames::new(BAR));
    assert_eq!(single.len(), 1);
    assert_eq!(single.first().map(|clip| clip.id()), Some(PlacementId::new(1)));

    assert!(timeline.clips_at(Frames::new(BAR * 12)).is_empty());
    assert_eq!(timeline.end(), Frames::new(BAR * 12));
}

#[test]
fn clips_on_a_lane_come_back_in_time_order() {
    let mut timeline = Timeline::<f32>::new();
    for (id, start) in [(3_u64, BAR * 8), (1, 0), (2, BAR * 4)] {
        timeline
            .add(clip(id, 0, start, BAR * 2), &grid(), Snap::Off)
            .expect("valid");
    }
    let starts: Vec<i64> = timeline
        .clips_on(0)
        .iter()
        .map(|clip| clip.start().get())
        .collect();
    assert_eq!(starts, vec![0, BAR * 4, BAR * 8]);
    assert!(timeline.clips_on(5).is_empty());
}

#[test]
fn clips_sounding_together_come_back_in_lane_order() {
    let mut timeline = Timeline::<f32>::new();
    for (id, lane) in [(1_u64, 4_u32), (2, 0), (3, 2)] {
        timeline
            .add(clip(id, lane, 0, BAR), &grid(), Snap::Off)
            .expect("valid");
    }
    let lanes: Vec<u32> = timeline.clips_at(Frames::new(10)).iter().map(|c| c.lane()).collect();
    assert_eq!(lanes, vec![0, 2, 4]);
}

#[test]
fn edits_to_a_clip_that_is_not_there_are_reported() {
    let mut timeline = Timeline::<f32>::new();
    let missing = PlacementId::new(42);
    let expected = Err(EditError::UnknownClip { clip: missing });

    assert_eq!(
        timeline.move_clip(missing, 0, Frames::zero(), &grid(), Snap::Off),
        expected
    );
    assert_eq!(
        timeline.trim_end(missing, Frames::new(BAR), &grid(), Snap::Off),
        expected
    );
    assert_eq!(
        timeline.trim_start(missing, Frames::new(BAR), &grid(), Snap::Off),
        expected
    );
    assert!(matches!(
        timeline.split(
            missing,
            Frames::new(BAR),
            PlacementId::new(1),
            &grid(),
            Snap::Off
        ),
        Err(EditError::UnknownClip { .. })
    ));
}

#[test]
fn degenerate_clips_are_refused() {
    let mut timeline = Timeline::<f32>::new();
    assert_eq!(
        timeline.add(clip(1, 0, 0, 0), &grid(), Snap::Off).err(),
        Some(EditError::EmptyClip)
    );
    assert_eq!(
        timeline.add(clip(2, 0, 0, -100), &grid(), Snap::Off).err(),
        Some(EditError::EmptyClip)
    );
    assert_eq!(
        timeline
            .add(clip(3, MAX_LANES, 0, BAR), &grid(), Snap::Off)
            .err(),
        Some(EditError::LaneOutOfRange {
            lane: MAX_LANES,
            maximum: MAX_LANES
        })
    );

    timeline
        .add(clip(4, 0, BAR, BAR * 2), &grid(), Snap::Off)
        .expect("valid");
    assert_eq!(
        timeline
            .trim_end(PlacementId::new(4), Frames::new(BAR), &grid(), Snap::Off)
            .err(),
        Some(EditError::EmptyClip)
    );
}

#[test]
fn moving_a_clip_onto_itself_is_allowed() {
    let mut timeline = Timeline::<f32>::new();
    timeline
        .add(clip(1, 0, BAR * 4, BAR * 4), &grid(), Snap::Off)
        .expect("valid");

    let moved = timeline
        .move_clip(PlacementId::new(1), 0, Frames::new(BAR * 5), &grid(), Snap::Off)
        .expect("a clip may overlap where it used to be")
        .clip()
        .expect("one clip");
    assert_eq!(moved.start(), Frames::new(BAR * 5));
    assert_eq!(timeline.clip_count(), 1);
}

#[test]
fn a_document_the_timeline_cannot_hold_is_reported_rather_than_clamped() {
    let placements = [
        Placement {
            id: PlacementId::new(1),
            track: TrackRef::new(10),
            lane: MAX_LANES + 5,
            position: Frames::zero(),
            length: Frames::new(BAR),
            source_offset: Frames::zero(),
        },
        Placement {
            id: PlacementId::new(2),
            track: TrackRef::new(11),
            lane: 0,
            position: Frames::zero(),
            length: Frames::new(BAR),
            source_offset: Frames::zero(),
        },
    ];

    let (timeline, skipped) = Timeline::<f32>::from_project(&placements, &[]);
    assert_eq!(skipped, 1, "the out-of-range clip was not reported");
    assert_eq!(timeline.clip_count(), 1);
    assert_eq!(timeline.clips().first().map(|clip| clip.lane()), Some(0));
}

#[test]
fn a_document_with_overlapping_placements_keeps_the_first() {
    let placements = [
        Placement {
            id: PlacementId::new(1),
            track: TrackRef::new(10),
            lane: 0,
            position: Frames::zero(),
            length: Frames::new(BAR * 2),
            source_offset: Frames::zero(),
        },
        Placement {
            id: PlacementId::new(2),
            track: TrackRef::new(11),
            lane: 0,
            position: Frames::new(BAR),
            length: Frames::new(BAR),
            source_offset: Frames::zero(),
        },
        Placement {
            id: PlacementId::new(3),
            track: TrackRef::new(12),
            lane: 0,
            position: Frames::new(BAR * 2),
            length: Frames::new(BAR),
            source_offset: Frames::zero(),
        },
    ];
    let (timeline, skipped) = Timeline::<f32>::from_project(&placements, &[]);
    assert_eq!(skipped, 1);
    let ids: Vec<u64> = timeline.clips().iter().map(|c| c.id().get()).collect();
    assert_eq!(ids, vec![1, 3]);
}

#[test]
fn a_timeline_cannot_grow_without_bound() {
    let mut timeline = Timeline::<f32>::new();
    for index in 0..MAX_CLIPS {
        let start = i64::try_from(index).unwrap_or(0) * BAR;
        timeline
            .add(
                clip(u64::try_from(index).unwrap_or(0), 0, start, BAR),
                &grid(),
                Snap::Off,
            )
            .expect("within the limit");
    }
    assert_eq!(
        timeline
            .add(clip(u64::MAX, 1, 0, BAR), &grid(), Snap::Off)
            .err(),
        Some(EditError::TooManyClips { maximum: MAX_CLIPS })
    );
}

#[test]
fn edit_errors_read_as_sentences() {
    assert_eq!(
        EditError::UnknownClip {
            clip: PlacementId::new(7)
        }
        .to_text(),
        "no clip with identifier 7"
    );
    assert_eq!(
        EditError::LaneOutOfRange {
            lane: 130,
            maximum: 128
        }
        .to_text(),
        "lane 130 is beyond the maximum of 128"
    );
    assert_eq!(
        EditError::Overlap {
            existing: PlacementId::new(1)
        }
        .to_text(),
        "clip 1 already occupies that span"
    );
    assert_eq!(EditError::EmptyClip.to_text(), "a clip must have a positive length");
    assert_eq!(
        EditError::SplitOutsideClip.to_text(),
        "the split position is not inside the clip"
    );
    assert_eq!(
        EditError::TooManyClips { maximum: 4096 }.to_text(),
        "a timeline may hold at most 4096 clips"
    );
}

// ---- automation lanes

fn gain() -> ParameterAddress {
    ParameterAddress::new(ParameterOwner::Master, ParameterKey::Gain).expect("valid")
}

fn point(position: i64, value: f32, interpolation: Interpolation) -> AutomationPoint<f32> {
    AutomationPoint {
        position: Frames::new(position),
        value,
        interpolation,
    }
}

fn held(reading: Reading<f32>) -> Option<f32> {
    match reading {
        Reading::Held(value) => Some(value),
        _ => None,
    }
}

#[test]
fn a_lane_reads_exactly_its_points_and_interpolates_between_them() {
    let mut lane = AutomationLane::new(gain());
    lane.insert(point(0, 0.0, Interpolation::Linear)).expect("room");
    lane.insert(point(1000, 1.0, Interpolation::Linear)).expect("room");

    assert_eq!(held(lane.reading_at(Frames::new(0))), Some(0.0));
    assert_eq!(held(lane.reading_at(Frames::new(1000))), Some(1.0));
    match lane.reading_at(Frames::new(250)) {
        Reading::Between {
            from,
            to,
            interpolation,
            travelled,
            span,
        } => {
            assert_eq!((from, to), (0.0, 1.0));
            assert_eq!(interpolation, Interpolation::Linear);
            assert_eq!((travelled, span), (250, 1000));
        }
        _ => panic!("a position between two points must read the segment"),
    }
}

#[test]
fn the_value_holds_before_the_first_point_and_after_the_last() {
    let mut lane = AutomationLane::new(gain());
    lane.insert(point(1000, 0.3, Interpolation::Linear)).expect("room");
    lane.insert(point(2000, 0.8, Interpolation::Linear)).expect("room");

    assert_eq!(held(lane.reading_at(Frames::new(0))), Some(0.3));
    assert_eq!(held(lane.reading_at(Frames::new(999))), Some(0.3));
    assert_eq!(held(lane.reading_at(Frames::new(9_000_000))), Some(0.8));
}

#[test]
fn a_hold_segment_reads_the_shape_of_its_earlier_point() {
    let mut lane = AutomationLane::new(gain());
    lane.insert(point(0, 0.0, Interpolation::Hold)).expect("room");
    lane.insert(point(1000, 1.0, Interpolation::Linear)).expect("room");
    match lane.reading_at(Frames::new(999)) {
        Reading::Between { interpolation, travelled, .. } => {
            assert_eq!(interpolation, Interpolation::Hold);
            assert_eq!(travelled, 999);
        }
        _ => panic!("inside the segment"),
    }
    assert_eq!(held(lane.reading_at(Frames::new(1000))), Some(1.0));
}

#[test]
fn an_empty_or_disabled_lane_says_nothing_rather_than_inventing_a_value() {
    let mut lane = AutomationLane::new(gain());
    assert!(matches!(lane.reading_at(Frames::new(100)), Reading::Nothing));

    lane.insert(point(0, 0.5, Interpolation::Linear)).expect("room");
    assert_eq!(held(lane.reading_at(Frames::new(100))), Some(0.5));

    lane.set_enabled(false);
    assert!(!lane.is_enabled());
    assert!(matches!(lane.reading_at(Frames::new(100)), Reading::Nothing));
    assert_eq!(lane.len(), 1, "disabling must not discard the points");
}

#[test]
fn inserting_at_an_existing_position_replaces_rather_than_duplicates() {
    let mut lane = AutomationLane::new(gain());
    for value in [0.2_f32, 0.4, 0.9] {
        lane.insert(point(500, value, Interpolation::Linear)).expect("room");
    }
    assert_eq!(lane.len(), 1);
    assert_eq!(held(lane.reading_at(Frames::new(500))), Some(0.9));
}

#[test]
fn points_stay_sorted_however_they_are_inserted() {
    let mut lane = AutomationLane::new(gain());
    for position in [900_i64, 100, 500, 0, 700] {
        lane.insert(point(position, 0.5, Interpolation::Linear)).expect("room");
    }
    let positions: Vec<i64> = lane
        .points()
        .iter()
        .map(|point| point.position().get())
        .collect();
    assert_eq!(positions, vec![0, 100, 500, 700, 900]);
}

#[test]
fn a_lane_cannot_grow_without_bound() {
    let mut lane = AutomationLane::new(gain());
    for index in 0..MAX_POINTS {
        lane.insert(point(i64::try_from(index).unwrap_or(0), 0.5, Interpolation::Linear))
            .expect("within the limit");
    }
    assert_eq!(
        lane.insert(point(i64::MAX, 0.5, Interpolation::Linear)).err(),
        Some(AutomationError::TooManyPoints {
            maximum: MAX_POINTS
        })
    );
    assert!(lane.insert(point(0, 0.9, Interpolation::Linear)).is_ok());
}

#[test]
fn removing_a_range_takes_what_is_inside_it_and_nothing_else() {
    let mut lane = AutomationLane::new(gain());
    for position in [0_i64, 100, 200, 300, 400] {
        lane.insert(point(position, 0.5, Interpolation::Linear)).expect("room");
    }
    assert_eq!(lane.remove_range(Frames::new(100), Frames::new(300)), 2);
    let positions: Vec<i64> = lane
        .points()
        .iter()
        .map(|point| point.position().get())
        .collect();
    assert_eq!(positions, vec![0, 300, 400]);

    assert!(lane.remove_at(Frames::new(300)));
    assert!(!lane.remove_at(Frames::new(300)));
}

#[test]
fn shifting_left_clamps_at_zero_without_losing_points_or_order() {
    let mut lane = AutomationLane::new(gain());
    for position in [0_i64, 100, 500] {
        lane.insert(point(position, 0.5, Interpolation::Linear)).expect("room");
    }
    lane.shift(Frames::new(-200));

    let positions: Vec<i64> = lane
        .points()
        .iter()
        .map(|point| point.position().get())
        .collect();
    assert_eq!(positions, vec![0, 300]);
    assert_eq!(lane.start(), Some(Frames::new(0)));
    assert_eq!(lane.end(), Some(Frames::new(300)));
}

#[test]
fn points_that_land_together_keep_the_earliest() {
    let mut lane = AutomationLane::new(gain());
    lane.insert(point(0, 0.1, Interpolation::Linear)).expect("room");
    lane.insert(point(100, 0.2, Interpolation::Linear)).expect("room");
    lane.shift(Frames::new(-500));
    assert_eq!(lane.len(), 1);
    assert_eq!(lane.points()[0].value(), 0.1);
    assert!(lane.is_empty() == false);
}

#[test]
fn evaluation_finds_the_right_segment_across_a_large_lane() {
    let mut lane = AutomationLane::new(gain());
    for index in 0..1000_i64 {
        lane.insert(point(index * 100, index as f32, Interpolation::Linear)).expect("room");
    }
    for index in [0_i64, 1, 250, 500, 999] {
        assert_eq!(held(lane.reading_at(Frames::new(index * 100))), if index == 0 || index == 999 {
            Some(index as f32)
        } else {
            None
        });
    }
    match lane.reading_at(Frames::new(25_050)) {
        Reading::Between { from, to, travelled, span, .. } => {
            assert_eq!((from, to), (250.0, 251.0));
            assert_eq!((travelled, span), (50, 100));
        }
        _ => panic!("inside the lane"),
    }
    match lane.reading_at(Frames::new(25_000)) {
        Reading::Between { from, travelled, .. } => {
            assert_eq!(from, 250.0);
            assert_eq!(travelled, 0);
        }
        _ => panic!("a point inside the lane starts its segment"),
    }
}

// ---- parameter addresses

#[test]
fn an_address_survives_being_written_down_and_read_back() {
    let first = ParameterAddress::new(
        ParameterOwner::Placement(PlacementId::new(7)).effect(2),
        ParameterKey::Filter,
    )
    .expect("valid");
    let rebuilt = ParameterAddress::new(
        ParameterOwner::Placement(PlacementId::new(7)).effect(2),
        ParameterKey::Filter,
    )
    .expect("valid");

    assert_eq!(first, rebuilt);
    assert_eq!(first.to_text(), "placement[7]/effect[2]/parameter.filter");
}

#[test]
fn reordering_effects_re_addresses_only_what_moved() {
    let lane = ParameterOwner::Lane(1);
    let first = ParameterAddress::new(lane.clone().effect(0), ParameterKey::Gain).expect("valid");
    let third = ParameterAddress::new(lane.clone().effect(3), ParameterKey::Gain).expect("valid");

    assert_ne!(first, third);
    assert!(first.is_within(&lane));
    assert!(third.is_within(&lane));
}

#[test]
fn containment_is_structural_rather_than_textual() {
    let one = ParameterOwner::Lane(1);
    let ten = ParameterOwner::Lane(10);
    assert!(!ten.is_within(&one));
    assert!(one.is_within(&one));

    let nested = one.clone().effect(0).effect(1);
    assert!(nested.is_within(&one));
    assert!(!nested.is_within(&ten));
    assert!(!one.is_within(&nested));
}

#[test]
fn nesting_beyond_the_limit_is_refused_rather_than_accepted_unbounded() {
    let mut owner = ParameterOwner::Master;
    for slot in 0..=ParameterOwner::MAX_DEPTH {
        owner = owner.effect(slot);
    }
    assert_eq!(owner.depth(), ParameterOwner::MAX_DEPTH + 1);
    assert!(matches!(
        ParameterAddress::new(owner, ParameterKey::Gain),
        Err(ParameterError::TooDeep { .. })
    ));
}

#[test]
fn an_owner_names_its_host_and_its_path() {
    let owner = ParameterOwner::Master.effect(3);
    assert_eq!(owner.host(), Some(&ParameterOwner::Master));
    assert_eq!(ParameterOwner::Lane(2).host(), None);
    assert_eq!(owner.to_text(), "master/effect[3]");
    assert_eq!(ParameterOwner::Lane(12).to_text(), "lane[12]");
    let address = ParameterAddress::new(
        ParameterOwner::Master,
        ParameterKey::Plugin(PluginParameterId::new("cutoff").expect("valid")),
    )
    .expect("valid");
    assert_eq!(address.to_text(), "master/cutoff");
    assert_eq!(address.owner(), &ParameterOwner::Master);
    assert!(address.key().is_plugin());
}

// ---- automation on the timeline

fn lane_with(address: ParameterAddress, points: &[(i64, f32)]) -> AutomationLane<f32> {
    let mut lane = AutomationLane::new(address);
    for (position, value) in points {
        lane.insert(point(*position, *value, Interpolation::Linear)).expect("room");
    }
    lane
}

#[test]
fn removing_a_clip_takes_its_automation_and_leaves_the_lanes_alone() {
    let mut timeline = Timeline::<f32>::new();
    timeline
        .add(clip(1, 0, 0, BAR * 4), &grid(), Snap::Off)
        .expect("valid");

    let on_clip = ParameterAddress::new(
        ParameterOwner::Placement(PlacementId::new(1)).effect(0),
        ParameterKey::Filter,
    )
    .expect("valid");
    let on_lane = ParameterAddress::new(ParameterOwner::Lane(0), ParameterKey::Gain).expect("valid");

    timeline.set_automation(AutomationLane::new(on_clip.clone()));
    timeline.set_automation(AutomationLane::new(on_lane.clone()));
    assert_eq!(timeline.automation().len(), 2);

    let removed = timeline.remove(PlacementId::new(1)).expect("it was there");
    assert_eq!(removed.clip().map(Clip::id), Some(PlacementId::new(1)));
    assert!(timeline.automation_for(&on_clip).is_none());
    assert!(timeline.automation_for(&on_lane).is_some());
    assert!(timeline.remove(PlacementId::new(1)).is_none());
}

#[test]
fn one_lane_per_address_however_many_times_it_is_set() {
    let mut timeline = Timeline::<f32>::new();
    let address = ParameterAddress::new(ParameterOwner::Master, ParameterKey::Gain).expect("valid");

    for value in [0.2_f32, 0.8] {
        timeline.set_automation(lane_with(address.clone(), &[(0, value)]));
    }

    assert_eq!(timeline.automation().len(), 1);
    assert_eq!(
        timeline
            .automation_for(&address)
            .and_then(|lane| held(lane.reading_at(Frames::zero()))),
        Some(0.8)
    );
}

#[test]
fn automation_is_reported_in_a_stable_order() {
    let mut timeline = Timeline::<f32>::new();
    for key in [ParameterKey::Filter, ParameterKey::Gain, ParameterKey::EqLow] {
        let address = ParameterAddress::new(ParameterOwner::Master, key).expect("valid");
        timeline.set_automation(lane_with(address, &[(0, 0.5)]));
    }

    let first: Vec<String> = timeline
        .automation()
        .iter()
        .map(|lane| lane.address().to_text())
        .collect();
    let second: Vec<String> = timeline
        .automation()
        .iter()
        .map(|lane| lane.address().to_text())
        .collect();
    assert_eq!(first, second);
    assert_eq!(first.len(), 3);
    assert_eq!(timeline.readings_at(Frames::zero()).len(), 3);

    let addresses: Vec<&ParameterAddress> = timeline.automation().iter().map(|lane| lane.address()).collect();
    let mut sorted = addresses.clone();
    sorted.sort();
    assert_eq!(addresses, sorted, "automation is not in address order");
}

#[test]
fn plugin_parameters_are_ordered_by_their_identifiers_after_built_in_ones() {
    let mut timeline = Timeline::<f32>::new();
    for key in [
        ParameterKey::Plugin(PluginParameterId::new("resonance").expect("valid")),
        ParameterKey::Mix,
        ParameterKey::Plugin(PluginParameterId::new("cutoff").expect("valid")),
    ] {
        let address = ParameterAddress::new(ParameterOwner::Lane(2).effect(1), key).expect("valid");
        timeline.set_automation(lane_with(address, &[(0, 0.5)]));
    }
    let keys: Vec<String> = timeline
        .automation()
        .iter()
        .map(|lane| lane.address().key().key().to_owned())
        .collect();
    assert_eq!(keys, vec!["parameter.mix", "cutoff", "resonance"]);
    let addresses: Vec<&ParameterAddress> = timeline.automation().iter().map(|lane| lane.address()).collect();
    let mut sorted = addresses.clone();
    sorted.sort();
    assert_eq!(addresses, sorted);
}

#[test]
fn removing_a_clip_records_its_automation_going_too() {
    let mut timeline = Timeline::<f32>::new();
    timeline
        .add(clip(1, 0, 0, BAR * 4), &grid(), Snap::Off)
        .expect("valid");

    let address = ParameterAddress::new(
        ParameterOwner::Placement(PlacementId::new(1)),
        ParameterKey::Filter,
    )
    .expect("valid");
    timeline.set_automation(lane_with(address, &[(0, 0.5), (BAR, 1.0)]));

    let removed = timeline.remove(PlacementId::new(1)).expect("it was there");
    let automation_removals = removed
        .operations()
        .iter()
        .filter(|operation| matches!(operation, Operation::RemoveAutomationPoint { .. }))
        .count();
    assert_eq!(automation_removals, 2);
}

#[test]
fn a_timeline_is_built_from_the_materialised_document() {
    let placements = [Placement {
        id: PlacementId::new(1),
        track: TrackRef::new(10),
        lane: 0,
        position: Frames::zero(),
        length: Frames::new(BAR * 4),
        source_offset: Frames::zero(),
    }];
    let address = ParameterAddress::new(ParameterOwner::Lane(0), ParameterKey::Filter).expect("valid");
    let tracks = [AutomationTrack {
        address: address.clone(),
        enabled: true,
        points: vec![
            point(0, 0.0, Interpolation::Linear),
            point(BAR * 4, 1.0, Interpolation::Linear),
        ],
    }];

    let (timeline, skipped) = Timeline::from_project(&placements, &tracks);
    assert_eq!(skipped, 0);
    assert_eq!(timeline.clip_count(), 1);
    match timeline
        .automation_for(&address)
        .map(|lane| lane.reading_at(Frames::new(BAR * 2)))
    {
        Some(Reading::Between {
            from,
            to,
            travelled,
            span,
            ..
        }) => {
            assert_eq!((from, to), (0.0, 1.0));
            assert_eq!((travelled, span), (BAR * 2, BAR * 4));
        }
        _ => panic!("the automation recorded in the document did not survive into the timeline"),
    }
}

#[test]
fn an_overfull_automation_track_keeps_its_earliest_points_and_counts_once() {
    let points: Vec<AutomationPoint<f32>> = (0..=MAX_POINTS)
        .map(|index| point(i64::try_from(index).unwrap_or(0), 0.5, Interpolation::Hold))
        .collect();
    let tracks = [AutomationTrack {
        address: gain(),
        enabled: false,
        points,
    }];
    let (timeline, skipped) = Timeline::from_project(&[], &tracks);
    assert_eq!(skipped, 1);
    let lane = &timeline.automation()[0];
    assert_eq!(lane.len(), MAX_POINTS);
    assert!(!lane.is_enabled());
    assert_eq!(lane.end(), Some(Frames::new(i64::try_from(MAX_POINTS).unwrap_or(0) - 1)));
}

#[test]
fn a_lane_can_be_edited_in_place_and_keeps_its_parameter() {
    let mut timeline = Timeline::<f32>::new();
    let address = ParameterAddress::new(ParameterOwner::Master, ParameterKey::Gain).expect("valid");
    let missing = ParameterAddress::new(ParameterOwner::Master, ParameterKey::Filter).expect("valid");
    timeline.set_automation(lane_with(address.clone(), &[(0, 0.2)]));

    assert!(timeline.automation_for_mut(&missing).is_none());

    let lane = timeline.automation_for_mut(&address).expect("a lane");
    lane.insert(point(100, 0.9, Interpolation::Linear)).expect("room");
    lane.set_enabled(false);

    let lane = timeline.automation_for(&address).expect("a lane");
    assert_eq!(lane.len(), 2);
    assert!(!lane.is_enabled());
    assert!(lane.address().same_as(&address));
    assert_eq!(timeline.automation().len(), 1);
}

/// The placements a document holds once the operations of edits are applied
/// in order: a place operation records every property of its placement.
fn fold(operations: &[Operation]) -> Vec<Placement> {
    let mut placements: Vec<Placement> = Vec::new();
    for operation in operations {
        match operation {
            Operation::PlaceTrack {
                placement,
                track,
                position,
                length,
                lane,
                source_offset,
            } => {
                placements.retain(|kept| kept.id != *placement);
                placements.push(Placement {
                    id: *placement,
                    track: *track,
                    lane: *lane,
                    position: *position,
                    length: *length,
                    source_offset: *source_offset,
                });
            }
            Operation::SetPlacementSource {
                placement,
                source_offset,
            } => {
                for kept in placements.iter_mut().filter(|kept| kept.id == *placement) {
                    kept.source_offset = *source_offset;
                }
            }
            Operation::MovePlacement {
                placement,
                position,
                lane,
            } => {
                for kept in placements.iter_mut().filter(|kept| kept.id == *placement) {
                    kept.position = *position;
                    kept.lane = *lane;
                }
            }
            Operation::TrimPlacement { placement, length } => {
                for kept in placements.iter_mut().filter(|kept| kept.id == *placement) {
                    kept.length = *length;
                }
            }
            Operation::RemovePlacement { placement } => {
                placements.retain(|kept| kept.id != *placement);
            }
            _ => {}
        }
    }
    placements.sort_by_key(|placement| placement.id.0);
    placements
}

#[test]
fn probe_add_drops_source_offset() {
    let mut tl = Timeline::<f32>::new();
    let c = Clip::new(PlacementId::new(1), TrackRef::new(1), 0, Frames::new(0), Frames::new(88_200 * 4))
        .with_source_offset(Frames::new(1000));
    let edit = tl.add(c, &grid(), Snap::Off).unwrap();
    let state = fold(edit.operations());
    let (rebuilt, skipped) = Timeline::<f32>::from_project(&state, &[]);
    assert_eq!(skipped, 0);
    let live = tl.clip(PlacementId::new(1)).unwrap().source_offset();
    let folded = rebuilt.clip(PlacementId::new(1)).unwrap().source_offset();
    assert_eq!(live, folded, "the refold disagrees with the live timeline");
    assert_eq!(live, Frames::new(1000));
}

#[test]
fn edits_applied_to_the_document_rebuild_the_same_clips() {
    let mut timeline = Timeline::<f32>::new();
    let mut operations: Vec<Operation> = Vec::new();
    let added = timeline
        .add(clip(1, 0, BAR, BAR * 8).with_source_offset(Frames::new(500)), &grid(), Snap::Off)
        .expect("valid");
    operations.extend(added.into_operations());
    let trimmed = timeline
        .trim_start(PlacementId::new(1), Frames::new(BAR * 2), &grid(), Snap::Off)
        .expect("valid");
    operations.extend(trimmed.into_operations());
    let split = timeline
        .split(PlacementId::new(1), Frames::new(BAR * 5), PlacementId::new(2), &grid(), Snap::Off)
        .expect("inside the clip");
    operations.extend(split.into_operations());

    let (rebuilt, skipped) = Timeline::<f32>::from_project(&fold(&operations), &[]);
    assert_eq!(skipped, 0);
    assert_eq!(rebuilt.clips(), timeline.clips(), "the refold disagrees with the live timeline");
}
