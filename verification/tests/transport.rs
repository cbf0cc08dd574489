use prv_core::time::frames::Frames;
use prv_core::time::sample_rate::SampleRate;
use prv_core::time::signature::TimeSignature;
use prv_core::time::tempo::Tempo;
use prv_core::transport::looping::LoopRegion;
use prv_core::transport::state::{
    next_state, InvalidTransition, PlaybackIntent, PlaybackState, TransportEvent,
};
use prv_core::transport::transport::{Transport, TransportError};

// ---- looping

fn region(start: i64, end: i64) -> LoopRegion {
    LoopRegion::new(Frames::new(start), Frames::new(end)).unwrap_or(LoopRegion::none())
}

#[test]
fn a_region_must_have_positive_length() {
    assert!(LoopRegion::new(Frames::new(100), Frames::new(200)).is_some());
    assert!(LoopRegion::new(Frames::new(100), Frames::new(100)).is_none());
    assert!(LoopRegion::new(Frames::new(200), Frames::new(100)).is_none());
}

#[test]
fn an_empty_region_cannot_be_engaged() {
    let empty = LoopRegion::none();
    assert!(!empty.enabled().is_enabled());
}

#[test]
fn engaging_and_disengaging_preserves_the_bounds() {
    let region = region(1_000, 5_000);
    let engaged = region.enabled();
    assert!(engaged.is_enabled());
    assert_eq!(engaged.start(), Frames::new(1_000));
    assert_eq!(engaged.end(), Frames::new(5_000));
    assert!(!engaged.disabled().is_enabled());
}

#[test]
fn the_end_is_exclusive() {
    let region = region(100, 200);
    assert!(region.contains(Frames::new(100)));
    assert!(region.contains(Frames::new(199)));
    assert!(!region.contains(Frames::new(200)));
    assert!(!region.contains(Frames::new(99)));
}

#[test]
fn wrapping_returns_a_position_inside_the_region() {
    let region = region(1_000, 1_400);
    assert_eq!(region.wrap(Frames::new(1_400)), Frames::new(1_000));
    assert_eq!(region.wrap(Frames::new(1_450)), Frames::new(1_050));
    assert_eq!(region.wrap(Frames::new(1_200)), Frames::new(1_200));
}

#[test]
fn an_overshoot_larger_than_the_loop_preserves_phase() {
    let region = region(0, 100);
    assert_eq!(region.wrap(Frames::new(512)), Frames::new(12));
    assert_eq!(region.wrap(Frames::new(1_000)), Frames::new(0));
    assert_eq!(region.wrap(Frames::new(1_099)), Frames::new(99));
}

#[test]
fn wrapping_an_empty_region_is_a_no_op() {
    let empty = LoopRegion::none();
    assert_eq!(empty.wrap(Frames::new(500)), Frames::new(500));
}

#[test]
fn a_region_reports_its_length() {
    assert_eq!(region(1_000, 1_400).length(), Frames::new(400));
    assert_eq!(LoopRegion::none().length(), Frames::new(0));
}

// ---- the state table

const ALL_STATES: [PlaybackState; 9] = [
    PlaybackState::Stopped,
    PlaybackState::Loading,
    PlaybackState::Ready,
    PlaybackState::Playing,
    PlaybackState::Paused,
    PlaybackState::Seeking,
    PlaybackState::Buffering,
    PlaybackState::Recovering,
    PlaybackState::Error,
];

const ALL_EVENTS: [TransportEvent; 15] = [
    TransportEvent::Load,
    TransportEvent::LoadSucceeded,
    TransportEvent::LoadFailed,
    TransportEvent::Unload,
    TransportEvent::Play,
    TransportEvent::Pause,
    TransportEvent::Stop,
    TransportEvent::SeekRequested,
    TransportEvent::SeekCompleted,
    TransportEvent::BufferExhausted,
    TransportEvent::BufferRefilled,
    TransportEvent::DeviceLost,
    TransportEvent::DeviceRestored,
    TransportEvent::Fault,
    TransportEvent::Reset,
];

const ALL_INTENTS: [PlaybackIntent; 3] = [
    PlaybackIntent::Stopped,
    PlaybackIntent::Playing,
    PlaybackIntent::Paused,
];

#[test]
fn every_state_and_event_combination_has_a_defined_outcome() {
    for state in ALL_STATES {
        for event in ALL_EVENTS {
            for intent in ALL_INTENTS {
                match next_state(state, event, intent) {
                    Ok(next) => assert!(ALL_STATES.contains(&next)),
                    Err(rejection) => {
                        assert_eq!(rejection.from, state);
                        assert_eq!(rejection.event, event);
                    }
                }
            }
        }
    }
}

#[test]
fn a_fault_is_always_reachable() {
    for state in ALL_STATES {
        for intent in ALL_INTENTS {
            assert_eq!(
                next_state(state, TransportEvent::Fault, intent),
                Ok(PlaybackState::Error),
                "fault must be accepted while {}",
                state.label()
            );
        }
    }
}

#[test]
fn stop_is_honoured_everywhere_except_from_an_error() {
    for state in ALL_STATES {
        for intent in ALL_INTENTS {
            let result = next_state(state, TransportEvent::Stop, intent);
            if state == PlaybackState::Error {
                assert!(result.is_err(), "an error must be cleared explicitly");
            } else {
                assert_eq!(
                    result,
                    Ok(PlaybackState::Stopped),
                    "stop must always work while {}",
                    state.label()
                );
            }
        }
    }
}

#[test]
fn an_error_requires_an_explicit_reset() {
    for event in ALL_EVENTS {
        let result = next_state(PlaybackState::Error, event, PlaybackIntent::Playing);
        match event {
            TransportEvent::Reset | TransportEvent::Unload => {
                assert_eq!(result, Ok(PlaybackState::Stopped));
            }
            TransportEvent::Fault => assert_eq!(result, Ok(PlaybackState::Error)),
            _ => assert!(result.is_err(), "{} must not clear an error", event.label()),
        }
    }
}

#[test]
fn playing_cannot_start_without_a_track() {
    assert!(next_state(
        PlaybackState::Stopped,
        TransportEvent::Play,
        PlaybackIntent::Playing
    )
    .is_err());
}

#[test]
fn transient_states_resolve_to_the_users_intent() {
    let cases = [
        (PlaybackState::Seeking, TransportEvent::SeekCompleted),
        (PlaybackState::Buffering, TransportEvent::BufferRefilled),
        (PlaybackState::Recovering, TransportEvent::DeviceRestored),
    ];
    for (state, event) in cases {
        assert_eq!(
            next_state(state, event, PlaybackIntent::Playing),
            Ok(PlaybackState::Playing)
        );
        assert_eq!(
            next_state(state, event, PlaybackIntent::Paused),
            Ok(PlaybackState::Paused)
        );
        assert_eq!(
            next_state(state, event, PlaybackIntent::Stopped),
            Ok(PlaybackState::Ready)
        );
    }
}

#[test]
fn a_device_lost_during_a_seek_recovers_rather_than_stopping() {
    let recovering = next_state(
        PlaybackState::Seeking,
        TransportEvent::DeviceLost,
        PlaybackIntent::Playing,
    );
    assert_eq!(recovering, Ok(PlaybackState::Recovering));
    assert_eq!(
        next_state(
            PlaybackState::Recovering,
            TransportEvent::DeviceRestored,
            PlaybackIntent::Playing
        ),
        Ok(PlaybackState::Playing)
    );
}

#[test]
fn changing_intent_mid_transient_does_not_abort_it() {
    assert_eq!(
        next_state(
            PlaybackState::Buffering,
            TransportEvent::Pause,
            PlaybackIntent::Playing
        ),
        Ok(PlaybackState::Buffering)
    );
    assert_eq!(
        next_state(
            PlaybackState::Buffering,
            TransportEvent::BufferRefilled,
            PlaybackIntent::Paused
        ),
        Ok(PlaybackState::Paused)
    );
}

#[test]
fn a_failed_load_produces_an_error_rather_than_a_silent_stop() {
    assert_eq!(
        next_state(
            PlaybackState::Loading,
            TransportEvent::LoadFailed,
            PlaybackIntent::Playing
        ),
        Ok(PlaybackState::Error)
    );
}

#[test]
fn loading_a_new_track_is_possible_from_any_loaded_state() {
    for state in [
        PlaybackState::Ready,
        PlaybackState::Playing,
        PlaybackState::Paused,
        PlaybackState::Stopped,
    ] {
        assert_eq!(
            next_state(state, TransportEvent::Load, PlaybackIntent::Playing),
            Ok(PlaybackState::Loading)
        );
    }
}

#[test]
fn state_predicates_agree_with_the_states() {
    assert!(PlaybackState::Playing.is_rendering());
    assert!(!PlaybackState::Buffering.is_rendering());

    for state in [
        PlaybackState::Seeking,
        PlaybackState::Buffering,
        PlaybackState::Recovering,
    ] {
        assert!(state.is_transient());
    }
    assert!(!PlaybackState::Paused.is_transient());

    assert!(!PlaybackState::Stopped.has_track());
    assert!(!PlaybackState::Loading.has_track());
    assert!(!PlaybackState::Error.has_track());
    assert!(PlaybackState::Ready.has_track());
    assert!(PlaybackState::Playing.has_track());
}

#[test]
fn rejections_read_as_a_sentence() {
    let rejection = InvalidTransition {
        from: PlaybackState::Stopped,
        event: TransportEvent::Play,
    };
    assert_eq!(rejection.to_text(), "cannot apply play while stopped");
}

#[test]
fn labels_name_states_intents_and_events() {
    assert_eq!(PlaybackState::Recovering.label(), "recovering");
    assert_eq!(PlaybackIntent::Paused.label(), "paused");
    assert_eq!(TransportEvent::BufferExhausted.label(), "buffer exhausted");
}

// ---- the transport

fn transport() -> Transport {
    Transport::new(
        SampleRate::hz_48000(),
        Tempo::bpm_120(),
        TimeSignature::four_four(),
    )
}

fn playing() -> Transport {
    let mut transport = transport();
    assert!(transport.apply(TransportEvent::Load).is_ok());
    assert!(transport.apply(TransportEvent::LoadSucceeded).is_ok());
    assert!(transport.apply(TransportEvent::Play).is_ok());
    transport
}

#[test]
fn a_new_transport_is_stopped_at_the_origin() {
    let transport = transport();
    assert_eq!(transport.state(), PlaybackState::Stopped);
    assert_eq!(transport.intent(), PlaybackIntent::Stopped);
    assert_eq!(transport.position(), Frames::zero());
}

#[test]
fn play_records_the_intent_as_well_as_the_state() {
    let transport = playing();
    assert_eq!(transport.state(), PlaybackState::Playing);
    assert_eq!(transport.intent(), PlaybackIntent::Playing);
}

#[test]
fn a_rejected_event_leaves_the_transport_untouched() {
    let mut transport = transport();
    let before = transport;
    assert!(transport.apply(TransportEvent::Play).is_err());
    assert_eq!(transport, before, "a rejected event must change nothing");
}

#[test]
fn a_rejected_event_names_the_state_and_the_event() {
    let mut transport = transport();
    assert_eq!(
        transport.apply(TransportEvent::Play),
        Err(TransportError::InvalidTransition(InvalidTransition {
            from: PlaybackState::Stopped,
            event: TransportEvent::Play,
        }))
    );
}

#[test]
fn stopping_returns_to_the_origin() {
    let mut transport = playing();
    transport.advance(48_000);
    assert_eq!(transport.position(), Frames::new(48_000));

    assert!(transport.apply(TransportEvent::Stop).is_ok());
    assert_eq!(transport.state(), PlaybackState::Stopped);
    assert_eq!(transport.position(), Frames::zero());
}

#[test]
fn pausing_holds_the_position() {
    let mut transport = playing();
    transport.advance(24_000);
    assert!(transport.apply(TransportEvent::Pause).is_ok());
    assert_eq!(transport.state(), PlaybackState::Paused);
    assert_eq!(transport.position(), Frames::new(24_000));
}

#[test]
fn a_buffer_underrun_resumes_where_it_left_off() {
    let mut transport = playing();
    transport.advance(10_000);
    assert!(transport.apply(TransportEvent::BufferExhausted).is_ok());
    assert_eq!(transport.state(), PlaybackState::Buffering);
    assert_eq!(transport.position(), Frames::new(10_000));

    assert!(transport.apply(TransportEvent::BufferRefilled).is_ok());
    assert_eq!(transport.state(), PlaybackState::Playing);
    assert_eq!(transport.position(), Frames::new(10_000));
}

#[test]
fn a_device_change_does_not_stop_the_music() {
    let mut transport = playing();
    transport.advance(96_000);
    let position = transport.position();

    assert!(transport.apply(TransportEvent::DeviceLost).is_ok());
    assert_eq!(transport.state(), PlaybackState::Recovering);
    assert_eq!(transport.position(), position, "position must survive");

    assert!(transport.apply(TransportEvent::DeviceRestored).is_ok());
    assert_eq!(transport.state(), PlaybackState::Playing);
    assert_eq!(transport.position(), position);
}

#[test]
fn a_loop_wraps_exactly_at_its_end() {
    let mut transport = playing();
    assert!(transport
        .set_loop(Frames::new(1_000), Frames::new(1_400))
        .is_ok());
    transport.enable_loop();
    transport.seek(Frames::new(1_000));

    assert_eq!(transport.frames_until_wrap(512), 400);
    transport.advance(400);
    assert_eq!(transport.position(), Frames::new(1_000), "wrapped to start");
}

#[test]
fn a_loop_repeats_indefinitely_without_drifting() {
    let mut transport = playing();
    assert!(transport.set_loop(Frames::new(0), Frames::new(1_000)).is_ok());
    transport.enable_loop();

    for _ in 0..10_000 {
        let chunk = transport.frames_until_wrap(256);
        transport.advance(chunk);
    }
    assert!(transport.position() < Frames::new(1_000));
    assert_eq!(transport.position().get() % 256, 0);
}

#[test]
fn a_loop_shorter_than_a_block_still_keeps_phase() {
    let mut transport = playing();
    assert!(transport.set_loop(Frames::new(0), Frames::new(100)).is_ok());
    transport.enable_loop();

    transport.advance(512);
    assert_eq!(transport.position(), Frames::new(12));
}

#[test]
fn a_loop_armed_ahead_of_the_playhead_does_not_drag_it_back() {
    let mut transport = playing();
    assert!(transport
        .set_loop(Frames::new(10_000), Frames::new(20_000))
        .is_ok());
    transport.enable_loop();

    assert_eq!(transport.frames_until_wrap(512), 512);
    transport.advance(512);
    assert_eq!(transport.position(), Frames::new(512));
}

#[test]
fn slip_mode_returns_to_the_arrangement() {
    let mut transport = playing();
    assert!(transport.set_loop(Frames::new(0), Frames::new(1_000)).is_ok());
    transport.set_slip(true);
    transport.enable_loop();
    assert!(transport.is_slipping());

    let mut rendered = 0_i64;
    for _ in 0..10 {
        let chunk = transport.frames_until_wrap(400);
        transport.advance(chunk);
        rendered += i64::from(chunk);
    }
    assert!(rendered > 3_000, "the test must actually render some audio");
    assert_eq!(transport.slip_position(), Frames::new(rendered));
    assert!(transport.position() < Frames::new(1_000));

    transport.disable_loop();
    assert_eq!(transport.position(), Frames::new(rendered));
}

#[test]
fn without_slip_leaving_a_loop_stays_put() {
    let mut transport = playing();
    assert!(transport.set_loop(Frames::new(0), Frames::new(1_000)).is_ok());
    transport.enable_loop();
    transport.advance(400);

    transport.disable_loop();
    assert_eq!(transport.position(), Frames::new(400));
}

#[test]
fn an_invalid_loop_region_is_rejected() {
    let mut transport = playing();
    assert_eq!(
        transport.set_loop(Frames::new(500), Frames::new(500)),
        Err(TransportError::InvalidLoopRegion)
    );
    assert_eq!(
        transport.set_loop(Frames::new(500), Frames::new(100)),
        Err(TransportError::InvalidLoopRegion)
    );
}

#[test]
fn setting_a_new_loop_keeps_it_engaged() {
    let mut transport = playing();
    assert!(transport.set_loop(Frames::new(0), Frames::new(1_000)).is_ok());
    transport.enable_loop();
    assert!(transport.loop_region().is_enabled());

    assert!(transport
        .set_loop(Frames::new(2_000), Frames::new(3_000))
        .is_ok());
    assert!(transport.loop_region().is_enabled());
}

#[test]
fn a_sample_rate_change_rescales_the_loop_and_preserves_the_music() {
    let mut transport = playing();
    assert!(transport
        .set_loop(Frames::new(24_000), Frames::new(48_000))
        .is_ok());
    transport.enable_loop();
    transport.seek(Frames::new(24_000));
    let musical_before = transport.clock().musical_position();

    transport.set_sample_rate(SampleRate::hz_96000());

    assert_eq!(transport.clock().musical_position(), musical_before);
    assert_eq!(transport.loop_region().start(), Frames::new(48_000));
    assert_eq!(transport.loop_region().end(), Frames::new(96_000));
    assert!(transport.loop_region().is_enabled());
}

#[test]
fn seeking_does_not_change_state() {
    let mut transport = playing();
    assert!(transport.apply(TransportEvent::Pause).is_ok());
    transport.seek(Frames::new(50_000));
    assert_eq!(transport.state(), PlaybackState::Paused);
    assert_eq!(transport.position(), Frames::new(50_000));
}

#[test]
fn a_pause_during_a_seek_lands_paused() {
    let mut transport = playing();
    assert!(transport.apply(TransportEvent::SeekRequested).is_ok());
    assert_eq!(transport.state(), PlaybackState::Seeking);

    assert!(transport.apply(TransportEvent::Pause).is_ok());
    assert_eq!(transport.state(), PlaybackState::Seeking, "the seek continues");
    assert_eq!(transport.intent(), PlaybackIntent::Paused);

    assert!(transport.apply(TransportEvent::SeekCompleted).is_ok());
    assert_eq!(transport.state(), PlaybackState::Paused);
}

#[test]
fn a_fault_requires_an_explicit_reset() {
    let mut transport = playing();
    assert!(transport.apply(TransportEvent::Fault).is_ok());
    assert_eq!(transport.state(), PlaybackState::Error);
    assert!(transport.apply(TransportEvent::Play).is_err());
    assert!(transport.apply(TransportEvent::Reset).is_ok());
    assert_eq!(transport.state(), PlaybackState::Stopped);
}

#[test]
fn a_tempo_change_keeps_the_playhead_in_frames() {
    let mut transport = playing();
    transport.advance(48_000);
    transport.set_tempo(Tempo::bpm_128());
    assert_eq!(transport.position(), Frames::new(48_000));
    assert_eq!(transport.clock().tempo(), Tempo::bpm_128());
}

#[test]
fn a_snapshot_reports_the_clock() {
    let mut transport = playing();
    transport.advance(24_000);
    let snapshot = transport.snapshot();
    assert_eq!(snapshot.position, Frames::new(24_000));
}

// ---- how things read

#[test]
fn a_loop_region_reads_its_bounds_and_whether_it_is_engaged() {
    let region = LoopRegion::new(Frames::new(100), Frames::new(200)).expect("a region");
    assert_eq!(region.to_text(), "loop off (100..200)");
    assert_eq!(region.enabled().to_text(), "loop 100..200");
    assert_eq!(LoopRegion::new(Frames::new(-5), Frames::new(5)).expect("a region").enabled().to_text(), "loop -5..5");
}

#[test]
fn transport_errors_read_as_sentences() {
    assert_eq!(
        TransportError::InvalidLoopRegion.to_text(),
        "a loop must end after it starts"
    );
    let rejection = InvalidTransition {
        from: PlaybackState::Stopped,
        event: TransportEvent::Play,
    };
    assert_eq!(
        TransportError::from(rejection).to_text(),
        "cannot apply play while stopped"
    );
}

#[test]
fn a_transport_reads_its_state_intent_and_position() {
    let transport = Transport::new(
        SampleRate::hz_48000(),
        Tempo::bpm_120(),
        TimeSignature::four_four(),
    );
    assert_eq!(transport.to_text(), "stopped (intent stopped) at 0 frames");
}

#[test]
fn a_frame_count_reads_in_frames() {
    assert_eq!(Frames::new(48_000).to_text(), "48000 frames");
    assert_eq!(Frames::new(-3).to_text(), "-3 frames");
}
