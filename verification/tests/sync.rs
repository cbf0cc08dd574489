use prv_core::security::consent::{Consents, Purpose};
use prv_core::sync::backup::{thin, PointKind, RestorePoint, RetentionPolicy};
use prv_core::sync::outbox::{Outbox, OutboxError};
use prv_core::sync::state::{advance, SyncEvent, SyncState};
use prv_core::sync::version::{DeviceId, OperationId, VersionVector};

// ---- the state machine

const EVENTS: [SyncEvent; 9] = [
    SyncEvent::NetworkAvailable,
    SyncEvent::NetworkLost,
    SyncEvent::WorkToSend,
    SyncEvent::WorkArrived,
    SyncEvent::TransferFinished,
    SyncEvent::ConflictFound,
    SyncEvent::ConflictResolved,
    SyncEvent::Pause,
    SyncEvent::Resume,
];

#[test]
fn there_is_no_state_in_which_the_user_cannot_edit() {
    for state in SyncState::all() {
        assert!(state.editing_is_allowed(), "{} withheld editing", state.key());
        for event in EVENTS {
            assert!(advance(state, event).editing_is_allowed());
        }
    }
}

#[test]
fn a_pause_is_honoured_exactly_and_only_the_user_lifts_it() {
    for state in SyncState::all() {
        assert_eq!(advance(state, SyncEvent::Pause), SyncState::Paused, "{}", state.key());
    }

    for event in EVENTS {
        if event == SyncEvent::Resume {
            continue;
        }
        assert_eq!(
            advance(SyncState::Paused, event),
            SyncState::Paused,
            "{} lifted a pause the user did not lift",
            event.key()
        );
    }
    assert_eq!(advance(SyncState::Paused, SyncEvent::Resume), SyncState::Idle);
}

#[test]
fn a_conflict_stops_transfer_and_nothing_else() {
    assert_eq!(
        advance(SyncState::Sending, SyncEvent::ConflictFound),
        SyncState::Conflicted
    );
    for event in [SyncEvent::WorkToSend, SyncEvent::WorkArrived] {
        assert_eq!(
            advance(SyncState::Conflicted, event),
            SyncState::Conflicted,
            "{}",
            event.key()
        );
    }
    assert!(SyncState::Conflicted.needs_the_user());
    assert!(SyncState::Conflicted.editing_is_allowed());
    assert_eq!(
        advance(SyncState::Conflicted, SyncEvent::ConflictResolved),
        SyncState::Idle
    );
}

#[test]
fn losing_the_network_is_never_an_error_state() {
    for state in SyncState::all() {
        if state == SyncState::Paused {
            continue;
        }
        assert_eq!(advance(state, SyncEvent::NetworkLost), SyncState::Offline, "{}", state.key());
    }
    assert!(!SyncState::Offline.needs_the_user());
    assert_eq!(SyncState::default(), SyncState::Offline);
}

#[test]
fn nothing_transfers_while_there_is_no_network() {
    for event in EVENTS {
        let next = advance(SyncState::Offline, event);
        if matches!(event, SyncEvent::NetworkAvailable | SyncEvent::Pause) {
            continue;
        }
        if event == SyncEvent::ConflictFound {
            assert_eq!(next, SyncState::Conflicted);
            continue;
        }
        assert!(!next.is_transferring(), "{}", event.key());
    }
}

#[test]
fn every_pair_has_an_answer() {
    for state in SyncState::all() {
        for event in EVENTS {
            let next = advance(state, event);
            assert!(SyncState::all().contains(&next));
        }
    }
}

#[test]
fn a_finished_transfer_returns_to_idle() {
    assert_eq!(
        advance(SyncState::Sending, SyncEvent::TransferFinished),
        SyncState::Idle
    );
    assert_eq!(
        advance(SyncState::Receiving, SyncEvent::TransferFinished),
        SyncState::Idle
    );
    assert!(SyncState::Sending.is_transferring());
    assert!(!SyncState::Idle.is_transferring());
}

#[test]
fn state_and_event_keys_are_distinct() {
    let states: Vec<&str> = SyncState::all().iter().map(|s| s.key()).collect();
    for (index, key) in states.iter().enumerate() {
        for (other, value) in states.iter().enumerate() {
            assert!(index == other || key != value, "two states share {key}");
        }
    }

    let events: Vec<&str> = EVENTS.iter().map(|e| e.key()).collect();
    for (index, key) in events.iter().enumerate() {
        for (other, value) in events.iter().enumerate() {
            assert!(index == other || key != value, "two events share {key}");
        }
    }
}

#[test]
fn a_conflict_pauses_the_transfer_and_not_the_person() {
    let mut state = SyncState::Sending;
    state = advance(state, SyncEvent::ConflictFound);

    assert!(state.needs_the_user());
    assert!(!state.is_transferring());
    assert!(
        state.editing_is_allowed(),
        "an unanswered question stopped the user working"
    );

    let mut outbox = Outbox::new();
    outbox.hold(op(1)).expect("held");
    assert_eq!(outbox.len(), 1);

    state = advance(state, SyncEvent::ConflictResolved);
    assert_eq!(state, SyncState::Idle);
}

#[test]
fn offline_then_a_reconnection_transfers_and_settles() {
    let mut state = SyncState::Offline;
    assert!(state.editing_is_allowed());
    state = advance(state, SyncEvent::NetworkAvailable);
    assert_eq!(state, SyncState::Idle);
    state = advance(state, SyncEvent::WorkToSend);
    assert!(state.is_transferring());
    state = advance(state, SyncEvent::TransferFinished);
    assert_eq!(state, SyncState::Idle);
}

#[test]
fn synchronising_is_a_purpose_the_user_agrees_to_like_any_other() {
    let consents = Consents::none();
    assert!(!consents.allows(Purpose::ProjectSync));
    assert!(Purpose::ProjectSync.sends_content());
}

#[test]
fn a_full_outbox_says_how_much_is_waiting() {
    let error = OutboxError::Full { limit: 65_536 };
    assert_eq!(
        error.to_text(),
        "65536 edits are already waiting to be synchronised"
    );
}

// ---- backups

fn automatic(position: usize, age_seconds: u64) -> RestorePoint {
    RestorePoint {
        position,
        age_seconds,
        kind: PointKind::Automatic,
    }
}

fn deliberate(position: usize, age_seconds: u64) -> RestorePoint {
    RestorePoint {
        position,
        age_seconds,
        kind: PointKind::Deliberate,
    }
}

#[test]
fn a_point_somebody_named_is_never_discarded() {
    let mut points: Vec<RestorePoint> = (0..500)
        .map(|index| automatic(index, index as u64 * 600))
        .collect();
    points.push(deliberate(9_999, 10_000_000));

    let kept = thin(&points, RetentionPolicy::standard());
    assert!(kept.iter().any(|point| point.position == 9_999));
}

#[test]
fn the_named_points_alone_may_exceed_the_bound() {
    let points: Vec<RestorePoint> = (0..200)
        .map(|index| deliberate(index, index as u64 * 86_400))
        .collect();

    let kept = thin(&points, RetentionPolicy::standard());
    assert_eq!(kept.len(), 200);
}

#[test]
fn everything_from_the_last_hour_survives() {
    let points: Vec<RestorePoint> = (0..30)
        .map(|index| automatic(index, index as u64 * 60))
        .collect();

    let kept = thin(&points, RetentionPolicy::standard());
    assert_eq!(kept.len(), 30);
}

#[test]
fn a_month_of_work_stays_legible_rather_than_becoming_a_wall() {
    let mut points = Vec::new();
    for index in 0..300_usize {
        points.push(automatic(index, index as u64 * 8_640));
    }

    let kept = thin(&points, RetentionPolicy::standard());
    assert!(kept.len() <= RetentionPolicy::standard().maximum_automatic);
    assert!(!kept.is_empty());

    let oldest = kept
        .iter()
        .map(|point| point.age_seconds)
        .max()
        .expect("something was kept");
    assert!(oldest > 86_400 * 7, "the oldest point kept is only {oldest} seconds old");
}

#[test]
fn thinning_twice_changes_nothing() {
    let points: Vec<RestorePoint> = (0..200)
        .map(|index| automatic(index, index as u64 * 1_800))
        .collect();

    let once = thin(&points, RetentionPolicy::standard());
    let twice = thin(&once, RetentionPolicy::standard());
    assert_eq!(once, twice);
}

#[test]
fn the_newest_point_is_always_kept() {
    let points: Vec<RestorePoint> = (0..100)
        .map(|index| automatic(index, index as u64 * 3_600))
        .collect();

    let kept = thin(&points, RetentionPolicy::standard());
    assert_eq!(kept.first().map(|point| point.position), Some(0));
}

#[test]
fn the_result_is_in_the_order_a_user_reads_it() {
    let points = vec![
        automatic(3, 300_000),
        automatic(1, 100),
        deliberate(2, 5_000),
    ];
    let kept = thin(&points, RetentionPolicy::standard());
    let ages: Vec<u64> = kept.iter().map(|point| point.age_seconds).collect();
    let mut sorted = ages.clone();
    sorted.sort_unstable();
    assert_eq!(ages, sorted);
}

#[test]
fn nothing_thins_to_nothing() {
    assert!(thin(&[], RetentionPolicy::standard()).is_empty());
}

#[test]
fn kind_keys_are_distinct() {
    assert_ne!(PointKind::Automatic.key(), PointKind::Deliberate.key());
    assert_eq!(RetentionPolicy::default(), RetentionPolicy::standard());
}

#[test]
fn two_automatic_points_in_one_hour_band_keep_only_the_newer() {
    let policy = RetentionPolicy::standard();
    let base = policy.keep_everything_under;
    let points = vec![automatic(0, base + 10), automatic(1, base + 20)];
    let kept = thin(&points, policy);
    assert_eq!(kept, vec![automatic(0, base + 10)]);
}

#[test]
fn a_restore_point_reads_as_its_kind_place_and_age() {
    assert_eq!(deliberate(4, 90).to_text(), "point.deliberate at 4 (90s ago)");
}

// ---- the outbox

fn here() -> DeviceId {
    DeviceId::new(1)
}

fn op(sequence: u64) -> OperationId {
    OperationId::new(here(), sequence)
}

#[test]
fn six_hours_offline_then_a_reconnection() {
    let mut state = SyncState::Offline;
    let mut outbox = Outbox::new();

    for sequence in 1..=2_000 {
        assert!(state.editing_is_allowed());
        outbox.hold(op(sequence)).expect("held");
    }
    assert_eq!(state, SyncState::Offline);
    assert_eq!(outbox.len(), 2_000);
    assert!(!outbox.is_nearly_full());

    state = advance(state, SyncEvent::NetworkAvailable);
    state = advance(state, SyncEvent::WorkToSend);
    assert!(state.is_transferring());

    for sequence in 1..=2_000 {
        outbox.acknowledge(op(sequence));
    }
    state = advance(state, SyncEvent::TransferFinished);
    assert_eq!(state, SyncState::Idle);
    assert!(outbox.is_empty());
}

#[test]
fn a_full_outbox_refuses_rather_than_forgetting() {
    let mut outbox = Outbox::new();
    for sequence in 1..=Outbox::LIMIT as u64 {
        outbox.hold(op(sequence)).expect("within the limit");
    }

    assert_eq!(
        outbox.hold(op(Outbox::LIMIT as u64 + 1)).err(),
        Some(OutboxError::Full {
            limit: Outbox::LIMIT
        })
    );
    assert_eq!(outbox.len(), Outbox::LIMIT);
    assert_eq!(
        outbox.waiting().first().copied(),
        Some(op(1)),
        "the oldest edit was discarded"
    );
}

#[test]
fn replaying_a_log_on_startup_does_not_duplicate_anything() {
    let mut outbox = Outbox::new();
    for sequence in 1..=5 {
        outbox.hold(op(sequence)).expect("held");
    }
    for sequence in 1..=5 {
        outbox.hold(op(sequence)).expect("held again");
    }
    assert_eq!(outbox.len(), 5);
}

#[test]
fn acknowledging_twice_is_a_no_op() {
    let mut outbox = Outbox::new();
    outbox.hold(op(1)).expect("held");
    outbox.acknowledge(op(1));
    outbox.acknowledge(op(1));
    assert!(outbox.is_empty());

    outbox.hold(op(1)).expect("held");
    assert!(outbox.is_empty(), "an acknowledged edit was queued again");
}

#[test]
fn a_reconnection_after_a_long_silence_costs_one_exchange() {
    let mut outbox = Outbox::new();
    for sequence in 1..=1000 {
        outbox.hold(op(sequence)).expect("held");
    }

    let mut seen = VersionVector::new();
    seen.observe(op(900));
    outbox.acknowledge_through(&seen);

    assert_eq!(outbox.len(), 100);
    assert_eq!(outbox.waiting().first().copied(), Some(op(901)));
    assert!(outbox.acknowledged().has_seen(op(900)));
}

#[test]
fn what_is_waiting_comes_out_in_the_order_it_was_authored() {
    let mut outbox = Outbox::new();
    for sequence in [5, 1, 4, 2, 3] {
        outbox.hold(op(sequence)).expect("held");
    }
    let order: Vec<u64> = outbox.waiting().iter().map(|id| id.sequence).collect();
    assert_eq!(order, vec![1, 2, 3, 4, 5]);
}

#[test]
fn edits_from_two_devices_do_not_collide() {
    let mut outbox = Outbox::new();
    let other = DeviceId::new(2);
    outbox.hold(OperationId::new(here(), 1)).expect("held");
    outbox.hold(OperationId::new(other, 1)).expect("held");
    assert_eq!(outbox.len(), 2);

    outbox.acknowledge(OperationId::new(here(), 1));
    assert_eq!(outbox.len(), 1);
    assert_eq!(
        outbox.waiting().first().map(|id| id.device),
        Some(other),
        "acknowledging one device's edit removed another's"
    );
}

#[test]
fn the_user_is_warned_while_there_is_still_room_to_act() {
    let mut outbox = Outbox::new();
    assert!(!outbox.is_nearly_full());

    let mut sequence = 0_u64;
    while !outbox.is_nearly_full() {
        sequence = sequence.saturating_add(1);
        outbox
            .hold(op(sequence))
            .expect("the warning should arrive before the refusal");
    }
    assert!(
        outbox.len() < Outbox::LIMIT,
        "the warning arrived only once the outbox had stopped accepting"
    );
}

#[test]
fn an_empty_outbox_says_everything_has_arrived() {
    let outbox = Outbox::new();
    assert!(outbox.is_empty());
    assert_eq!(outbox.len(), 0);
    assert!(outbox.waiting().is_empty());
    assert_eq!(outbox, Outbox::default());
}

#[test]
fn a_version_vector_sees_everything_up_to_what_it_observed() {
    let mut vector = VersionVector::new();
    assert!(!vector.has_seen(op(1)));
    vector.observe(op(3));
    assert!(vector.has_seen(op(1)));
    assert!(vector.has_seen(op(3)));
    assert!(!vector.has_seen(op(4)));
    assert!(!vector.has_seen(OperationId::new(DeviceId::new(2), 1)));

    vector.observe(op(2));
    assert!(vector.has_seen(op(3)), "observing an earlier operation forgot a later one");

    let mut other = VersionVector::new();
    other.observe(OperationId::new(DeviceId::new(2), 7));
    other.observe(op(5));
    vector.merge_from(&other);
    assert!(vector.has_seen(op(5)));
    assert!(vector.has_seen(OperationId::new(DeviceId::new(2), 7)));
    assert!(!vector.has_seen(OperationId::new(DeviceId::new(2), 8)));
    assert_eq!(vector.clone(), vector);
}

#[test]
fn acknowledging_an_operation_never_held_changes_nothing_waiting() {
    let mut outbox = Outbox::new();
    outbox.hold(op(2)).expect("held");
    outbox.acknowledge(OperationId::new(DeviceId::new(9), 1));
    assert_eq!(outbox.waiting(), vec![op(2)]);
}
