//! Where synchronisation is, and what it is allowed to stop.
//!
//! Offline is the normal case: there is no state in which the user cannot
//! edit. A conflict stops transfer and nothing else, and a pause is lifted by
//! the user alone.

use vstd::prelude::*;

verus! {

/// Where synchronisation is.
#[derive(Debug, Clone, Copy, PartialEq, Eq, Hash, Structural)]
pub enum SyncState {
    /// No network worth trying. The state a device starts in.
    Offline,
    /// Connected, with nothing to do.
    Idle,
    /// Sending what was authored here.
    Sending,
    /// Receiving what was authored elsewhere.
    Receiving,
    /// Two devices changed the same thing and somebody has to choose.
    Conflicted,
    /// The user switched it off.
    Paused,
}

impl Default for SyncState {
    fn default() -> (state: Self)
        ensures
            state == SyncState::Offline,
    {
        SyncState::Offline
    }
}

impl SyncState {
    /// Every state.
    pub fn all() -> (states: [SyncState; 6])
        ensures
            states@ == seq![
                SyncState::Offline,
                SyncState::Idle,
                SyncState::Sending,
                SyncState::Receiving,
                SyncState::Conflicted,
                SyncState::Paused,
            ],
    {
        [
            SyncState::Offline,
            SyncState::Idle,
            SyncState::Sending,
            SyncState::Receiving,
            SyncState::Conflicted,
            SyncState::Paused,
        ]
    }

    /// Whether the user may go on editing: true in every state, permanently.
    pub fn editing_is_allowed(self) -> (allowed: bool)
        ensures
            allowed,
    {
        true
    }

    /// Whether anything is being transferred right now.
    pub fn is_transferring(self) -> (transferring: bool)
        ensures
            transferring <==> (self == SyncState::Sending || self == SyncState::Receiving),
    {
        matches!(self, SyncState::Sending | SyncState::Receiving)
    }

    /// Whether the user has to decide something before this clears.
    pub fn needs_the_user(self) -> (needs: bool)
        ensures
            needs <==> self == SyncState::Conflicted,
    {
        matches!(self, SyncState::Conflicted)
    }

    /// A stable identifier, for storage and localisation.
    pub fn key(self) -> (key: &'static str)
        ensures
            key@ == sync_state_key(self),
    {
        proof {
            reveal_strlit("sync.offline");
            reveal_strlit("sync.idle");
            reveal_strlit("sync.sending");
            reveal_strlit("sync.receiving");
            reveal_strlit("sync.conflicted");
            reveal_strlit("sync.paused");
        }
        match self {
            SyncState::Offline => "sync.offline",
            SyncState::Idle => "sync.idle",
            SyncState::Sending => "sync.sending",
            SyncState::Receiving => "sync.receiving",
            SyncState::Conflicted => "sync.conflicted",
            SyncState::Paused => "sync.paused",
        }
    }
}

/// The stable identifier of a state.
pub open spec fn sync_state_key(state: SyncState) -> Seq<char> {
    match state {
        SyncState::Offline => "sync.offline"@,
        SyncState::Idle => "sync.idle"@,
        SyncState::Sending => "sync.sending"@,
        SyncState::Receiving => "sync.receiving"@,
        SyncState::Conflicted => "sync.conflicted"@,
        SyncState::Paused => "sync.paused"@,
    }
}

/// Something that happens to synchronisation.
#[derive(Debug, Clone, Copy, PartialEq, Eq, Hash, Structural)]
pub enum SyncEvent {
    /// A usable network appeared.
    NetworkAvailable,
    /// It went away.
    NetworkLost,
    /// There is something to send.
    WorkToSend,
    /// Something arrived to apply.
    WorkArrived,
    /// The transfer finished.
    TransferFinished,
    /// Merging found something two devices both changed.
    ConflictFound,
    /// The user chose.
    ConflictResolved,
    /// The user switched synchronisation off.
    Pause,
    /// The user switched it back on.
    Resume,
}

impl SyncEvent {
    /// A stable identifier, for storage and localisation.
    pub fn key(self) -> (key: &'static str)
        ensures
            key@ == sync_event_key(self),
    {
        proof {
            reveal_strlit("sync.event.network_available");
            reveal_strlit("sync.event.network_lost");
            reveal_strlit("sync.event.work_to_send");
            reveal_strlit("sync.event.work_arrived");
            reveal_strlit("sync.event.transfer_finished");
            reveal_strlit("sync.event.conflict_found");
            reveal_strlit("sync.event.conflict_resolved");
            reveal_strlit("sync.event.pause");
            reveal_strlit("sync.event.resume");
        }
        match self {
            SyncEvent::NetworkAvailable => "sync.event.network_available",
            SyncEvent::NetworkLost => "sync.event.network_lost",
            SyncEvent::WorkToSend => "sync.event.work_to_send",
            SyncEvent::WorkArrived => "sync.event.work_arrived",
            SyncEvent::TransferFinished => "sync.event.transfer_finished",
            SyncEvent::ConflictFound => "sync.event.conflict_found",
            SyncEvent::ConflictResolved => "sync.event.conflict_resolved",
            SyncEvent::Pause => "sync.event.pause",
            SyncEvent::Resume => "sync.event.resume",
        }
    }
}

/// The stable identifier of an event.
pub open spec fn sync_event_key(event: SyncEvent) -> Seq<char> {
    match event {
        SyncEvent::NetworkAvailable => "sync.event.network_available"@,
        SyncEvent::NetworkLost => "sync.event.network_lost"@,
        SyncEvent::WorkToSend => "sync.event.work_to_send"@,
        SyncEvent::WorkArrived => "sync.event.work_arrived"@,
        SyncEvent::TransferFinished => "sync.event.transfer_finished"@,
        SyncEvent::ConflictFound => "sync.event.conflict_found"@,
        SyncEvent::ConflictResolved => "sync.event.conflict_resolved"@,
        SyncEvent::Pause => "sync.event.pause"@,
        SyncEvent::Resume => "sync.event.resume"@,
    }
}

/// The transition, written as precedence: a pause outranks everything, only
/// a resume lifts it, a lost network outranks transfer, an open conflict
/// outranks transfer, and only a network takes a device off line.
pub open spec fn next_sync_state(state: SyncState, event: SyncEvent) -> SyncState {
    if event == SyncEvent::Pause {
        SyncState::Paused
    } else if state == SyncState::Paused {
        if event == SyncEvent::Resume { SyncState::Idle } else { SyncState::Paused }
    } else if event == SyncEvent::NetworkLost {
        SyncState::Offline
    } else if event == SyncEvent::ConflictFound {
        SyncState::Conflicted
    } else if state == SyncState::Conflicted {
        if event == SyncEvent::ConflictResolved { SyncState::Idle } else { SyncState::Conflicted }
    } else if state == SyncState::Offline {
        if event == SyncEvent::NetworkAvailable { SyncState::Idle } else { SyncState::Offline }
    } else {
        match event {
            SyncEvent::WorkToSend => SyncState::Sending,
            SyncEvent::WorkArrived => SyncState::Receiving,
            SyncEvent::TransferFinished => SyncState::Idle,
            _ => state,
        }
    }
}

/// Applies an event. Total: a pair that means nothing leaves the state alone.
pub fn advance(state: SyncState, event: SyncEvent) -> (next: SyncState)
    ensures
        next == next_sync_state(state, event),
{
    if event == SyncEvent::Pause {
        return SyncState::Paused;
    }
    if state == SyncState::Paused {
        return if event == SyncEvent::Resume {
            SyncState::Idle
        } else {
            SyncState::Paused
        };
    }
    if event == SyncEvent::NetworkLost {
        return SyncState::Offline;
    }
    if event == SyncEvent::ConflictFound {
        return SyncState::Conflicted;
    }
    if state == SyncState::Conflicted {
        return if event == SyncEvent::ConflictResolved {
            SyncState::Idle
        } else {
            SyncState::Conflicted
        };
    }
    if state == SyncState::Offline {
        return if event == SyncEvent::NetworkAvailable {
            SyncState::Idle
        } else {
            SyncState::Offline
        };
    }
    match event {
        SyncEvent::WorkToSend => SyncState::Sending,
        SyncEvent::WorkArrived => SyncState::Receiving,
        SyncEvent::TransferFinished => SyncState::Idle,
        SyncEvent::NetworkAvailable
        | SyncEvent::ConflictResolved
        | SyncEvent::Resume
        | SyncEvent::Pause
        | SyncEvent::NetworkLost
        | SyncEvent::ConflictFound => state,
    }
}

/// A pause is honoured from every state, and nothing but a resume lifts it.
pub proof fn lemma_pause_is_honoured_exactly(state: SyncState, event: SyncEvent)
    ensures
        next_sync_state(state, SyncEvent::Pause) == SyncState::Paused,
        event != SyncEvent::Resume ==> next_sync_state(SyncState::Paused, event)
            == SyncState::Paused,
        next_sync_state(SyncState::Paused, SyncEvent::Resume) == SyncState::Idle,
{
}

/// A conflict stops transfer: work arriving or waiting to be sent does not
/// start a transfer while a conflict is open, and only its resolution clears
/// it (short of a pause or a lost network).
pub proof fn lemma_conflict_blocks_transfer(event: SyncEvent)
    ensures
        event != SyncEvent::Pause && event != SyncEvent::NetworkLost
            && event != SyncEvent::ConflictResolved ==> next_sync_state(
            SyncState::Conflicted,
            event,
        ) == SyncState::Conflicted,
        next_sync_state(SyncState::Conflicted, SyncEvent::ConflictResolved) == SyncState::Idle,
{
}

/// Losing the network takes every unpaused state off line.
pub proof fn lemma_network_loss_goes_offline(state: SyncState)
    ensures
        state != SyncState::Paused ==> next_sync_state(state, SyncEvent::NetworkLost)
            == SyncState::Offline,
{
}

/// Nothing starts a transfer without a network: from off line, no event but
/// a network appearing leads anywhere that transfers.
pub proof fn lemma_no_transfer_offline(event: SyncEvent)
    ensures
        !(next_sync_state(SyncState::Offline, event) == SyncState::Sending
            || next_sync_state(SyncState::Offline, event) == SyncState::Receiving),
{
}

/// While connected, unpaused and free of conflict, the transfer follows the
/// work: arriving work starts a receive, waiting work starts a send, a
/// finished transfer returns to idle, and news that changes nothing (the
/// network being there, a conflict being resolved, a resume) leaves the
/// state as it was.
pub proof fn lemma_transfer_follows_the_work(state: SyncState)
    requires
        state == SyncState::Idle || state == SyncState::Sending || state == SyncState::Receiving,
    ensures
        next_sync_state(state, SyncEvent::WorkArrived) == SyncState::Receiving,
        next_sync_state(state, SyncEvent::WorkToSend) == SyncState::Sending,
        next_sync_state(state, SyncEvent::TransferFinished) == SyncState::Idle,
        next_sync_state(state, SyncEvent::NetworkAvailable) == state,
        next_sync_state(state, SyncEvent::ConflictResolved) == state,
        next_sync_state(state, SyncEvent::Resume) == state,
        next_sync_state(state, SyncEvent::ConflictFound) == SyncState::Conflicted,
{
}

/// Off line, only a network appearing changes anything short of a pause:
/// it brings the device to idle.
pub proof fn lemma_offline_waits_for_the_network(event: SyncEvent)
    ensures
        next_sync_state(SyncState::Offline, SyncEvent::NetworkAvailable) == SyncState::Idle,
        event != SyncEvent::NetworkAvailable && event != SyncEvent::Pause && event != SyncEvent::ConflictFound
            ==> next_sync_state(SyncState::Offline, event) == SyncState::Offline,
{
}

/// A conflict found anywhere but in a pause stops everything until it is
/// resolved.
pub proof fn lemma_a_conflict_found_is_faced(state: SyncState)
    ensures
        state != SyncState::Paused ==> next_sync_state(state, SyncEvent::ConflictFound) == SyncState::Conflicted,
{
}

} // verus!
