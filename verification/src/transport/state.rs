//! Playback state, the user's intent, and the transition table between them.

use vstd::prelude::*;

use crate::text::push_str;

verus! {

use PlaybackState as S;
use TransportEvent as E;

/// What the engine is currently doing.
#[derive(Debug, Clone, Copy, PartialEq, Eq, Hash, Structural)]
pub enum PlaybackState {
    /// No track is loaded, or playback has been stopped and the position reset.
    Stopped,
    /// A track is being opened and its first buffers filled.
    Loading,
    /// A track is loaded and cued, waiting to play.
    Ready,
    /// Audio is being rendered.
    Playing,
    /// Playback is suspended at its current position.
    Paused,
    /// The position is moving and buffers are being refilled at the destination.
    Seeking,
    /// Playback has run ahead of the decoder and is waiting for audio.
    Buffering,
    /// The output device changed or was lost, and the chain is being rebuilt.
    Recovering,
    /// An unrecoverable fault. Requires an explicit reset.
    Error,
}

/// The word a state is shown as.
pub open spec fn state_label(state: PlaybackState) -> Seq<char> {
    match state {
        PlaybackState::Stopped => "stopped"@,
        PlaybackState::Loading => "loading"@,
        PlaybackState::Ready => "ready"@,
        PlaybackState::Playing => "playing"@,
        PlaybackState::Paused => "paused"@,
        PlaybackState::Seeking => "seeking"@,
        PlaybackState::Buffering => "buffering"@,
        PlaybackState::Recovering => "recovering"@,
        PlaybackState::Error => "error"@,
    }
}

impl PlaybackState {
    /// Returns `true` if audio is being rendered.
    pub fn is_rendering(self) -> (rendering: bool)
        ensures
            rendering <==> self == PlaybackState::Playing,
    {
        matches!(self, PlaybackState::Playing)
    }

    /// Returns `true` while seeking, buffering or recovering: working towards
    /// playing again without needing the user.
    pub fn is_transient(self) -> (transient: bool)
        ensures
            transient <==> (self == PlaybackState::Seeking || self == PlaybackState::Buffering
                || self == PlaybackState::Recovering),
    {
        matches!(self, PlaybackState::Seeking | PlaybackState::Buffering | PlaybackState::Recovering)
    }

    /// Returns `true` if a track is loaded.
    pub fn has_track(self) -> (loaded: bool)
        ensures
            loaded <==> !(self == PlaybackState::Stopped || self == PlaybackState::Loading
                || self == PlaybackState::Error),
    {
        !matches!(self, PlaybackState::Stopped | PlaybackState::Loading | PlaybackState::Error)
    }

    /// The word this state is shown as.
    pub fn label(self) -> (label: &'static str)
        ensures
            label@ == state_label(self),
    {
        proof {
            reveal_strlit("stopped");
            reveal_strlit("loading");
            reveal_strlit("ready");
            reveal_strlit("playing");
            reveal_strlit("paused");
            reveal_strlit("seeking");
            reveal_strlit("buffering");
            reveal_strlit("recovering");
            reveal_strlit("error");
        }
        match self {
            PlaybackState::Stopped => "stopped",
            PlaybackState::Loading => "loading",
            PlaybackState::Ready => "ready",
            PlaybackState::Playing => "playing",
            PlaybackState::Paused => "paused",
            PlaybackState::Seeking => "seeking",
            PlaybackState::Buffering => "buffering",
            PlaybackState::Recovering => "recovering",
            PlaybackState::Error => "error",
        }
    }
}

/// What the user asked for.
#[derive(Debug, Clone, Copy, PartialEq, Eq, Hash, Structural)]
pub enum PlaybackIntent {
    /// The user has stopped playback.
    Stopped,
    /// The user wants audio.
    Playing,
    /// The user has paused.
    Paused,
}

/// The word an intent is shown as.
pub open spec fn intent_label(intent: PlaybackIntent) -> Seq<char> {
    match intent {
        PlaybackIntent::Stopped => "stopped"@,
        PlaybackIntent::Playing => "playing"@,
        PlaybackIntent::Paused => "paused"@,
    }
}

impl PlaybackIntent {
    /// The word this intent is shown as.
    pub fn label(self) -> (label: &'static str)
        ensures
            label@ == intent_label(self),
    {
        match self {
            PlaybackIntent::Stopped => "stopped",
            PlaybackIntent::Playing => "playing",
            PlaybackIntent::Paused => "paused",
        }
    }
}

/// Something that happens to the transport, from the user or from the engine.
#[derive(Debug, Clone, Copy, PartialEq, Eq, Hash, Structural)]
pub enum TransportEvent {
    /// Begin loading a track.
    Load,
    /// The track opened and its first buffers are ready.
    LoadSucceeded,
    /// The track could not be opened.
    LoadFailed,
    /// Release the loaded track.
    Unload,
    /// The user pressed play.
    Play,
    /// The user pressed pause.
    Pause,
    /// The user pressed stop.
    Stop,
    /// A seek has begun.
    SeekRequested,
    /// The destination is buffered and playback can continue.
    SeekCompleted,
    /// The decoder could not keep up.
    BufferExhausted,
    /// Enough audio is available to continue.
    BufferRefilled,
    /// The output device disappeared or changed.
    DeviceLost,
    /// A working output device is available again.
    DeviceRestored,
    /// An unrecoverable fault.
    Fault,
    /// Clear an error and return to a known state.
    Reset,
}

/// The words an event is shown as.
pub open spec fn event_label(event: TransportEvent) -> Seq<char> {
    match event {
        TransportEvent::Load => "load"@,
        TransportEvent::LoadSucceeded => "load succeeded"@,
        TransportEvent::LoadFailed => "load failed"@,
        TransportEvent::Unload => "unload"@,
        TransportEvent::Play => "play"@,
        TransportEvent::Pause => "pause"@,
        TransportEvent::Stop => "stop"@,
        TransportEvent::SeekRequested => "seek requested"@,
        TransportEvent::SeekCompleted => "seek completed"@,
        TransportEvent::BufferExhausted => "buffer exhausted"@,
        TransportEvent::BufferRefilled => "buffer refilled"@,
        TransportEvent::DeviceLost => "device lost"@,
        TransportEvent::DeviceRestored => "device restored"@,
        TransportEvent::Fault => "fault"@,
        TransportEvent::Reset => "reset"@,
    }
}

impl TransportEvent {
    /// The words this event is shown as.
    pub fn label(self) -> (label: &'static str)
        ensures
            label@ == event_label(self),
    {
        match self {
            TransportEvent::Load => "load",
            TransportEvent::LoadSucceeded => "load succeeded",
            TransportEvent::LoadFailed => "load failed",
            TransportEvent::Unload => "unload",
            TransportEvent::Play => "play",
            TransportEvent::Pause => "pause",
            TransportEvent::Stop => "stop",
            TransportEvent::SeekRequested => "seek requested",
            TransportEvent::SeekCompleted => "seek completed",
            TransportEvent::BufferExhausted => "buffer exhausted",
            TransportEvent::BufferRefilled => "buffer refilled",
            TransportEvent::DeviceLost => "device lost",
            TransportEvent::DeviceRestored => "device restored",
            TransportEvent::Fault => "fault",
            TransportEvent::Reset => "reset",
        }
    }
}

/// A transition that is not defined: returned rather than ignored.
#[derive(Debug, Clone, Copy, PartialEq, Eq, Structural)]
pub struct InvalidTransition {
    /// The state the transport was in.
    pub from: PlaybackState,
    /// The event that could not be applied.
    pub event: TransportEvent,
}

impl InvalidTransition {
    /// The rejection as a sentence: `cannot apply <event> while <state>`.
    pub fn to_text(self) -> (text: String)
        ensures
            text@ == "cannot apply "@ + event_label(self.event) + " while "@ + state_label(
                self.from,
            ),
    {
        let mut text = String::new();
        push_str(&mut text, "cannot apply ");
        push_str(&mut text, self.event.label());
        push_str(&mut text, " while ");
        push_str(&mut text, self.from.label());
        text
    }
}

/// The state a transient condition resolves into: the user's intent, with a
/// deck that is not meant to play landing cued rather than stopped.
pub open spec fn resumed(intent: PlaybackIntent) -> PlaybackState {
    match intent {
        PlaybackIntent::Playing => PlaybackState::Playing,
        PlaybackIntent::Paused => PlaybackState::Paused,
        PlaybackIntent::Stopped => PlaybackState::Ready,
    }
}

/// The transition table: `Some(next)` where the event means something in the
/// state, `None` where it does not. A fault is always accepted, a stop always
/// honoured except from an error, and the rest is grouped by source state.
pub open spec fn transition(
    from: PlaybackState,
    event: TransportEvent,
    intent: PlaybackIntent,
) -> Option<PlaybackState> {
    if event == E::Fault {
        Some(S::Error)
    } else if event == E::Stop && from != S::Error {
        Some(S::Stopped)
    } else {
        match (from, event) {
            (S::Stopped, E::Load) => Some(S::Loading),
            (S::Stopped, E::Unload) => Some(S::Stopped),
            (S::Stopped, E::Reset) => Some(S::Stopped),
            (S::Loading, E::LoadSucceeded) => Some(S::Ready),
            (S::Loading, E::LoadFailed) => Some(S::Error),
            (S::Loading, E::Unload) => Some(S::Stopped),
            (S::Loading, E::Load) => Some(S::Loading),
            (S::Ready, E::Play) => Some(S::Playing),
            (S::Ready, E::Pause) => Some(S::Paused),
            (S::Ready, E::SeekRequested) => Some(S::Seeking),
            (S::Ready, E::Load) => Some(S::Loading),
            (S::Ready, E::Unload) => Some(S::Stopped),
            (S::Ready, E::DeviceLost) => Some(S::Recovering),
            (S::Playing, E::Pause) => Some(S::Paused),
            (S::Playing, E::Play) => Some(S::Playing),
            (S::Playing, E::SeekRequested) => Some(S::Seeking),
            (S::Playing, E::BufferExhausted) => Some(S::Buffering),
            (S::Playing, E::DeviceLost) => Some(S::Recovering),
            (S::Playing, E::Load) => Some(S::Loading),
            (S::Paused, E::Play) => Some(S::Playing),
            (S::Paused, E::Pause) => Some(S::Paused),
            (S::Paused, E::SeekRequested) => Some(S::Seeking),
            (S::Paused, E::DeviceLost) => Some(S::Recovering),
            (S::Paused, E::Load) => Some(S::Loading),
            (S::Paused, E::Unload) => Some(S::Stopped),
            (S::Seeking, E::SeekCompleted) => Some(resumed(intent)),
            (S::Seeking, E::SeekRequested) => Some(S::Seeking),
            (S::Seeking, E::BufferExhausted) => Some(S::Buffering),
            (S::Seeking, E::DeviceLost) => Some(S::Recovering),
            (S::Seeking, E::Play) => Some(S::Seeking),
            (S::Seeking, E::Pause) => Some(S::Seeking),
            (S::Buffering, E::BufferRefilled) => Some(resumed(intent)),
            (S::Buffering, E::SeekRequested) => Some(S::Seeking),
            (S::Buffering, E::DeviceLost) => Some(S::Recovering),
            (S::Buffering, E::Play) => Some(S::Buffering),
            (S::Buffering, E::Pause) => Some(S::Buffering),
            (S::Buffering, E::Load) => Some(S::Loading),
            (S::Recovering, E::DeviceRestored) => Some(resumed(intent)),
            (S::Recovering, E::DeviceLost) => Some(S::Recovering),
            (S::Recovering, E::Play) => Some(S::Recovering),
            (S::Recovering, E::Pause) => Some(S::Recovering),
            (S::Recovering, E::BufferExhausted) => Some(S::Recovering),
            (S::Recovering, E::BufferRefilled) => Some(S::Recovering),
            (S::Error, E::Reset) => Some(S::Stopped),
            (S::Error, E::Unload) => Some(S::Stopped),
            _ => None,
        }
    }
}

fn resume(intent: PlaybackIntent) -> (state: PlaybackState)
    ensures
        state == resumed(intent),
{
    match intent {
        PlaybackIntent::Playing => PlaybackState::Playing,
        PlaybackIntent::Paused => PlaybackState::Paused,
        PlaybackIntent::Stopped => PlaybackState::Ready,
    }
}

/// Computes the next state from the current state, the event and the user's
/// intent; an event with no meaning in the state is rejected with a value
/// naming both.
pub fn next_state(
    from: PlaybackState,
    event: TransportEvent,
    intent: PlaybackIntent,
) -> (result: Result<PlaybackState, InvalidTransition>)
    ensures
        transition(from, event, intent) matches Some(next) ==> result == Ok::<
            PlaybackState,
            InvalidTransition,
        >(next),
        transition(from, event, intent) is None ==> result == Err::<
            PlaybackState,
            InvalidTransition,
        >(InvalidTransition { from, event }),
{
    let reject = Err(InvalidTransition { from, event });
    match event {
        E::Fault => return Ok(S::Error),
        E::Stop => {
            if from != S::Error {
                return Ok(S::Stopped);
            }
        },
        _ => {},
    }
    let next = match (from, event) {
        (S::Stopped, E::Load) => S::Loading,
        (S::Stopped, E::Unload) | (S::Stopped, E::Reset) => S::Stopped,
        (S::Loading, E::LoadSucceeded) => S::Ready,
        (S::Loading, E::LoadFailed) => S::Error,
        (S::Loading, E::Unload) => S::Stopped,
        (S::Loading, E::Load) => S::Loading,
        (S::Ready, E::Play) => S::Playing,
        (S::Ready, E::Pause) => S::Paused,
        (S::Ready, E::SeekRequested) => S::Seeking,
        (S::Ready, E::Load) => S::Loading,
        (S::Ready, E::Unload) => S::Stopped,
        (S::Ready, E::DeviceLost) => S::Recovering,
        (S::Playing, E::Pause) => S::Paused,
        (S::Playing, E::Play) => S::Playing,
        (S::Playing, E::SeekRequested) => S::Seeking,
        (S::Playing, E::BufferExhausted) => S::Buffering,
        (S::Playing, E::DeviceLost) => S::Recovering,
        (S::Playing, E::Load) => S::Loading,
        (S::Paused, E::Play) => S::Playing,
        (S::Paused, E::Pause) => S::Paused,
        (S::Paused, E::SeekRequested) => S::Seeking,
        (S::Paused, E::DeviceLost) => S::Recovering,
        (S::Paused, E::Load) => S::Loading,
        (S::Paused, E::Unload) => S::Stopped,
        (S::Seeking, E::SeekCompleted) => resume(intent),
        (S::Seeking, E::SeekRequested) => S::Seeking,
        (S::Seeking, E::BufferExhausted) => S::Buffering,
        (S::Seeking, E::DeviceLost) => S::Recovering,
        (S::Seeking, E::Play) | (S::Seeking, E::Pause) => S::Seeking,
        (S::Buffering, E::BufferRefilled) => resume(intent),
        (S::Buffering, E::SeekRequested) => S::Seeking,
        (S::Buffering, E::DeviceLost) => S::Recovering,
        (S::Buffering, E::Play) | (S::Buffering, E::Pause) => S::Buffering,
        (S::Buffering, E::Load) => S::Loading,
        (S::Recovering, E::DeviceRestored) => resume(intent),
        (S::Recovering, E::DeviceLost) => S::Recovering,
        (S::Recovering, E::Play) | (S::Recovering, E::Pause) => S::Recovering,
        (S::Recovering, E::BufferExhausted) | (S::Recovering, E::BufferRefilled) => S::Recovering,
        (S::Error, E::Reset) | (S::Error, E::Unload) => S::Stopped,
        _ => return reject,
    };
    Ok(next)
}

/// A fault is accepted from every state, in every intent.
pub proof fn lemma_fault_always_reachable(from: PlaybackState, intent: PlaybackIntent)
    ensures
        transition(from, TransportEvent::Fault, intent) == Some(PlaybackState::Error),
{
}

/// A stop is honoured from every state but an error, which must be cleared
/// explicitly.
pub proof fn lemma_stop_honoured(from: PlaybackState, intent: PlaybackIntent)
    ensures
        from != PlaybackState::Error ==> transition(from, TransportEvent::Stop, intent) == Some(
            PlaybackState::Stopped,
        ),
        from == PlaybackState::Error ==> transition(from, TransportEvent::Stop, intent) is None,
{
}

/// Only a reset or an unload leaves an error (a further fault keeps it).
pub proof fn lemma_error_needs_reset(event: TransportEvent, intent: PlaybackIntent)
    ensures
        transition(PlaybackState::Error, event, intent) matches Some(next) ==> (next
            == PlaybackState::Error || event == TransportEvent::Reset || event
            == TransportEvent::Unload),
{
}

/// Seeking, buffering and recovering resolve into the user's intent.
pub proof fn lemma_transients_resolve_to_intent(intent: PlaybackIntent)
    ensures
        transition(PlaybackState::Seeking, TransportEvent::SeekCompleted, intent) == Some(
            resumed(intent),
        ),
        transition(PlaybackState::Buffering, TransportEvent::BufferRefilled, intent) == Some(
            resumed(intent),
        ),
        transition(PlaybackState::Recovering, TransportEvent::DeviceRestored, intent) == Some(
            resumed(intent),
        ),
{
}

/// Play is refused while nothing is loaded.
pub proof fn lemma_no_play_without_a_track(intent: PlaybackIntent)
    ensures
        transition(PlaybackState::Stopped, TransportEvent::Play, intent) is None,
        transition(PlaybackState::Loading, TransportEvent::Play, intent) is None,
{
}

/// A transient condition lands where the user meant the deck to be: playing
/// if they asked to play, paused if they paused, and cued, ready to play, if
/// they stopped.
pub proof fn lemma_resumed_is_the_intent()
    ensures
        resumed(PlaybackIntent::Playing) == PlaybackState::Playing,
        resumed(PlaybackIntent::Paused) == PlaybackState::Paused,
        resumed(PlaybackIntent::Stopped) == PlaybackState::Ready,
{
}

/// A seek is accepted wherever a track is loaded and the deck is not lost
/// or failed: from ready, playing and paused, and again while seeking or
/// buffering; it always leads to seeking. Nothing else accepts it.
pub proof fn lemma_seek_accepted_with_a_track(from: PlaybackState, intent: PlaybackIntent)
    ensures
        transition(from, TransportEvent::SeekRequested, intent) == match from {
            PlaybackState::Ready | PlaybackState::Playing | PlaybackState::Paused | PlaybackState::Seeking
            | PlaybackState::Buffering => Some(PlaybackState::Seeking),
            _ => None,
        },
{
}

/// Play and pause: from a settled, loaded deck they reach playing and paused;
/// a transient condition absorbs them (the intent changes, the state waits);
/// with nothing loaded, or in an error, they are refused.
pub proof fn lemma_play_and_pause(from: PlaybackState, intent: PlaybackIntent)
    ensures
        transition(from, TransportEvent::Play, intent) == match from {
            PlaybackState::Ready | PlaybackState::Playing | PlaybackState::Paused => Some(PlaybackState::Playing),
            PlaybackState::Seeking | PlaybackState::Buffering | PlaybackState::Recovering => Some(from),
            _ => None,
        },
        transition(from, TransportEvent::Pause, intent) == match from {
            PlaybackState::Ready | PlaybackState::Playing | PlaybackState::Paused => Some(PlaybackState::Paused),
            PlaybackState::Seeking | PlaybackState::Buffering | PlaybackState::Recovering => Some(from),
            _ => None,
        },
{
}

/// Loading and unloading: a load starts from any state but a seek, a device
/// recovery or an error; only loading hears whether it succeeded; an unload
/// empties a deck that is not rendering or recovering.
pub proof fn lemma_loading_and_unloading(from: PlaybackState, intent: PlaybackIntent)
    ensures
        transition(from, TransportEvent::Load, intent) == match from {
            PlaybackState::Seeking | PlaybackState::Recovering | PlaybackState::Error => None,
            _ => Some(PlaybackState::Loading),
        },
        transition(from, TransportEvent::LoadSucceeded, intent) == if from == PlaybackState::Loading {
            Some(PlaybackState::Ready)
        } else {
            None
        },
        transition(from, TransportEvent::LoadFailed, intent) == if from == PlaybackState::Loading {
            Some(PlaybackState::Error)
        } else {
            None
        },
        transition(from, TransportEvent::Unload, intent) == match from {
            PlaybackState::Stopped | PlaybackState::Loading | PlaybackState::Ready | PlaybackState::Paused
            | PlaybackState::Error => Some(PlaybackState::Stopped),
            _ => None,
        },
        transition(from, TransportEvent::Reset, intent) == match from {
            PlaybackState::Stopped | PlaybackState::Error => Some(PlaybackState::Stopped),
            _ => None,
        },
{
}

/// The conditions a deck passes through: a seek completes only while
/// seeking, a device comes back only while recovering, and both land in the
/// intent; the buffer runs dry while playing or seeking and refills while
/// buffering; a lost device is recovered from any loaded state, and
/// recovery absorbs buffer news.
pub proof fn lemma_transient_conditions(from: PlaybackState, intent: PlaybackIntent)
    ensures
        transition(from, TransportEvent::SeekCompleted, intent) == if from == PlaybackState::Seeking {
            Some(resumed(intent))
        } else {
            None
        },
        transition(from, TransportEvent::DeviceRestored, intent) == if from == PlaybackState::Recovering {
            Some(resumed(intent))
        } else {
            None
        },
        transition(from, TransportEvent::BufferExhausted, intent) == match from {
            PlaybackState::Playing | PlaybackState::Seeking => Some(PlaybackState::Buffering),
            PlaybackState::Recovering => Some(PlaybackState::Recovering),
            _ => None,
        },
        transition(from, TransportEvent::BufferRefilled, intent) == match from {
            PlaybackState::Buffering => Some(resumed(intent)),
            PlaybackState::Recovering => Some(PlaybackState::Recovering),
            _ => None,
        },
        transition(from, TransportEvent::DeviceLost, intent) == match from {
            PlaybackState::Stopped | PlaybackState::Loading | PlaybackState::Error => None,
            _ => Some(PlaybackState::Recovering),
        },
{
}

} // verus!
