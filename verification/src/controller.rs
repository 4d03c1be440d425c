//! The controller of the voice sessions: what a play, join, stop or leave
//! request does to the queue of its session, and what the transport is told.

use crate::queue::{PlaybackQueue, Track, TrackView};
use crate::source::{unbracketed, url_parses, validate_url};
use std::collections::HashMap;
use vstd::prelude::*;

verus! {

broadcast use vstd::std_specs::hash::group_hash_axioms;

/// One voice session: the channel it is bound to and its queue.
pub struct Session {
    channel: u64,
    queue: PlaybackQueue,
}

/// A session as the contracts see it.
pub struct SessionView {
    pub channel: u64,
    pub queue: Seq<TrackView>,
}

impl View for Session {
    type V = SessionView;

    closed spec fn view(&self) -> SessionView {
        SessionView { channel: self.channel, queue: self.queue@ }
    }
}

/// An order to the playback transport.
#[derive(Debug)]
pub enum TransportCommand {
    /// Connect the session to the channel.
    Join { session: u64, channel: u64 },
    /// Start streaming the track in the session.
    Play { session: u64, track: Track },
    /// Stop what the session is streaming.
    Stop { session: u64 },
    /// Disconnect the session.
    Leave { session: u64 },
}

/// An order as the contracts see it.
pub enum CommandView {
    Join { session: u64, channel: u64 },
    Play { session: u64, track: TrackView },
    Stop { session: u64 },
    Leave { session: u64 },
}

impl View for TransportCommand {
    type V = CommandView;

    open spec fn view(&self) -> CommandView {
        match self {
            TransportCommand::Join { session, channel } => CommandView::Join {
                session: *session,
                channel: *channel,
            },
            TransportCommand::Play { session, track } => CommandView::Play {
                session: *session,
                track: track@,
            },
            TransportCommand::Stop { session } => CommandView::Stop { session: *session },
            TransportCommand::Leave { session } => CommandView::Leave { session: *session },
        }
    }
}

/// The views of `commands`, in order.
pub open spec fn command_views(commands: Seq<TransportCommand>) -> Seq<CommandView> {
    Seq::new(commands.len(), |i: int| commands[i]@)
}

/// How a play request ended.
#[derive(Debug)]
pub enum PlayOutcome {
    /// What the user handed in is not a well-formed address.
    InvalidSource,
    /// The source could not be resolved; the reason.
    ResolutionFailed(String),
    /// The track is the head of the queue and the transport starts it.
    StartedPlaying(Track),
    /// The track waits at `position`, counted from the playing one.
    Queued { position: usize },
    /// The requester is in another voice channel than the session.
    ChannelMismatch,
    /// The requester is in no voice channel.
    NotInVoice,
}

/// The outcome of a play request as the contracts see it.
pub enum PlayView {
    InvalidSource,
    ResolutionFailed(Seq<char>),
    StartedPlaying(TrackView),
    Queued { position: int },
    ChannelMismatch,
    NotInVoice,
}

impl View for PlayOutcome {
    type V = PlayView;

    open spec fn view(&self) -> PlayView {
        match self {
            PlayOutcome::InvalidSource => PlayView::InvalidSource,
            PlayOutcome::ResolutionFailed(reason) => PlayView::ResolutionFailed(reason@),
            PlayOutcome::StartedPlaying(track) => PlayView::StartedPlaying(track@),
            PlayOutcome::Queued { position } => PlayView::Queued { position: *position as int },
            PlayOutcome::ChannelMismatch => PlayView::ChannelMismatch,
            PlayOutcome::NotInVoice => PlayView::NotInVoice,
        }
    }
}

/// What a play request does once its source is validated.
#[derive(Debug)]
pub enum PlayStep {
    /// The request ends here with this outcome.
    Done(PlayOutcome),
    /// The address is well formed: have it resolved, then resume.
    Resolve(String),
}

/// A step as the contracts see it.
pub enum PlayStepView {
    Done(PlayView),
    Resolve(Seq<char>),
}

impl View for PlayStep {
    type V = PlayStepView;

    open spec fn view(&self) -> PlayStepView {
        match self {
            PlayStep::Done(outcome) => PlayStepView::Done(outcome@),
            PlayStep::Resolve(address) => PlayStepView::Resolve(address@),
        }
    }
}

/// The outcome of a play request and the orders that go with it.
#[derive(Debug)]
pub struct PlayDecision {
    pub outcome: PlayOutcome,
    pub commands: Vec<TransportCommand>,
}

/// The sessions after a request, its outcome and the orders that go with it.
pub struct PlayEffect {
    pub sessions: Map<u64, SessionView>,
    pub outcome: PlayView,
    pub commands: Seq<CommandView>,
}

/// The resolved source as the contracts see it.
pub open spec fn resolution_view(resolution: Result<Track, String>) -> Result<TrackView, Seq<char>> {
    match resolution {
        Ok(track) => Ok(track@),
        Err(reason) => Err(reason@),
    }
}

/// What a play request does, once its source went through resolution.
///
/// A source that did not resolve changes nothing, and neither does a
/// requester who is in no voice channel or in another one than the session.
/// Where there is no session, one is made in the requester's channel, the
/// track is its head and the transport joins and plays. Where the requester
/// shares the channel of the session, the track is put last: if it is then
/// the only one the transport plays it, else it waits, and its position is
/// the number of tracks before it.
pub open spec fn play_effect(
    sessions: Map<u64, SessionView>,
    session: u64,
    requester: Option<u64>,
    resolution: Result<TrackView, Seq<char>>,
) -> PlayEffect {
    match resolution {
        Err(reason) => PlayEffect {
            sessions,
            outcome: PlayView::ResolutionFailed(reason),
            commands: seq![],
        },
        Ok(track) => match requester {
            None => PlayEffect { sessions, outcome: PlayView::NotInVoice, commands: seq![] },
            Some(channel) => if !sessions.contains_key(session) {
                PlayEffect {
                    sessions: sessions.insert(session, SessionView { channel, queue: seq![track] }),
                    outcome: PlayView::StartedPlaying(track),
                    commands: seq![
                        CommandView::Join { session, channel },
                        CommandView::Play { session, track },
                    ],
                }
            } else if sessions[session].channel != channel {
                PlayEffect { sessions, outcome: PlayView::ChannelMismatch, commands: seq![] }
            } else if sessions[session].queue.len() == 0 {
                PlayEffect {
                    sessions: sessions.insert(session, SessionView { channel, queue: seq![track] }),
                    outcome: PlayView::StartedPlaying(track),
                    commands: seq![CommandView::Play { session, track }],
                }
            } else {
                PlayEffect {
                    sessions: sessions.insert(
                        session,
                        SessionView { channel, queue: sessions[session].queue.push(track) },
                    ),
                    outcome: PlayView::Queued { position: sessions[session].queue.len() as int },
                    commands: seq![],
                }
            },
        },
    }
}

/// How a join, stop or leave request, or the end of a track, ended.
#[derive(Debug, Clone, Copy, PartialEq, Eq, Structural)]
pub enum SessionOutcome {
    /// The session is now bound to the requester's channel.
    Joined,
    /// Playback was stopped and the session is over.
    Stopped,
    /// The session is over.
    Left,
    /// The next track of the queue is now its head.
    Advanced,
    /// The queue has nothing to play.
    Idle,
    /// There is no session.
    NotConnected,
    /// The requester is in another voice channel than the session.
    ChannelMismatch,
    /// The requester is in no voice channel.
    NotInVoice,
}

/// The outcome of a join, stop or leave request and the orders that go with
/// it.
#[derive(Debug)]
pub struct SessionDecision {
    pub outcome: SessionOutcome,
    pub commands: Vec<TransportCommand>,
}

/// The sessions after a join, stop or leave request, its outcome and the
/// orders that go with it.
pub struct SessionEffect {
    pub sessions: Map<u64, SessionView>,
    pub outcome: SessionOutcome,
    pub commands: Seq<CommandView>,
}

/// What a join request does. A requester in no voice channel changes
/// nothing. Else the session is bound to the requester's channel and the
/// transport joins it; a session that was there keeps its queue, a new one
/// starts with an empty queue.
pub open spec fn join_effect(
    sessions: Map<u64, SessionView>,
    session: u64,
    requester: Option<u64>,
) -> SessionEffect {
    match requester {
        None => SessionEffect { sessions, outcome: SessionOutcome::NotInVoice, commands: seq![] },
        Some(channel) => SessionEffect {
            sessions: sessions.insert(
                session,
                SessionView {
                    channel,
                    queue: if sessions.contains_key(session) {
                        sessions[session].queue
                    } else {
                        seq![]
                    },
                },
            ),
            outcome: SessionOutcome::Joined,
            commands: seq![CommandView::Join { session, channel }],
        },
    }
}

/// What a stop request does. Without a session, or from a requester who
/// does not share its channel, nothing changes. Else the session ends, its
/// queue with it, and the transport stops and leaves.
pub open spec fn stop_effect(
    sessions: Map<u64, SessionView>,
    session: u64,
    requester: Option<u64>,
) -> SessionEffect {
    if !sessions.contains_key(session) {
        SessionEffect { sessions, outcome: SessionOutcome::NotConnected, commands: seq![] }
    } else {
        match requester {
            None => SessionEffect { sessions, outcome: SessionOutcome::NotInVoice, commands: seq![] },
            Some(channel) => if sessions[session].channel != channel {
                SessionEffect { sessions, outcome: SessionOutcome::ChannelMismatch, commands: seq![] }
            } else {
                SessionEffect {
                    sessions: sessions.remove(session),
                    outcome: SessionOutcome::Stopped,
                    commands: seq![CommandView::Stop { session }, CommandView::Leave { session }],
                }
            },
        }
    }
}

/// What a leave request does. The transport is told to leave whether or not
/// a session is known here, so that a connection that outlived its session
/// is closed too. A session that is known ends, its queue with it; without
/// one the sessions stay as they are.
pub open spec fn leave_effect(sessions: Map<u64, SessionView>, session: u64) -> SessionEffect {
    SessionEffect {
        sessions: if sessions.contains_key(session) {
            sessions.remove(session)
        } else {
            sessions
        },
        outcome: if sessions.contains_key(session) {
            SessionOutcome::Left
        } else {
            SessionOutcome::NotConnected
        },
        commands: seq![CommandView::Leave { session }],
    }
}

/// What the end of the playing track does. Without a session, or with a
/// session whose queue is empty, nothing. Else the head leaves the queue, and
/// if a track waited behind it, that track is the new head and the
/// transport plays it.
pub open spec fn finish_effect(sessions: Map<u64, SessionView>, session: u64) -> SessionEffect {
    if !sessions.contains_key(session) {
        SessionEffect { sessions, outcome: SessionOutcome::NotConnected, commands: seq![] }
    } else if sessions[session].queue.len() == 0 {
        SessionEffect { sessions, outcome: SessionOutcome::Idle, commands: seq![] }
    } else {
        let rest = sessions[session].queue.drop_first();
        SessionEffect {
            sessions: sessions.insert(
                session,
                SessionView { channel: sessions[session].channel, queue: rest },
            ),
            outcome: if rest.len() == 0 {
                SessionOutcome::Idle
            } else {
                SessionOutcome::Advanced
            },
            commands: if rest.len() == 0 {
                seq![]
            } else {
                seq![CommandView::Play { session, track: rest[0] }]
            },
        }
    }
}

/// The voice sessions, each under its identity.
pub struct QueueController {
    sessions: HashMap<u64, Session>,
}

impl View for QueueController {
    type V = Map<u64, SessionView>;

    closed spec fn view(&self) -> Map<u64, SessionView> {
        Map::new(|id: u64| self.sessions@.contains_key(id), |id: u64| self.sessions@[id]@)
    }
}

impl QueueController {
    /// A controller without a session.
    pub fn new() -> (controller: Self)
        ensures
            controller@ == Map::<u64, SessionView>::empty(),
    {
        let controller = QueueController { sessions: HashMap::new() };
        assert(controller@ =~= Map::<u64, SessionView>::empty());
        controller
    }

    /// The first step of a play request: is what the user handed in, with
    /// the angle brackets around it taken off, a well-formed address? If
    /// not, the request ends as `InvalidSource`; if so, that address is to be
    /// resolved.
    pub fn request_play(source_ref: &str) -> (step: PlayStep)
        ensures
            !url_parses(unbracketed(source_ref@)) ==> step@ == PlayStepView::Done(
                PlayView::InvalidSource,
            ),
            url_parses(unbracketed(source_ref@)) ==> step@ == PlayStepView::Resolve(
                unbracketed(source_ref@),
            ),
    {
        match validate_url(source_ref) {
            None => PlayStep::Done(PlayOutcome::InvalidSource),
            Some(address) => PlayStep::Resolve(address),
        }
    }

    /// The rest of a play request, once resolution has answered: see
    /// `play_effect`.
    pub fn resume_play(
        &mut self,
        session: u64,
        requester: Option<u64>,
        resolution: Result<Track, String>,
    ) -> (decision: PlayDecision)
        ensures
            final(self)@ == play_effect(
                old(self)@,
                session,
                requester,
                resolution_view(resolution),
            ).sessions,
            decision.outcome@ == play_effect(
                old(self)@,
                session,
                requester,
                resolution_view(resolution),
            ).outcome,
            command_views(decision.commands@) == play_effect(
                old(self)@,
                session,
                requester,
                resolution_view(resolution),
            ).commands,
    {
        let mut commands: Vec<TransportCommand> = Vec::new();
        let track = match resolution {
            Err(reason) => {
                assert(command_views(commands@) =~= seq![]);
                return PlayDecision { outcome: PlayOutcome::ResolutionFailed(reason), commands };
            },
            Ok(track) => track,
        };
        let channel = match requester {
            None => {
                assert(command_views(commands@) =~= seq![]);
                return PlayDecision { outcome: PlayOutcome::NotInVoice, commands };
            },
            Some(channel) => channel,
        };
        match self.sessions.remove(&session) {
            None => {
                let mut queue = PlaybackQueue::new();
                queue.append(track.clone());
                self.sessions.insert(session, Session { channel, queue });
                commands.push(TransportCommand::Join { session, channel });
                commands.push(TransportCommand::Play { session, track: track.clone() });
                proof {
                    assert(self@ =~= old(self)@.insert(
                        session,
                        SessionView { channel, queue: seq![track@] },
                    ));
                    assert(command_views(commands@) =~= seq![
                        CommandView::Join { session, channel },
                        CommandView::Play { session, track: track@ },
                    ]);
                }
                PlayDecision { outcome: PlayOutcome::StartedPlaying(track), commands }
            },
            Some(found) => {
                let mut found = found;
                if found.channel != channel {
                    self.sessions.insert(session, found);
                    proof {
                        assert(self@ =~= old(self)@);
                        assert(command_views(commands@) =~= seq![]);
                    }
                    PlayDecision { outcome: PlayOutcome::ChannelMismatch, commands }
                } else {
                    let ghost before = found.queue@;
                    let length = found.queue.append(track.clone());
                    self.sessions.insert(session, found);
                    proof {
                        assert(self@ =~= old(self)@.insert(
                            session,
                            SessionView { channel, queue: before.push(track@) },
                        ));
                    }
                    if length == 1 {
                        commands.push(TransportCommand::Play { session, track: track.clone() });
                        proof {
                            assert(before.push(track@) =~= seq![track@]);
                            assert(command_views(commands@) =~= seq![
                                CommandView::Play { session, track: track@ },
                            ]);
                        }
                        PlayDecision { outcome: PlayOutcome::StartedPlaying(track), commands }
                    } else {
                        assert(command_views(commands@) =~= seq![]);
                        PlayDecision { outcome: PlayOutcome::Queued { position: length - 1 }, commands }
                    }
                }
            },
        }
    }

    /// Binds the session to the requester's voice channel: see
    /// `join_effect`.
    pub fn request_join(&mut self, session: u64, requester: Option<u64>) -> (decision:
        SessionDecision)
        ensures
            final(self)@ == join_effect(old(self)@, session, requester).sessions,
            decision.outcome == join_effect(old(self)@, session, requester).outcome,
            command_views(decision.commands@) == join_effect(old(self)@, session, requester).commands,
    {
        let mut commands: Vec<TransportCommand> = Vec::new();
        let channel = match requester {
            None => {
                assert(command_views(commands@) =~= seq![]);
                return SessionDecision { outcome: SessionOutcome::NotInVoice, commands };
            },
            Some(channel) => channel,
        };
        let queue = match self.sessions.remove(&session) {
            None => PlaybackQueue::new(),
            Some(found) => found.queue,
        };
        let ghost kept = queue@;
        self.sessions.insert(session, Session { channel, queue });
        commands.push(TransportCommand::Join { session, channel });
        proof {
            assert(self@ =~= old(self)@.insert(session, SessionView { channel, queue: kept }));
            assert(command_views(commands@) =~= seq![CommandView::Join { session, channel }]);
        }
        SessionDecision { outcome: SessionOutcome::Joined, commands }
    }

    /// Ends the session on behalf of a requester who shares its channel: see
    /// `stop_effect`.
    pub fn request_stop(&mut self, session: u64, requester: Option<u64>) -> (decision:
        SessionDecision)
        ensures
            final(self)@ == stop_effect(old(self)@, session, requester).sessions,
            decision.outcome == stop_effect(old(self)@, session, requester).outcome,
            command_views(decision.commands@) == stop_effect(old(self)@, session, requester).commands,
    {
        let mut commands: Vec<TransportCommand> = Vec::new();
        let bound = match self.sessions.get(&session) {
            None => {
                assert(command_views(commands@) =~= seq![]);
                return SessionDecision { outcome: SessionOutcome::NotConnected, commands };
            },
            Some(found) => found.channel,
        };
        match requester {
            None => {
                assert(command_views(commands@) =~= seq![]);
                SessionDecision { outcome: SessionOutcome::NotInVoice, commands }
            },
            Some(channel) => {
                if bound != channel {
                    assert(command_views(commands@) =~= seq![]);
                    SessionDecision { outcome: SessionOutcome::ChannelMismatch, commands }
                } else {
                    self.sessions.remove(&session);
                    commands.push(TransportCommand::Stop { session });
                    commands.push(TransportCommand::Leave { session });
                    proof {
                        assert(self@ =~= old(self)@.remove(session));
                        assert(command_views(commands@) =~= seq![
                            CommandView::Stop { session },
                            CommandView::Leave { session },
                        ]);
                    }
                    SessionDecision { outcome: SessionOutcome::Stopped, commands }
                }
            },
        }
    }

    /// Has the transport leave and ends the session: see `leave_effect`.
    pub fn request_leave(&mut self, session: u64) -> (decision: SessionDecision)
        ensures
            final(self)@ == leave_effect(old(self)@, session).sessions,
            decision.outcome == leave_effect(old(self)@, session).outcome,
            command_views(decision.commands@) == leave_effect(old(self)@, session).commands,
    {
        let mut commands: Vec<TransportCommand> = Vec::new();
        commands.push(TransportCommand::Leave { session });
        assert(command_views(commands@) =~= seq![CommandView::Leave { session }]);
        match self.sessions.remove(&session) {
            None => {
                assert(self@ =~= old(self)@);
                SessionDecision { outcome: SessionOutcome::NotConnected, commands }
            },
            Some(_) => {
                assert(self@ =~= old(self)@.remove(session));
                SessionDecision { outcome: SessionOutcome::Left, commands }
            },
        }
    }

    /// Takes note that the transport has finished the playing track of the
    /// session: see `finish_effect`.
    pub fn track_finished(&mut self, session: u64) -> (decision: SessionDecision)
        ensures
            final(self)@ == finish_effect(old(self)@, session).sessions,
            decision.outcome == finish_effect(old(self)@, session).outcome,
            command_views(decision.commands@) == finish_effect(old(self)@, session).commands,
    {
        let mut commands: Vec<TransportCommand> = Vec::new();
        match self.sessions.remove(&session) {
            None => {
                proof {
                    assert(self@ =~= old(self)@);
                    assert(command_views(commands@) =~= seq![]);
                }
                SessionDecision { outcome: SessionOutcome::NotConnected, commands }
            },
            Some(found) => {
                let mut found = found;
                let channel = found.channel;
                let ghost before = found.queue@;
                found.queue.advance();
                let outcome = match found.queue.peek_head() {
                    None => SessionOutcome::Idle,
                    Some(next) => {
                        commands.push(TransportCommand::Play { session, track: next.clone() });
                        SessionOutcome::Advanced
                    },
                };
                let ghost rest = found.queue@;
                self.sessions.insert(session, found);
                proof {
                    if before.len() == 0 {
                        assert(self@ =~= old(self)@);
                        assert(command_views(commands@) =~= seq![]);
                    } else {
                        assert(self@ =~= old(self)@.insert(
                            session,
                            SessionView { channel, queue: rest },
                        ));
                        if rest.len() == 0 {
                            assert(command_views(commands@) =~= seq![]);
                        } else {
                            assert(command_views(commands@) =~= seq![
                                CommandView::Play { session, track: rest[0] },
                            ]);
                        }
                    }
                }
                SessionDecision { outcome, commands }
            },
        }
    }

    /// The channel that the session is bound to, if there is a session.
    pub fn channel(&self, session: u64) -> (bound: Option<u64>)
        ensures
            !self@.contains_key(session) ==> bound is None,
            self@.contains_key(session) ==> bound == Some(self@[session].channel),
    {
        match self.sessions.get(&session) {
            None => None,
            Some(found) => Some(found.channel),
        }
    }

    /// The queue of the session, if there is a session.
    pub fn queue(&self, session: u64) -> (queue: Option<&PlaybackQueue>)
        ensures
            !self@.contains_key(session) ==> queue is None,
            self@.contains_key(session) ==> queue is Some && queue.unwrap()@ == self@[session].queue,
    {
        match self.sessions.get(&session) {
            None => None,
            Some(found) => Some(&found.queue),
        }
    }
}

/// A play request for a session that does not exist, from a requester in a
/// voice channel, starts playing; a second one from the same channel, while
/// that track is still the head, is queued at position 1.
pub proof fn lemma_first_plays_second_waits(
    sessions: Map<u64, SessionView>,
    session: u64,
    channel: u64,
    first: TrackView,
    second: TrackView,
)
    requires
        !sessions.contains_key(session),
    ensures
        play_effect(sessions, session, Some(channel), Ok(first)).outcome == PlayView::StartedPlaying(
            first,
        ),
        play_effect(
            play_effect(sessions, session, Some(channel), Ok(first)).sessions,
            session,
            Some(channel),
            Ok(second),
        ).outcome == (PlayView::Queued { position: 1 }),
        play_effect(
            play_effect(sessions, session, Some(channel), Ok(first)).sessions,
            session,
            Some(channel),
            Ok(second),
        ).sessions[session].queue == seq![first, second],
{
    let after = play_effect(sessions, session, Some(channel), Ok(first)).sessions;
    assert(after[session].queue.push(second) =~= seq![first, second]);
}

/// A play request whose source resolved, from a requester in another voice
/// channel than the session is bound to, ends as `ChannelMismatch`: no
/// session changes, no queue with them, and the transport is told nothing.
pub proof fn lemma_mismatch_changes_nothing(
    sessions: Map<u64, SessionView>,
    session: u64,
    channel: u64,
    track: TrackView,
)
    requires
        sessions.contains_key(session),
        sessions[session].channel != channel,
    ensures
        play_effect(sessions, session, Some(channel), Ok(track)).outcome == PlayView::ChannelMismatch,
        play_effect(sessions, session, Some(channel), Ok(track)).sessions == sessions,
        play_effect(sessions, session, Some(channel), Ok(track)).commands == Seq::<
            CommandView,
        >::empty(),
{
}

/// Only a request that is served changes the sessions: whenever a play
/// request ends in anything but `StartedPlaying` or `Queued`, every session
/// is as it was and the transport is told nothing.
pub proof fn lemma_refusal_changes_nothing(
    sessions: Map<u64, SessionView>,
    session: u64,
    requester: Option<u64>,
    resolution: Result<TrackView, Seq<char>>,
)
    ensures
        play_effect(sessions, session, requester, resolution).outcome is StartedPlaying
            || play_effect(sessions, session, requester, resolution).outcome is Queued || (
        play_effect(sessions, session, requester, resolution).sessions == sessions && play_effect(
            sessions,
            session,
            requester,
            resolution,
        ).commands == Seq::<CommandView>::empty()),
{
}

} // verus!
