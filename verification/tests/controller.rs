use fardbot::controller::{
    PlayDecision, PlayOutcome, PlayStep, QueueController, SessionOutcome, TransportCommand,
};
use fardbot::queue::Track;

const GUILD: u64 = 42;
const LOUNGE: u64 = 7;
const ATTIC: u64 = 8;

fn track(name: &str) -> Track {
    Track {
        locator: format!("https://media.example/{name}.ogg"),
        title: name.to_string(),
        author: "someone".to_string(),
        thumbnail: None,
        url: format!("https://media.example/{name}"),
    }
}

fn queue_titles(controller: &QueueController, session: u64) -> Option<Vec<String>> {
    let queue = controller.queue(session)?;
    let mut titles = Vec::new();
    for i in 0..queue.length() {
        titles.push(queue.get(i).unwrap().title.clone());
    }
    Some(titles)
}

fn play(controller: &mut QueueController, requester: Option<u64>, name: &str) -> PlayDecision {
    controller.resume_play(GUILD, requester, Ok(track(name)))
}

#[test]
fn request_play_rejects_what_is_no_address() {
    for raw in ["", "never gonna give you up", "<not an address>", "www.youtube.com/watch?v=dQw4w9WgXcQ"] {
        assert!(matches!(
            QueueController::request_play(raw),
            PlayStep::Done(PlayOutcome::InvalidSource)
        ));
    }
}

#[test]
fn request_play_hands_on_a_well_formed_address() {
    match QueueController::request_play("https://www.youtube.com/watch?v=dQw4w9WgXcQ") {
        PlayStep::Resolve(address) => {
            assert_eq!(address, "https://www.youtube.com/watch?v=dQw4w9WgXcQ")
        }
        other => panic!("unexpected step {other:?}"),
    }
    match QueueController::request_play("<https://media.example/a.ogg>") {
        PlayStep::Resolve(address) => assert_eq!(address, "https://media.example/a.ogg"),
        other => panic!("unexpected step {other:?}"),
    }
}

#[test]
fn first_play_starts_and_second_is_queued_at_position_one() {
    let mut controller = QueueController::new();
    assert!(controller.queue(GUILD).is_none());

    let first = play(&mut controller, Some(LOUNGE), "A");
    assert!(matches!(&first.outcome, PlayOutcome::StartedPlaying(track) if track.title == "A"));
    assert_eq!(first.commands.len(), 2);
    assert!(matches!(
        first.commands[0],
        TransportCommand::Join { session: GUILD, channel: LOUNGE }
    ));
    assert!(matches!(
        &first.commands[1],
        TransportCommand::Play { session: GUILD, track } if track.title == "A"
    ));
    assert_eq!(controller.channel(GUILD), Some(LOUNGE));
    assert_eq!(controller.queue(GUILD).unwrap().length(), 1);

    let second = play(&mut controller, Some(LOUNGE), "B");
    assert!(matches!(second.outcome, PlayOutcome::Queued { position: 1 }));
    assert!(second.commands.is_empty());

    let third = play(&mut controller, Some(LOUNGE), "C");
    assert!(matches!(third.outcome, PlayOutcome::Queued { position: 2 }));
    assert_eq!(queue_titles(&controller, GUILD).unwrap(), vec!["A", "B", "C"]);
    assert_eq!(controller.queue(GUILD).unwrap().peek_head().unwrap().title, "A");
}

#[test]
fn play_from_another_channel_is_a_mismatch_and_changes_nothing() {
    let mut controller = QueueController::new();
    play(&mut controller, Some(LOUNGE), "A");
    play(&mut controller, Some(LOUNGE), "B");

    let decision = play(&mut controller, Some(ATTIC), "C");
    assert!(matches!(decision.outcome, PlayOutcome::ChannelMismatch));
    assert!(decision.commands.is_empty());
    assert_eq!(queue_titles(&controller, GUILD).unwrap(), vec!["A", "B"]);
    assert_eq!(controller.channel(GUILD), Some(LOUNGE));
}

#[test]
fn play_from_no_voice_channel_changes_nothing() {
    let mut controller = QueueController::new();
    let decision = play(&mut controller, None, "A");
    assert!(matches!(decision.outcome, PlayOutcome::NotInVoice));
    assert!(decision.commands.is_empty());
    assert!(controller.queue(GUILD).is_none());

    play(&mut controller, Some(LOUNGE), "A");
    let decision = play(&mut controller, None, "B");
    assert!(matches!(decision.outcome, PlayOutcome::NotInVoice));
    assert_eq!(queue_titles(&controller, GUILD).unwrap(), vec!["A"]);
}

#[test]
fn source_that_does_not_resolve_changes_nothing() {
    let mut controller = QueueController::new();
    let decision = controller.resume_play(GUILD, Some(LOUNGE), Err("video is private".to_string()));
    assert!(matches!(&decision.outcome, PlayOutcome::ResolutionFailed(reason) if reason == "video is private"));
    assert!(decision.commands.is_empty());
    assert!(controller.queue(GUILD).is_none());

    play(&mut controller, Some(LOUNGE), "A");
    let decision = controller.resume_play(GUILD, Some(ATTIC), Err("gone".to_string()));
    assert!(matches!(&decision.outcome, PlayOutcome::ResolutionFailed(reason) if reason == "gone"));
    assert_eq!(queue_titles(&controller, GUILD).unwrap(), vec!["A"]);
}

#[test]
fn sessions_do_not_share_a_queue() {
    let mut controller = QueueController::new();
    play(&mut controller, Some(LOUNGE), "A");
    let other = controller.resume_play(GUILD + 1, Some(ATTIC), Ok(track("X")));
    assert!(matches!(other.outcome, PlayOutcome::StartedPlaying(_)));
    assert_eq!(queue_titles(&controller, GUILD).unwrap(), vec!["A"]);
    assert_eq!(queue_titles(&controller, GUILD + 1).unwrap(), vec!["X"]);
    assert_eq!(controller.channel(GUILD + 1), Some(ATTIC));
}

#[test]
fn join_then_play_starts_without_joining_again() {
    let mut controller = QueueController::new();
    let joined = controller.request_join(GUILD, Some(LOUNGE));
    assert_eq!(joined.outcome, SessionOutcome::Joined);
    assert_eq!(joined.commands.len(), 1);
    assert!(matches!(
        joined.commands[0],
        TransportCommand::Join { session: GUILD, channel: LOUNGE }
    ));
    assert_eq!(controller.queue(GUILD).unwrap().length(), 0);

    let decision = play(&mut controller, Some(LOUNGE), "A");
    assert!(matches!(decision.outcome, PlayOutcome::StartedPlaying(_)));
    assert_eq!(decision.commands.len(), 1);
    assert!(matches!(&decision.commands[0], TransportCommand::Play { session: GUILD, .. }));
}

#[test]
fn join_from_no_voice_channel_changes_nothing() {
    let mut controller = QueueController::new();
    let decision = controller.request_join(GUILD, None);
    assert_eq!(decision.outcome, SessionOutcome::NotInVoice);
    assert!(decision.commands.is_empty());
    assert!(controller.channel(GUILD).is_none());
}

#[test]
fn join_moves_a_session_and_keeps_its_queue() {
    let mut controller = QueueController::new();
    play(&mut controller, Some(LOUNGE), "A");
    play(&mut controller, Some(LOUNGE), "B");
    let decision = controller.request_join(GUILD, Some(ATTIC));
    assert_eq!(decision.outcome, SessionOutcome::Joined);
    assert_eq!(controller.channel(GUILD), Some(ATTIC));
    assert_eq!(queue_titles(&controller, GUILD).unwrap(), vec!["A", "B"]);
}

#[test]
fn stop_ends_the_session_for_a_requester_in_its_channel() {
    let mut controller = QueueController::new();
    play(&mut controller, Some(LOUNGE), "A");
    play(&mut controller, Some(LOUNGE), "B");

    let refused = controller.request_stop(GUILD, Some(ATTIC));
    assert_eq!(refused.outcome, SessionOutcome::ChannelMismatch);
    assert!(refused.commands.is_empty());
    let refused = controller.request_stop(GUILD, None);
    assert_eq!(refused.outcome, SessionOutcome::NotInVoice);
    assert_eq!(queue_titles(&controller, GUILD).unwrap(), vec!["A", "B"]);

    let stopped = controller.request_stop(GUILD, Some(LOUNGE));
    assert_eq!(stopped.outcome, SessionOutcome::Stopped);
    assert_eq!(stopped.commands.len(), 2);
    assert!(matches!(stopped.commands[0], TransportCommand::Stop { session: GUILD }));
    assert!(matches!(stopped.commands[1], TransportCommand::Leave { session: GUILD }));
    assert!(controller.queue(GUILD).is_none());

    let again = controller.request_stop(GUILD, Some(LOUNGE));
    assert_eq!(again.outcome, SessionOutcome::NotConnected);
    assert!(again.commands.is_empty());
}

#[test]
fn leave_ends_the_session_and_the_next_play_starts_anew() {
    let mut controller = QueueController::new();
    let unknown = controller.request_leave(GUILD);
    assert_eq!(unknown.outcome, SessionOutcome::NotConnected);
    assert_eq!(unknown.commands.len(), 1);
    assert!(matches!(unknown.commands[0], TransportCommand::Leave { session: GUILD }));
    assert!(controller.queue(GUILD).is_none());

    play(&mut controller, Some(LOUNGE), "A");
    play(&mut controller, Some(LOUNGE), "B");
    let left = controller.request_leave(GUILD);
    assert_eq!(left.outcome, SessionOutcome::Left);
    assert_eq!(left.commands.len(), 1);
    assert!(matches!(left.commands[0], TransportCommand::Leave { session: GUILD }));
    assert!(controller.queue(GUILD).is_none());

    let decision = play(&mut controller, Some(ATTIC), "C");
    assert!(matches!(decision.outcome, PlayOutcome::StartedPlaying(_)));
    assert_eq!(queue_titles(&controller, GUILD).unwrap(), vec!["C"]);
}

#[test]
fn leave_is_ordered_again_after_the_session_is_gone() {
    let mut controller = QueueController::new();
    play(&mut controller, Some(LOUNGE), "A");
    controller.request_stop(GUILD, Some(LOUNGE));
    for _ in 0..2 {
        let decision = controller.request_leave(GUILD);
        assert_eq!(decision.outcome, SessionOutcome::NotConnected);
        assert_eq!(decision.commands.len(), 1);
        assert!(matches!(decision.commands[0], TransportCommand::Leave { session: GUILD }));
    }
}

#[test]
fn leave_of_one_session_leaves_the_others_alone() {
    let mut controller = QueueController::new();
    play(&mut controller, Some(LOUNGE), "A");
    controller.request_leave(GUILD + 1);
    assert_eq!(queue_titles(&controller, GUILD).unwrap(), vec!["A"]);
    assert_eq!(controller.channel(GUILD), Some(LOUNGE));
}

#[test]
fn end_of_a_track_starts_the_next_one() {
    let mut controller = QueueController::new();
    let nothing = controller.track_finished(GUILD);
    assert_eq!(nothing.outcome, SessionOutcome::NotConnected);
    assert!(nothing.commands.is_empty());

    play(&mut controller, Some(LOUNGE), "A");
    play(&mut controller, Some(LOUNGE), "B");

    let next = controller.track_finished(GUILD);
    assert_eq!(next.outcome, SessionOutcome::Advanced);
    assert_eq!(next.commands.len(), 1);
    assert!(matches!(
        &next.commands[0],
        TransportCommand::Play { session: GUILD, track } if track.title == "B"
    ));
    assert_eq!(queue_titles(&controller, GUILD).unwrap(), vec!["B"]);

    let last = controller.track_finished(GUILD);
    assert_eq!(last.outcome, SessionOutcome::Idle);
    assert!(last.commands.is_empty());
    assert_eq!(controller.queue(GUILD).unwrap().length(), 0);
    assert_eq!(controller.channel(GUILD), Some(LOUNGE));

    let idle = controller.track_finished(GUILD);
    assert_eq!(idle.outcome, SessionOutcome::Idle);

    let decision = play(&mut controller, Some(LOUNGE), "C");
    assert!(matches!(decision.outcome, PlayOutcome::StartedPlaying(_)));
    assert_eq!(decision.commands.len(), 1);
}
