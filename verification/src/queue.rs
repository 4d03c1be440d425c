//! The playback queue of one voice session.

use crate::text::text_view;
use std::collections::VecDeque;
use vstd::prelude::*;

verus! {

/// What the transport needs to stream a source, and what is shown of it.
#[derive(Debug)]
pub struct Track {
    /// Where the transport reads the audio from.
    pub locator: String,
    pub title: String,
    pub author: String,
    /// A picture to show with it, where there is one.
    pub thumbnail: Option<String>,
    /// The canonical address shown to users.
    pub url: String,
}

/// A track as the contracts see it: its five texts.
pub struct TrackView {
    pub locator: Seq<char>,
    pub title: Seq<char>,
    pub author: Seq<char>,
    pub thumbnail: Option<Seq<char>>,
    pub url: Seq<char>,
}

impl View for Track {
    type V = TrackView;

    open spec fn view(&self) -> TrackView {
        TrackView {
            locator: self.locator@,
            title: self.title@,
            author: self.author@,
            thumbnail: text_view(self.thumbnail),
            url: self.url@,
        }
    }
}

impl Clone for Track {
    fn clone(&self) -> (copy: Self)
        ensures
            copy@ == self@,
    {
        Track {
            locator: self.locator.clone(),
            title: self.title.clone(),
            author: self.author.clone(),
            thumbnail: match &self.thumbnail {
                Some(picture) => Some(picture.clone()),
                None => None,
            },
            url: self.url.clone(),
        }
    }
}

/// The end of the queue at which a track is put.
#[derive(Debug, Clone, Copy, PartialEq, Eq, Structural)]
pub enum Queue {
    /// Next in line: directly behind the track that is playing.
    Front,
    /// Last in line.
    Back,
}

/// The tracks of one session in playing order. The track at position 0 is the
/// one that is playing.
pub struct PlaybackQueue {
    tracks: VecDeque<Track>,
}

/// The views of the tracks in `tracks`, in order.
pub open spec fn track_views(tracks: Seq<Track>) -> Seq<TrackView> {
    Seq::new(tracks.len(), |i: int| tracks[i]@)
}

/// `order` with `track` put directly behind its head, or alone if `order` is
/// empty.
pub open spec fn after_head(order: Seq<TrackView>, track: TrackView) -> Seq<TrackView> {
    if order.len() == 0 {
        seq![track]
    } else {
        order.insert(1, track)
    }
}

/// `order` with `track` put at the end that `direction` names.
pub open spec fn enqueued(order: Seq<TrackView>, track: TrackView, direction: Queue) -> Seq<
    TrackView,
> {
    match direction {
        Queue::Front => after_head(order, track),
        Queue::Back => order.push(track),
    }
}

impl View for PlaybackQueue {
    type V = Seq<TrackView>;

    closed spec fn view(&self) -> Seq<TrackView> {
        track_views(self.tracks@)
    }
}

impl PlaybackQueue {
    /// A queue with no track.
    pub fn new() -> (queue: Self)
        ensures
            queue@ == Seq::<TrackView>::empty(),
    {
        let queue = PlaybackQueue { tracks: VecDeque::new() };
        assert(queue@ =~= Seq::<TrackView>::empty());
        queue
    }

    /// The number of tracks, the playing one included.
    pub fn length(&self) -> (n: usize)
        ensures
            n == self@.len(),
    {
        self.tracks.len()
    }

    /// The track that is playing, if there is one.
    pub fn peek_head(&self) -> (head: Option<&Track>)
        ensures
            self@.len() == 0 ==> head is None,
            self@.len() > 0 ==> head is Some && head.unwrap()@ == self@[0],
    {
        if self.tracks.len() == 0 {
            None
        } else {
            Some(&self.tracks[0])
        }
    }

    /// The track at `position`, counted from the playing one.
    pub fn get(&self, position: usize) -> (track: Option<&Track>)
        ensures
            position >= self@.len() ==> track is None,
            position < self@.len() ==> track is Some && track.unwrap()@ == self@[position as int],
    {
        if position < self.tracks.len() {
            Some(&self.tracks[position])
        } else {
            None
        }
    }

    /// Puts `track` last and returns the new length.
    pub fn append(&mut self, track: Track) -> (n: usize)
        ensures
            final(self)@ == old(self)@.push(track@),
            n == old(self)@.len() + 1,
    {
        self.tracks.push_back(track);
        assert(self@ =~= old(self)@.push(track@));
        self.tracks.len()
    }

    /// Puts `track` directly behind the playing track, which stays where it
    /// is, and returns the new length. On an empty queue `track` becomes the
    /// head.
    pub fn insert_after_head(&mut self, track: Track) -> (n: usize)
        ensures
            final(self)@ == after_head(old(self)@, track@),
            n == old(self)@.len() + 1,
    {
        if self.tracks.len() == 0 {
            self.tracks.push_back(track);
        } else {
            self.tracks.insert(1, track);
        }
        assert(self@ =~= after_head(old(self)@, track@));
        self.tracks.len()
    }

    /// Takes the head off the queue: the transport has finished it. The track
    /// behind it, if there is one, is the new head. Returns the track that
    /// was taken off; an empty queue stays empty.
    pub fn advance(&mut self) -> (finished: Option<Track>)
        ensures
            old(self)@.len() == 0 ==> finished is None && final(self)@ == old(self)@,
            old(self)@.len() > 0 ==> finished is Some && finished.unwrap()@ == old(self)@[0]
                && final(self)@ == old(self)@.drop_first(),
    {
        let finished = self.tracks.pop_front();
        proof {
            if old(self)@.len() > 0 {
                assert(self@ =~= old(self)@.drop_first());
            }
        }
        finished
    }

    /// Drops every track: the session is over.
    pub fn clear(&mut self)
        ensures
            final(self)@ == Seq::<TrackView>::empty(),
    {
        self.tracks.clear();
        assert(self@ =~= Seq::<TrackView>::empty());
    }
}

/// Puts `track` into `queue` at the end that `direction` names and returns
/// the length of the queue afterwards.
pub fn play(queue: &mut PlaybackQueue, track: Track, direction: Queue) -> (n: usize)
    ensures
        final(queue)@ == enqueued(old(queue)@, track@, direction),
        n == old(queue)@.len() + 1,
{
    match direction {
        Queue::Front => queue.insert_after_head(track),
        Queue::Back => queue.append(track),
    }
}

/// Putting a track behind the head of a queue that has one leaves the head
/// where it is, lands the track at position 1, moves every later track one
/// place back and makes the queue one longer.
pub proof fn lemma_insert_after_head(order: Seq<TrackView>, track: TrackView)
    requires
        order.len() > 0,
    ensures
        after_head(order, track).len() == order.len() + 1,
        after_head(order, track)[0] == order[0],
        after_head(order, track)[1] == track,
        forall|i: int| 1 <= i < order.len() ==> after_head(order, track)[i + 1] == order[i],
{
}

/// A queue never gets shorter by a track put into it, at either end.
pub proof fn lemma_enqueued_grows(order: Seq<TrackView>, track: TrackView, direction: Queue)
    ensures
        enqueued(order, track, direction).len() == order.len() + 1,
        order.len() > 0 ==> enqueued(order, track, direction)[0] == order[0],
{
}

} // verus!
