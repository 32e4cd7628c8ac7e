//! The play, pause, and stop state around the transport: what the window's
//! transport buttons, the space bar, and a click on the ruler do, as plain
//! state that says what the transport is to be told.
//!
//! The start point is what makes stopping and playing again play the same
//! stretch again: playing records it, a click on the ruler sets it,
//! stopping returns the playhead to it, and playing after the mix has played
//! out goes back to it.

use vstd::prelude::*;
use crate::units::Samples;
use crate::text::{joined, owned};

verus! {

/// What the person is being shown the transport doing.
#[derive(Debug, PartialEq, Eq)]
pub enum PlaybackState {
    /// No transport is running.
    Stopped,
    /// The transport is playing, or is about to once it has buffered.
    Playing,
    /// The transport holds its position.
    Paused,
    /// The transport has played the mix out.
    Ended,
    /// The transport stopped on the message, which the person is shown.
    Failed(String),
}

/// A playback state as the contracts speak of it.
pub enum PlaybackStateView {
    Stopped,
    Playing,
    Paused,
    Ended,
    Failed(Seq<char>),
}

impl View for PlaybackState {
    type V = PlaybackStateView;

    open spec fn view(&self) -> PlaybackStateView {
        match self {
            PlaybackState::Stopped => PlaybackStateView::Stopped,
            PlaybackState::Playing => PlaybackStateView::Playing,
            PlaybackState::Paused => PlaybackStateView::Paused,
            PlaybackState::Ended => PlaybackStateView::Ended,
            PlaybackState::Failed(problem) => PlaybackStateView::Failed(problem@),
        }
    }
}

impl Clone for PlaybackState {
    fn clone(&self) -> (r: PlaybackState)
        ensures
            r@ == self@,
    {
        match self {
            PlaybackState::Stopped => PlaybackState::Stopped,
            PlaybackState::Playing => PlaybackState::Playing,
            PlaybackState::Paused => PlaybackState::Paused,
            PlaybackState::Ended => PlaybackState::Ended,
            PlaybackState::Failed(problem) => PlaybackState::Failed(problem.clone()),
        }
    }
}

/// What the window is to tell the transport, in the order given.
#[derive(Debug, Clone, Copy, PartialEq, Eq, Structural)]
pub enum TransportOrder {
    /// Start a transport at the frame.
    Start {
        /// The output frame to start at.
        at: Samples,
    },
    /// Resume the transport where it is.
    Resume,
    /// Hold the transport where it is.
    Pause,
    /// Move the transport to the frame.
    Seek {
        /// The output frame to move to.
        at: Samples,
    },
    /// Stop the transport and give the device back.
    Stop,
}

/// What the transport reports it is doing.
#[derive(Debug, PartialEq, Eq)]
pub enum TransportState {
    /// Filling its buffer before the sound starts.
    Buffering,
    /// Playing.
    Playing,
    /// Holding its position.
    Paused,
    /// It has played the mix out.
    Ended,
    /// It stopped on the message.
    Failed(String),
}

/// The transport's own report: where it is and what it is doing.
#[derive(Debug, PartialEq, Eq)]
pub struct TransportStatus {
    /// The output frame it has reached.
    pub position: Samples,
    /// What it is doing.
    pub state: TransportState,
}

/// The frame playing starts from: the beginning when `playhead` is at or
/// past the mix's `length`, since there is nothing left to hear from
/// `playhead` on, and `playhead` itself otherwise.
pub open spec fn play_from_spec(playhead: int, length: int) -> int {
    if playhead >= length {
        0
    } else {
        playhead
    }
}

/// The frame stopping returns to: `start_point`, or `length` when an edit
/// has left the mix shorter than the start point.
pub open spec fn stop_to_spec(start_point: int, length: int) -> int {
    if start_point <= length {
        start_point
    } else {
        length
    }
}

/// The frame playing starts from, as [`play_from_spec`] says.
fn play_from(playhead: Samples, length: Samples) -> (r: Samples)
    ensures
        r.0 == play_from_spec(playhead.0 as int, length.0 as int),
{
    if playhead.0 >= length.0 {
        Samples(0)
    } else {
        playhead
    }
}

/// The frame stopping returns to, as [`stop_to_spec`] says.
fn stop_to(start_point: Samples, length: Samples) -> (r: Samples)
    ensures
        r.0 == stop_to_spec(start_point.0 as int, length.0 as int),
{
    if start_point.0 <= length.0 {
        start_point
    } else {
        length
    }
}

/// The playhead, the start point, and what the transport is doing.
#[derive(Debug, PartialEq)]
pub struct Playback {
    playhead: Samples,
    start_point: Samples,
    state: PlaybackState,
}

/// A playback as the contracts speak of it.
pub struct PlaybackView {
    /// The output frame the person is hearing, or the frame playing would
    /// start from.
    pub playhead: int,
    /// The frame the last playback started from.
    pub start_point: int,
    /// What the person is being shown the transport doing.
    pub state: PlaybackStateView,
}

impl View for Playback {
    type V = PlaybackView;

    closed spec fn view(&self) -> PlaybackView {
        PlaybackView {
            playhead: self.playhead.0 as int,
            start_point: self.start_point.0 as int,
            state: self.state@,
        }
    }
}

/// What playing tells the transport, given the mix's length.
pub open spec fn play_orders(p: PlaybackView, length: int) -> Seq<TransportOrder> {
    match p.state {
        PlaybackStateView::Stopped => seq![
            TransportOrder::Start { at: Samples(play_from_spec(p.playhead, length) as i64) },
        ],
        PlaybackStateView::Paused => seq![TransportOrder::Resume],
        PlaybackStateView::Ended => seq![
            TransportOrder::Seek { at: Samples(play_from_spec(p.start_point, length) as i64) },
            TransportOrder::Resume,
        ],
        PlaybackStateView::Failed(_) => seq![
            TransportOrder::Stop,
            TransportOrder::Start {
                at: Samples(
                    play_from_spec(stop_to_spec(p.start_point, length), length) as i64,
                ),
            },
        ],
        PlaybackStateView::Playing => seq![],
    }
}

/// The playback after playing, given the mix's length.
pub open spec fn after_play(p: PlaybackView, length: int) -> PlaybackView {
    match p.state {
        PlaybackStateView::Stopped => {
            let from = play_from_spec(p.playhead, length);
            PlaybackView { playhead: from, start_point: from, state: PlaybackStateView::Playing }
        },
        PlaybackStateView::Paused => PlaybackView { state: PlaybackStateView::Playing, ..p },
        PlaybackStateView::Ended => {
            let to = play_from_spec(p.start_point, length);
            PlaybackView { playhead: to, start_point: to, state: PlaybackStateView::Playing }
        },
        PlaybackStateView::Failed(_) => {
            let from = play_from_spec(stop_to_spec(p.start_point, length), length);
            PlaybackView { playhead: from, start_point: from, state: PlaybackStateView::Playing }
        },
        PlaybackStateView::Playing => p,
    }
}

/// The playback after pausing.
pub open spec fn after_pause(p: PlaybackView) -> PlaybackView {
    if p.state is Playing {
        PlaybackView { state: PlaybackStateView::Paused, ..p }
    } else {
        p
    }
}

/// The playback after stopping, given the mix's length.
pub open spec fn after_stop(p: PlaybackView, length: int) -> PlaybackView {
    if p.state is Stopped {
        p
    } else {
        let back_to = stop_to_spec(p.start_point, length);
        PlaybackView { playhead: back_to, start_point: back_to, state: PlaybackStateView::Stopped }
    }
}

/// The playback after a click on the ruler at `at`.
pub open spec fn after_click(p: PlaybackView, at: int) -> PlaybackView {
    PlaybackView {
        playhead: at,
        start_point: at,
        state: if p.state is Ended {
            PlaybackStateView::Paused
        } else {
            p.state
        },
    }
}

/// What a click on the ruler at `at` tells the transport.
pub open spec fn click_orders(p: PlaybackView, at: Samples) -> Seq<TransportOrder> {
    match p.state {
        PlaybackStateView::Playing | PlaybackStateView::Paused | PlaybackStateView::Ended => seq![
            TransportOrder::Seek { at },
        ],
        _ => seq![],
    }
}

/// What the window shows for what the transport reports.
pub open spec fn shown_state(s: TransportState) -> PlaybackStateView {
    match s {
        TransportState::Buffering | TransportState::Playing => PlaybackStateView::Playing,
        TransportState::Paused => PlaybackStateView::Paused,
        TransportState::Ended => PlaybackStateView::Ended,
        TransportState::Failed(problem) => PlaybackStateView::Failed(problem@),
    }
}

impl Playback {
    /// Stopped, with the playhead and the start point at `playhead`.
    pub fn new(playhead: Samples) -> (p: Playback)
        ensures
            p@ == (PlaybackView {
                playhead: playhead.0 as int,
                start_point: playhead.0 as int,
                state: PlaybackStateView::Stopped,
            }),
    {
        Playback { playhead, start_point: playhead, state: PlaybackState::Stopped }
    }

    /// What the transport is doing.
    pub fn state(&self) -> (r: PlaybackState)
        ensures
            r@ == self@.state,
    {
        self.state.clone()
    }

    /// The output frame the person is hearing, or the frame playing would
    /// start from.
    pub fn playhead(&self) -> (r: Samples)
        ensures
            r.0 == self@.playhead,
    {
        self.playhead
    }

    /// The frame the last playback started from, which stopping comes back
    /// to.
    pub fn start_point(&self) -> (r: Samples)
        ensures
            r.0 == self@.start_point,
    {
        self.start_point
    }

    /// Plays, given the mix's length: starts a transport at the playhead
    /// when none is running, recording the playhead as the start point, or
    /// at the first frame when the playhead is at or past the length;
    /// resumes a paused transport, leaving the start point alone; moves a
    /// transport that has played the mix out back to the start point and
    /// resumes it, or to the first frame when the mix no longer reaches the
    /// start point, recording where it went as the start point; stops a
    /// failed transport, which returns the playhead to the start point as
    /// [`stop`](Playback::stop) does, and starts a fresh one there as a
    /// stopped one is started; and does nothing to a transport that is
    /// playing.
    pub fn play(&mut self, length: Samples) -> (orders: Vec<TransportOrder>)
        ensures
            orders@ == play_orders(old(self)@, length.0 as int),
            final(self)@ == after_play(old(self)@, length.0 as int),
    {
        match &self.state {
            PlaybackState::Stopped => {
                let from = play_from(self.playhead, length);
                self.playhead = from;
                self.start_point = from;
                self.state = PlaybackState::Playing;
                vec![TransportOrder::Start { at: from }]
            },
            PlaybackState::Paused => {
                self.state = PlaybackState::Playing;
                vec![TransportOrder::Resume]
            },
            PlaybackState::Ended => {
                let to = play_from(self.start_point, length);
                self.start_point = to;
                self.playhead = to;
                self.state = PlaybackState::Playing;
                vec![TransportOrder::Seek { at: to }, TransportOrder::Resume]
            },
            PlaybackState::Failed(_) => {
                let stopped_at = stop_to(self.start_point, length);
                let from = play_from(stopped_at, length);
                self.start_point = from;
                self.playhead = from;
                self.state = PlaybackState::Playing;
                vec![TransportOrder::Stop, TransportOrder::Start { at: from }]
            },
            PlaybackState::Playing => vec![],
        }
    }

    /// Holds a playing transport where it is, and does nothing otherwise.
    pub fn pause(&mut self) -> (orders: Vec<TransportOrder>)
        ensures
            orders@ == if old(self)@.state is Playing {
                seq![TransportOrder::Pause]
            } else {
                seq![]
            },
            final(self)@ == after_pause(old(self)@),
    {
        if let PlaybackState::Playing = self.state {
            self.state = PlaybackState::Paused;
            vec![TransportOrder::Pause]
        } else {
            vec![]
        }
    }

    /// Stops the transport, if one is running, and returns the playhead to
    /// the start point, or to the mix's length when an edit has left the
    /// mix shorter than the start point, in which case the start point
    /// moves there too.
    pub fn stop(&mut self, length: Samples) -> (orders: Vec<TransportOrder>)
        ensures
            orders@ == if old(self)@.state is Stopped {
                seq![]
            } else {
                seq![TransportOrder::Stop]
            },
            final(self)@ == after_stop(old(self)@, length.0 as int),
    {
        if let PlaybackState::Stopped = self.state {
            return vec![];
        }
        let back_to = stop_to(self.start_point, length);
        self.start_point = back_to;
        self.playhead = back_to;
        self.state = PlaybackState::Stopped;
        vec![TransportOrder::Stop]
    }

    /// What the space bar does: stops a transport that is playing, and
    /// otherwise plays, so that a pause is resumed rather than started
    /// over.
    pub fn space(&mut self, length: Samples) -> (orders: Vec<TransportOrder>)
        ensures
            old(self)@.state is Playing ==> orders@ == seq![TransportOrder::Stop]
                && final(self)@ == after_stop(old(self)@, length.0 as int),
            !(old(self)@.state is Playing) ==> orders@ == play_orders(old(self)@, length.0 as int)
                && final(self)@ == after_play(old(self)@, length.0 as int),
    {
        if let PlaybackState::Playing = self.state {
            self.stop(length)
        } else {
            self.play(length)
        }
    }

    /// A click on the ruler at a frame: the playhead and the start point
    /// move there, and a transport that is playing, paused, or has played
    /// the mix out is moved there too. A playing one plays on from there, a
    /// paused one stays paused there, and one that had played the mix out
    /// is paused there. A failed transport is not moved, and neither is a
    /// transport that is not running. The frame is stored exactly as given.
    pub fn click_ruler(&mut self, at: Samples) -> (orders: Vec<TransportOrder>)
        ensures
            orders@ == click_orders(old(self)@, at),
            final(self)@ == after_click(old(self)@, at.0 as int),
    {
        self.playhead = at;
        self.start_point = at;
        match &self.state {
            PlaybackState::Playing | PlaybackState::Paused => vec![TransportOrder::Seek { at }],
            PlaybackState::Ended => {
                self.state = PlaybackState::Paused;
                vec![TransportOrder::Seek { at }]
            },
            PlaybackState::Stopped | PlaybackState::Failed(_) => vec![],
        }
    }

    /// Takes the transport's own report: the playhead is the report's
    /// position, and the state is the report's, with buffering shown as
    /// playing. A report is ignored while the state is stopped, since no
    /// transport is running for it to describe.
    pub fn heard(&mut self, status: &TransportStatus)
        ensures
            old(self)@.state is Stopped ==> final(self)@ == old(self)@,
            !(old(self)@.state is Stopped) ==> final(self)@ == (PlaybackView {
                playhead: status.position.0 as int,
                state: shown_state(status.state),
                ..old(self)@
            }),
    {
        if let PlaybackState::Stopped = self.state {
            return;
        }
        self.playhead = status.position;
        self.state = match &status.state {
            TransportState::Buffering | TransportState::Playing => PlaybackState::Playing,
            TransportState::Paused => PlaybackState::Paused,
            TransportState::Ended => PlaybackState::Ended,
            TransportState::Failed(problem) => PlaybackState::Failed(problem.clone()),
        };
    }

    /// The window's answer when a [`Start`](TransportOrder::Start) order
    /// could not be carried out: no transport is running, so the state goes
    /// back to stopped, with the playhead and the start point left where
    /// playing put them.
    pub fn could_not_start(&mut self)
        ensures
            final(self)@ == (PlaybackView { state: PlaybackStateView::Stopped, ..old(self)@ }),
    {
        self.state = PlaybackState::Stopped;
    }
}


/// Stopping and playing again plays the same stretch again: whatever the
/// transport was doing, a stop returns to the start point, and the play
/// after it starts there, as long as the mix still reaches it.
pub proof fn stopping_and_playing_again_plays_the_same_stretch(p: PlaybackView, length: int)
    requires
        !(p.state is Stopped),
        0 <= p.start_point < length,
    ensures
        after_stop(p, length).playhead == p.start_point,
        play_orders(after_stop(p, length), length) == seq![
            TransportOrder::Start { at: Samples(p.start_point as i64) },
        ],
        after_play(after_stop(p, length), length).start_point == p.start_point,
{
}

/// A click on the ruler while a transport runs makes the clicked frame the
/// one a stop returns to, as long as the mix reaches it.
pub proof fn a_click_on_the_ruler_is_where_a_stop_returns(p: PlaybackView, at: int, length: int)
    requires
        !(p.state is Stopped),
        at <= length,
    ensures
        after_stop(after_click(p, at), length).playhead == at,
        after_stop(after_click(p, at), length).start_point == at,
{
}

/// A click on the ruler moves a running transport to the clicked frame: a
/// transport that is playing is told to seek there and plays on, one that
/// is paused is told to seek there and stays paused, and one that has played
/// the mix out is told to seek there and is then paused. A transport that
/// is stopped or has failed is told nothing. Either way the playhead and the
/// start point are the clicked frame.
pub proof fn a_click_on_the_ruler_moves_a_running_transport_there(p: PlaybackView, at: Samples)
    ensures
        p.state is Playing ==> click_orders(p, at) == seq![TransportOrder::Seek { at }]
            && after_click(p, at.0 as int).state is Playing,
        p.state is Paused ==> click_orders(p, at) == seq![TransportOrder::Seek { at }]
            && after_click(p, at.0 as int).state is Paused,
        p.state is Ended ==> click_orders(p, at) == seq![TransportOrder::Seek { at }]
            && after_click(p, at.0 as int).state is Paused,
        (p.state is Stopped || p.state is Failed) ==> click_orders(p, at).len() == 0
            && after_click(p, at.0 as int).state == p.state,
        after_click(p, at.0 as int).playhead == at.0,
        after_click(p, at.0 as int).start_point == at.0,
{
}

/// A pause and a play resume where the transport was held, with the
/// playhead and the start point left alone.
pub proof fn a_pause_is_resumed_not_started_over(p: PlaybackView, length: int)
    requires
        p.state is Playing,
    ensures
        play_orders(after_pause(p), length) == seq![TransportOrder::Resume],
        after_play(after_pause(p), length) == p,
{
}

/// Playing always leaves the transport playing, and a transport started
/// afresh starts within the mix when its playhead lies in it or past it.
pub proof fn playing_leads_to_playing(p: PlaybackView, length: int)
    ensures
        after_play(p, length).state is Playing,
        (p.state is Stopped && 0 <= p.playhead && 0 < length) ==> 0 <= after_play(
            p,
            length,
        ).playhead < length,
{
}


/// What the status line says the transport is doing: the word for its
/// state, with the message of a transport that stopped on one, and
/// `Stopped` where no transport runs.
pub open spec fn transport_words_of(state: Option<TransportState>) -> Seq<char> {
    match state {
        None => "Stopped"@,
        Some(TransportState::Buffering) => "Buffering"@,
        Some(TransportState::Playing) => "Playing"@,
        Some(TransportState::Paused) => "Paused"@,
        Some(TransportState::Ended) => "Ended"@,
        Some(TransportState::Failed(problem)) => "Stopped: "@ + problem@,
    }
}

/// What the status line says the transport is doing, as
/// [`transport_words_of`] says.
pub fn transport_words(state: Option<&TransportState>) -> (r: String)
    ensures
        r@ == transport_words_of(match state {
            Some(s) => Some(*s),
            None => None,
        }),
{
    match state {
        None => owned("Stopped"),
        Some(TransportState::Buffering) => owned("Buffering"),
        Some(TransportState::Playing) => owned("Playing"),
        Some(TransportState::Paused) => owned("Paused"),
        Some(TransportState::Ended) => owned("Ended"),
        Some(TransportState::Failed(problem)) => joined("Stopped: ", problem.as_str()),
    }
}

}
