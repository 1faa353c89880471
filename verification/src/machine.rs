//! The playback state machine, as mathematics.
//!
//! A `State` is what the controller carries from one event to the next;
//! `transition` says how an event changes it and what the controller orders
//! in reaction. One cycle of the player is a poll of the card reader and the
//! questions that follow from it, until the next poll is due.

use crate::card::hex_text;
use crate::events::Command;
use crate::events::EventView;
use crate::events::NoticeView;
use crate::events::OutcomeView;
use crate::events::RequestView;
use crate::events::StartOutcome;
use crate::mapping::MapperView;
use crate::order::sorted_paths;
use crate::playlist::AssetError;
use crate::playlist::AssetProbeView;
use crate::playlist::built;
use vstd::prelude::*;

verus! {

/// The handle that the audio output holds, as the controller knows it.
pub struct SessionView {
    /// The path of the file that the handle plays.
    pub asset: Seq<char>,
    /// Whether playing is suspended.
    pub paused: bool,
}

/// The state of the controller.
pub struct State {
    /// The card believed to lie on the reader. A cycle without a card does
    /// not clear it.
    pub identified: Option<Seq<char>>,
    /// The paths of the playlist, in playing order.
    pub songs: Seq<Seq<char>>,
    /// The position in `songs` of the file that is playing or due next.
    pub cursor: nat,
    /// The live handle, if there is one.
    pub session: Option<SessionView>,
    /// The number of polls in a row that read no card, up to `u32::MAX`.
    pub absences: nat,
    /// The request whose answer the controller waits for.
    pub pending: RequestView,
}

/// One more absence, unless the count has reached `u32::MAX`, where it stays.
pub open spec fn bump(absences: nat) -> nat {
    if absences < u32::MAX {
        absences + 1
    } else {
        absences
    }
}

/// An outcome without command or notice.
pub open spec fn quiet() -> OutcomeView {
    OutcomeView { command: None, notice: None }
}

impl State {
    /// The state before the first poll: no card seen, nothing to play.
    pub open spec fn initial() -> State {
        State {
            identified: None,
            songs: Seq::empty(),
            cursor: 0,
            session: None,
            absences: 0,
            pending: RequestView::Poll,
        }
    }

    /// Whether the playlist is exhausted.
    pub open spec fn done(self) -> bool {
        self.cursor >= self.songs.len()
    }

    /// The path under the cursor, if the playlist is not exhausted.
    pub open spec fn current(self) -> Option<Seq<char>> {
        if self.done() {
            None
        } else {
            Some(self.songs[self.cursor as int])
        }
    }

    /// Whether a card with identifier `id` counts as the card that was there
    /// before: it is the identified one, and its playlist is not exhausted.
    pub open spec fn holds(self, id: Seq<char>) -> bool {
        self.identified == Some(id) && !self.done()
    }

    /// What holds of every state that the controller reaches, with the
    /// mapper `m`.
    ///
    /// The handle, if there is one, plays the file under the cursor. A start
    /// is pending only while no handle is held, so there are never two.
    pub open spec fn wf(self, m: MapperView) -> bool {
        &&& self.cursor <= self.songs.len()
        &&& sorted_paths(self.songs)
        &&& self.absences <= u32::MAX
        &&& (self.identified matches Some(id) ==> m.mapping.contains_key(id))
        &&& (self.session matches Some(session) ==> self.current() == Some(session.asset))
        &&& match self.pending {
            RequestView::Poll => true,
            RequestView::Probe { card, path } => self.session is None && m.locate(card) == Some(
                path,
            ),
            RequestView::CheckFinished => self.session is Some,
            RequestView::Start { path } => self.session is None && self.current() == Some(path),
        }
    }

    /// The state with the request that closes a cycle: to start the file
    /// under the cursor if no handle is held and the playlist is not
    /// exhausted, else to poll again.
    pub open spec fn start_if_idle(self) -> State {
        match self.current() {
            Some(path) if self.session is None => State {
                pending: RequestView::Start { path },
                ..self
            },
            _ => State { pending: RequestView::Poll, ..self },
        }
    }

    /// The state with the request that follows the handling of the card: to
    /// ask a live handle whether it has finished, else as `start_if_idle`.
    pub open spec fn settle(self) -> State {
        if self.session is Some {
            State { pending: RequestView::CheckFinished, ..self }
        } else {
            self.start_if_idle()
        }
    }
}

/// The reaction to the answer of a poll.
///
/// No card: the absence is counted. The card that was there before: a live
/// handle is paused or resumed if at least two polls in a row had read no
/// card; one missed poll changes nothing. Any other card: a live handle is
/// stopped, and the card's path is looked up; without an entry the cycle
/// ends with a notice, with one the path is to be probed. The count of
/// absences starts anew with every card.
pub open spec fn on_card(m: MapperView, s: State, card: Option<Seq<u8>>) -> (State, OutcomeView) {
    match card {
        None => (State { absences: bump(s.absences), ..s }.settle(), quiet()),
        Some(uid) => {
            let id = hex_text(uid);
            if s.holds(id) {
                match s.session {
                    Some(session) if s.absences >= 2 => (
                        State {
                            absences: 0,
                            session: Some(SessionView { paused: !session.paused, ..session }),
                            ..s
                        }.settle(),
                        OutcomeView {
                            command: Some(
                                if session.paused {
                                    Command::Resume
                                } else {
                                    Command::Pause
                                },
                            ),
                            notice: None,
                        },
                    ),
                    _ => (State { absences: 0, ..s }.settle(), quiet()),
                }
            } else {
                let command = if s.session is Some {
                    Some(Command::Stop)
                } else {
                    None
                };
                match m.locate(id) {
                    None => (
                        State { absences: 0, session: None, pending: RequestView::Poll, ..s },
                        OutcomeView {
                            command,
                            notice: Some(NoticeView::CardUnmapped { card: id }),
                        },
                    ),
                    Some(path) => (
                        State {
                            absences: 0,
                            session: None,
                            pending: RequestView::Probe { card: id, path },
                            ..s
                        },
                        OutcomeView { command, notice: None },
                    ),
                }
            }
        },
    }
}

/// The reaction to what the file system holds at `path`, which the card
/// `card` stands for.
///
/// Where a playlist can be built, it replaces the old one, with the cursor
/// on its first path, and the card becomes the identified one. Where none
/// can, the cycle ends with a notice and nothing else changes.
pub open spec fn on_asset(s: State, card: Seq<char>, path: Seq<char>, probe: AssetProbeView) -> (
    State,
    OutcomeView,
) {
    match built(path, probe) {
        Err(AssetError::Missing) => (
            State { pending: RequestView::Poll, ..s },
            OutcomeView { command: None, notice: Some(NoticeView::AssetMissing { card, path }) },
        ),
        Err(AssetError::Unreadable) => (
            State { pending: RequestView::Poll, ..s },
            OutcomeView { command: None, notice: Some(NoticeView::AssetUnreadable { path }) },
        ),
        Ok(songs) => (
            State { identified: Some(card), songs, cursor: 0, ..s }.start_if_idle(),
            OutcomeView { command: None, notice: Some(NoticeView::CardRecognized { card }) },
        ),
    }
}

/// The reaction to what the live handle says of itself.
///
/// A handle that has run out of audio is let go of, and the cursor moves on
/// by one; a handle that has not stays as it is.
pub open spec fn on_finished(s: State, drained: bool) -> (State, OutcomeView) {
    if drained {
        (
            State { session: None, cursor: s.cursor + 1, ..s }.start_if_idle(),
            OutcomeView { command: Some(Command::Stop), notice: None },
        )
    } else {
        (State { pending: RequestView::Poll, ..s }, quiet())
    }
}

/// The reaction to the result of starting the file at `path`.
///
/// On success a handle is held, which plays `path` and is not paused. On
/// failure none is held and the cursor stays, so the next cycle tries again.
pub open spec fn on_started(s: State, path: Seq<char>, outcome: StartOutcome) -> (
    State,
    OutcomeView,
) {
    match outcome {
        StartOutcome::Playing => (
            State {
                session: Some(SessionView { asset: path, paused: false }),
                pending: RequestView::Poll,
                ..s
            },
            OutcomeView { command: None, notice: Some(NoticeView::AssetStarted { path }) },
        ),
        StartOutcome::Unreadable => (
            State { pending: RequestView::Poll, ..s },
            OutcomeView { command: None, notice: Some(NoticeView::AssetUnreadable { path }) },
        ),
        StartOutcome::Refused => (
            State { pending: RequestView::Poll, ..s },
            OutcomeView {
                command: None,
                notice: Some(NoticeView::PlaybackStartFailure { path }),
            },
        ),
    }
}

/// The next state and the outcome, for a state and an event. An event that
/// does not answer the pending request changes nothing.
pub open spec fn transition(m: MapperView, s: State, e: EventView) -> (State, OutcomeView) {
    match (s.pending, e) {
        (RequestView::Poll, EventView::Card(card)) => on_card(m, s, card),
        (RequestView::Probe { card, path }, EventView::Asset(probe)) => on_asset(
            s,
            card,
            path,
            probe,
        ),
        (RequestView::CheckFinished, EventView::Finished(drained)) => on_finished(s, drained),
        (RequestView::Start { path }, EventView::Started(outcome)) => on_started(
            s,
            path,
            outcome,
        ),
        _ => (s, quiet()),
    }
}

} // verus!
