//! The controller: the playback state machine in executable form.
//!
//! The program around it runs the loop. It carries out the pending request,
//! hands the answer to `Controller::step`, passes the command in the outcome
//! to the audio output and the notice to the log, and goes on with the
//! request that is pending then.

use crate::card::card_identifier;
use crate::events::Command;
use crate::events::Event;
use crate::events::Notice;
use crate::events::Outcome;
use crate::events::Request;
use crate::events::RequestView;
use crate::events::StartOutcome;
use crate::machine::on_asset;
use crate::machine::on_card;
use crate::machine::on_finished;
use crate::machine::on_started;
use crate::machine::SessionView;
use crate::machine::State;
use crate::machine::transition;
use crate::mapping::FileMapper;
use crate::mapping::MapperView;
use crate::playlist::AssetError;
use crate::playlist::AssetProbe;
use crate::playlist::PlayList;
use vstd::prelude::*;

verus! {

/// The time between two polls of the card reader, in milliseconds.
pub const POLL_INTERVAL_MS: u64 = 1000;

/// The handle that the audio output holds, as the controller knows it.
pub struct PlaybackSession {
    asset: String,
    paused: bool,
}

impl View for PlaybackSession {
    type V = SessionView;

    closed spec fn view(&self) -> SessionView {
        SessionView { asset: self.asset@, paused: self.paused }
    }
}

impl PlaybackSession {
    /// The path of the file that the handle plays.
    pub fn asset(&self) -> (path: &str)
        ensures
            path@ == self@.asset,
    {
        self.asset.as_str()
    }

    /// Whether playing is suspended.
    pub fn is_paused(&self) -> (paused: bool)
        ensures
            paused == self@.paused,
    {
        self.paused
    }
}

/// The playback controller: the mapper it resolves cards with, and the
/// state it carries from one event to the next.
pub struct Controller {
    mapper: FileMapper,
    identified: Option<String>,
    playlist: PlayList,
    session: Option<PlaybackSession>,
    absences: u32,
    pending: Request,
}

impl View for Controller {
    type V = State;

    closed spec fn view(&self) -> State {
        State {
            identified: match self.identified {
                Some(id) => Some(id@),
                None => None,
            },
            songs: self.playlist.songs(),
            cursor: self.playlist.cursor(),
            session: match self.session {
                Some(session) => Some(session@),
                None => None,
            },
            absences: self.absences as nat,
            pending: self.pending@,
        }
    }
}

impl Controller {
    /// The mapper that cards are resolved with. It never changes.
    pub closed spec fn mapper(&self) -> MapperView {
        self.mapper@
    }

    /// Every controller is in a well-formed state.
    #[verifier::type_invariant]
    pub open spec fn inv(&self) -> bool {
        self@.wf(self.mapper())
    }

    /// A controller that has seen no card yet and waits for the first poll.
    pub fn new(mapper: FileMapper) -> (c: Controller)
        ensures
            c@ == State::initial(),
            c.mapper() == mapper@,
            c.inv(),
    {
        Controller {
            mapper,
            identified: None,
            playlist: PlayList::empty(),
            session: None,
            absences: 0,
            pending: Request::Poll,
        }
    }

    /// The request whose answer the controller waits for.
    pub fn pending(&self) -> (request: &Request)
        ensures
            request@ == self@.pending,
    {
        &self.pending
    }

    /// The playlist of the identified card.
    pub fn playlist(&self) -> (playlist: &PlayList)
        ensures
            playlist.songs() == self@.songs,
            playlist.cursor() == self@.cursor,
    {
        &self.playlist
    }

    /// The live handle, if there is one.
    pub fn session(&self) -> (session: Option<&PlaybackSession>)
        ensures
            session is Some == self@.session is Some,
            session matches Some(held) ==> Some(held@) == self@.session,
    {
        self.session.as_ref()
    }

    /// The identifier of the card believed to lie on the reader.
    pub fn currently_identified(&self) -> (card: Option<&str>)
        ensures
            card is Some == self@.identified is Some,
            card matches Some(id) ==> Some(id@) == self@.identified,
    {
        match &self.identified {
            Some(id) => Some(id.as_str()),
            None => None,
        }
    }

    /// The number of polls in a row that read no card.
    pub fn consecutive_absences(&self) -> (absences: u32)
        ensures
            absences == self@.absences,
    {
        self.absences
    }

    /// Takes the answer to the pending request and returns what is to be
    /// done about it. The state changes as `transition` says, and so does
    /// the pending request; an event that does not answer it is ignored.
    pub fn step(&mut self, event: Event) -> (out: Outcome)
        ensures
            (final(self)@, out@) == transition(old(self).mapper(), old(self)@, event@),
            final(self).mapper() == old(self).mapper(),
            final(self).inv(),
    {
        proof {
            use_type_invariant(&*self);
        }
        match event {
            Event::Card(card) => {
                if let Request::Poll = &self.pending {
                    return self.card_polled(card);
                }
            },
            Event::Asset(probe) => {
                if let Request::Probe { card, path } = &self.pending {
                    let card = card.clone();
                    let path = path.clone();
                    return self.asset_probed(card, path, probe);
                }
            },
            Event::Finished(drained) => {
                if let Request::CheckFinished = &self.pending {
                    return self.finish_checked(drained);
                }
            },
            Event::Started(outcome) => {
                if let Request::Start { path } = &self.pending {
                    let path = path.clone();
                    return self.start_tried(path, outcome);
                }
            },
        }
        Outcome { command: None, notice: None }
    }

    fn card_polled(&mut self, card: Option<Vec<u8>>) -> (out: Outcome)
        requires
            old(self)@.pending is Poll,
        ensures
            (final(self)@, out@) == on_card(
                old(self).mapper(),
                old(self)@,
                match card {
                    Some(uid) => Some(uid@),
                    None => None,
                },
            ),
            final(self).mapper() == old(self).mapper(),
            final(self).inv(),
    {
        proof {
            use_type_invariant(&*self);
        }
        match card {
            None => {
                if self.absences < u32::MAX {
                    self.absences += 1;
                }
                self.settle();
                Outcome { command: None, notice: None }
            },
            Some(uid) => {
                let id = card_identifier(uid.as_slice());
                let known = match &self.identified {
                    Some(identified) => *identified == id,
                    None => false,
                };
                let earlier: u32 = self.absences;
                self.absences = 0;
                if known && !self.playlist.done() {
                    let toggled = match &self.session {
                        Some(session) if earlier >= 2 => Some(
                            PlaybackSession { asset: session.asset.clone(), paused: !session.paused },
                        ),
                        _ => None,
                    };
                    let command = match toggled {
                        Some(session) => {
                            let command = if session.paused {
                                Command::Pause
                            } else {
                                Command::Resume
                            };
                            self.session = Some(session);
                            Some(command)
                        },
                        None => None,
                    };
                    self.settle();
                    Outcome { command, notice: None }
                } else {
                    let command = if self.session.is_some() {
                        Some(Command::Stop)
                    } else {
                        None
                    };
                    self.session = None;
                    match self.mapper.get_file(id.as_str()) {
                        None => Outcome { command, notice: Some(Notice::CardUnmapped { card: id }) },
                        Some(path) => {
                            self.pending = Request::Probe { card: id, path };
                            Outcome { command, notice: None }
                        },
                    }
                }
            },
        }
    }

    fn asset_probed(&mut self, card: String, path: String, probe: AssetProbe) -> (out: Outcome)
        requires
            old(self)@.pending == (RequestView::Probe { card: card@, path: path@ }),
        ensures
            (final(self)@, out@) == on_asset(old(self)@, card@, path@, probe@),
            final(self).mapper() == old(self).mapper(),
            final(self).inv(),
    {
        proof {
            use_type_invariant(&*self);
        }
        let playlist = match PlayList::build(path.as_str(), probe) {
            Ok(playlist) => playlist,
            Err(AssetError::Missing) => {
                self.pending = Request::Poll;
                return Outcome { command: None, notice: Some(Notice::AssetMissing { card, path }) };
            },
            Err(AssetError::Unreadable) => {
                self.pending = Request::Poll;
                return Outcome { command: None, notice: Some(Notice::AssetUnreadable { path }) };
            },
        };
        self.playlist = playlist;
        self.identified = Some(card.clone());
        self.start_if_idle();
        Outcome { command: None, notice: Some(Notice::CardRecognized { card }) }
    }

    fn finish_checked(&mut self, drained: bool) -> (out: Outcome)
        requires
            old(self)@.pending is CheckFinished,
        ensures
            (final(self)@, out@) == on_finished(old(self)@, drained),
            final(self).mapper() == old(self).mapper(),
            final(self).inv(),
    {
        proof {
            use_type_invariant(&*self);
        }
        self.pending = Request::Poll;
        if drained {
            self.session = None;
            // The playlist is taken out for the call, so that the controller
            // is whole whatever the call does.
            let mut playlist = PlayList::empty();
            core::mem::swap(&mut self.playlist, &mut playlist);
            playlist.advance();
            self.playlist = playlist;
            self.start_if_idle();
            Outcome { command: Some(Command::Stop), notice: None }
        } else {
            Outcome { command: None, notice: None }
        }
    }

    fn start_tried(&mut self, path: String, outcome: StartOutcome) -> (out: Outcome)
        requires
            old(self)@.pending == (RequestView::Start { path: path@ }),
        ensures
            (final(self)@, out@) == on_started(old(self)@, path@, outcome),
            final(self).mapper() == old(self).mapper(),
            final(self).inv(),
    {
        proof {
            use_type_invariant(&*self);
        }
        self.pending = Request::Poll;
        match outcome {
            StartOutcome::Playing => {
                self.session = Some(PlaybackSession { asset: path.clone(), paused: false });
                Outcome { command: None, notice: Some(Notice::AssetStarted { path }) }
            },
            StartOutcome::Unreadable => Outcome {
                command: None,
                notice: Some(Notice::AssetUnreadable { path }),
            },
            StartOutcome::Refused => Outcome {
                command: None,
                notice: Some(Notice::PlaybackStartFailure { path }),
            },
        }
    }

    fn start_if_idle(&mut self)
        ensures
            final(self)@ == old(self)@.start_if_idle(),
            final(self).mapper() == old(self).mapper(),
            final(self).inv(),
    {
        proof {
            use_type_invariant(&*self);
        }
        let next = match self.playlist.current_song() {
            Some(path) => {
                if self.session.is_none() {
                    Some(path.to_owned())
                } else {
                    None
                }
            },
            None => None,
        };
        self.pending =
        match next {
            Some(path) => Request::Start { path },
            None => Request::Poll,
        };
    }

    fn settle(&mut self)
        ensures
            final(self)@ == old(self)@.settle(),
            final(self).mapper() == old(self).mapper(),
            final(self).inv(),
    {
        proof {
            use_type_invariant(&*self);
        }
        if self.session.is_some() {
            self.pending = Request::CheckFinished;
        } else {
            self.start_if_idle();
        }
    }
}

} // verus!
