//! What passes between the controller and its surroundings.
//!
//! The controller asks for one thing at a time (a `Request`), is told the
//! answer (an `Event`), and reacts with at most one command to the audio
//! output and at most one notice for the log (an `Outcome`).

use crate::playlist::AssetProbe;
use crate::playlist::AssetProbeView;
use vstd::prelude::*;

verus! {

/// How an attempt to start playing a file went.
#[derive(Debug, Clone, Copy, PartialEq, Eq)]
pub enum StartOutcome {
    /// The audio output holds a new handle, which is playing.
    Playing,
    /// The file could not be opened.
    Unreadable,
    /// The audio output did not accept the file.
    Refused,
}

/// A command to the audio output about the handle it holds.
#[derive(Debug, Clone, Copy, PartialEq, Eq)]
pub enum Command {
    /// Stop playing and let go of the handle.
    Stop,
    /// Suspend playing; the handle stays.
    Pause,
    /// Go on playing after a pause.
    Resume,
}

/// What the controller wants done next, and to be told the result of.
#[derive(Debug, PartialEq, Eq)]
pub enum Request {
    /// Wait for the next cycle, then try once to read a card.
    Poll,
    /// Look at what the file system holds at `path`, which the card with
    /// identifier `card` stands for.
    Probe { card: String, path: String },
    /// Ask the live handle whether it has run out of audio.
    CheckFinished,
    /// Open the file at `path` and start playing it.
    Start { path: String },
}

/// A `Request` as mathematical values.
pub enum RequestView {
    Poll,
    Probe { card: Seq<char>, path: Seq<char> },
    CheckFinished,
    Start { path: Seq<char> },
}

impl View for Request {
    type V = RequestView;

    open spec fn view(&self) -> RequestView {
        match self {
            Request::Poll => RequestView::Poll,
            Request::Probe { card, path } => RequestView::Probe { card: card@, path: path@ },
            Request::CheckFinished => RequestView::CheckFinished,
            Request::Start { path } => RequestView::Start { path: path@ },
        }
    }
}

/// The answer to a `Request`.
#[derive(Debug, PartialEq, Eq)]
pub enum Event {
    /// Answers `Poll`: the serial number of the card that was read, or
    /// nothing if none was read, for whatever reason.
    Card(Option<Vec<u8>>),
    /// Answers `Probe`.
    Asset(AssetProbe),
    /// Answers `CheckFinished`: whether the handle has run out of audio.
    Finished(bool),
    /// Answers `Start`.
    Started(StartOutcome),
}

/// An `Event` as mathematical values.
pub enum EventView {
    Card(Option<Seq<u8>>),
    Asset(AssetProbeView),
    Finished(bool),
    Started(StartOutcome),
}

impl View for Event {
    type V = EventView;

    open spec fn view(&self) -> EventView {
        match self {
            Event::Card(Some(uid)) => EventView::Card(Some(uid@)),
            Event::Card(None) => EventView::Card(None),
            Event::Asset(probe) => EventView::Asset(probe@),
            Event::Finished(drained) => EventView::Finished(*drained),
            Event::Started(outcome) => EventView::Started(*outcome),
        }
    }
}

/// Something worth a line in the log.
#[derive(Debug, PartialEq, Eq)]
pub enum Notice {
    /// A card was read and its playlist built.
    CardRecognized { card: String },
    /// A file has started playing.
    AssetStarted { path: String },
    /// A card was read that the mapping has no entry for.
    CardUnmapped { card: String },
    /// The path that a card stands for does not exist.
    AssetMissing { card: String, path: String },
    /// A directory could not be listed, or a file could not be opened.
    AssetUnreadable { path: String },
    /// The audio output did not accept a file.
    PlaybackStartFailure { path: String },
}

/// A `Notice` as mathematical values.
pub enum NoticeView {
    CardRecognized { card: Seq<char> },
    AssetStarted { path: Seq<char> },
    CardUnmapped { card: Seq<char> },
    AssetMissing { card: Seq<char>, path: Seq<char> },
    AssetUnreadable { path: Seq<char> },
    PlaybackStartFailure { path: Seq<char> },
}

impl View for Notice {
    type V = NoticeView;

    open spec fn view(&self) -> NoticeView {
        match self {
            Notice::CardRecognized { card } => NoticeView::CardRecognized { card: card@ },
            Notice::AssetStarted { path } => NoticeView::AssetStarted { path: path@ },
            Notice::CardUnmapped { card } => NoticeView::CardUnmapped { card: card@ },
            Notice::AssetMissing { card, path } => NoticeView::AssetMissing {
                card: card@,
                path: path@,
            },
            Notice::AssetUnreadable { path } => NoticeView::AssetUnreadable { path: path@ },
            Notice::PlaybackStartFailure { path } => NoticeView::PlaybackStartFailure {
                path: path@,
            },
        }
    }
}

/// The controller's reaction to one event.
#[derive(Debug, PartialEq, Eq)]
pub struct Outcome {
    /// What the audio output is to do with its handle, if anything.
    pub command: Option<Command>,
    /// What the log is to say, if anything.
    pub notice: Option<Notice>,
}

/// An `Outcome` as mathematical values.
pub struct OutcomeView {
    pub command: Option<Command>,
    pub notice: Option<NoticeView>,
}

impl View for Outcome {
    type V = OutcomeView;

    open spec fn view(&self) -> OutcomeView {
        OutcomeView {
            command: self.command,
            notice: match self.notice {
                Some(notice) => Some(notice@),
                None => None,
            },
        }
    }
}

} // verus!
