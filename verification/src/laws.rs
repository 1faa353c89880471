//! What holds of the playback state machine, whatever the cards, the file
//! system and the audio output do.
//!
//! The laws speak of `transition`, which `Controller::step` implements, and
//! of whole cycles: a poll and the questions that follow from it.

use crate::card::hex_text;
use crate::events::Command;
use crate::events::EventView;
use crate::events::NoticeView;
use crate::events::OutcomeView;
use crate::events::RequestView;
use crate::events::StartOutcome;
use crate::machine::bump;
use crate::machine::SessionView;
use crate::machine::State;
use crate::machine::transition;
use crate::mapping::MapperView;
use crate::playlist::AssetProbeView;
use crate::playlist::built;
use crate::playlist::lemma_built_sorted;
use vstd::prelude::*;

verus! {

/// What the surroundings would answer in one cycle, to each request that the
/// controller may make in it.
pub struct Answers {
    /// The card that the poll reads, if any.
    pub card: Option<Seq<u8>>,
    /// What the file system holds at the path that is probed.
    pub asset: AssetProbeView,
    /// Whether the live handle has run out of audio.
    pub drained: bool,
    /// How starting a file goes.
    pub start: StartOutcome,
}

/// The event that answers `pending`.
pub open spec fn answer(pending: RequestView, a: Answers) -> EventView {
    match pending {
        RequestView::Poll => EventView::Card(a.card),
        RequestView::Probe { .. } => EventView::Asset(a.asset),
        RequestView::CheckFinished => EventView::Finished(a.drained),
        RequestView::Start { .. } => EventView::Started(a.start),
    }
}

/// The state after the pending request is answered, unless the cycle is
/// over, which it is when the next poll is pending.
pub open spec fn proceed(m: MapperView, s: State, a: Answers) -> State {
    if s.pending is Poll {
        s
    } else {
        transition(m, s, answer(s.pending, a)).0
    }
}

/// The state after one cycle: the poll is answered, and then the requests
/// that follow from it, until the next poll is pending.
pub open spec fn cycle(m: MapperView, s: State, a: Answers) -> State {
    proceed(m, proceed(m, transition(m, s, EventView::Card(a.card)).0, a), a)
}

/// The state after the given cycles, one after the other.
pub open spec fn run(m: MapperView, s: State, cycles: Seq<Answers>) -> State
    decreases cycles.len(),
{
    if cycles.len() == 0 {
        s
    } else {
        cycle(m, run(m, s, cycles.drop_last()), cycles.last())
    }
}

/// The state after the given events, one after the other.
pub open spec fn after(m: MapperView, s: State, events: Seq<EventView>) -> State
    decreases events.len(),
{
    if events.len() == 0 {
        s
    } else {
        transition(m, after(m, s, events.drop_last()), events.last()).0
    }
}

/// The state before the first poll is well-formed.
pub proof fn lemma_initial_wf(m: MapperView)
    ensures
        State::initial().wf(m),
{
}

/// Every event leads from a well-formed state to a well-formed state.
pub proof fn lemma_transition_wf(m: MapperView, s: State, e: EventView)
    requires
        s.wf(m),
    ensures
        transition(m, s, e).0.wf(m),
{
    if let (RequestView::Probe { path, .. }, EventView::Asset(probe)) = (s.pending, e) {
        lemma_built_sorted(path, probe);
    }
}

/// Whatever events arrive, in whatever order, the controller that starts in
/// the initial state is in a well-formed state after them.
pub proof fn law_always_wf(m: MapperView, events: Seq<EventView>)
    ensures
        after(m, State::initial(), events).wf(m),
    decreases events.len(),
{
    if events.len() > 0 {
        law_always_wf(m, events.drop_last());
        lemma_transition_wf(m, after(m, State::initial(), events.drop_last()), events.last());
    }
}

/// A cycle that starts with the poll pending ends with the next poll
/// pending, in a well-formed state.
pub proof fn lemma_cycle_wf(m: MapperView, s: State, a: Answers)
    requires
        s.wf(m),
        s.pending is Poll,
    ensures
        cycle(m, s, a).wf(m),
        cycle(m, s, a).pending is Poll,
{
    let s1 = transition(m, s, EventView::Card(a.card)).0;
    lemma_transition_wf(m, s, EventView::Card(a.card));
    if !(s1.pending is Poll) {
        lemma_transition_wf(m, s1, answer(s1.pending, a));
        let s2 = proceed(m, s1, a);
        if !(s2.pending is Poll) {
            lemma_transition_wf(m, s2, answer(s2.pending, a));
        }
    }
}

/// Any number of cycles that start with the poll pending end with the next
/// poll pending, in a well-formed state.
pub proof fn lemma_run_wf(m: MapperView, s: State, cycles: Seq<Answers>)
    requires
        s.wf(m),
        s.pending is Poll,
    ensures
        run(m, s, cycles).wf(m),
        run(m, s, cycles).pending is Poll,
    decreases cycles.len(),
{
    if cycles.len() > 0 {
        lemma_run_wf(m, s, cycles.drop_last());
        lemma_cycle_wf(m, run(m, s, cycles.drop_last()), cycles.last());
    }
}

/// There is at most one handle. A start is requested only while none is
/// held. No event replaces a handle by another: a handle appears only where
/// none was, as the answer to a start, and disappears only together with
/// the command to stop it; that command is given for no other reason.
pub proof fn law_one_handle(m: MapperView, s: State, e: EventView)
    requires
        s.wf(m),
    ensures
        ({
            let (t, out) = transition(m, s, e);
            &&& t.pending is Start ==> t.session is None
            &&& s.session is Some && t.session is Some ==> t.session->0.asset
                == s.session->0.asset
            &&& s.session is None && t.session is Some ==> s.pending is Start && e
                == EventView::Started(StartOutcome::Playing)
            &&& out.command == Some(Command::Stop) <==> s.session is Some && t.session is None
            &&& out.command is Some && out.command != Some(Command::Stop) ==> s.session is Some
                && t.session is Some
        }),
{
    lemma_transition_wf(m, s, e);
}

/// The command to pause or to resume is given exactly when the handle's
/// pause state changes, and says which way it changed.
pub proof fn law_toggle_is_commanded(m: MapperView, s: State, e: EventView)
    requires
        s.wf(m),
        s.session is Some,
    ensures
        ({
            let (t, out) = transition(m, s, e);
            let before = s.session->0.paused;
            &&& out.command == Some(Command::Pause) <==> t.session is Some && !before
                && t.session->0.paused
            &&& out.command == Some(Command::Resume) <==> t.session is Some && before
                && !t.session->0.paused
        }),
{
}

/// While the same card is read cycle after cycle and the handle has not run
/// out of audio, the handle goes on playing the same file, and the playlist
/// and its cursor stay as they are.
pub proof fn law_identity_stable(m: MapperView, s: State, uid: Seq<u8>, cycles: Seq<Answers>)
    requires
        s.wf(m),
        s.pending is Poll,
        s.identified == Some(hex_text(uid)),
        s.session is Some,
        forall|i: int|
            0 <= i < cycles.len() ==> (#[trigger] cycles[i]).card == Some(uid) && !cycles[i].drained,
    ensures
        run(m, s, cycles).session is Some,
        run(m, s, cycles).session->0.asset == s.session->0.asset,
        run(m, s, cycles).identified == s.identified,
        run(m, s, cycles).songs == s.songs,
        run(m, s, cycles).cursor == s.cursor,
    decreases cycles.len(),
{
    if cycles.len() > 0 {
        let earlier = cycles.drop_last();
        assert forall|i: int| 0 <= i < earlier.len() implies (#[trigger] earlier[i]).card == Some(
            uid,
        ) && !earlier[i].drained by {
            assert(earlier[i] == cycles[i]);
        }
        law_identity_stable(m, s, uid, earlier);
        lemma_run_wf(m, s, earlier);
        assert(cycles.last() == cycles[cycles.len() - 1]);
    }
}

/// A cycle that reads no card, while a handle is held that has not run out
/// of audio, counts the absence and changes nothing else.
pub proof fn lemma_absent_cycle(m: MapperView, s: State, a: Answers)
    requires
        s.wf(m),
        s.pending is Poll,
        s.session is Some,
        a.card is None,
        !a.drained,
    ensures
        cycle(m, s, a) == (State { absences: bump(s.absences), ..s }),
{
}

/// Cycles that read no card, while a handle is held that has not run out of
/// audio, count the absences and change nothing else.
pub proof fn lemma_absent_cycles(m: MapperView, s: State, cycles: Seq<Answers>)
    requires
        s.wf(m),
        s.pending is Poll,
        s.session is Some,
        forall|i: int|
            0 <= i < cycles.len() ==> (#[trigger] cycles[i]).card is None && !cycles[i].drained,
    ensures
        run(m, s, cycles) == (State {
            absences: if s.absences + cycles.len() <= u32::MAX {
                s.absences + cycles.len()
            } else {
                u32::MAX as nat
            },
            ..s
        }),
    decreases cycles.len(),
{
    if cycles.len() > 0 {
        let earlier = cycles.drop_last();
        assert forall|i: int| 0 <= i < earlier.len() implies (#[trigger] earlier[i]).card is None
            && !earlier[i].drained by {
            assert(earlier[i] == cycles[i]);
        }
        lemma_absent_cycles(m, s, earlier);
        lemma_run_wf(m, s, earlier);
        assert(cycles.last() == cycles[cycles.len() - 1]);
        lemma_absent_cycle(m, run(m, s, earlier), cycles.last());
    }
}

/// The debounce threshold. A card is read, then not read for some cycles,
/// then read again, while its handle has not run out of audio. If one
/// cycle missed the card, or none, the handle's pause state is as before. If
/// two or more did, it has changed, once: a paused handle plays, a playing
/// handle is paused.
pub proof fn law_debounce(
    m: MapperView,
    s: State,
    uid: Seq<u8>,
    absent: Seq<Answers>,
    back: Answers,
)
    requires
        s.wf(m),
        s.pending is Poll,
        s.identified == Some(hex_text(uid)),
        s.session is Some,
        s.absences == 0,
        forall|i: int|
            0 <= i < absent.len() ==> (#[trigger] absent[i]).card is None && !absent[i].drained,
        back.card == Some(uid),
        !back.drained,
    ensures
        ({
            let t = cycle(m, run(m, s, absent), back);
            &&& t.session is Some
            &&& t.session->0.asset == s.session->0.asset
            &&& t.session->0.paused == if absent.len() >= 2 {
                !s.session->0.paused
            } else {
                s.session->0.paused
            }
            &&& t.absences == 0
        }),
{
    lemma_absent_cycles(m, s, absent);
    lemma_run_wf(m, s, absent);
}

/// Advance on finish. When the handle has run out of audio, in a cycle that
/// reads no card or the card that was there before, the handle is let go of
/// and the cursor moves on by exactly one. If the playlist has a next file,
/// that file is started in the same cycle, and on success the new handle
/// plays it. If it has none, the playlist is exhausted and no handle is
/// held.
pub proof fn law_advance_on_finish(m: MapperView, s: State, a: Answers)
    requires
        s.wf(m),
        s.pending is Poll,
        s.session is Some,
        a.drained,
        a.card matches Some(uid) ==> s.identified == Some(hex_text(uid)),
    ensures
        ({
            let t = cycle(m, s, a);
            &&& t.songs == s.songs
            &&& t.cursor == s.cursor + 1
            &&& t.identified == s.identified
            &&& t.session == if t.cursor < t.songs.len() && a.start == StartOutcome::Playing {
                Some(SessionView { asset: t.songs[t.cursor as int], paused: false })
            } else {
                None
            }
        }),
{
}

/// A change of card. A card is read that does not count as the one that
/// was there before, and the mapping has an entry for it. If a playlist can
/// be built for its path, that playlist replaces the old one, the card is
/// the identified one, and the first file is started in the same cycle; on
/// success the new handle plays it. If none can be built, the count of
/// absences starts anew, no handle is held, and nothing else changes.
pub proof fn law_card_change(m: MapperView, s: State, uid: Seq<u8>, a: Answers)
    requires
        s.wf(m),
        s.pending is Poll,
        a.card == Some(uid),
        !s.holds(hex_text(uid)),
        m.locate(hex_text(uid)) is Some,
    ensures
        cycle(m, s, a) == (match built(m.locate(hex_text(uid))->0, a.asset) {
            Ok(songs) => State {
                identified: Some(hex_text(uid)),
                songs,
                cursor: 0,
                session: if songs.len() > 0 && a.start == StartOutcome::Playing {
                    Some(SessionView { asset: songs[0], paused: false })
                } else {
                    None
                },
                absences: 0,
                pending: RequestView::Poll,
            },
            Err(_) => State { session: None, absences: 0, ..s },
        }),
{
}

/// An exhausted playlist stays silent. While no card is read, no start is
/// requested and nothing changes but the count of absences.
pub proof fn law_exhausted_stays_idle(m: MapperView, s: State, a: Answers)
    requires
        s.wf(m),
        s.pending is Poll,
        s.done(),
        a.card is None,
    ensures
        transition(m, s, EventView::Card(a.card)).0.pending is Poll,
        transition(m, s, EventView::Card(a.card)).1.command is None,
        cycle(m, s, a) == (State { absences: bump(s.absences), ..s }),
{
}

/// A card without an entry in the mapping, read while no handle is held,
/// yields the notice that the card is unmapped and ends the cycle. The
/// identified card, the playlist and its cursor stay as they are, and no
/// handle is held afterwards either.
pub proof fn law_unmapped_card(m: MapperView, s: State, uid: Seq<u8>)
    requires
        s.wf(m),
        s.pending is Poll,
        s.session is None,
        m.locate(hex_text(uid)) is None,
    ensures
        transition(m, s, EventView::Card(Some(uid))) == ((
            State { absences: 0, ..s },
            OutcomeView {
                command: None,
                notice: Some(NoticeView::CardUnmapped { card: hex_text(uid) }),
            },
        )),
{
}

} // verus!
