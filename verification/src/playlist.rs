//! The playlist: the paths that one card stands for, in playing order, and
//! a cursor on the one that is playing or next to play.

use crate::order::in_order;
use crate::order::lemma_lex_le_total;
use crate::order::lemma_lex_le_transitive;
use crate::order::lemma_path_order_total;
use crate::order::path_le;
use crate::order::path_order;
use crate::order::sorted_paths;
use crate::text::texts;
use vstd::multiset::Multiset;
use vstd::prelude::*;
use vstd::relations::*;
use vstd::seq_lib::*;
use vstd::utf8::*;

verus! {

/// The playing order of a collection of paths: sorted by `path_le`.
pub open spec fn playing_order(paths: Seq<Seq<char>>) -> Seq<Seq<char>> {
    paths.sort_by(path_order())
}

/// What the file system holds at the path that a card stands for.
#[derive(Debug, PartialEq, Eq)]
pub enum AssetProbe {
    /// Nothing exists at the path.
    Missing,
    /// A directory whose entries cannot be listed.
    Unreadable,
    /// Something other than a directory.
    File,
    /// A directory, with the paths of its immediate entries in any order.
    Directory(Vec<String>),
}

/// An `AssetProbe` as mathematical values.
pub enum AssetProbeView {
    Missing,
    Unreadable,
    File,
    Directory(Seq<Seq<char>>),
}

impl View for AssetProbe {
    type V = AssetProbeView;

    open spec fn view(&self) -> AssetProbeView {
        match self {
            AssetProbe::Missing => AssetProbeView::Missing,
            AssetProbe::Unreadable => AssetProbeView::Unreadable,
            AssetProbe::File => AssetProbeView::File,
            AssetProbe::Directory(entries) => AssetProbeView::Directory(texts(entries@)),
        }
    }
}

/// Why no playlist could be built for a path.
#[derive(Debug, Clone, Copy, PartialEq, Eq)]
pub enum AssetError {
    /// Nothing exists at the path.
    Missing,
    /// The path is a directory whose entries cannot be listed.
    Unreadable,
}

/// The paths to play for what the file system holds at `path`: the path
/// itself if it is a file, the entries in playing order if it is a
/// directory.
pub open spec fn built(path: Seq<char>, probe: AssetProbeView) -> Result<
    Seq<Seq<char>>,
    AssetError,
> {
    match probe {
        AssetProbeView::Missing => Err(AssetError::Missing),
        AssetProbeView::Unreadable => Err(AssetError::Unreadable),
        AssetProbeView::File => Ok(seq![path]),
        AssetProbeView::Directory(entries) => Ok(playing_order(entries)),
    }
}

/// An ordered sequence of paths and a cursor into it.
///
/// The paths are kept sorted by `path_le`, and the cursor never passes the
/// end; a cursor at the end means that the playlist is exhausted.
pub struct PlayList {
    songs: Vec<String>,
    index: usize,
}

impl PlayList {
    /// The paths of the playlist, in playing order.
    pub closed spec fn songs(&self) -> Seq<Seq<char>> {
        texts(self.songs@)
    }

    /// The position of the current path; equal to the length when exhausted.
    pub closed spec fn cursor(&self) -> nat {
        self.index as nat
    }

    /// What holds of every playlist.
    #[verifier::type_invariant]
    pub open spec fn wf(&self) -> bool {
        &&& self.cursor() <= self.songs().len()
        &&& sorted_paths(self.songs())
    }

    /// Whether every path has been played.
    pub open spec fn is_done(&self) -> bool {
        self.cursor() == self.songs().len()
    }

    /// The path under the cursor, if there is one.
    pub open spec fn current(&self) -> Option<Seq<char>> {
        if self.is_done() {
            None
        } else {
            Some(self.songs()[self.cursor() as int])
        }
    }

    /// The playlist without paths, which is exhausted from the start.
    pub fn empty() -> (pl: PlayList)
        ensures
            pl.songs() == Seq::<Seq<char>>::empty(),
            pl.cursor() == 0,
            pl.wf(),
    {
        PlayList { songs: Vec::new(), index: 0 }
    }

    /// Builds the playlist of the given paths: the same paths, each as often
    /// as it was given, in playing order, with the cursor on the first.
    pub fn new(songs: Vec<String>) -> (pl: PlayList)
        ensures
            pl.songs() == playing_order(texts(songs@)),
            pl.songs().to_multiset() == texts(songs@).to_multiset(),
            sorted_paths(pl.songs()),
            pl.cursor() == 0,
            pl.wf(),
    {
        let ghost given = texts(songs@);
        let mut rest = songs;
        let mut sorted: Vec<String> = Vec::new();
        proof {
            lemma_nothing_held(texts(sorted@));
        }
        while rest.len() > 0
            invariant
                sorted_paths(texts(sorted@)),
                texts(sorted@).to_multiset().add(texts(rest@).to_multiset())
                    == given.to_multiset(),
            decreases rest.len(),
        {
            let ghost before = rest@;
            let ghost placed = texts(sorted@);
            let song = rest.pop().unwrap();
            proof {
                assert(texts(before) =~= texts(rest@).push(song@));
                to_multiset_build(texts(rest@), song@);
            }
            let mut at: usize = 0;
            while at < sorted.len() && in_order(sorted[at].as_str(), song.as_str())
                invariant
                    at <= sorted.len(),
                    placed == texts(sorted@),
                    forall|k: int| 0 <= k < at ==> path_le(#[trigger] placed[k], song@),
                decreases sorted.len() - at,
            {
                at += 1;
            }
            proof {
                assert forall|k: int| at <= k < placed.len() implies path_le(
                    song@,
                    #[trigger] placed[k],
                ) by {
                    lemma_lex_le_total(encode_utf8(placed[at as int]), encode_utf8(song@));
                    if at < k {
                        lemma_lex_le_transitive(
                            encode_utf8(song@),
                            encode_utf8(placed[at as int]),
                            encode_utf8(placed[k]),
                        );
                    }
                }
            }
            sorted.insert(at, song);
            proof {
                assert(texts(sorted@) =~= placed.insert(at as int, song@));
                to_multiset_insert(placed, at as int, song@);
                assert(placed.to_multiset().insert(song@).add(texts(rest@).to_multiset())
                    =~= placed.to_multiset().add(texts(rest@).to_multiset().insert(song@)));
            }
        }
        proof {
            lemma_nothing_held(texts(rest@));
            lemma_playing_order(given);
            lemma_sorted_paths_unique(texts(sorted@), playing_order(given));
        }
        PlayList { songs: sorted, index: 0 }
    }

    /// Builds the playlist for what the file system holds at `path`, with
    /// the cursor on the first path, or says why there is none.
    pub fn build(path: &str, probe: AssetProbe) -> (r: Result<PlayList, AssetError>)
        ensures
            match built(path@, probe@) {
                Ok(songs) => r matches Ok(pl) && pl.songs() == songs && pl.cursor() == 0
                    && pl.wf(),
                Err(e) => r matches Err(got) && got == e,
            },
    {
        match probe {
            AssetProbe::Missing => Err(AssetError::Missing),
            AssetProbe::Unreadable => Err(AssetError::Unreadable),
            AssetProbe::File => {
                let mut single: Vec<String> = Vec::new();
                single.push(path.to_owned());
                proof {
                    let one = texts(single@);
                    assert(one =~= seq![path@]);
                    lemma_playing_order(one);
                    lemma_sorted_paths_unique(one, playing_order(one));
                }
                Ok(PlayList::new(single))
            },
            AssetProbe::Directory(entries) => Ok(PlayList::new(entries)),
        }
    }

    /// The path under the cursor, or nothing when the playlist is exhausted.
    pub fn current_song(&self) -> (song: Option<&str>)
        ensures
            song is Some == !self.is_done(),
            song matches Some(s) ==> Some(s@) == self.current(),
    {
        if self.done() {
            None
        } else {
            proof {
                use_type_invariant(self);
            }
            Some(self.songs[self.index].as_str())
        }
    }

    /// Whether the playlist is exhausted.
    pub fn done(&self) -> (d: bool)
        ensures
            d == self.is_done(),
    {
        self.index == self.songs.len()
    }

    /// Moves the cursor to the next path and returns it, or nothing if the
    /// path that was current was the last.
    pub fn advance(&mut self) -> (song: Option<&str>)
        requires
            !old(self).is_done(),
        ensures
            final(self).songs() == old(self).songs(),
            final(self).cursor() == old(self).cursor() + 1,
            final(self).wf(),
            song is Some == !final(self).is_done(),
            song matches Some(s) ==> Some(s@) == final(self).current(),
    {
        let len: usize = self.songs.len();
        proof {
            use_type_invariant(&*self);
            assert(self.songs().len() == len);
        }
        self.index += 1;
        self.current_song()
    }
}

/// A sequence without items has the empty multiset of items, so adding it to
/// another multiset changes nothing.
proof fn lemma_nothing_held(s: Seq<Seq<char>>)
    requires
        s.len() == 0,
    ensures
        s.to_multiset() == Multiset::<Seq<char>>::empty(),
        forall|m: Multiset<Seq<char>>| #[trigger] m.add(s.to_multiset()) == m,
        forall|m: Multiset<Seq<char>>| #[trigger] s.to_multiset().add(m) == m,
{
    broadcast use vstd::multiset::group_multiset_axioms;

    s.to_multiset_ensures();
    assert(s.to_multiset() =~= Multiset::<Seq<char>>::empty());
    assert forall|m: Multiset<Seq<char>>| #[trigger] m.add(s.to_multiset()) == m by {
        assert(m.add(s.to_multiset()) =~= m);
    }
    assert forall|m: Multiset<Seq<char>>| #[trigger] s.to_multiset().add(m) == m by {
        assert(s.to_multiset().add(m) =~= m);
    }
}

/// The playing order of a collection holds the same paths, each as often
/// as the collection does, and no path in it comes before an earlier one.
pub proof fn lemma_playing_order(paths: Seq<Seq<char>>)
    ensures
        playing_order(paths).to_multiset() == paths.to_multiset(),
        sorted_paths(playing_order(paths)),
{
    lemma_path_order_total();
    paths.lemma_sort_by_ensures(path_order());
    let sorted = playing_order(paths);
    assert forall|i: int, j: int| 0 <= i < j < sorted.len() implies path_le(
        #[trigger] sorted[i],
        #[trigger] sorted[j],
    ) by {
        assert(path_order()(sorted[i], sorted[j]));
    }
}

/// What is built for a path is in playing order.
pub proof fn lemma_built_sorted(path: Seq<char>, probe: AssetProbeView)
    ensures
        built(path, probe) matches Ok(songs) ==> sorted_paths(songs),
{
    if let AssetProbeView::Directory(entries) = probe {
        lemma_playing_order(entries);
    }
}

/// Two sorted sequences that hold the same paths, each equally often, are
/// equal.
pub proof fn lemma_sorted_paths_unique(a: Seq<Seq<char>>, b: Seq<Seq<char>>)
    requires
        sorted_paths(a),
        sorted_paths(b),
        a.to_multiset() == b.to_multiset(),
    ensures
        a == b,
{
    lemma_path_order_total();
    assert(sorted_by(a, path_order()));
    assert(sorted_by(b, path_order()));
    lemma_sorted_unique(a, b, path_order());
}

/// The playing order does not depend on the order in which the paths are
/// given: two collections that hold the same paths, each equally often, are
/// played in the same order.
pub proof fn law_listing_order_irrelevant(a: Seq<Seq<char>>, b: Seq<Seq<char>>)
    requires
        a.to_multiset() == b.to_multiset(),
    ensures
        playing_order(a) == playing_order(b),
{
    lemma_playing_order(a);
    lemma_playing_order(b);
    lemma_sorted_paths_unique(playing_order(a), playing_order(b));
}

} // verus!
