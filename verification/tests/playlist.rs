use rfid_audio::playlist::AssetError;
use rfid_audio::playlist::AssetProbe;
use rfid_audio::playlist::PlayList;

fn songs_of(mut playlist: PlayList) -> Vec<String> {
    let mut songs = Vec::new();
    while let Some(song) = playlist.current_song() {
        songs.push(song.to_string());
        playlist.advance();
    }
    assert!(playlist.done());
    songs
}

fn strings(items: &[&str]) -> Vec<String> {
    items.iter().map(|s| s.to_string()).collect()
}

#[test]
fn empty_playlist_is_done() {
    let playlist = PlayList::empty();
    assert!(playlist.done());
    assert_eq!(playlist.current_song(), None);
}

#[test]
fn playlist_of_nothing_is_done() {
    let playlist = PlayList::new(Vec::new());
    assert!(playlist.done());
    assert_eq!(playlist.current_song(), None);
}

#[test]
fn single_file_playlist_holds_exactly_that_path() {
    let mut playlist = PlayList::new(strings(&["/music/song1.mp3"]));
    assert!(!playlist.done());
    assert_eq!(playlist.current_song(), Some("/music/song1.mp3"));
    assert_eq!(playlist.advance(), None);
    assert!(playlist.done());
    assert_eq!(playlist.current_song(), None);
}

#[test]
fn directory_entries_play_in_sorted_order() {
    let mut playlist = PlayList::new(strings(&["b.mp3", "a.mp3", "c.mp3"]));
    assert!(!playlist.done());
    assert_eq!(playlist.current_song(), Some("a.mp3"));
    assert_eq!(playlist.advance(), Some("b.mp3"));
    assert_eq!(playlist.current_song(), Some("b.mp3"));
    assert_eq!(playlist.advance(), Some("c.mp3"));
    assert_eq!(playlist.advance(), None);
    assert!(playlist.done());
}

#[test]
fn order_does_not_depend_on_the_listing() {
    let expected = strings(&["a.mp3", "b.mp3", "c.mp3"]);
    let listings = [
        ["a.mp3", "b.mp3", "c.mp3"],
        ["a.mp3", "c.mp3", "b.mp3"],
        ["b.mp3", "a.mp3", "c.mp3"],
        ["b.mp3", "c.mp3", "a.mp3"],
        ["c.mp3", "a.mp3", "b.mp3"],
        ["c.mp3", "b.mp3", "a.mp3"],
    ];
    for listing in listings {
        assert_eq!(songs_of(PlayList::new(strings(&listing))), expected);
    }
}

#[test]
fn a_path_given_twice_is_played_twice() {
    let playlist = PlayList::new(strings(&["b", "a", "b", "a", "a"]));
    assert_eq!(songs_of(playlist), strings(&["a", "a", "a", "b", "b"]));
}

#[test]
fn order_agrees_with_sorting_the_strings() {
    let listing = strings(&[
        "/m/10 - ten.mp3",
        "/m/9 - nine.mp3",
        "/m/Ärger.mp3",
        "/m/zebra.mp3",
        "/m/Zebra.mp3",
        "/m/a",
        "/m/a.mp3",
        "/m/a b.mp3",
        "/m/",
        "/m/♪.ogg",
        "/m/a",
    ]);
    let mut expected = listing.clone();
    expected.sort();
    assert_eq!(songs_of(PlayList::new(listing)), expected);
}

#[test]
fn order_of_many_paths() {
    let mut listing = Vec::new();
    let mut seed: u32 = 12345;
    for _ in 0..500 {
        seed = seed.wrapping_mul(1103515245).wrapping_add(12345);
        listing.push(format!("/music/{:08x}.mp3", seed >> 4));
    }
    let mut expected = listing.clone();
    expected.sort();
    assert_eq!(songs_of(PlayList::new(listing)), expected);
}

#[test]
fn a_file_builds_a_playlist_of_itself() {
    match PlayList::build("/music/song1.mp3", AssetProbe::File) {
        Ok(playlist) => assert_eq!(songs_of(playlist), strings(&["/music/song1.mp3"])),
        Err(e) => panic!("refused: {:?}", e),
    }
}

#[test]
fn a_directory_builds_the_playlist_of_its_entries() {
    let listing = AssetProbe::Directory(strings(&["/m/d/b.mp3", "/m/d/a.mp3", "/m/d/c.mp3"]));
    match PlayList::build("/m/d", listing) {
        Ok(playlist) => {
            assert_eq!(playlist.current_song(), Some("/m/d/a.mp3"));
            assert_eq!(songs_of(playlist), strings(&["/m/d/a.mp3", "/m/d/b.mp3", "/m/d/c.mp3"]));
        }
        Err(e) => panic!("refused: {:?}", e),
    }
}

#[test]
fn an_empty_directory_builds_an_exhausted_playlist() {
    match PlayList::build("/m/d", AssetProbe::Directory(Vec::new())) {
        Ok(playlist) => assert!(playlist.done()),
        Err(e) => panic!("refused: {:?}", e),
    }
}

#[test]
fn a_missing_path_builds_nothing() {
    assert_eq!(PlayList::build("/m/gone", AssetProbe::Missing).err(), Some(AssetError::Missing));
}

#[test]
fn an_unreadable_directory_builds_nothing() {
    assert_eq!(
        PlayList::build("/m/locked", AssetProbe::Unreadable).err(),
        Some(AssetError::Unreadable)
    );
}
