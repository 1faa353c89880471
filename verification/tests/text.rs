use rfid_audio::text::blank;
use rfid_audio::text::join;
use std::path::Path;

#[test]
fn blank_is_unicode_white_space() {
    for code in 0..=0x10ffffu32 {
        if let Some(c) = char::from_u32(code) {
            assert_eq!(blank(c), c.is_whitespace(), "U+{:04X}", code);
        }
    }
}

#[test]
fn join_puts_one_separator_between_directory_and_name() {
    assert_eq!(join("/music", "a.mp3"), "/music/a.mp3");
    assert_eq!(join("/music/", "a.mp3"), "/music/a.mp3");
    assert_eq!(join("music", "folder/"), "music/folder/");
    assert_eq!(join("/", "a.mp3"), "/a.mp3");
}

#[test]
fn join_keeps_a_path_that_starts_at_the_root() {
    assert_eq!(join("/music", "/srv/a.mp3"), "/srv/a.mp3");
    assert_eq!(join("", "/srv/a.mp3"), "/srv/a.mp3");
}

#[test]
fn join_with_an_empty_part() {
    assert_eq!(join("", "a.mp3"), "a.mp3");
    assert_eq!(join("/music", ""), "/music/");
    assert_eq!(join("", ""), "");
}

#[test]
fn join_agrees_with_the_standard_library_on_unix_paths() {
    let bases = ["", "/", "/music", "/music/", "music", "müsic/ä", "a//"];
    let names = ["", "a.mp3", "/a.mp3", "dir/b.mp3", "sö ng.mp3", "//x", "./y"];
    for base in bases {
        for name in names {
            let expected = Path::new(base).join(name);
            assert_eq!(Some(join(base, name).as_str()), expected.to_str(), "{base:?} {name:?}");
        }
    }
}
