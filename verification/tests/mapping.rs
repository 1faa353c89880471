use rfid_audio::mapping::parse_line;
use rfid_audio::mapping::read_maps;
use rfid_audio::mapping::FileMapper;
use rfid_audio::mapping::Line;
use rfid_audio::mapping::Mapping;

fn strings(items: &[&str]) -> Vec<String> {
    items.iter().map(|s| s.to_string()).collect()
}

fn entry(key: &str, file: &str) -> Line {
    Line::Entry { key: key.to_string(), file: file.to_string() }
}

fn malformed(content: &str) -> Line {
    Line::Malformed { content: content.to_string() }
}

#[test]
fn mapping_file_with_comment_and_blank_line() {
    let lines = strings(&["ab12 song1.mp3", "# comment", "", "cd34   folder/"]);
    let mapping = match read_maps(&lines) {
        Ok(mapping) => mapping,
        Err(e) => panic!("line {} rejected", e.line),
    };
    assert_eq!(mapping.get("ab12"), Some("song1.mp3"));
    assert_eq!(mapping.get("cd34"), Some("folder/"));
    for other in ["", "#", "# comment", "comment", "ab", "ab12 ", "song1.mp3", "folder/", "AB12"] {
        assert_eq!(mapping.get(other), None);
    }
}

#[test]
fn line_with_one_field_fails_with_its_position() {
    let lines = strings(&["onlyonefield"]);
    match read_maps(&lines) {
        Ok(_) => panic!("accepted"),
        Err(e) => {
            assert_eq!(e.line, 0);
            assert_eq!(e.content, "onlyonefield");
        }
    }
}

#[test]
fn first_malformed_line_is_reported() {
    let lines = strings(&["ab12 song1.mp3", "", "  # note", "\t broken\t", "cd34 x", "alsobroken"]);
    match read_maps(&lines) {
        Ok(_) => panic!("accepted"),
        Err(e) => {
            assert_eq!(e.line, 3);
            assert_eq!(e.content, "broken");
        }
    }
}

#[test]
fn empty_text_gives_empty_mapping() {
    let mapping = match read_maps(&Vec::new()) {
        Ok(mapping) => mapping,
        Err(_) => panic!("rejected"),
    };
    assert_eq!(mapping.get("ab12"), None);
    assert_eq!(mapping.get(""), None);
}

#[test]
fn later_line_wins() {
    let lines = strings(&["ab12 first.mp3", "cd34 other.mp3", "ab12 second.mp3"]);
    let mapping = match read_maps(&lines) {
        Ok(mapping) => mapping,
        Err(_) => panic!("rejected"),
    };
    assert_eq!(mapping.get("ab12"), Some("second.mp3"));
    assert_eq!(mapping.get("cd34"), Some("other.mp3"));
}

#[test]
fn mapping_insert_replaces() {
    let mut mapping = Mapping::new();
    assert_eq!(mapping.get("k"), None);
    mapping.insert("k".to_string(), "one".to_string());
    mapping.insert("l".to_string(), "two".to_string());
    assert_eq!(mapping.get("k"), Some("one"));
    mapping.insert("k".to_string(), "three".to_string());
    assert_eq!(mapping.get("k"), Some("three"));
    assert_eq!(mapping.get("l"), Some("two"));
    assert_eq!(mapping.get("m"), None);
}

#[test]
fn blank_lines_and_comments_are_skipped() {
    for line in ["", "   ", "\t\r", "#", "# ab12 song1.mp3", "   #ab12 song1.mp3", "\u{a0}\u{3000}"] {
        assert_eq!(parse_line(line), Line::Skipped, "{line:?}");
    }
}

#[test]
fn entry_is_identifier_then_path() {
    assert_eq!(parse_line("ab12 song1.mp3"), entry("ab12", "song1.mp3"));
    assert_eq!(parse_line("cd34   folder/"), entry("cd34", "folder/"));
    assert_eq!(parse_line("  ab12 song1.mp3  \r"), entry("ab12", "song1.mp3"));
    assert_eq!(parse_line("ab12\tsong1.mp3"), entry("ab12", "song1.mp3"));
    assert_eq!(parse_line("ab12 \t /srv/my song.mp3"), entry("ab12", "/srv/my song.mp3"));
    assert_eq!(parse_line("ab12 #1.mp3"), entry("ab12", "#1.mp3"));
    assert_eq!(parse_line("ä♪ ö.mp3"), entry("ä♪", "ö.mp3"));
    assert_eq!(parse_line("a\u{2003}b"), entry("a", "b"));
}

#[test]
fn line_without_white_space_inside_is_malformed() {
    assert_eq!(parse_line("onlyonefield"), malformed("onlyonefield"));
    assert_eq!(parse_line("  x  "), malformed("x"));
    assert_eq!(parse_line("ab#12"), malformed("ab#12"));
    assert_eq!(parse_line("\u{2028}a♪b\n"), malformed("a♪b"));
}

#[test]
fn mapper_resolves_against_the_given_directory() {
    let lines = strings(&["ab12 song1.mp3", "cd34 /srv/folder/"]);
    let mapper = match FileMapper::new(Some("/music"), "/home/player", &lines) {
        Ok(mapper) => mapper,
        Err(_) => panic!("rejected"),
    };
    assert_eq!(mapper.get_file("ab12"), Some("/music/song1.mp3".to_string()));
    assert_eq!(mapper.get_file("cd34"), Some("/srv/folder/".to_string()));
    assert_eq!(mapper.get_file("ef56"), None);
}

#[test]
fn mapper_resolves_against_the_current_directory_by_default() {
    let lines = strings(&["ab12 song1.mp3"]);
    let mapper = match FileMapper::new(None, "/home/player", &lines) {
        Ok(mapper) => mapper,
        Err(_) => panic!("rejected"),
    };
    assert_eq!(mapper.get_file("ab12"), Some("/home/player/song1.mp3".to_string()));
}

#[test]
fn mapper_fails_on_a_malformed_line() {
    let lines = strings(&["ab12 song1.mp3", "#", "cd34"]);
    match FileMapper::new(Some("/music"), "/home/player", &lines) {
        Ok(_) => panic!("accepted"),
        Err(e) => {
            assert_eq!(e.line, 2);
            assert_eq!(e.content, "cd34");
        }
    }
}
