//! The mapping from card identifiers to sound files: the text format it is
//! written in, and the lookup.
//!
//! One entry stands on each line: the identifier, white space, the path.
//! White space around a line is ignored. An empty line and a line that
//! starts with `#` say nothing. Any other line without white space in it is
//! an error. Where an identifier stands on several lines, the last one counts.

use crate::text::blank_tail_start;
use crate::text::chars_of;
use crate::text::join;
use crate::text::joined;
use crate::text::lemma_run_len;
use crate::text::lemma_trailing_blanks;
use crate::text::run_end;
use crate::text::run_len;
use crate::text::texts;
use crate::text::trailing_blanks;
use crate::text::trimmed;
use vstd::prelude::*;
use vstd::string::*;

verus! {

/// What one line of the mapping text says.
#[derive(Debug, PartialEq, Eq)]
pub enum Line {
    /// Nothing: the line is empty or a comment.
    Skipped,
    /// The card `key` stands for the path `file`.
    Entry { key: String, file: String },
    /// The line is neither; `content` is the line without the white space
    /// around it.
    Malformed { content: String },
}

/// A `Line` as mathematical text.
pub enum LineView {
    Skipped,
    Entry { key: Seq<char>, file: Seq<char> },
    Malformed { content: Seq<char> },
}

impl View for Line {
    type V = LineView;

    open spec fn view(&self) -> LineView {
        match self {
            Line::Skipped => LineView::Skipped,
            Line::Entry { key, file } => LineView::Entry { key: key@, file: file@ },
            Line::Malformed { content } => LineView::Malformed { content: content@ },
        }
    }
}

/// The meaning of one line: the identifier is what stands before the first
/// white space of the trimmed line, the path is what follows it, trimmed.
pub open spec fn parse(line: Seq<char>) -> LineView {
    let t = trimmed(line);
    let w = run_len(t, false) as int;
    if t.len() == 0 || t[0] == '#' {
        LineView::Skipped
    } else if w == t.len() {
        LineView::Malformed { content: t }
    } else {
        LineView::Entry { key: t.take(w), file: trimmed(t.skip(w)) }
    }
}

/// Reads one line of the mapping text.
pub fn parse_line(line: &str) -> (parsed: Line)
    ensures
        parsed@ == parse(line@),
{
    let chars = chars_of(line);
    let len: usize = chars.len();
    assert(chars@.subrange(0, len as int) =~= chars@);
    let start: usize = run_end(&chars, 0, len, true);
    if start == len {
        return Line::Skipped;
    }
    let end: usize = blank_tail_start(&chars, 0, len);
    proof {
        lemma_run_len(chars@, true);
        lemma_trailing_blanks(chars@);
    }
    let ghost t = chars@.subrange(start as int, end as int);
    assert(t == trimmed(line@));
    if chars[start] == '#' {
        return Line::Skipped;
    }
    let key_end: usize = run_end(&chars, start, end, false);
    if key_end == end {
        return Line::Malformed { content: line.substring_char(start, end).to_owned() };
    }
    let file_start: usize = run_end(&chars, key_end, end, true);
    proof {
        let rest = t.skip(key_end - start);
        assert(rest =~= chars@.subrange(key_end as int, end as int));
        assert(rest.last() == chars@[end - 1]);
        lemma_run_len(rest, true);
        assert(trailing_blanks(rest) == 0);
        assert(trimmed(rest) =~= chars@.subrange(file_start as int, end as int));
        assert(t.take(key_end - start) =~= chars@.subrange(start as int, key_end as int));
    }
    Line::Entry {
        key: line.substring_char(start, key_end).to_owned(),
        file: line.substring_char(file_start, end).to_owned(),
    }
}

/// A line of the mapping text that could not be read.
#[derive(Debug, PartialEq, Eq)]
pub struct MappingError {
    /// The position of the line in the text, counted from zero.
    pub line: usize,
    /// The line, without the white space around it.
    pub content: String,
}

/// The entries of a mapping text, as a map from identifier to path.
pub struct Mapping {
    entries: Vec<(String, String)>,
}

/// The map that a list of entries stands for: a later entry replaces an
/// earlier one with the same identifier.
pub open spec fn entries_map(entries: Seq<(String, String)>) -> Map<Seq<char>, Seq<char>>
    decreases entries.len(),
{
    if entries.len() == 0 {
        Map::empty()
    } else {
        entries_map(entries.drop_last()).insert(entries.last().0@, entries.last().1@)
    }
}

impl View for Mapping {
    type V = Map<Seq<char>, Seq<char>>;

    closed spec fn view(&self) -> Map<Seq<char>, Seq<char>> {
        entries_map(self.entries@)
    }
}

impl Mapping {
    /// The mapping without entries.
    pub fn new() -> (m: Mapping)
        ensures
            m@ == Map::<Seq<char>, Seq<char>>::empty(),
    {
        Mapping { entries: Vec::new() }
    }

    /// Lets `key` stand for `file`, whatever it stood for before.
    pub fn insert(&mut self, key: String, file: String)
        ensures
            final(self)@ == old(self)@.insert(key@, file@),
    {
        let ghost before = self.entries@;
        self.entries.push((key, file));
        assert(self.entries@.drop_last() =~= before);
    }

    /// The path that `key` stands for, if it stands for one.
    pub fn get(&self, key: &str) -> (file: Option<&str>)
        ensures
            file is Some == self@.contains_key(key@),
            file matches Some(f) ==> f@ == self@[key@],
    {
        let wanted = key.to_owned();
        let mut at: usize = self.entries.len();
        assert(self.entries@.take(at as int) =~= self.entries@);
        while at > 0
            invariant
                at <= self.entries@.len(),
                wanted@ == key@,
                self@.contains_key(key@) == entries_map(
                    self.entries@.take(at as int),
                ).contains_key(key@),
                self@.contains_key(key@) ==> self@[key@] == entries_map(
                    self.entries@.take(at as int),
                )[key@],
            decreases at,
        {
            let ghost upto = self.entries@.take(at as int);
            assert(upto.drop_last() =~= self.entries@.take(at - 1));
            assert(upto.last() == self.entries@[at - 1]);
            at -= 1;
            if self.entries[at].0 == wanted {
                return Some(self.entries[at].1.as_str());
            }
        }
        assert(self.entries@.take(0) =~= Seq::<(String, String)>::empty());
        None
    }
}

/// The meaning of a mapping text, line by line: the map of its entries, or
/// the position and content of its first malformed line.
pub open spec fn load(lines: Seq<Seq<char>>) -> Result<Map<Seq<char>, Seq<char>>, (nat, Seq<char>)>
    decreases lines.len(),
{
    if lines.len() == 0 {
        Ok(Map::empty())
    } else {
        match load(lines.drop_last()) {
            Err(e) => Err(e),
            Ok(m) => match parse(lines.last()) {
                LineView::Skipped => Ok(m),
                LineView::Entry { key, file } => Ok(m.insert(key, file)),
                LineView::Malformed { content } => Err(((lines.len() - 1) as nat, content)),
            },
        }
    }
}

/// Reads a mapping text, given as its lines.
pub fn read_maps(lines: &Vec<String>) -> (r: Result<Mapping, MappingError>)
    ensures
        match load(texts(lines@)) {
            Ok(m) => r matches Ok(got) && got@ == m,
            Err((line, content)) => r matches Err(e) && e.line == line && e.content@ == content,
        },
{
    let mut maps = Mapping::new();
    let mut at: usize = 0;
    assert(texts(lines@).take(0) =~= Seq::<Seq<char>>::empty());
    while at < lines.len()
        invariant
            at <= lines@.len(),
            load(texts(lines@).take(at as int)) == Ok::<_, (nat, Seq<char>)>(maps@),
        decreases lines@.len() - at,
    {
        let ghost upto = texts(lines@).take(at + 1);
        assert(upto.drop_last() =~= texts(lines@).take(at as int));
        assert(upto.last() == lines@[at as int]@);
        match parse_line(lines[at].as_str()) {
            Line::Skipped => {},
            Line::Entry { key, file } => {
                maps.insert(key, file);
            },
            Line::Malformed { content } => {
                proof {
                    lemma_load_fails_on(texts(lines@), at as int);
                }
                return Err(MappingError { line: at, content });
            },
        }
        at += 1;
    }
    assert(texts(lines@).take(at as int) =~= texts(lines@));
    Ok(maps)
}

/// A text whose first `at` lines load and whose next line is malformed fails
/// on that line, whatever follows it.
proof fn lemma_load_fails_on(lines: Seq<Seq<char>>, at: int)
    requires
        0 <= at < lines.len(),
        load(lines.take(at)) is Ok,
        parse(lines[at]) is Malformed,
    ensures
        load(lines) == Err::<Map<Seq<char>, Seq<char>>, _>(
            (at as nat, parse(lines[at])->Malformed_content),
        ),
    decreases lines.len(),
{
    if at == lines.len() - 1 {
        assert(lines.drop_last() =~= lines.take(at));
    } else {
        assert(lines.drop_last().take(at) =~= lines.take(at));
        lemma_load_fails_on(lines.drop_last(), at);
    }
}

/// A mapping together with the directory that its relative paths start from.
pub struct FileMapper {
    files_dir: String,
    mapping: Mapping,
}

/// A `FileMapper` as mathematical values.
pub struct MapperView {
    pub files_dir: Seq<char>,
    pub mapping: Map<Seq<char>, Seq<char>>,
}

impl MapperView {
    /// The path of the sound file or folder that the card `id` stands for:
    /// its entry in the mapping, resolved against the directory.
    pub open spec fn locate(self, id: Seq<char>) -> Option<Seq<char>> {
        if self.mapping.contains_key(id) {
            Some(joined(self.files_dir, self.mapping[id]))
        } else {
            None
        }
    }
}

impl View for FileMapper {
    type V = MapperView;

    closed spec fn view(&self) -> MapperView {
        MapperView { files_dir: self.files_dir@, mapping: self.mapping@ }
    }
}

impl FileMapper {
    /// Builds the mapper from the lines of a mapping text. Relative paths
    /// will start from `arg_dir` if it is given, else from `current_dir`.
    pub fn new(arg_dir: Option<&str>, current_dir: &str, lines: &Vec<String>) -> (r: Result<
        FileMapper,
        MappingError,
    >)
        ensures
            match load(texts(lines@)) {
                Ok(m) => r matches Ok(mapper) && mapper@.mapping == m && mapper@.files_dir == (
                match arg_dir {
                    Some(dir) => dir@,
                    None => current_dir@,
                }),
                Err((line, content)) => r matches Err(e) && e.line == line && e.content@
                    == content,
            },
    {
        let files_dir = match arg_dir {
            Some(dir) => dir.to_owned(),
            None => current_dir.to_owned(),
        };
        match read_maps(lines) {
            Ok(mapping) => Ok(FileMapper { files_dir, mapping }),
            Err(e) => Err(e),
        }
    }

    /// The path that the card with identifier `hex_code` stands for, if the
    /// mapping has an entry for it.
    pub fn get_file(&self, hex_code: &str) -> (path: Option<String>)
        ensures
            path is Some == self@.locate(hex_code@) is Some,
            path matches Some(p) ==> Some(p@) == self@.locate(hex_code@),
    {
        match self.mapping.get(hex_code) {
            Some(file_name) => Some(join(self.files_dir.as_str(), file_name)),
            None => None,
        }
    }
}

} // verus!
