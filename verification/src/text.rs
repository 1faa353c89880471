//! Text as sequences of characters: blanks, trimming and joining.

use vstd::prelude::*;
use vstd::string::*;

verus! {

/// The texts of a sequence of strings, in the same order.
pub open spec fn texts(v: Seq<String>) -> Seq<Seq<char>> {
    Seq::new(v.len(), |i: int| v[i]@)
}

/// The characters that count as white space: those with the Unicode
/// property White_Space.
pub open spec fn is_blank(c: char) -> bool {
    let u = c as u32;
    ||| 0x09 <= u <= 0x0d
    ||| u == 0x20
    ||| u == 0x85
    ||| u == 0xa0
    ||| u == 0x1680
    ||| 0x2000 <= u <= 0x200a
    ||| u == 0x2028
    ||| u == 0x2029
    ||| u == 0x202f
    ||| u == 0x205f
    ||| u == 0x3000
}

/// Decides `is_blank`.
pub fn blank(c: char) -> (b: bool)
    ensures
        b == is_blank(c),
{
    let u: u32 = c as u32;
    (0x09 <= u && u <= 0x0d) || u == 0x20 || u == 0x85 || u == 0xa0 || u == 0x1680 || (0x2000 <= u
        && u <= 0x200a) || u == 0x2028 || u == 0x2029 || u == 0x202f || u == 0x205f || u == 0x3000
}

/// The length of the longest prefix of `s` whose characters are all blank
/// (`blanks` true) or all not blank (`blanks` false).
pub open spec fn run_len(s: Seq<char>, blanks: bool) -> nat
    decreases s.len(),
{
    if s.len() > 0 && is_blank(s[0]) == blanks {
        1 + run_len(s.drop_first(), blanks)
    } else {
        0
    }
}

/// The number of blanks at the end of `s`.
pub open spec fn trailing_blanks(s: Seq<char>) -> nat
    decreases s.len(),
{
    if s.len() > 0 && is_blank(s.last()) {
        1 + trailing_blanks(s.drop_last())
    } else {
        0
    }
}

/// `s` without the blanks at its start and at its end.
pub open spec fn trimmed(s: Seq<char>) -> Seq<char> {
    if run_len(s, true) == s.len() {
        Seq::empty()
    } else {
        s.subrange(run_len(s, true) as int, s.len() - trailing_blanks(s))
    }
}

/// What `run_len` finds: a prefix of characters of one kind, which ends
/// where the text ends or where a character of the other kind stands.
pub proof fn lemma_run_len(s: Seq<char>, blanks: bool)
    ensures
        run_len(s, blanks) <= s.len(),
        forall|k: int| 0 <= k < run_len(s, blanks) ==> is_blank(#[trigger] s[k]) == blanks,
        run_len(s, blanks) < s.len() ==> is_blank(s[run_len(s, blanks) as int]) != blanks,
    decreases s.len(),
{
    if s.len() > 0 && is_blank(s[0]) == blanks {
        let t = s.drop_first();
        lemma_run_len(t, blanks);
        assert forall|k: int| 0 <= k < run_len(s, blanks) implies is_blank(#[trigger] s[k])
            == blanks by {
            if k > 0 {
                assert(s[k] == t[k - 1]);
            }
        }
    }
}

/// What `trailing_blanks` finds: a suffix of blanks, which starts where the
/// text starts or behind a character that is not blank.
pub proof fn lemma_trailing_blanks(s: Seq<char>)
    ensures
        trailing_blanks(s) <= s.len(),
        forall|k: int| s.len() - trailing_blanks(s) <= k < s.len() ==> is_blank(#[trigger] s[k]),
        trailing_blanks(s) < s.len() ==> !is_blank(s[s.len() - trailing_blanks(s) - 1]),
    decreases s.len(),
{
    if s.len() > 0 && is_blank(s.last()) {
        let t = s.drop_last();
        lemma_trailing_blanks(t);
        assert forall|k: int| s.len() - trailing_blanks(s) <= k < s.len() implies is_blank(
            #[trigger] s[k],
        ) by {
            if k < s.len() - 1 {
                assert(s[k] == t[k]);
            }
        }
    }
}

/// A run of length `n` that stops at a character of the other kind, or at
/// the end of the text, is the whole run.
proof fn lemma_run_found(s: Seq<char>, blanks: bool, n: int)
    requires
        0 <= n <= s.len(),
        forall|k: int| 0 <= k < n ==> is_blank(#[trigger] s[k]) == blanks,
        n < s.len() ==> is_blank(s[n]) != blanks,
    ensures
        run_len(s, blanks) == n,
    decreases n,
{
    if n > 0 {
        let t = s.drop_first();
        assert forall|k: int| 0 <= k < n - 1 implies is_blank(#[trigger] t[k]) == blanks by {
            assert(t[k] == s[k + 1]);
        }
        lemma_run_found(t, blanks, n - 1);
    }
}

/// If the last `n` characters are blank and the one before them is not, or
/// there is none before them, the text ends in exactly `n` blanks.
proof fn lemma_trailing_found(s: Seq<char>, n: int)
    requires
        0 <= n <= s.len(),
        forall|k: int| s.len() - n <= k < s.len() ==> is_blank(#[trigger] s[k]),
        n < s.len() ==> !is_blank(s[s.len() - n - 1]),
    ensures
        trailing_blanks(s) == n,
    decreases n,
{
    if n > 0 {
        let t = s.drop_last();
        assert forall|k: int| t.len() - (n - 1) <= k < t.len() implies is_blank(
            #[trigger] t[k],
        ) by {
            assert(t[k] == s[k]);
        }
        lemma_trailing_found(t, n - 1);
    }
}

/// The end of the run that starts at `from`: the first position in
/// `from..to` whose character is of the other kind, or `to`.
pub(crate) fn run_end(v: &Vec<char>, from: usize, to: usize, blanks: bool) -> (end: usize)
    requires
        from <= to <= v.len(),
    ensures
        end == from + run_len(v@.subrange(from as int, to as int), blanks),
        from <= end <= to,
{
    let ghost part = v@.subrange(from as int, to as int);
    let mut at: usize = from;
    while at < to && blank(v[at]) == blanks
        invariant
            from <= at <= to <= v.len(),
            part == v@.subrange(from as int, to as int),
            forall|k: int| 0 <= k < at - from ==> is_blank(#[trigger] part[k]) == blanks,
        decreases to - at,
    {
        at += 1;
    }
    proof {
        lemma_run_found(part, blanks, at - from);
    }
    at
}

/// The start of the blanks that `from..to` ends in: `to` if it does not
/// end in a blank.
pub(crate) fn blank_tail_start(v: &Vec<char>, from: usize, to: usize) -> (start: usize)
    requires
        from <= to <= v.len(),
    ensures
        start == to - trailing_blanks(v@.subrange(from as int, to as int)),
        from <= start <= to,
{
    let ghost part = v@.subrange(from as int, to as int);
    let mut at: usize = to;
    while at > from && blank(v[at - 1])
        invariant
            from <= at <= to <= v.len(),
            part == v@.subrange(from as int, to as int),
            forall|k: int| at - from <= k < part.len() ==> is_blank(#[trigger] part[k]),
        decreases at,
    {
        at -= 1;
    }
    proof {
        lemma_trailing_found(part, to - at);
    }
    at
}

/// The path that `name` stands for below the directory `base`: `name`
/// itself if it starts at the root, else `base` and `name` with one
/// separator between them.
pub open spec fn joined(base: Seq<char>, name: Seq<char>) -> Seq<char> {
    if name.len() > 0 && name[0] == '/' {
        name
    } else if base.len() == 0 || base.last() == '/' {
        base + name
    } else {
        base + seq!['/'] + name
    }
}

/// Resolves `name` against the directory `base`.
pub fn join(base: &str, name: &str) -> (path: String)
    ensures
        path@ == joined(base@, name@),
{
    if name.unicode_len() > 0 && name.get_char(0) == '/' {
        return name.to_owned();
    }
    let len: usize = base.unicode_len();
    let path = base.to_owned();
    if len == 0 || base.get_char(len - 1) == '/' {
        path.concat(name)
    } else {
        proof {
            reveal_strlit("/");
            assert("/"@ =~= seq!['/']);
        }
        path.concat("/").concat(name)
    }
}

/// The characters of a string slice, as a vector.
pub(crate) fn chars_of(s: &str) -> (v: Vec<char>)
    ensures
        v@ == s@,
{
    let mut v: Vec<char> = Vec::new();
    for c in it: s.chars()
        invariant
            it.seq() == s@,
            v@ == s@.take(it.index() as int),
    {
        v.push(c);
        assert(s@.take(it.index() + 1) =~= s@.take(it.index() as int).push(c));
    }
    assert(s@.take(s@.len() as int) =~= s@);
    v
}

} // verus!
