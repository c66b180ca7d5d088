//! The lines of a song-length database (`Songlengths.md5`): for each tune,
//! the MD5 text before `=` and the time tokens of its subtunes after it.
use vstd::prelude::*;
use crate::mod_info::{utf8_len, utf8_width_of};
use crate::profile_manager::{split_acc, split_on};
use crate::text::{chars_of, find_char, is_whitespace, is_ws, str_views, string_from_chars, sub_chars, trim, trim_chars};

verus! {

/// A tune's line in a song-length database.
#[derive(Debug, Clone)]
pub struct SongLengthLine {
    /// The text before the first `=`: the tune's MD5 in hex.
    pub md5: String,
    /// The whitespace-separated tokens after it: one time per subtune.
    pub times: Vec<String>,
}

/// The words of a text read so far (`str::split_whitespace`): the
/// finished words, and the word being read.
pub open spec fn words_acc(s: Seq<char>) -> (Seq<Seq<char>>, Seq<char>)
    decreases s.len(),
{
    if s.len() == 0 {
        (Seq::empty(), Seq::empty())
    } else {
        let (done, cur) = words_acc(s.drop_last());
        if is_ws(s.last()) {
            if cur.len() > 0 {
                (done.push(cur), Seq::empty())
            } else {
                (done, cur)
            }
        } else {
            (done, cur.push(s.last()))
        }
    }
}

/// The words of a text: its maximal runs of non-whitespace characters,
/// in order.
pub open spec fn words(s: Seq<char>) -> Seq<Seq<char>> {
    let (done, cur) = words_acc(s);
    if cur.len() > 0 {
        done.push(cur)
    } else {
        done
    }
}

/// The index of the first `c` in `t`, if any.
pub open spec fn first_index(t: Seq<char>, c: char) -> Option<int>
    decreases t.len(),
{
    if t.len() == 0 {
        None
    } else {
        match first_index(t.drop_last(), c) {
            Some(i) => Some(i),
            None => if t.last() == c {
                Some(t.len() - 1)
            } else {
                None
            },
        }
    }
}

/// Whether a trimmed line carries no tune: it is empty, a comment (`;`
/// or `#`) or a section header (`[`).
pub open spec fn is_skipped(t: Seq<char>) -> bool {
    t.len() == 0 || t[0] == ';' || t[0] == '#' || t[0] == '['
}

/// What a line of the database gives: for a trimmed line that is not
/// skipped and has a `=` with exactly 32 bytes before it, that text and
/// the words after the `=`.
pub open spec fn song_length_line(line: Seq<char>) -> Option<(Seq<char>, Seq<Seq<char>>)> {
    let t = trim(line);
    if is_skipped(t) {
        None
    } else {
        match first_index(t, '=') {
            Some(e) => if utf8_len(t.subrange(0, e)) == 32 {
                Some((t.subrange(0, e), words(t.subrange(e + 1, t.len() as int))))
            } else {
                None
            },
            None => None,
        }
    }
}

/// The tunes of the database's lines, in order.
pub open spec fn song_length_entries(lines: Seq<Seq<char>>) -> Seq<(Seq<char>, Seq<Seq<char>>)>
    decreases lines.len(),
{
    if lines.len() == 0 {
        Seq::empty()
    } else {
        let rest = song_length_entries(lines.drop_last());
        match song_length_line(lines.last()) {
            Some(x) => rest.push(x),
            None => rest,
        }
    }
}

/// The texts of a line.
pub open spec fn line_view(l: SongLengthLine) -> (Seq<char>, Seq<Seq<char>>) {
    (l.md5@, str_views(l.times@))
}

proof fn lemma_first_index_none(t: Seq<char>, c: char)
    requires
        forall|j: int| 0 <= j < t.len() ==> t[j] != c,
    ensures
        first_index(t, c) is None,
    decreases t.len(),
{
    if t.len() > 0 {
        lemma_first_index_none(t.drop_last(), c);
    }
}

proof fn lemma_first_index_some(t: Seq<char>, c: char, e: int)
    requires
        0 <= e < t.len(),
        t[e] == c,
        forall|j: int| 0 <= j < e ==> t[j] != c,
    ensures
        first_index(t, c) == Some(e),
    decreases t.len(),
{
    if e < t.len() - 1 {
        lemma_first_index_some(t.drop_last(), c, e);
    } else {
        lemma_first_index_none(t.drop_last(), c);
    }
}

/// Whether the UTF-8 encoding of the characters is `n` bytes long.
fn utf8_len_is(v: &Vec<char>, n: u64) -> (b: bool)
    requires
        n <= 0x1_0000,
    ensures
        b == (utf8_len(v@) == n),
{
    let mut total: u64 = 0;
    let mut i: usize = 0;
    while i < v.len()
        invariant
            i <= v.len(),
            n <= 0x1_0000,
            total == if utf8_len(v@.take(i as int)) > n {
                n + 1
            } else {
                utf8_len(v@.take(i as int)) as int
            },
        decreases v.len() - i,
    {
        assert(v@.take(i + 1).drop_last() =~= v@.take(i as int));
        let w = utf8_width_of(v[i]);
        if total + w > n {
            total = n + 1;
        } else {
            total = total + w;
        }
        i = i + 1;
    }
    assert(v@.take(v.len() as int) =~= v@);
    total == n
}

/// The words of the characters (`str::split_whitespace`).
fn split_words(v: &Vec<char>) -> (r: Vec<String>)
    ensures
        str_views(r@) == words(v@),
{
    let mut out: Vec<String> = Vec::new();
    let mut cur: Vec<char> = Vec::new();
    let mut i: usize = 0;
    while i < v.len()
        invariant
            i <= v.len(),
            str_views(out@) == words_acc(v@.take(i as int)).0,
            cur@ == words_acc(v@.take(i as int)).1,
        decreases v.len() - i,
    {
        assert(v@.take(i + 1).drop_last() =~= v@.take(i as int));
        if is_whitespace(v[i]) {
            if cur.len() > 0 {
                let ghost before = out@;
                out.push(string_from_chars(&cur));
                assert(str_views(out@) =~= str_views(before).push(cur@));
                cur = Vec::new();
            }
        } else {
            cur.push(v[i]);
        }
        i = i + 1;
    }
    assert(v@.take(v.len() as int) =~= v@);
    if cur.len() > 0 {
        let ghost before = out@;
        out.push(string_from_chars(&cur));
        assert(str_views(out@) =~= str_views(before).push(cur@));
    }
    out
}

/// Reads one line of the database (see `song_length_line`).
pub fn read_song_length_line(line: &Vec<char>) -> (r: Option<SongLengthLine>)
    ensures
        match r {
            Some(l) => song_length_line(line@) == Some(line_view(l)),
            None => song_length_line(line@) is None,
        },
{
    let t = trim_chars(line);
    if t.len() == 0 || t[0] == ';' || t[0] == '#' || t[0] == '[' {
        return None;
    }
    match find_char(&t, '=') {
        None => {
            proof {
                lemma_first_index_none(t@, '=');
            }
            None
        },
        Some(e) => {
            proof {
                lemma_first_index_some(t@, '=', e as int);
            }
            let md5 = sub_chars(&t, 0, e);
            if !utf8_len_is(&md5, 32) {
                return None;
            }
            let rest = sub_chars(&t, e + 1, t.len());
            let times = split_words(&rest);
            Some(SongLengthLine { md5: string_from_chars(&md5), times })
        },
    }
}

/// The tunes of a song-length database, in file order: each line (see
/// `str::lines`; a line's trailing `\r` goes with its trimming) read by
/// `read_song_length_line`, the lines that carry no tune left out.
pub fn song_length_lines(content: &str) -> (r: Vec<SongLengthLine>)
    ensures
        r@.map_values(|l: SongLengthLine| line_view(l)) == song_length_entries(
            split_on(content@, '\n'),
        ),
{
    let cs = chars_of(content);
    let mut out: Vec<SongLengthLine> = Vec::new();
    let mut cur: Vec<char> = Vec::new();
    let mut i: usize = 0;
    while i < cs.len()
        invariant
            i <= cs.len(),
            cs@ == content@,
            out@.map_values(|l: SongLengthLine| line_view(l)) == song_length_entries(
                split_acc(cs@.take(i as int), '\n').0,
            ),
            cur@ == split_acc(cs@.take(i as int), '\n').1,
        decreases cs.len() - i,
    {
        assert(cs@.take(i + 1).drop_last() =~= cs@.take(i as int));
        if cs[i] == '\n' {
            let ghost pieces = split_acc(cs@.take(i as int), '\n').0;
            assert(pieces.push(cur@).drop_last() =~= pieces);
            match read_song_length_line(&cur) {
                Some(l) => {
                    let ghost before = out@;
                    out.push(l);
                    assert(out@.map_values(|l: SongLengthLine| line_view(l)) =~= before.map_values(
                        |l: SongLengthLine| line_view(l),
                    ).push(line_view(l)));
                },
                None => {},
            }
            cur = Vec::new();
        } else {
            cur.push(cs[i]);
        }
        i = i + 1;
    }
    assert(cs@.take(cs.len() as int) =~= cs@);
    let ghost pieces = split_acc(cs@, '\n').0;
    assert(pieces.push(cur@).drop_last() =~= pieces);
    match read_song_length_line(&cur) {
        Some(l) => {
            let ghost before = out@;
            out.push(l);
            assert(out@.map_values(|l: SongLengthLine| line_view(l)) =~= before.map_values(
                |l: SongLengthLine| line_view(l),
            ).push(line_view(l)));
        },
        None => {},
    }
    out
}

} // verus!
