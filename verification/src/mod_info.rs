//! Amiga MOD file parser: module name, author (if one is found in the
//! sample names) and an approximate play duration.
use vstd::prelude::*;
use crate::text::{
    char_is_numeric, chars_of, contains_seq, find_char, find_seq, is_ascii_seq, lower_char,
    lower_seq, occurs_at, rfind_char, string_from_chars, sub_chars, to_lowercase, trim, trim_chars,
    unicode_lowercase, unicode_numeric,
};

verus! {

/// MOD file information.
#[derive(Debug, Clone)]
pub struct ModInfo {
    pub name: String,
    pub author: Option<String>,
    pub duration_seconds: u32,
}

/// Smallest size of a MOD file (header plus format tag).
pub const MOD_HEADER_SIZE: usize = 1084;

/// Offset of the song length byte.
pub const SONG_LENGTH_OFFSET: usize = 950;

/// Offset of the 128-entry pattern order table.
pub const PATTERN_TABLE_OFFSET: usize = 952;

/// Offset of the 4-byte format tag.
pub const FORMAT_ID_OFFSET: usize = 1080;

/// The view of an optional string.
pub open spec fn opt_view(o: Option<String>) -> Option<Seq<char>> {
    match o {
        Some(s) => Some(s@),
        None => None,
    }
}

/// Printable ASCII characters (`32..127`) of `data` up to its first NUL byte.
pub open spec fn printable_prefix(data: Seq<u8>) -> Seq<char>
    decreases data.len(),
{
    if data.len() == 0 || data[0] == 0 {
        Seq::empty()
    } else {
        let rest = printable_prefix(data.drop_first());
        if 32 <= data[0] && data[0] < 127 {
            seq![data[0] as char] + rest
        } else {
            rest
        }
    }
}

/// A NUL-terminated ASCII string of a MOD header: its printable characters
/// up to the first NUL, trimmed.
pub open spec fn mod_string(data: Seq<u8>) -> Seq<char> {
    trim(printable_prefix(data))
}

proof fn lemma_printable_prefix_step(data: Seq<u8>, i: int)
    requires
        0 <= i < data.len(),
        forall|j: int| 0 <= j < i ==> data[j] != 0,
    ensures
        printable_prefix(data) == printable_prefix(data.take(i)) + printable_prefix(
            data.skip(i),
        ),
    decreases i,
{
    if i == 0 {
        assert(data.take(0) =~= Seq::<u8>::empty());
        assert(data.skip(0) =~= data);
    } else {
        lemma_printable_prefix_step(data.drop_first(), i - 1);
        assert(data.take(i).drop_first() =~= data.drop_first().take(i - 1));
        assert(data.drop_first().skip(i - 1) =~= data.skip(i));
    }
}

/// Read a NUL-terminated ASCII string, keeping printable characters only.
pub fn read_string(data: &[u8]) -> (s: String)
    ensures
        s@ == mod_string(data@),
        is_ascii_seq(s@),
{
    let mut out: Vec<char> = Vec::new();
    let mut i: usize = 0;
    assert(data@.skip(0) =~= data@);
    assert(out@ + printable_prefix(data@) =~= printable_prefix(data@));
    while i < data.len() && data[i] != 0
        invariant
            i <= data@.len(),
            forall|j: int| 0 <= j < i ==> data@[j] != 0,
            printable_prefix(data@) == out@ + printable_prefix(data@.skip(i as int)),
            is_ascii_seq(out@),
        decreases data@.len() - i,
    {
        let b = data[i];
        proof {
            assert(data@.skip(i as int).drop_first() =~= data@.skip(i + 1));
        }
        if 32 <= b && b < 127 {
            out.push(b as char);
            proof {
                assert(out@ + printable_prefix(data@.skip(i + 1)) =~= out@.drop_last() + (
                seq![b as char] + printable_prefix(data@.skip(i + 1))));
            }
        }
        i = i + 1;
    }
    assert(printable_prefix(data@.skip(i as int)) == Seq::<char>::empty());
    assert(out@ + Seq::<char>::empty() =~= out@);
    let t = trim_chars(&out);
    proof {
        let (lo, hi) = choose|lo: int, hi: int| 0 <= lo <= hi <= out@.len() && t@ == out@.subrange(lo, hi);
        assert forall|k: int| 0 <= k < t@.len() implies (#[trigger] t@[k] as u32) < 0x80 by {
            assert(t@[k] == out@[lo + k]);
        }
    }
    string_from_chars(&t)
}

/// The channel count a 4-byte MOD format tag stands for.
pub open spec fn channels_of(id: Seq<u8>) -> u8 {
    if id == seq![0x4Du8, 0x2Eu8, 0x4Bu8, 0x2Eu8] || id == seq![0x4Du8, 0x21u8, 0x4Bu8, 0x21u8] || id == seq![
        0x46u8,
        0x4Cu8,
        0x54u8,
        0x34u8,
    ] || id == seq![0x34u8, 0x43u8, 0x48u8, 0x4Eu8] {
        4
    } else if id == seq![0x36u8, 0x43u8, 0x48u8, 0x4Eu8] {
        6
    } else if id == seq![0x38u8, 0x43u8, 0x48u8, 0x4Eu8] || id == seq![0x46u8, 0x4Cu8, 0x54u8, 0x38u8] || id
        == seq![0x4Fu8, 0x43u8, 0x54u8, 0x41u8] {
        8
    } else if id == seq![0x43u8, 0x44u8, 0x38u8, 0x31u8] || id == seq![0x54u8, 0x44u8, 0x5Au8, 0x31u8] {
        1
    } else if id == seq![0x32u8, 0x43u8, 0x48u8, 0x4Eu8] || id == seq![0x54u8, 0x44u8, 0x5Au8, 0x32u8] {
        2
    } else if id == seq![0x54u8, 0x44u8, 0x5Au8, 0x33u8] {
        3
    } else if id[2] == 0x43u8 && (id[3] == 0x48u8 || id[3] == 0x4Eu8) {
        (digit_value(id[0]) * 10 + digit_value(id[1])) as u8
    } else {
        4
    }
}

/// The value of an ASCII decimal digit, 0 for any other byte.
pub open spec fn digit_value(b: u8) -> int {
    if 0x30u8 <= b && b <= 0x39u8 {
        (b - 0x30u8) as int
    } else {
        0
    }
}

fn tag_is(id: &[u8], a: u8, b: u8, c: u8, d: u8) -> (r: bool)
    requires
        id@.len() == 4,
    ensures
        r == (id@ == seq![a, b, c, d]),
{
    let r = id[0] == a && id[1] == b && id[2] == c && id[3] == d;
    if r {
        assert(id@ =~= seq![a, b, c, d]);
    }
    r
}

fn digit_of(b: u8) -> (v: u8)
    ensures
        v == digit_value(b),
{
    if 0x30u8 <= b && b <= 0x39u8 {
        b - 0x30u8
    } else {
        0
    }
}

/// Detect the number of channels from the format identifier.
pub fn detect_channels(format_id: &[u8]) -> (n: u8)
    requires
        format_id@.len() >= 4,
    ensures
        format_id@.len() == 4 ==> n == channels_of(format_id@),
        format_id@.len() > 4 ==> n == (if format_id@[2] == 0x43u8 && (format_id@[3] == 0x48u8
            || format_id@[3] == 0x4Eu8) {
            (digit_value(format_id@[0]) * 10 + digit_value(format_id@[1])) as u8
        } else {
            4u8
        }),
{
    if format_id.len() == 4 {
        if tag_is(format_id, 0x4Du8, 0x2Eu8, 0x4Bu8, 0x2Eu8) || tag_is(format_id, 0x4Du8, 0x21u8, 0x4Bu8, 0x21u8)
            || tag_is(format_id, 0x46u8, 0x4Cu8, 0x54u8, 0x34u8) || tag_is(format_id, 0x34u8, 0x43u8, 0x48u8, 0x4Eu8) {
            return 4;
        } else if tag_is(format_id, 0x36u8, 0x43u8, 0x48u8, 0x4Eu8) {
            return 6;
        } else if tag_is(format_id, 0x38u8, 0x43u8, 0x48u8, 0x4Eu8) || tag_is(format_id, 0x46u8, 0x4Cu8, 0x54u8, 0x38u8)
            || tag_is(format_id, 0x4Fu8, 0x43u8, 0x54u8, 0x41u8) {
            return 8;
        } else if tag_is(format_id, 0x43u8, 0x44u8, 0x38u8, 0x31u8) || tag_is(format_id, 0x54u8, 0x44u8, 0x5Au8, 0x31u8) {
            return 1;
        } else if tag_is(format_id, 0x32u8, 0x43u8, 0x48u8, 0x4Eu8) || tag_is(format_id, 0x54u8, 0x44u8, 0x5Au8, 0x32u8) {
            return 2;
        } else if tag_is(format_id, 0x54u8, 0x44u8, 0x5Au8, 0x33u8) {
            return 3;
        }
    }
    if format_id[2] == 0x43u8 && (format_id[3] == 0x48u8 || format_id[3] == 0x4Eu8) {
        let tens = digit_of(format_id[0]);
        let ones = digit_of(format_id[1]);
        return tens * 10 + ones;
    }
    4
}

/// The index of the first occurrence of `pat` in `s` (when there is one).
pub open spec fn first_occurrence(s: Seq<char>, pat: Seq<char>) -> int {
    choose|i: int| occurs_at(s, pat, i) && forall|j: int| 0 <= j < i ==> !occurs_at(s, pat, j)
}

/// The index of the first `c` in `s` (when there is one).
pub open spec fn first_index_of(s: Seq<char>, c: char) -> int {
    choose|i: int| 0 <= i < s.len() && s[i] == c && forall|j: int| 0 <= j < i ==> s[j] != c
}

/// The index of the last `c` in `s` (when there is one).
pub open spec fn last_index_of(s: Seq<char>, c: char) -> int {
    choose|i: int| 0 <= i < s.len() && s[i] == c && forall|j: int| i < j < s.len() ==> s[j] != c
}

/// Whether `c` occurs in `s`.
pub open spec fn has_char(s: Seq<char>, c: char) -> bool {
    exists|i: int| 0 <= i < s.len() && s[i] == c
}

/// The number of bytes UTF-8 uses for a character.
pub open spec fn utf8_width(c: char) -> nat {
    let n = c as u32;
    if n < 0x80 {
        1
    } else if n < 0x800 {
        2
    } else if n < 0x10000 {
        3
    } else {
        4
    }
}

/// The length in bytes of the UTF-8 encoding of `s` (`str::len`).
pub open spec fn utf8_len(s: Seq<char>) -> nat
    decreases s.len(),
{
    if s.len() == 0 {
        0
    } else {
        utf8_len(s.drop_last()) + utf8_width(s.last())
    }
}

proof fn lemma_utf8_len_at_least(s: Seq<char>)
    ensures
        utf8_len(s) >= s.len(),
    decreases s.len(),
{
    if s.len() > 0 {
        lemma_utf8_len_at_least(s.drop_last());
    }
}

proof fn lemma_utf8_len_at_most(s: Seq<char>)
    ensures
        utf8_len(s) <= 4 * s.len(),
    decreases s.len(),
{
    if s.len() > 0 {
        lemma_utf8_len_at_most(s.drop_last());
    }
}

proof fn lemma_utf8_len_ascii(s: Seq<char>)
    requires
        is_ascii_seq(s),
    ensures
        utf8_len(s) == s.len(),
    decreases s.len(),
{
    if s.len() > 0 {
        lemma_utf8_len_ascii(s.drop_last());
    }
}

/// Longer prefixes take more bytes.
proof fn lemma_utf8_prefix_grows(t: Seq<char>, k: int, k2: int)
    requires
        0 <= k < k2 <= t.len(),
    ensures
        utf8_len(t.take(k)) < utf8_len(t.take(k2)),
    decreases k2 - k,
{
    assert(t.take(k2).drop_last() =~= t.take(k2 - 1));
    if k < k2 - 1 {
        lemma_utf8_prefix_grows(t, k, k2 - 1);
    }
}

proof fn lemma_chars_in_bytes(t: Seq<char>, b: nat)
    ensures
        match chars_in_bytes(t, b) {
            Some(k) => 0 <= k <= t.len() && utf8_len(t.take(k)) == b,
            None => forall|k: int| 0 <= k <= t.len() ==> utf8_len(#[trigger] t.take(k)) != b,
        },
    decreases t.len(),
{
    assert(t.take(t.len() as int) =~= t);
    if utf8_len(t) == b {
    } else if t.len() == 0 {
        assert forall|k: int| 0 <= k <= t.len() implies utf8_len(#[trigger] t.take(k)) != b by {
            assert(t.take(k) =~= t);
        }
    } else {
        let u = t.drop_last();
        lemma_chars_in_bytes(u, b);
        assert forall|k: int| 0 <= k <= u.len() implies #[trigger] u.take(k) == t.take(k) by {
            assert(u.take(k) =~= t.take(k));
        }
        if chars_in_bytes(u, b) is None {
            assert forall|k: int| 0 <= k <= t.len() implies utf8_len(#[trigger] t.take(k)) != b by {
                if k < t.len() {
                    assert(u.take(k) == t.take(k));
                }
            }
        }
    }
}

/// The number of leading characters of `t` whose UTF-8 encoding is `b`
/// bytes long, where there is such a prefix (`b` is a character boundary).
pub open spec fn chars_in_bytes(t: Seq<char>, b: nat) -> Option<int>
    decreases t.len(),
{
    if utf8_len(t) == b {
        Some(t.len() as int)
    } else if t.len() == 0 {
        None
    } else {
        chars_in_bytes(t.drop_last(), b)
    }
}

/// The byte offset just past the first `"by "` of the lower-cased text.
pub open spec fn by_offset(t: Seq<char>) -> nat {
    let l = unicode_lowercase(t);
    utf8_len(l.take(first_occurrence(l, seq!['b', 'y', ' ']))) + 3
}

/// Whether the text, cut at the byte offset found in its lower-cased form,
/// is cut at a character boundary (so that the cut can be made).
pub open spec fn by_cut_ok(t: Seq<char>) -> bool {
    contains_seq(unicode_lowercase(t), seq!['b', 'y', ' ']) ==> chars_in_bytes(t, by_offset(t)) is Some
}

/// Pattern "by author": the first `"by "` is looked for in the Unicode
/// lower-cased text; the text itself is cut at that byte offset plus three,
/// and the trimmed rest is the author when it is at least two bytes long.
pub open spec fn author_by(t: Seq<char>) -> Option<Seq<char>> {
    if contains_seq(unicode_lowercase(t), seq!['b', 'y', ' ']) {
        match chars_in_bytes(t, by_offset(t)) {
            Some(k) => {
                let a = trim(t.skip(k));
                if utf8_len(a) >= 2 {
                    Some(a)
                } else {
                    None
                }
            },
            None => None,
        }
    } else {
        None
    }
}

/// Pattern "<sep> author": the trimmed text after the last `sep`, when it is
/// at least two bytes long and not all numeric.
pub open spec fn author_after(t: Seq<char>, sep: char) -> Option<Seq<char>> {
    if has_char(t, sep) {
        let a = trim(t.skip(last_index_of(t, sep) + 1));
        if utf8_len(a) >= 2 && !(forall|i: int| 0 <= i < a.len() ==> unicode_numeric(a[i])) {
            Some(a)
        } else {
            None
        }
    } else {
        None
    }
}

/// Pattern "(author)": the trimmed text between the first `(` and the first
/// `)`, when the `)` lies more than two bytes (of UTF-8) after the `(` and
/// the trimmed text is not empty.
pub open spec fn author_paren(t: Seq<char>) -> Option<Seq<char>> {
    if has_char(t, '(') && has_char(t, ')') {
        let start = first_index_of(t, '(');
        let end = first_index_of(t, ')');
        if end > start && utf8_len(t.subrange(start, end)) > 2 {
            let a = trim(t.subrange(start + 1, end));
            if a.len() > 0 {
                Some(a)
            } else {
                None
            }
        } else {
            None
        }
    } else {
        None
    }
}

/// The author named in a text, trying "by", then `/`, `-`, `|`, then
/// parentheses.
#[verifier::opaque]
pub open spec fn author_in(t: Seq<char>) -> Option<Seq<char>> {
    if author_by(t) is Some {
        author_by(t)
    } else if author_after(t, '/') is Some {
        author_after(t, '/')
    } else if author_after(t, '-') is Some {
        author_after(t, '-')
    } else if author_after(t, '|') is Some {
        author_after(t, '|')
    } else {
        author_paren(t)
    }
}

fn at_least_two_bytes(v: &Vec<char>) -> (b: bool)
    ensures
        b == (utf8_len(v@) >= 2),
{
    proof {
        lemma_utf8_len_at_least(v@);
        if v@.len() == 1 {
            assert(v@.drop_last() =~= Seq::<char>::empty());
            assert(utf8_len(v@.drop_last()) == 0);
            assert(utf8_len(v@) == utf8_width(v@[0]));
        }
    }
    if v.len() >= 2 {
        true
    } else if v.len() == 1 {
        (v[0] as u32) >= 0x80
    } else {
        false
    }
}

fn after_sep(chars: &Vec<char>, sep: char) -> (r: Option<String>)
    ensures
        opt_view(r) == author_after(chars@, sep),
{
    match rfind_char(chars, sep) {
        Some(pos) => {
            assert(has_char(chars@, sep));
            let ghost li = last_index_of(chars@, sep);
            assert(li == pos) by {
                if li < pos {
                } else if li > pos {
                }
            }
            let tail = sub_chars(chars, pos + 1, chars.len());
            assert(tail@ =~= chars@.skip(pos + 1));
            let author = trim_chars(&tail);
            if at_least_two_bytes(&author) {
                let mut all_num = true;
                let mut i: usize = 0;
                while i < author.len()
                    invariant
                        i <= author.len(),
                        all_num == (forall|j: int| 0 <= j < i ==> unicode_numeric(author@[j])),
                    decreases author.len() - i,
                {
                    if !char_is_numeric(author[i]) {
                        all_num = false;
                    }
                    i = i + 1;
                }
                if !all_num {
                    return Some(string_from_chars(&author));
                }
            }
            None
        },
        None => {
            assert(!has_char(chars@, sep));
            None
        },
    }
}

/// A first occurrence exists wherever an occurrence does.
proof fn lemma_first_occurrence_from(s: Seq<char>, pat: Seq<char>, i: int)
    requires
        occurs_at(s, pat, i),
    ensures
        occurs_at(s, pat, first_occurrence(s, pat)),
        forall|j: int| 0 <= j < first_occurrence(s, pat) ==> !occurs_at(s, pat, j),
    decreases i,
{
    if exists|j: int| 0 <= j < i && occurs_at(s, pat, j) {
        let j = choose|j: int| 0 <= j < i && occurs_at(s, pat, j);
        lemma_first_occurrence_from(s, pat, j);
    } else {
        assert(occurs_at(s, pat, i) && forall|j: int| 0 <= j < i ==> !occurs_at(s, pat, j));
    }
}

/// On ASCII text, whose Unicode lower-casing is its ASCII lower-casing,
/// the `"by "` cut always falls on a character boundary.
proof fn lemma_by_cut_ascii(t: Seq<char>)
    requires
        is_ascii_seq(t),
        unicode_lowercase(t) == lower_seq(t),
    ensures
        by_cut_ok(t),
{
    let l = unicode_lowercase(t);
    let by = seq!['b', 'y', ' '];
    if contains_seq(l, by) {
        let i0 = choose|i: int| occurs_at(l, by, i);
        lemma_first_occurrence_from(l, by, i0);
        let i = first_occurrence(l, by);
        assert(is_ascii_seq(l.take(i))) by {
            assert forall|k: int| 0 <= k < l.take(i).len() implies (#[trigger] l.take(i)[k] as u32) < 0x80 by {
                assert(l.take(i)[k] == lower_char(t[k]));
            }
        }
        lemma_utf8_len_ascii(l.take(i));
        assert(is_ascii_seq(t.take(i + 3))) by {
            assert forall|k: int| 0 <= k < t.take(i + 3).len() implies (#[trigger] t.take(i + 3)[k] as u32) < 0x80 by {
                assert(t.take(i + 3)[k] == t[k]);
            }
        }
        lemma_utf8_len_ascii(t.take(i + 3));
        lemma_chars_in_bytes(t, by_offset(t));
    }
}

/// The number of UTF-8 bytes of the first `n` characters.
fn utf8_prefix_len(v: &Vec<char>, n: usize) -> (b: u128)
    requires
        n <= v@.len(),
    ensures
        b == utf8_len(v@.take(n as int)),
        b <= 4 * n,
{
    let mut total: u128 = 0;
    let mut i: usize = 0;
    while i < n
        invariant
            i <= n <= v@.len(),
            total == utf8_len(v@.take(i as int)),
            total <= 4 * i,
        decreases n - i,
    {
        assert(v@.take(i + 1).drop_last() =~= v@.take(i as int));
        let w = utf8_width_of(v[i]);
        total = total + w as u128;
        i = i + 1;
    }
    total
}

/// The number of leading characters that take `b` bytes (see
/// `chars_in_bytes`).
fn char_index_at_byte(v: &Vec<char>, b: u128) -> (r: Option<usize>)
    requires
        b <= 0x1_0000_0000_0000_0000_0000,
    ensures
        r matches Some(k) ==> chars_in_bytes(v@, b as nat) == Some(k as int) && k <= v@.len(),
        r is None ==> chars_in_bytes(v@, b as nat) is None,
{
    proof {
        lemma_chars_in_bytes(v@, b as nat);
    }
    let mut total: u128 = 0;
    let mut i: usize = 0;
    loop
        invariant
            i <= v@.len(),
            total == utf8_len(v@.take(i as int)),
            total < b + 4,
            b <= 0x1_0000_0000_0000_0000_0000,
            forall|k: int| 0 <= k < i ==> utf8_len(#[trigger] v@.take(k)) < b,
            match chars_in_bytes(v@, b as nat) {
                Some(k) => 0 <= k <= v@.len() && utf8_len(v@.take(k)) == b,
                None => forall|k: int| 0 <= k <= v@.len() ==> utf8_len(#[trigger] v@.take(k)) != b,
            },
        decreases v@.len() - i,
    {
        if total == b {
            proof {
                if let Some(k) = chars_in_bytes(v@, b as nat) {
                    if k < i {
                    } else if k > i {
                        lemma_utf8_prefix_grows(v@, i as int, k);
                    }
                }
            }
            return Some(i);
        }
        if total > b || i == v.len() {
            proof {
                if let Some(k) = chars_in_bytes(v@, b as nat) {
                    if k > i {
                        lemma_utf8_prefix_grows(v@, i as int, k);
                    }
                }
            }
            return None;
        }
        assert(v@.take(i + 1).drop_last() =~= v@.take(i as int));
        let w = utf8_width_of(v[i]);
        total = total + w as u128;
        i = i + 1;
    }
}

/// The author found with the pattern "by author" (see `author_by`), given
/// the Unicode lower-casing of the text.
fn author_by_of(chars: &Vec<char>, lower: &Vec<char>) -> (r: Option<String>)
    requires
        lower@ == unicode_lowercase(chars@),
        by_cut_ok(chars@),
    ensures
        opt_view(r) == author_by(chars@),
{
    let by = vec!['b', 'y', ' '];
    assert(by@ =~= seq!['b', 'y', ' ']);
    match find_seq(lower, &by) {
        Some(pos) => {
            let ghost fo = first_occurrence(lower@, by@);
            assert(fo == pos) by {
                if fo < pos {
                } else if fo > pos {
                }
            }
            let prefix = utf8_prefix_len(lower, pos);
            match char_index_at_byte(chars, prefix + 3) {
                Some(k) => {
                    let tail = sub_chars(chars, k, chars.len());
                    assert(tail@ =~= chars@.skip(k as int));
                    let author = trim_chars(&tail);
                    if at_least_two_bytes(&author) {
                        Some(string_from_chars(&author))
                    } else {
                        None
                    }
                },
                None => None,
            }
        },
        None => None,
    }
}

/// The author named in a text, given the Unicode lower-casing of the
/// text (see `author_in`).
fn author_of(chars: &Vec<char>, lower: &Vec<char>) -> (r: Option<String>)
    requires
        lower@ == unicode_lowercase(chars@),
        by_cut_ok(chars@),
    ensures
        opt_view(r) == author_in(chars@),
{
    reveal(author_in);
    let by_author = author_by_of(chars, lower);
    if by_author.is_some() {
        return by_author;
    }
    let r = after_sep(&chars, '/');
    if r.is_some() {
        return r;
    }
    let r = after_sep(&chars, '-');
    if r.is_some() {
        return r;
    }
    let r = after_sep(&chars, '|');
    if r.is_some() {
        return r;
    }
    match (find_char(&chars, '('), find_char(&chars, ')')) {
        (Some(start), Some(end)) => {
            assert(has_char(chars@, '(') && has_char(chars@, ')'));
            let ghost s0 = first_index_of(chars@, '(');
            let ghost e0 = first_index_of(chars@, ')');
            assert(s0 == start) by {
                if s0 < start {
                } else if s0 > start {
                }
            }
            assert(e0 == end) by {
                if e0 < end {
                } else if e0 > end {
                }
            }
            if end > start && more_than_two_bytes(&chars, start, end) {
                let inner = sub_chars(&chars, start + 1, end);
                let author = trim_chars(&inner);
                if author.len() > 0 {
                    return Some(string_from_chars(&author));
                }
            }
            None
        },
        (s, e) => {
            assert(!(has_char(chars@, '(') && has_char(chars@, ')')));
            None
        },
    }
}

/// Extract an author from a text using common patterns ("by X", "/ X",
/// "- X", "| X", "(X)"). For "by", the text is cut at the byte offset
/// where `"by "` ends in its Unicode lower-casing; `requires` asks that
/// this offset fall on a character boundary of the text (it always does
/// for ASCII text).
pub fn extract_author(text: &str) -> (r: Option<String>)
    requires
        by_cut_ok(text@),
    ensures
        opt_view(r) == author_in(text@),
{
    let chars = chars_of(text);
    let lower = chars_of(to_lowercase(text).as_str());
    author_of(&chars, &lower)
}

/// Whether the `"by "` cut of a text falls on a character boundary (see
/// `by_cut_ok`), given the Unicode lower-casing of the text.
fn by_cut_fits(chars: &Vec<char>, lower: &Vec<char>) -> (b: bool)
    requires
        lower@ == unicode_lowercase(chars@),
    ensures
        b == by_cut_ok(chars@),
{
    let by = vec!['b', 'y', ' '];
    assert(by@ =~= seq!['b', 'y', ' ']);
    match find_seq(lower, &by) {
        Some(pos) => {
            let ghost fo = first_occurrence(lower@, by@);
            assert(fo == pos) by {
                if fo < pos {
                } else if fo > pos {
                }
            }
            let prefix = utf8_prefix_len(lower, pos);
            char_index_at_byte(chars, prefix + 3).is_some()
        },
        None => true,
    }
}

/// The author named in a text (see `extract_author`), or `None` where the
/// `"by "` cut would fall inside a character of the text.
pub fn checked_author(text: &str) -> (r: Option<Option<String>>)
    ensures
        r is None <==> !by_cut_ok(text@),
        r matches Some(a) ==> opt_view(a) == author_in(text@),
{
    let lowered = to_lowercase(text);
    let chars = chars_of(text);
    let lower = chars_of(lowered.as_str());
    if by_cut_fits(&chars, &lower) {
        Some(extract_author(text))
    } else {
        None
    }
}

/// The author of an ASCII text (see `author_in`).
fn ascii_author(text: &str) -> (r: Option<String>)
    requires
        is_ascii_seq(text@),
    ensures
        opt_view(r) == author_in(text@),
{
    let lowered = to_lowercase(text);
    proof {
        lemma_by_cut_ascii(text@);
    }
    let chars = chars_of(text);
    let lower = chars_of(lowered.as_str());
    author_of(&chars, &lower)
}

/// The number of bytes UTF-8 uses for a character.
pub(crate) fn utf8_width_of(c: char) -> (n: u64)
    ensures
        n == utf8_width(c),
{
    let v = c as u32;
    if v < 0x80 {
        1
    } else if v < 0x800 {
        2
    } else if v < 0x10000 {
        3
    } else {
        4
    }
}

/// Whether the characters from `lo` up to `hi` take more than two bytes of
/// UTF-8.
fn more_than_two_bytes(v: &Vec<char>, lo: usize, hi: usize) -> (b: bool)
    requires
        lo <= hi <= v@.len(),
    ensures
        b == (utf8_len(v@.subrange(lo as int, hi as int)) > 2),
{
    let mut total: u64 = 0;
    let mut i: usize = lo;
    assert(v@.subrange(lo as int, lo as int) =~= Seq::<char>::empty());
    while i < hi
        invariant
            lo <= i <= hi <= v@.len(),
            total == if utf8_len(v@.subrange(lo as int, i as int)) > 3 {
                3
            } else {
                utf8_len(v@.subrange(lo as int, i as int))
            },
        decreases hi - i,
    {
        assert(v@.subrange(lo as int, i + 1).drop_last() =~= v@.subrange(lo as int, i as int));
        let w = utf8_width_of(v[i]);
        total = if total + w > 3 {
            3
        } else {
            total + w
        };
        i = i + 1;
    }
    total > 2
}

} // verus!

verus! {

/// Offset of the first sample header.
pub const SAMPLE_HEADER_START: usize = 20;

/// Size of one sample header.
pub const SAMPLE_HEADER_SIZE: usize = 30;

/// Length of a sample name.
pub const SAMPLE_NAME_LENGTH: usize = 22;

/// Length of the module name.
pub const MOD_NAME_LENGTH: usize = 20;

/// The author found in the names of the first five samples (stopping at the
/// first sample header that does not fit in `data`), starting at sample `i`.
pub open spec fn sample_author(data: Seq<u8>, i: nat) -> Option<Seq<char>>
    decreases 5 - i,
{
    if i >= 5 {
        None
    } else {
        let off = 20 + 30 * i;
        if off + 22 > data.len() {
            None
        } else {
            match author_in(mod_string(data.subrange(off as int, off + 22int))) {
                Some(a) => Some(a),
                None => sample_author(data, i + 1),
            }
        }
    }
}

/// The author of a module: from the first sample names, else from the
/// module name.
pub open spec fn mod_author(data: Seq<u8>) -> Option<Seq<char>> {
    match sample_author(data, 0) {
        Some(a) => Some(a),
        None => author_in(mod_string(data.subrange(0, 20))),
    }
}

/// Try to find the author in the sample names, then in the module name.
pub fn find_author(data: &[u8]) -> (r: Option<String>)
    requires
        data@.len() >= 20,
    ensures
        opt_view(r) == mod_author(data@),
{
    let mut i: usize = 0;
    while i < 5 && SAMPLE_HEADER_START + i * SAMPLE_HEADER_SIZE + SAMPLE_NAME_LENGTH <= data.len()
        invariant
            i <= 5,
            data@.len() >= 20,
            sample_author(data@, 0) == sample_author(data@, i as nat),
        decreases 5 - i,
    {
        let offset = SAMPLE_HEADER_START + i * SAMPLE_HEADER_SIZE;
        let name_bytes = crate::text::sub_bytes(data, offset, offset + SAMPLE_NAME_LENGTH);
        let sample_name = read_string(name_bytes.as_slice());
        let found = ascii_author(sample_name.as_str());
        if found.is_some() {
            return found;
        }
        i = i + 1;
    }
    assert(sample_author(data@, i as nat) == None::<Seq<char>>);
    let name_bytes = crate::text::sub_bytes(data, 0, MOD_NAME_LENGTH);
    let mod_name = read_string(name_bytes.as_slice());
    ascii_author(mod_name.as_str())
}

/// What one pattern contributes, scanning note `k` onwards (notes counted
/// row by row, `chans` per row): the rows played (`64`, or up to the first
/// pattern break `Dxx` / position jump `Bxx`) and the speed and tempo after
/// the `Fxx` commands met on the way.
pub open spec fn pattern_scan(
    data: Seq<u8>,
    off: int,
    chans: int,
    k: int,
    speed: int,
    tempo: int,
) -> (int, int, int)
    decreases 64 * chans - k,
{
    if chans <= 0 || k < 0 || k >= 64 * chans {
        (64, speed, tempo)
    } else {
        let note = off + 4 * k;
        if note + 3 >= data.len() {
            pattern_scan(data, off, chans, k + 1, speed, tempo)
        } else {
            let effect = data[note + 2] & 0x0F;
            let param = data[note + 3];
            if effect == 0x0F {
                if param > 0 && param < 0x20 {
                    pattern_scan(data, off, chans, k + 1, param as int, tempo)
                } else if param >= 0x20 {
                    pattern_scan(data, off, chans, k + 1, speed, param as int)
                } else {
                    pattern_scan(data, off, chans, k + 1, speed, tempo)
                }
            } else if effect == 0x0D || effect == 0x0B {
                (k / chans + 1, speed, tempo)
            } else {
                pattern_scan(data, off, chans, k + 1, speed, tempo)
            }
        }
    }
}

/// Rows played and final speed/tempo over the song positions `pos..song_len`
/// (`total` rows so far): a position whose pattern number is not below
/// `num_patterns`, or whose pattern data is not all in `data`, counts 64 rows.
pub open spec fn song_scan(
    data: Seq<u8>,
    song_len: int,
    num_patterns: int,
    chans: int,
    pos: int,
    total: int,
    speed: int,
    tempo: int,
) -> (int, int, int)
    decreases song_len - pos,
{
    if pos >= song_len || pos < 0 {
        (total, speed, tempo)
    } else {
        let p = data[952 + pos] as int;
        let size = 256 * chans;
        let off = 1084 + p * size;
        if p >= num_patterns || off + size > data.len() {
            song_scan(data, song_len, num_patterns, chans, pos + 1, total + 64, speed, tempo)
        } else {
            let r = pattern_scan(data, off, chans, 0, speed, tempo);
            song_scan(data, song_len, num_patterns, chans, pos + 1, total + r.0, r.1, r.2)
        }
    }
}

/// Duration in seconds (at least one) of `rows` rows at `speed` ticks per row
/// and `tempo` BPM: a row lasts `speed * 2500 / tempo` milliseconds.
pub open spec fn rows_duration(rows: int, speed: int, tempo: int) -> int {
    let ms = rows * ((speed * 2500) / tempo);
    if ms / 1000 >= 1 {
        ms / 1000
    } else {
        1
    }
}

/// Approximate song duration of a module.
pub open spec fn mod_duration(data: Seq<u8>, song_len: int, num_patterns: int, chans: int) -> int {
    let r = song_scan(data, song_len, num_patterns, chans, 0, 0, 6, 125);
    rows_duration(r.0, r.1, r.2)
}

proof fn lemma_pattern_scan_bounds(
    data: Seq<u8>,
    off: int,
    chans: int,
    k: int,
    speed: int,
    tempo: int,
)
    requires
        0 < speed < 32,
        1 <= tempo < 256,
        chans >= 0,
        0 <= k,
    ensures
        ({
            let r = pattern_scan(data, off, chans, k, speed, tempo);
            0 <= r.0 <= 64 && 0 < r.1 < 32 && 1 <= r.2 < 256
        }),
    decreases 64 * chans - k,
{
    if chans <= 0 || k >= 64 * chans {
    } else {
        let note = off + 4 * k;
        if note + 3 >= data.len() {
            lemma_pattern_scan_bounds(data, off, chans, k + 1, speed, tempo);
        } else {
            let effect = data[note + 2] & 0x0F;
            let param = data[note + 3];
            if effect == 0x0F {
                if param > 0 && param < 0x20 {
                    lemma_pattern_scan_bounds(data, off, chans, k + 1, param as int, tempo);
                } else if param >= 0x20 {
                    lemma_pattern_scan_bounds(data, off, chans, k + 1, speed, param as int);
                } else {
                    lemma_pattern_scan_bounds(data, off, chans, k + 1, speed, tempo);
                }
            } else if effect == 0x0D || effect == 0x0B {
                assert(k / chans < 64) by (nonlinear_arith)
                    requires
                        0 <= k < 64 * chans,
                        chans > 0,
                ;
            } else {
                lemma_pattern_scan_bounds(data, off, chans, k + 1, speed, tempo);
            }
        }
    }
}

/// Whether the note at index `k` of the pattern at `off` lies in the data
/// and carries a pattern break (`Dxx`) or a position jump (`Bxx`).
pub open spec fn breaks_at(data: Seq<u8>, off: int, k: int) -> bool {
    off + 4 * k + 3 < data.len() && (data[off + 4 * k + 2] & 0x0F == 0x0D || data[off + 4 * k
        + 2] & 0x0F == 0x0B)
}

proof fn lemma_break_rows(
    data: Seq<u8>,
    off: int,
    chans: int,
    row: int,
    channel: int,
    j: int,
    speed: int,
    tempo: int,
)
    requires
        chans > 0,
        off >= 0,
        0 <= row < 64,
        0 <= channel < chans,
        0 <= j <= row * chans + channel,
        breaks_at(data, off, row * chans + channel),
        forall|k: int| 0 <= k < row * chans + channel ==> !breaks_at(data, off, k),
    ensures
        pattern_scan(data, off, chans, j, speed, tempo).0 == row + 1,
    decreases row * chans + channel - j,
{
    let k = row * chans + channel;
    assert(k < 64 * chans) by (nonlinear_arith)
        requires
            0 <= row < 64,
            0 <= channel < chans,
            k == row * chans + channel,
    ;
    if j == k {
        assert(k / chans == row) by (nonlinear_arith)
            requires
                chans > 0,
                0 <= channel < chans,
                k == row * chans + channel,
        ;
    } else {
        assert(!breaks_at(data, off, j));
        let note = off + 4 * j;
        if note + 3 >= data.len() {
            lemma_break_rows(data, off, chans, row, channel, j + 1, speed, tempo);
        } else {
            let param = data[note + 3];
            lemma_break_rows(data, off, chans, row, channel, j + 1, param as int, tempo);
            lemma_break_rows(data, off, chans, row, channel, j + 1, speed, param as int);
            lemma_break_rows(data, off, chans, row, channel, j + 1, speed, tempo);
        }
    }
}

/// Law: a pattern whose first pattern break (`Dxx`) or position jump
/// (`Bxx`) sits on row `row` plays `row + 1` rows, whatever the speed and
/// tempo it starts with.
pub proof fn law_pattern_break_ends_pattern(
    data: Seq<u8>,
    off: int,
    chans: int,
    row: int,
    channel: int,
    speed: int,
    tempo: int,
)
    requires
        chans > 0,
        off >= 0,
        0 <= row < 64,
        0 <= channel < chans,
        breaks_at(data, off, row * chans + channel),
        forall|k: int| 0 <= k < row * chans + channel ==> !breaks_at(data, off, k),
    ensures
        pattern_scan(data, off, chans, 0, speed, tempo).0 == row + 1,
{
    assert(0 <= row * chans + channel) by (nonlinear_arith)
        requires
            0 <= row,
            0 <= channel,
            chans > 0,
    ;
    lemma_break_rows(data, off, chans, row, channel, 0, speed, tempo);
}

/// Law: a pattern with no break or jump in it plays all 64 rows.
pub proof fn law_unbroken_pattern_plays_64_rows(
    data: Seq<u8>,
    off: int,
    chans: int,
    j: int,
    speed: int,
    tempo: int,
)
    requires
        chans > 0,
        0 <= j,
        forall|k: int| 0 <= k < 64 * chans ==> !breaks_at(data, off, k),
    ensures
        pattern_scan(data, off, chans, j, speed, tempo).0 == 64,
    decreases 64 * chans - j,
{
    if j < 64 * chans {
        assert(!breaks_at(data, off, j));
        let note = off + 4 * j;
        if note + 3 >= data.len() {
            law_unbroken_pattern_plays_64_rows(data, off, chans, j + 1, speed, tempo);
        } else {
            let param = data[note + 3];
            law_unbroken_pattern_plays_64_rows(data, off, chans, j + 1, param as int, tempo);
            law_unbroken_pattern_plays_64_rows(data, off, chans, j + 1, speed, param as int);
            law_unbroken_pattern_plays_64_rows(data, off, chans, j + 1, speed, tempo);
        }
    }
}

fn scan_pattern(data: &[u8], off: usize, chans: usize, speed: u32, tempo: u32) -> (r: (
    u32,
    u32,
    u32,
))
    requires
        0 < speed < 32,
        1 <= tempo < 256,
        chans <= 255,
        off + 256 * chans <= data@.len(),
    ensures
        r.0 as int == pattern_scan(data@, off as int, chans as int, 0, speed as int, tempo as int).0,
        r.1 as int == pattern_scan(data@, off as int, chans as int, 0, speed as int, tempo as int).1,
        r.2 as int == pattern_scan(data@, off as int, chans as int, 0, speed as int, tempo as int).2,
        0 <= r.0 <= 64,
        0 < r.1 < 32,
        1 <= r.2 < 256,
{
    let ghost goal = pattern_scan(data@, off as int, chans as int, 0, speed as int, tempo as int);
    proof {
        lemma_pattern_scan_bounds(data@, off as int, chans as int, 0, speed as int, tempo as int);
    }
    let mut sp = speed;
    let mut tp = tempo;
    let total = 64 * chans;
    let mut k: usize = 0;
    let dlen = data.len();
    while k < total
        invariant
            dlen == data@.len(),
            goal == pattern_scan(data@, off as int, chans as int, 0, speed as int, tempo as int),
            total == 64 * chans,
            chans <= 255,
            off + 256 * chans <= data@.len(),
            k <= total,
            0 < sp < 32,
            1 <= tp < 256,
            pattern_scan(data@, off as int, chans as int, k as int, sp as int, tp as int)
                == goal,
        decreases total - k,
    {
        let note = off + 4 * k;
        if note + 3 >= data.len() {
        } else {
            let effect = data[note + 2] & 0x0F;
            let param = data[note + 3];
            if effect == 0x0F {
                if param > 0 && param < 0x20 {
                    sp = param as u32;
                } else if param >= 0x20 {
                    tp = param as u32;
                }
            } else if effect == 0x0D || effect == 0x0B {
                assert(k / chans < 64) by (nonlinear_arith)
                    requires
                        0 <= k < 64 * chans,
                        chans > 0,
                ;
                assert(pattern_scan(data@, off as int, chans as int, k as int, sp as int, tp as int)
                    == ((k / chans) as int + 1, sp as int, tp as int));
                return ((k / chans + 1) as u32, sp, tp);
            }
        }
        k = k + 1;
    }
    (64, sp, tp)
}

/// Calculate the approximate song duration (seconds, at least one) by
/// scanning the pattern data for speed/tempo commands and pattern breaks.
pub fn calculate_duration(data: &[u8], song_length: u8, num_patterns: u8, num_channels: u8) -> (d:
    u32)
    requires
        data@.len() >= 1080,
        song_length <= 128,
    ensures
        d as int == mod_duration(
            data@,
            song_length as int,
            num_patterns as int,
            num_channels as int,
        ),
{
    let channels = num_channels as usize;
    let pattern_size = 64 * channels * 4;
    let pattern_data_start: usize = 1084;
    let mut speed: u32 = 6;
    let mut tempo: u32 = 125;
    let mut total_rows: u32 = 0;
    let ghost goal = song_scan(
        data@,
        song_length as int,
        num_patterns as int,
        channels as int,
        0,
        0,
        6,
        125,
    );
    let mut pos: usize = 0;
    while pos < song_length as usize
        invariant
            data@.len() >= 1080,
            song_length <= 128,
            channels <= 255,
            pattern_size == 256 * channels,
            pattern_data_start == 1084,
            pos <= song_length,
            total_rows <= 64 * pos,
            0 < speed < 32,
            1 <= tempo < 256,
            song_scan(
                data@,
                song_length as int,
                num_patterns as int,
                channels as int,
                pos as int,
                total_rows as int,
                speed as int,
                tempo as int,
            ) == goal,
        decreases song_length - pos,
    {
        let pattern_num = data[PATTERN_TABLE_OFFSET + pos] as usize;
        assert(pattern_num * pattern_size <= 255 * 65280) by (nonlinear_arith)
            requires
                pattern_num <= 255,
                pattern_size <= 65280,
        ;
        if pattern_num >= num_patterns as usize {
            total_rows = total_rows + 64;
        } else {
            let pattern_offset = pattern_data_start + pattern_num * pattern_size;
            if pattern_offset + pattern_size > data.len() {
                total_rows = total_rows + 64;
            } else {
                let (rows, s2, t2) = scan_pattern(data, pattern_offset, channels, speed, tempo);
                total_rows = total_rows + rows;
                speed = s2;
                tempo = t2;
            }
        }
        pos = pos + 1;
    }
    assert(speed * 2500 <= 31 * 2500);
    let row_duration_ms = (speed * 2500) / tempo;
    assert(row_duration_ms <= 77500) by (nonlinear_arith)
        requires
            row_duration_ms == (speed as int * 2500) / (tempo as int),
            speed < 32,
            tempo >= 1,
    ;
    assert(total_rows * row_duration_ms <= 8192 * 77500) by (nonlinear_arith)
        requires
            total_rows <= 8192,
            row_duration_ms <= 77500,
    ;
    let duration_ms = total_rows * row_duration_ms;
    let secs = duration_ms / 1000;
    if secs >= 1 {
        secs
    } else {
        1
    }
}

/// The number of patterns a song uses: one more than the largest pattern
/// number among the first `n` entries of the order table (0 when `n` is 0).
pub open spec fn pattern_count(table: Seq<u8>, n: int) -> int
    decreases n,
{
    if n <= 0 {
        0
    } else {
        let rest = pattern_count(table, n - 1);
        let here = table[n - 1] as int + 1;
        if here > rest {
            here
        } else {
            rest
        }
    }
}

/// Whether the parser accepts `data` without failing: a file of at least
/// 1084 bytes must have a song length of at most 128 positions and use
/// pattern numbers below 255 in them.
pub open spec fn mod_parsable(data: Seq<u8>) -> bool {
    data.len() >= 1084 ==> (data[950] <= 128 && pattern_count(data.subrange(952, 1080), data[950] as int) <= 255)
}

/// Parse a MOD file and extract its name, author and approximate duration.
pub fn parse_mod(data: &[u8]) -> (r: Result<ModInfo, String>)
    requires
        mod_parsable(data@),
    ensures
        data@.len() < 1084 <==> r is Err,
        r matches Err(e) ==> e@ == "File too small to be a valid MOD"@,
        r matches Ok(info) ==> {
            let song_len = data@[950] as int;
            let chans = channels_of(data@.subrange(1080, 1084)) as int;
            let pats = pattern_count(data@.subrange(952, 1080), song_len);
            &&& info.name@ == mod_string(data@.subrange(0, 20))
            &&& opt_view(info.author) == mod_author(data@)
            &&& info.duration_seconds as int == mod_duration(data@, song_len, pats, chans)
        },
{
    if data.len() < MOD_HEADER_SIZE {
        return Err(String::from_str("File too small to be a valid MOD"));
    }
    let name_bytes = crate::text::sub_bytes(data, 0, MOD_NAME_LENGTH);
    let name = read_string(name_bytes.as_slice());
    let format_id = crate::text::sub_bytes(data, FORMAT_ID_OFFSET, FORMAT_ID_OFFSET + 4);
    let num_channels = detect_channels(format_id.as_slice());
    let song_length = data[SONG_LENGTH_OFFSET];
    let ghost table = data@.subrange(952, 1080);
    let mut count: u16 = 0;
    let mut i: usize = 0;
    while i < song_length as usize
        invariant
            song_length <= 128,
            data@.len() >= 1084,
            table == data@.subrange(952, 1080),
            i <= song_length,
            count as int == pattern_count(table, i as int),
            pattern_count(table, song_length as int) <= 255,
        decreases song_length - i,
    {
        proof {
            lemma_pattern_count_mono(table, i as int + 1, song_length as int);
        }
        let here = data[PATTERN_TABLE_OFFSET + i] as u16 + 1;
        if here > count {
            count = here;
        }
        i = i + 1;
    }
    let num_patterns = count as u8;
    let author = find_author(data);
    let duration_seconds = calculate_duration(data, song_length, num_patterns, num_channels);
    Ok(ModInfo { name, author, duration_seconds })
}

proof fn lemma_pattern_count_mono(table: Seq<u8>, a: int, b: int)
    requires
        0 <= a <= b,
    ensures
        pattern_count(table, a) <= pattern_count(table, b),
    decreases b - a,
{
    if a < b {
        lemma_pattern_count_mono(table, a, b - 1);
    }
}

} // verus!
