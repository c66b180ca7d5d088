//! State of the memory editor: address and length inputs, the bytes read
//! from the machine, byte search, byte edits with undo and redo,
//! bookmarks and the flash inspector.
use vstd::prelude::*;
use vstd::string::StringSliceAdditionalSpecFns;
use vstd::utf8::encode_utf8;
use crate::text::{
    chars_of, is_whitespace, is_ws, push_decimal, push_hex, push_str, string_from_chars,
    to_lowercase, trim_chars,
};

verus! {

/// Largest number of bytes written to the machine in one REST call.
pub const RAW_CHUNK: usize = 256;

/// A named region of C64 memory.
#[derive(Debug, Clone, PartialEq, Eq)]
pub struct MemoryLocation {
    pub name: String,
    pub address: u16,
    pub length: u16,
    pub description: String,
}

/// Which memory bus is targeted.
#[derive(Debug, Clone, Copy, PartialEq, Eq, Structural, Default)]
pub enum AddressSpace {
    /// The 64 KB of C64 RAM.
    #[default]
    C64Ram,
    /// REU expansion RAM (up to 16 MB), write-only.
    Reu,
}

/// How the bytes are shown.
#[derive(Debug, Clone, Copy, PartialEq, Eq, Structural, Default)]
pub enum DisplayMode {
    #[default]
    Hex,
    Ascii,
    Decimal,
    Binary,
}

/// Address space of a bookmark.
#[derive(Debug, Clone, Copy, PartialEq, Eq, Structural)]
pub enum BookmarkSpace {
    C64Ram,
    Reu,
}

/// A user-defined named memory range.
#[derive(Debug, Clone)]
pub struct Bookmark {
    pub label: String,
    /// 24 bits, to cover the REU too.
    pub address: u32,
    pub length: u16,
    pub space: BookmarkSpace,
}

/// One reversible byte write in C64 RAM.
#[derive(Debug, Clone, Copy)]
pub struct UndoEntry {
    pub address: u16,
    pub old_value: u8,
    pub new_value: u8,
    /// Offset of the byte in the bytes read.
    pub offset: usize,
}

/// Flash geometry and the pages fetched so far.
#[derive(Debug, Clone)]
pub struct FlashInfo {
    pub page_size: u32,
    pub page_count: u32,
    pub pages: Vec<Vec<u8>>,
    pub current_page: u32,
}

/// A byte being edited.
#[derive(Debug, Clone)]
pub struct EditingByte {
    pub offset: usize,
    pub original_value: u8,
    pub new_value_input: String,
}

/// Memory editor state.
pub struct MemoryEditor {
    /// 24 bits cover both C64 (16-bit) and REU addresses.
    pub current_address: u32,
    pub display_length: u16,
    pub address_space: AddressSpace,
    pub address_input: String,
    pub length_input: String,
    pub search_input: String,
    pub fill_value_input: String,
    pub memory_data: Option<Vec<u8>>,
    pub pending_load_data: Option<Vec<u8>>,
    pub display_mode: DisplayMode,
    pub search_matches: Vec<usize>,
    pub selected_location: Option<MemoryLocation>,
    pub editing_byte: Option<EditingByte>,
    pub undo_stack: Vec<UndoEntry>,
    pub redo_stack: Vec<UndoEntry>,
    pub watch_active: bool,
    pub bookmarks: Vec<Bookmark>,
    pub bookmark_label_input: String,
    pub selected_bookmark: Option<usize>,
    pub flash_info: Option<FlashInfo>,
    pub flash_page_input: String,
    pub kernal_pending_path: Option<String>,
    pub is_loading: bool,
    pub status_message: Option<String>,
}

// ── Byte search ───────────────────────────────────────────────────

/// ASCII hexadecimal digit (`char::is_ascii_hexdigit`).
pub open spec fn is_hex_char(c: char) -> bool {
    ('0' <= c && c <= '9') || ('a' <= c && c <= 'f') || ('A' <= c && c <= 'F')
}

/// Value of a hexadecimal digit.
pub open spec fn hex_value(c: char) -> int {
    if '0' <= c && c <= '9' {
        c as int - '0' as int
    } else if 'a' <= c && c <= 'f' {
        c as int - 'a' as int + 10
    } else {
        c as int - 'A' as int + 10
    }
}

/// The bytes spelled by pairs of hexadecimal digits.
pub open spec fn hex_bytes(digits: Seq<char>) -> Seq<u8> {
    Seq::new(
        digits.len() / 2,
        |j: int| (16 * hex_value(digits[2 * j]) + hex_value(digits[2 * j + 1])) as u8,
    )
}

/// The search text: the input trimmed and lower-cased.
pub open spec fn search_text(input: Seq<char>) -> Seq<char> {
    crate::text::unicode_lowercase(crate::text::trim(input))
}

/// The byte pattern of a search text read as hexadecimal: the text holds
/// only hex digits and whitespace, spans at least two bytes, and its
/// digits (whitespace dropped) come in a non-zero number of pairs.
pub open spec fn hex_pattern(t: Seq<char>) -> Option<Seq<u8>> {
    let clean = t.filter(|c: char| !is_ws(c));
    if (forall|i: int| 0 <= i < t.len() ==> is_hex_char(#[trigger] t[i]) || is_ws(t[i]))
        && encode_utf8(t).len() >= 2 && clean.len() % 2 == 0 && clean.len() > 0 {
        Some(hex_bytes(clean))
    } else {
        None
    }
}

/// ASCII lower-casing of a byte (`u8::to_ascii_lowercase`).
pub open spec fn ascii_lower_byte(b: u8) -> u8 {
    if 65 <= b && b <= 90 {
        (b + 32) as u8
    } else {
        b
    }
}

/// Whether the pattern occurs in the data at `i`: exactly, or with the
/// data's bytes ASCII lower-cased.
pub open spec fn occurs_in(data: Seq<u8>, p: Seq<u8>, fold_case: bool, i: int) -> bool {
    &&& 0 <= i
    &&& i + p.len() <= data.len()
    &&& forall|k: int|
        0 <= k < p.len() ==> (if fold_case {
            ascii_lower_byte(#[trigger] data[i + k])
        } else {
            data[i + k]
        }) == p[k]
}

/// The positions below `m` where the pattern occurs, in increasing order.
pub open spec fn hits(data: Seq<u8>, p: Seq<u8>, fold_case: bool, m: nat) -> Seq<usize>
    decreases m,
{
    if m == 0 {
        Seq::empty()
    } else {
        let prev = hits(data, p, fold_case, (m - 1) as nat);
        if occurs_in(data, p, fold_case, m - 1) {
            prev.push((m - 1) as usize)
        } else {
            prev
        }
    }
}

/// The positions tried: `0..=len - n`, or just `0` when the data is shorter.
pub open spec fn tried(len: nat, n: nat) -> nat {
    if len >= n {
        (len - n + 1) as nat
    } else {
        1
    }
}

/// Where the search input is found in the data: as hexadecimal bytes when
/// it reads as such, else as its UTF-8 bytes against the data's bytes
/// lower-cased; nothing for an empty text.
pub open spec fn search_result(input: Seq<char>, data: Seq<u8>) -> Seq<usize> {
    let t = search_text(input);
    match hex_pattern(t) {
        Some(p) => hits(data, p, false, tried(data.len(), p.len())),
        None => {
            let p = encode_utf8(t);
            if p.len() == 0 {
                Seq::empty()
            } else {
                hits(data, p, true, tried(data.len(), p.len()))
            }
        },
    }
}

/// The search panics nowhere: a text search never looks at a window past
/// the end of the data.
pub open spec fn search_safe(input: Seq<char>, data: Seq<u8>) -> bool {
    hex_pattern(search_text(input)) is None ==> data.len() >= encode_utf8(
        search_text(input),
    ).len()
}

fn is_hex_digit(c: char) -> (b: bool)
    ensures
        b == is_hex_char(c),
{
    ('0' <= c && c <= '9') || ('a' <= c && c <= 'f') || ('A' <= c && c <= 'F')
}

fn hex_digit_value(c: char) -> (v: u8)
    requires
        is_hex_char(c),
    ensures
        v == hex_value(c),
{
    if '0' <= c && c <= '9' {
        ((c as u32) - 48) as u8
    } else if 'a' <= c && c <= 'f' {
        ((c as u32) - 87) as u8
    } else {
        ((c as u32) - 55) as u8
    }
}

fn ascii_lower_u8(b: u8) -> (r: u8)
    ensures
        r == ascii_lower_byte(b),
{
    if 65 <= b && b <= 90 {
        b + 32
    } else {
        b
    }
}

/// Whether `p` occurs in `data` at `i`.
fn occurs_at_exec(data: &[u8], p: &[u8], fold_case: bool, i: usize) -> (b: bool)
    requires
        i + p@.len() <= data@.len(),
    ensures
        b == occurs_in(data@, p@, fold_case, i as int),
{
    let n = data.len();
    let mut k: usize = 0;
    while k < p.len()
        invariant
            k <= p@.len(),
            i + p@.len() <= data@.len(),
            n == data@.len(),
            forall|j: int|
                0 <= j < k ==> (if fold_case {
                    ascii_lower_byte(#[trigger] data@[i + j])
                } else {
                    data@[i + j]
                }) == p@[j],
        decreases p@.len() - k,
    {
        let d = if fold_case {
            ascii_lower_u8(data[i + k])
        } else {
            data[i + k]
        };
        if d != p[k] {
            return false;
        }
        k = k + 1;
    }
    true
}

/// All positions `0..=len - n` (or `0` alone) where `p` occurs.
fn collect_hits(data: &[u8], p: &[u8], fold_case: bool) -> (r: Vec<usize>)
    requires
        fold_case ==> data@.len() >= p@.len(),
    ensures
        r@ == hits(data@, p@, fold_case, tried(data@.len(), p@.len())),
{
    let last = if data.len() >= p.len() {
        data.len() - p.len()
    } else {
        0
    };
    let mut r: Vec<usize> = Vec::new();
    let mut i: usize = 0;
    while i <= last
        invariant
            last == (if data@.len() >= p@.len() {
                data@.len() - p@.len()
            } else {
                0
            }),
            fold_case ==> data@.len() >= p@.len(),
            i <= last + 1,
            r@ == hits(data@, p@, fold_case, i as nat),
        decreases last + 1 - i,
    {
        let found = if p.len() <= data.len() - i {
            occurs_at_exec(data, p, fold_case, i)
        } else {
            false
        };
        if found {
            r.push(i);
        }
        if i == last {
            assert(r@ == hits(data@, p@, fold_case, tried(data@.len(), p@.len())));
            return r;
        }
        i = i + 1;
    }
    r
}

/// The hexadecimal digits of the text, whitespace dropped.
fn without_whitespace(t: &Vec<char>) -> (r: Vec<char>)
    ensures
        r@ == t@.filter(|c: char| !is_ws(c)),
{
    let ghost pred = |c: char| !is_ws(c);
    let mut r: Vec<char> = Vec::new();
    let mut i: usize = 0;
    while i < t.len()
        invariant
            i <= t@.len(),
            pred == (|c: char| !is_ws(c)),
            r@ == t@.take(i as int).filter(pred),
        decreases t@.len() - i,
    {
        if !is_whitespace(t[i]) {
            r.push(t[i]);
        }
        proof {
            reveal(Seq::filter);
            assert(t@.take(i as int + 1).drop_last() =~= t@.take(i as int));
        }
        i = i + 1;
    }
    assert(t@.take(i as int) =~= t@);
    r
}

impl MemoryEditor {
    /// A fresh editor at `$0400` (screen memory), 256 bytes, C64 RAM.
    pub fn new() -> (e: Self)
        ensures
            e.current_address == 0x0400,
            e.display_length == 0x100,
            e.address_space == AddressSpace::C64Ram,
            e.address_input@ == "0400"@,
            e.length_input@ == "256"@,
            e.search_input@.len() == 0,
            e.fill_value_input@ == "00"@,
            e.memory_data is None,
            e.pending_load_data is None,
            e.display_mode == DisplayMode::Hex,
            e.search_matches@.len() == 0,
            e.selected_location is None,
            e.editing_byte is None,
            e.undo_stack@.len() == 0,
            e.redo_stack@.len() == 0,
            !e.watch_active,
            e.bookmarks@.len() == 0,
            e.bookmark_label_input@.len() == 0,
            e.selected_bookmark is None,
            e.flash_info is None,
            e.flash_page_input@ == "0"@,
            e.kernal_pending_path is None,
            !e.is_loading,
            e.status_message is None,
    {
        MemoryEditor {
            current_address: 0x0400,
            display_length: 0x100,
            address_space: AddressSpace::C64Ram,
            address_input: String::from_str("0400"),
            length_input: String::from_str("256"),
            search_input: String::new(),
            fill_value_input: String::from_str("00"),
            memory_data: None,
            pending_load_data: None,
            display_mode: DisplayMode::Hex,
            search_matches: Vec::new(),
            selected_location: None,
            editing_byte: None,
            undo_stack: Vec::new(),
            redo_stack: Vec::new(),
            watch_active: false,
            bookmarks: Vec::new(),
            bookmark_label_input: String::new(),
            selected_bookmark: None,
            flash_info: None,
            flash_page_input: String::from_str("0"),
            kernal_pending_path: None,
            is_loading: false,
            status_message: None,
        }
    }

    /// The positions where the search input occurs in `data` (see
    /// `search_result`).
    pub fn perform_search(&self, data: &[u8]) -> (r: Vec<usize>)
        requires
            search_safe(self.search_input@, data@),
        ensures
            r@ == search_result(self.search_input@, data@),
    {
        let t = search_text_of(self.search_input.as_str());
        match hex_pattern_of(&t) {
            Some(p) => collect_hits(data, p.as_slice(), false),
            None => {
                let pat = t.as_str().as_bytes();
                if pat.len() > 0 {
                    collect_hits(data, pat, true)
                } else {
                    Vec::new()
                }
            },
        }
    }

    /// The search of `perform_search` where it can run: `None` when a text
    /// search would look past the end of the data.
    pub fn try_search(&self, data: &[u8]) -> (r: Option<Vec<usize>>)
        ensures
            r is Some <==> search_safe(self.search_input@, data@),
            r matches Some(v) ==> v@ == search_result(self.search_input@, data@),
    {
        let t = search_text_of(self.search_input.as_str());
        if hex_pattern_of(&t).is_none() && data.len() < t.as_str().as_bytes().len() {
            None
        } else {
            Some(self.perform_search(data))
        }
    }
}

/// The search text of an input: trimmed, then lower-cased.
fn search_text_of(input: &str) -> (t: String)
    ensures
        t@ == search_text(input@),
{
    let trimmed = trim_chars(&chars_of(input));
    to_lowercase(string_from_chars(&trimmed).as_str())
}

/// The hexadecimal byte pattern of a search text, if it reads as one.
fn hex_pattern_of(text: &String) -> (r: Option<Vec<u8>>)
    ensures
        match r {
            Some(v) => hex_pattern(text@) == Some(v@),
            None => hex_pattern(text@) is None,
        },
{
    let t = chars_of(text.as_str());
    let mut is_hex = true;
    let mut i: usize = 0;
    while i < t.len()
        invariant
            i <= t@.len(),
            is_hex == forall|j: int| 0 <= j < i ==> is_hex_char(#[trigger] t@[j]) || is_ws(t@[j]),
        decreases t@.len() - i,
    {
        if !(is_hex_digit(t[i]) || is_whitespace(t[i])) {
            is_hex = false;
        }
        i = i + 1;
    }
    let ts = text.as_str();
    if is_hex && ts.as_bytes().len() >= 2 {
        let clean = without_whitespace(&t);
        if clean.len() % 2 == 0 {
            let mut bytes: Vec<u8> = Vec::new();
            let mut j: usize = 0;
            while j < clean.len() / 2
                invariant
                    clean@ == t@.filter(|c: char| !is_ws(c)),
                    forall|k: int| 0 <= k < t@.len() ==> is_hex_char(#[trigger] t@[k]) || is_ws(t@[k]),
                    clean@.len() % 2 == 0,
                    j <= clean@.len() / 2,
                    bytes@ == hex_bytes(clean@).take(j as int),
                decreases clean@.len() / 2 - j,
            {
                proof {
                    lemma_filtered_are_hex(t@, 2 * j as int);
                    lemma_filtered_are_hex(t@, 2 * j as int + 1);
                }
                let hi = hex_digit_value(clean[2 * j]);
                let lo = hex_digit_value(clean[2 * j + 1]);
                bytes.push(16 * hi + lo);
                assert(bytes@ =~= hex_bytes(clean@).take(j as int + 1));
                j = j + 1;
            }
            assert(hex_bytes(clean@).take(j as int) =~= hex_bytes(clean@));
            if bytes.len() > 0 {
                return Some(bytes);
            }
            assert(clean@.len() == 0);
        }
        assert(hex_pattern(text@) is None);
    } else {
        assert(ts.spec_bytes() == encode_utf8(text@));
        proof {
            if !is_hex {
                let k = choose|k: int| 0 <= k < t@.len() && !(is_hex_char(t@[k]) || is_ws(t@[k]));
                assert(!(is_hex_char(text@[k]) || is_ws(text@[k])));
            }
        }
        assert(hex_pattern(text@) is None);
    }
    None
}

/// Every character kept by the whitespace filter of an all-hex-or-space
/// text is a hex digit.
proof fn lemma_filtered_are_hex(t: Seq<char>, k: int)
    requires
        forall|i: int| 0 <= i < t.len() ==> is_hex_char(#[trigger] t[i]) || is_ws(t[i]),
        0 <= k < t.filter(|c: char| !is_ws(c)).len(),
    ensures
        is_hex_char(t.filter(|c: char| !is_ws(c))[k]),
{
    let pred = |c: char| !is_ws(c);
    t.lemma_filter_pred(pred, k);
    let x = t.filter(pred)[k];
    t.lemma_filter_contains_rev(pred, x);
    assert(t.filter(pred).contains(x));
    let i = choose|i: int| 0 <= i < t.len() && t[i] == x;
    assert(is_hex_char(t[i]) || is_ws(t[i]));
}


// ── Inputs ────────────────────────────────────────────────────────

/// At most the first `n` elements.
pub open spec fn at_most<T>(s: Seq<T>, n: nat) -> Seq<T> {
    if s.len() <= n {
        s
    } else {
        s.take(n as int)
    }
}

/// ASCII upper-casing of a character.
pub open spec fn upper_char(c: char) -> char {
    if 'a' <= c && c <= 'z' {
        ((c as u32) - 32) as char
    } else {
        c
    }
}

/// The first `max` hexadecimal digits of an input, upper-cased.
pub open spec fn hex_input(s: Seq<char>, max: nat) -> Seq<char> {
    at_most(s.filter(|c: char| is_hex_char(c)), max).map_values(|c: char| upper_char(c))
}

/// Value of a string of hexadecimal digits.
pub open spec fn hex_number(s: Seq<char>) -> nat
    decreases s.len(),
{
    if s.len() == 0 {
        0
    } else {
        (16 * hex_number(s.drop_last()) + hex_value(s.last())) as nat
    }
}

/// ASCII decimal digit.
pub open spec fn is_digit_char(c: char) -> bool {
    '0' <= c && c <= '9'
}

/// The decimal digits of an input.
pub open spec fn digits_of(s: Seq<char>) -> Seq<char> {
    s.filter(|c: char| is_digit_char(c))
}

/// Value of a string of decimal digits.
pub open spec fn dec_number(s: Seq<char>) -> nat
    decreases s.len(),
{
    if s.len() == 0 {
        0
    } else {
        (10 * dec_number(s.drop_last()) + (s.last() as int - '0' as int)) as nat
    }
}

/// The digits of a number text: without a leading `+`.
pub open spec fn unsigned_body(s: Seq<char>) -> Seq<char> {
    if s.len() > 0 && s[0] == '+' {
        s.skip(1)
    } else {
        s
    }
}

/// Every character is a decimal digit.
pub open spec fn all_digits(s: Seq<char>) -> bool {
    forall|i: int| 0 <= i < s.len() ==> is_digit_char(#[trigger] s[i])
}

/// What `str::parse` gives for an unsigned integer of at most `max`: an
/// optional `+`, then at least one digit and nothing else, within range.
pub open spec fn parse_unsigned(s: Seq<char>, max: nat) -> Option<nat> {
    let body = unsigned_body(s);
    if body.len() > 0 && all_digits(body) && dec_number(body) <= max {
        Some(dec_number(body))
    } else {
        None
    }
}

fn hex_filter(value: &str, max: usize) -> (r: Vec<char>)
    ensures
        r@ == hex_input(value@, max as nat),
{
    let cs = chars_of(value);
    let ghost pred = |c: char| is_hex_char(c);
    let mut kept: Vec<char> = Vec::new();
    let mut i: usize = 0;
    while i < cs.len()
        invariant
            i <= cs@.len(),
            cs@ == value@,
            pred == (|c: char| is_hex_char(c)),
            kept@ == cs@.take(i as int).filter(pred),
        decreases cs@.len() - i,
    {
        if is_hex_digit(cs[i]) {
            kept.push(cs[i]);
        }
        proof {
            reveal(Seq::filter);
            assert(cs@.take(i as int + 1).drop_last() =~= cs@.take(i as int));
        }
        i = i + 1;
    }
    assert(cs@.take(i as int) =~= cs@);
    let n = if kept.len() <= max {
        kept.len()
    } else {
        max
    };
    let mut r: Vec<char> = Vec::new();
    let mut j: usize = 0;
    while j < n
        invariant
            n <= kept@.len(),
            n == (if kept@.len() <= max {
                kept@.len()
            } else {
                max as nat
            }),
            j <= n,
            r@ == kept@.take(j as int).map_values(|c: char| upper_char(c)),
        decreases n - j,
    {
        let c = kept[j];
        let u = if 'a' <= c && c <= 'z' {
            ((c as u32) - 32) as u8 as char
        } else {
            c
        };
        r.push(u);
        assert(r@ =~= kept@.take(j as int + 1).map_values(|c: char| upper_char(c)));
        j = j + 1;
    }
    assert(at_most(kept@, max as nat) =~= kept@.take(n as int));
    r
}

/// The value of a non-empty string of at most six hexadecimal digits.
fn hex_value_of(digits: &Vec<char>) -> (v: u32)
    requires
        digits@.len() <= 6,
        forall|i: int| 0 <= i < digits@.len() ==> is_hex_char(#[trigger] digits@[i]),
    ensures
        v == hex_number(digits@),
{
    let mut v: u32 = 0;
    let mut i: usize = 0;
    while i < digits.len()
        invariant
            i <= digits@.len() <= 6,
            forall|k: int| 0 <= k < digits@.len() ==> is_hex_char(#[trigger] digits@[k]),
            v == hex_number(digits@.take(i as int)),
            v < pow16(i as nat),
        decreases digits@.len() - i,
    {
        let d = hex_digit_value(digits[i]);
        assert(digits@.take(i as int + 1).drop_last() =~= digits@.take(i as int));
        assert(pow16(i as nat + 1) == 16 * pow16(i as nat));
        assert(pow16(i as nat) <= 0x100000) by {
            lemma_pow16_mono(i as nat, 5);
        }
        v = 16 * v + d as u32;
        i = i + 1;
    }
    assert(digits@.take(i as int) =~= digits@);
    v
}

/// Sixteen to the power `n`.
pub open spec fn pow16(n: nat) -> nat
    decreases n,
{
    if n == 0 {
        1
    } else {
        16 * pow16((n - 1) as nat)
    }
}

proof fn lemma_pow16_mono(a: nat, b: nat)
    requires
        a <= b,
    ensures
        pow16(a) <= pow16(b),
        pow16(5) == 0x100000,
    decreases b,
{
    if a < b {
        lemma_pow16_mono(a, (b - 1) as nat);
    }
    assert(pow16(5) == 0x100000) by {
        reveal_with_fuel(pow16, 6);
    }
}

/// Parse an unsigned decimal number of at most `max` (`str::parse` for
/// `u8` or `u16`).
fn parse_unsigned_exec(s: &str, max: u32) -> (r: Option<u32>)
    requires
        max < 0x10000,
    ensures
        match r {
            Some(v) => parse_unsigned(s@, max as nat) == Some(v as nat),
            None => parse_unsigned(s@, max as nat) is None,
        },
{
    let cs = chars_of(s);
    let start: usize = if cs.len() > 0 && cs[0] == '+' {
        1
    } else {
        0
    };
    let body = crate::text::sub_chars(&cs, start, cs.len());
    assert(body@ == unsigned_body(s@));
    if body.len() == 0 {
        return None;
    }
    let mut v: u32 = 0;
    let mut i: usize = 0;
    while i < body.len()
        invariant
            i <= body@.len(),
            max < 0x10000,
            body@ == unsigned_body(s@),
            forall|k: int| 0 <= k < i ==> is_digit_char(#[trigger] body@[k]),
            v as nat == (if dec_number(body@.take(i as int)) <= max {
                dec_number(body@.take(i as int))
            } else {
                max as nat + 1
            }),
        decreases body@.len() - i,
    {
        let c = body[i];
        if !('0' <= c && c <= '9') {
            assert(!is_digit_char(body@[i as int]));
            return None;
        }
        assert(body@.take(i as int + 1).drop_last() =~= body@.take(i as int));
        let d = (c as u32) - 48;
        let next = 10 * v + d;
        v = if next > max {
            max + 1
        } else {
            next
        };
        i = i + 1;
    }
    assert(body@.take(i as int) =~= body@);
    if v > max {
        None
    } else {
        Some(v)
    }
}

/// The text of a byte written as `$XX` and an address as `$XXXX`.
pub open spec fn byte_at_text(prefix: Seq<char>, value: u8, middle: Seq<char>, address: u16)
    -> Seq<char> {
    prefix + "$"@ + crate::text::hex_padded(value as nat, 2) + middle + "$"@
        + crate::text::hex_padded(address as nat, 4)
}

fn byte_at_message(prefix: &str, value: u8, middle: &str, address: u16, suffix: &str) -> (s:
    String)
    ensures
        s@ == byte_at_text(prefix@, value, middle@, address) + suffix@,
{
    let mut out: Vec<char> = Vec::new();
    push_str(&mut out, prefix);
    push_str(&mut out, "$");
    push_hex(&mut out, value as u64, 2);
    push_str(&mut out, middle);
    push_str(&mut out, "$");
    push_hex(&mut out, address as u64, 4);
    push_str(&mut out, suffix);
    string_from_chars(&out)
}

/// The machine address of a byte of the bytes read: the low 16 bits of
/// the current address plus the offset, wrapping at 64 KB.
pub open spec fn byte_address(current_address: u32, offset: usize) -> u16 {
    ((current_address % 65536 + offset % 65536) % 65536) as u16
}

/// The bytes read with the byte at `offset` (when there is one) replaced.
pub open spec fn patched(data: Option<Seq<u8>>, offset: usize, value: u8) -> Option<Seq<u8>> {
    match data {
        Some(d) => if offset < d.len() {
            Some(d.update(offset as int, value))
        } else {
            Some(d)
        },
        None => None,
    }
}

/// The model of the bytes read.
pub open spec fn data_view(data: Option<Vec<u8>>) -> Option<Seq<u8>> {
    match data {
        Some(d) => Some(d@),
        None => None,
    }
}

fn patch_data(data: &mut Option<Vec<u8>>, offset: usize, value: u8)
    ensures
        data_view(*final(data)) == patched(data_view(*old(data)), offset, value),
{
    match data {
        Some(d) => {
            if offset < d.len() {
                d.set(offset, value);
            }
        },
        None => {},
    }
}

impl MemoryEditor {
    /// The number of hex digits an address takes in the current space.
    pub open spec fn max_digits(&self) -> nat {
        if self.address_space == AddressSpace::Reu {
            6
        } else {
            4
        }
    }

    fn set_address_input(&mut self, value: &str)
        ensures
            final(self).address_input@ == hex_input(value@, old(self).max_digits()),
            final(self).current_address == (if final(self).address_input@.len() > 0 {
                hex_number(final(self).address_input@) as u32
            } else {
                old(self).current_address
            }),
            final(self).address_space == old(self).address_space,
            final(self).memory_data == old(self).memory_data,
            final(self).display_length == old(self).display_length,
    {
        let max: usize = if self.address_space == AddressSpace::Reu {
            6
        } else {
            4
        };
        let digits = hex_filter(value, max);
        proof {
            lemma_hex_input_digits(value@, max as nat);
        }
        if digits.len() > 0 {
            self.current_address = hex_value_of(&digits);
        }
        self.address_input = string_from_chars(&digits);
    }

    /// A new address typed: at most 4 (C64) or 6 (REU) hex digits are
    /// kept, upper-cased, and become the current address when any is left.
    pub fn address_input_changed(&mut self, value: &str)
        ensures
            final(self).address_input@ == hex_input(value@, old(self).max_digits()),
            final(self).current_address == (if final(self).address_input@.len() > 0 {
                hex_number(final(self).address_input@) as u32
            } else {
                old(self).current_address
            }),
            final(self).address_space == old(self).address_space,
            final(self).memory_data == old(self).memory_data,
            final(self).display_length == old(self).display_length,
    {
        self.set_address_input(value);
    }

    /// Another address space chosen: the address input is cut to the
    /// digits the space takes and read again.
    pub fn address_space_changed(&mut self, space: AddressSpace)
        ensures
            final(self).address_space == space,
            final(self).address_input@ == hex_input(
                old(self).address_input@,
                if space == AddressSpace::Reu {
                    6
                } else {
                    4
                },
            ),
            final(self).current_address == (if final(self).address_input@.len() > 0 {
                hex_number(final(self).address_input@) as u32
            } else {
                old(self).current_address
            }),
            final(self).memory_data == old(self).memory_data,
    {
        self.address_space = space;
        let current = self.address_input.clone();
        self.set_address_input(current.as_str());
    }

    /// A new length typed: only its digits are kept; a value of 1 to
    /// 65535 becomes the display length.
    pub fn length_input_changed(&mut self, value: &str)
        ensures
            final(self).length_input@ == digits_of(value@),
            final(self).display_length == (match parse_unsigned(digits_of(value@), 0xFFFF) {
                Some(n) => if n > 0 {
                    n as u16
                } else {
                    old(self).display_length
                },
                None => old(self).display_length,
            }),
            final(self).current_address == old(self).current_address,
            final(self).memory_data == old(self).memory_data,
    {
        let filtered = digit_filter(value);
        self.length_input = string_from_chars(&filtered);
        if let Some(len) = parse_unsigned_exec(self.length_input.as_str(), 0xFFFF) {
            if len > 0 {
                self.display_length = len as u16;
            }
        }
    }

    /// A new fill value typed: its first two hex digits, upper-cased.
    pub fn fill_value_changed(&mut self, value: &str)
        ensures
            final(self).fill_value_input@ == hex_input(value@, 2),
            final(self).memory_data == old(self).memory_data,
    {
        let digits = hex_filter(value, 2);
        self.fill_value_input = string_from_chars(&digits);
    }

    /// Start editing the byte at `offset` of the bytes read, its value
    /// shown in decimal; nothing for an offset outside them.
    pub fn byte_clicked(&mut self, offset: usize)
        ensures
            match data_view(old(self).memory_data) {
                Some(d) => if offset < d.len() {
                    final(self).editing_byte matches Some(e) && e.offset == offset
                        && e.original_value == d[offset as int] && e.new_value_input@
                        == crate::text::decimal(d[offset as int] as nat)
                } else {
                    final(self).editing_byte == old(self).editing_byte
                },
                None => final(self).editing_byte == old(self).editing_byte,
            },
            final(self).memory_data == old(self).memory_data,
            final(self).undo_stack@ == old(self).undo_stack@,
            final(self).redo_stack@ == old(self).redo_stack@,
    {
        if let Some(data) = &self.memory_data {
            if offset < data.len() {
                let value = data[offset];
                let mut text: Vec<char> = Vec::new();
                push_decimal(&mut text, value as u64);
                self.editing_byte = Some(
                    EditingByte {
                        offset,
                        original_value: value,
                        new_value_input: string_from_chars(&text),
                    },
                );
            }
        }
    }

    /// New text for the edited byte: only its digits are kept.
    pub fn write_byte_value_changed(&mut self, value: &str)
        ensures
            match old(self).editing_byte {
                Some(e) => final(self).editing_byte matches Some(f) && f.offset == e.offset
                    && f.original_value == e.original_value && f.new_value_input@ == digits_of(
                    value@,
                ),
                None => final(self).editing_byte is None,
            },
            final(self).memory_data == old(self).memory_data,
    {
        let taken = self.editing_byte.take();
        if let Some(mut edit) = taken {
            let filtered = digit_filter(value);
            edit.new_value_input = string_from_chars(&filtered);
            self.editing_byte = Some(edit);
        }
    }

    /// Confirm the edited byte: with a device and a valid byte value the
    /// write `(address, value, offset)` is asked for and the edit stays
    /// open until it completes; otherwise the edit is dropped.
    pub fn write_byte_confirm(&mut self, connected: bool) -> (r: Option<(u16, u8, usize)>)
        ensures
            match old(self).editing_byte {
                Some(e) => if connected && parse_unsigned(e.new_value_input@, 255) is Some {
                    let v = parse_unsigned(e.new_value_input@, 255)->0 as u8;
                    let a = byte_address(old(self).current_address, e.offset);
                    &&& r == Some((a, v, e.offset))
                    &&& final(self).editing_byte == old(self).editing_byte
                    &&& final(self).is_loading
                    &&& final(self).status_message matches Some(m) && m@ == byte_at_text(
                        "Writing "@,
                        v,
                        " to "@,
                        a,
                    ) + "…"@
                } else {
                    r is None && final(self).editing_byte is None
                },
                None => r is None && final(self).editing_byte is None,
            },
            final(self).memory_data == old(self).memory_data,
            final(self).undo_stack@ == old(self).undo_stack@,
            final(self).redo_stack@ == old(self).redo_stack@,
    {
        if connected {
            if let Some(edit) = &self.editing_byte {
                if let Some(value) = parse_unsigned_exec(edit.new_value_input.as_str(), 255) {
                    let value = value as u8;
                    let address = (self.current_address % 65536) as u16;
                    let address = address.wrapping_add((edit.offset % 65536) as u16);
                    let offset = edit.offset;
                    self.is_loading = true;
                    self.status_message = Some(byte_at_message("Writing ", value, " to ", address, "…"));
                    return Some((address, value, offset));
                }
            }
        }
        self.editing_byte = None;
        None
    }

    /// A byte write finished.  On success, while the bytes and the edit are
    /// there and the offset lies inside them, the change is recorded for
    /// undo (clearing redo) and applied to the bytes read.
    pub fn write_byte_complete(&mut self, result: Result<(usize, u8), String>)
        ensures
            !final(self).is_loading,
            final(self).editing_byte is None,
            match result {
                Ok((offset, v)) => match data_view(old(self).memory_data) {
                    Some(d) => if old(self).editing_byte is Some && offset < d.len() {
                        let a = byte_address(old(self).current_address, offset);
                        &&& final(self).undo_stack@ == old(self).undo_stack@.push(
                            UndoEntry { address: a, old_value: d[offset as int], new_value: v, offset },
                        )
                        &&& final(self).redo_stack@.len() == 0
                        &&& data_view(final(self).memory_data) == Some(d.update(offset as int, v))
                        &&& final(self).status_message matches Some(m) && m@ == byte_at_text(
                            "Written "@,
                            v,
                            " to "@,
                            a,
                        )
                    } else {
                        &&& final(self).undo_stack@ == old(self).undo_stack@
                        &&& final(self).redo_stack@ == old(self).redo_stack@
                        &&& final(self).memory_data == old(self).memory_data
                    },
                    None => {
                        &&& final(self).undo_stack@ == old(self).undo_stack@
                        &&& final(self).redo_stack@ == old(self).redo_stack@
                        &&& final(self).memory_data == old(self).memory_data
                    },
                },
                Err(e) => {
                    &&& final(self).undo_stack@ == old(self).undo_stack@
                    &&& final(self).redo_stack@ == old(self).redo_stack@
                    &&& final(self).memory_data == old(self).memory_data
                    &&& final(self).status_message matches Some(m) && m@ == "Write failed: "@
                        + e@
                },
            },
    {
        self.is_loading = false;
        match result {
            Ok((offset, new_value)) => {
                if self.editing_byte.is_some() {
                    let data_opt = self.memory_data.take();
                    match data_opt {
                        Some(mut data) => {
                            if offset < data.len() {
                                let old_value = data[offset];
                                let address = (self.current_address % 65536) as u16;
                                let address = address.wrapping_add((offset % 65536) as u16);
                                self.undo_stack.push(
                                    UndoEntry { address, old_value, new_value, offset },
                                );
                                self.redo_stack.clear();
                                data.set(offset, new_value);
                                proof {
                                    reveal_strlit("");
                                }
                                self.status_message = Some(
                                    byte_at_message("Written ", new_value, " to ", address, ""),
                                );
                            }
                            self.memory_data = Some(data);
                        },
                        None => {},
                    }
                }
            },
            Err(e) => {
                let mut out: Vec<char> = Vec::new();
                push_str(&mut out, "Write failed: ");
                push_str(&mut out, e.as_str());
                self.status_message = Some(string_from_chars(&out));
            },
        }
        self.editing_byte = None;
    }

    /// Undo the last byte write: its entry leaves the undo stack; with a
    /// device it moves to the redo stack, the old value goes back into the
    /// bytes read, and the write `(address, old value)` is asked for.
    /// Without a device the entry is dropped.
    pub fn undo(&mut self, connected: bool) -> (r: Option<(u16, u8)>)
        ensures
            old(self).undo_stack@.len() == 0 ==> r is None && final(self).undo_stack@ == old(self).undo_stack@ && final(self).redo_stack@ == old(self).redo_stack@ && final(self).memory_data == old(self).memory_data,
            old(self).undo_stack@.len() > 0 ==> {
                let e = old(self).undo_stack@.last();
                &&& final(self).undo_stack@ == old(self).undo_stack@.drop_last()
                &&& connected ==> {
                    &&& r == Some((e.address, e.old_value))
                    &&& final(self).redo_stack@ == old(self).redo_stack@.push(e)
                    &&& data_view(final(self).memory_data) == patched(
                        data_view(old(self).memory_data),
                        e.offset,
                        e.old_value,
                    )
                    &&& final(self).is_loading
                    &&& final(self).status_message matches Some(m) && m@ == byte_at_text(
                        "Undo: restored "@,
                        e.old_value,
                        " at "@,
                        e.address,
                    )
                }
                &&& !connected ==> r is None && final(self).redo_stack@ == old(self).redo_stack@
                    && final(self).memory_data == old(self).memory_data
            },
    {
        match self.undo_stack.pop() {
            Some(entry) => {
                if connected {
                    self.redo_stack.push(entry);
                    patch_data(&mut self.memory_data, entry.offset, entry.old_value);
                    proof {
                        reveal_strlit("");
                    }
                    self.status_message = Some(
                        byte_at_message("Undo: restored ", entry.old_value, " at ", entry.address, ""),
                    );
                    self.is_loading = true;
                    Some((entry.address, entry.old_value))
                } else {
                    None
                }
            },
            None => None,
        }
    }

    /// Redo the last undone byte write: its entry leaves the redo stack;
    /// with a device it moves back to the undo stack, the new value goes
    /// into the bytes read, and the write `(address, new value)` is asked
    /// for.  Without a device the entry is dropped.
    pub fn redo(&mut self, connected: bool) -> (r: Option<(u16, u8)>)
        ensures
            old(self).redo_stack@.len() == 0 ==> r is None && final(self).undo_stack@ == old(self).undo_stack@ && final(self).redo_stack@ == old(self).redo_stack@ && final(self).memory_data == old(self).memory_data,
            old(self).redo_stack@.len() > 0 ==> {
                let e = old(self).redo_stack@.last();
                &&& final(self).redo_stack@ == old(self).redo_stack@.drop_last()
                &&& connected ==> {
                    &&& r == Some((e.address, e.new_value))
                    &&& final(self).undo_stack@ == old(self).undo_stack@.push(e)
                    &&& data_view(final(self).memory_data) == patched(
                        data_view(old(self).memory_data),
                        e.offset,
                        e.new_value,
                    )
                    &&& final(self).is_loading
                    &&& final(self).status_message matches Some(m) && m@ == byte_at_text(
                        "Redo: wrote "@,
                        e.new_value,
                        " to "@,
                        e.address,
                    )
                }
                &&& !connected ==> r is None && final(self).undo_stack@ == old(self).undo_stack@
                    && final(self).memory_data == old(self).memory_data
            },
    {
        match self.redo_stack.pop() {
            Some(entry) => {
                if connected {
                    self.undo_stack.push(entry);
                    patch_data(&mut self.memory_data, entry.offset, entry.new_value);
                    proof {
                        reveal_strlit("");
                    }
                    self.status_message = Some(
                        byte_at_message("Redo: wrote ", entry.new_value, " to ", entry.address, ""),
                    );
                    self.is_loading = true;
                    Some((entry.address, entry.new_value))
                } else {
                    None
                }
            },
            None => None,
        }
    }
}

fn digit_filter(value: &str) -> (r: Vec<char>)
    ensures
        r@ == digits_of(value@),
{
    let cs = chars_of(value);
    let ghost pred = |c: char| is_digit_char(c);
    let mut kept: Vec<char> = Vec::new();
    let mut i: usize = 0;
    while i < cs.len()
        invariant
            i <= cs@.len(),
            cs@ == value@,
            pred == (|c: char| is_digit_char(c)),
            kept@ == cs@.take(i as int).filter(pred),
        decreases cs@.len() - i,
    {
        if '0' <= cs[i] && cs[i] <= '9' {
            kept.push(cs[i]);
        }
        proof {
            reveal(Seq::filter);
            assert(cs@.take(i as int + 1).drop_last() =~= cs@.take(i as int));
        }
        i = i + 1;
    }
    assert(cs@.take(i as int) =~= cs@);
    kept
}

/// The kept hex digits are upper-case hex digits, at most `max` of them.
proof fn lemma_hex_input_digits(s: Seq<char>, max: nat)
    ensures
        hex_input(s, max).len() <= max,
        forall|i: int| 0 <= i < hex_input(s, max).len() ==> is_hex_char(#[trigger] hex_input(s, max)[i]),
{
    let pred = |c: char| is_hex_char(c);
    let f = s.filter(pred);
    assert forall|i: int| 0 <= i < hex_input(s, max).len() implies is_hex_char(
        #[trigger] hex_input(s, max)[i],
    ) by {
        s.lemma_filter_pred(pred, i);
    }
}

// ── Laws of the edit history ──────────────────────────────────────

/// Undoing a write puts back the byte it replaced: patching a byte and then
/// patching it back to its old value gives the bytes read before.
pub proof fn lemma_undo_restores(d: Seq<u8>, offset: usize, v: u8)
    requires
        offset < d.len(),
    ensures
        patched(patched(Some(d), offset, v), offset, d[offset as int]) == Some(d),
{
    assert(d.update(offset as int, v).update(offset as int, d[offset as int]) =~= d);
}

/// Redoing an undone write gives the bytes the write had produced.
pub proof fn lemma_redo_reapplies(d: Seq<u8>, offset: usize, v: u8)
    requires
        offset < d.len(),
    ensures
        patched(patched(patched(Some(d), offset, v), offset, d[offset as int]), offset, v)
            == patched(Some(d), offset, v),
{
    assert(d.update(offset as int, v).update(offset as int, d[offset as int]).update(
        offset as int,
        v,
    ) =~= d.update(offset as int, v));
}


// ── Reading, searching, bookmarks, flash ─────────────────────────

/// Digits of a hexadecimal number text: without a leading `+`, each a hex
/// digit.
pub open spec fn all_hex(s: Seq<char>) -> bool {
    forall|i: int| 0 <= i < s.len() ==> is_hex_char(#[trigger] s[i])
}

/// What `u8::from_str_radix(s, 16)` gives: an optional `+`, then at least
/// one hex digit and nothing else, at most 255.
pub open spec fn parse_hex_byte(s: Seq<char>) -> Option<u8> {
    let body = unsigned_body(s);
    if body.len() > 0 && all_hex(body) && hex_number(body) <= 255 {
        Some(hex_number(body) as u8)
    } else {
        None
    }
}

fn parse_hex_byte_exec(s: &str) -> (r: Option<u8>)
    ensures
        r == parse_hex_byte(s@),
{
    let cs = chars_of(s);
    let start: usize = if cs.len() > 0 && cs[0] == '+' {
        1
    } else {
        0
    };
    let body = crate::text::sub_chars(&cs, start, cs.len());
    assert(body@ == unsigned_body(s@));
    if body.len() == 0 {
        return None;
    }
    let mut v: u32 = 0;
    let mut i: usize = 0;
    while i < body.len()
        invariant
            i <= body@.len(),
            body@ == unsigned_body(s@),
            forall|k: int| 0 <= k < i ==> is_hex_char(#[trigger] body@[k]),
            v as nat == (if hex_number(body@.take(i as int)) <= 255 {
                hex_number(body@.take(i as int))
            } else {
                256
            }),
        decreases body@.len() - i,
    {
        let c = body[i];
        if !is_hex_digit(c) {
            assert(!is_hex_char(body@[i as int]));
            return None;
        }
        assert(body@.take(i as int + 1).drop_last() =~= body@.take(i as int));
        let next = 16 * v + hex_digit_value(c) as u32;
        v = if next > 255 {
            256
        } else {
            next
        };
        i = i + 1;
    }
    assert(body@.take(i as int) =~= body@);
    if v > 255 {
        None
    } else {
        Some(v as u8)
    }
}

/// A message built from a prefix, a number in decimal and a suffix.
fn number_message(prefix: &str, n: u64, suffix: &str) -> (s: String)
    ensures
        s@ == prefix@ + crate::text::decimal(n as nat) + suffix@,
{
    let mut out: Vec<char> = Vec::new();
    push_str(&mut out, prefix);
    push_decimal(&mut out, n);
    push_str(&mut out, suffix);
    string_from_chars(&out)
}

/// A message built from a prefix and a text.
fn text_message(prefix: &str, t: &str) -> (s: String)
    ensures
        s@ == prefix@ + t@,
{
    let mut out: Vec<char> = Vec::new();
    push_str(&mut out, prefix);
    push_str(&mut out, t);
    string_from_chars(&out)
}

/// The model of an optional message.
pub open spec fn message_view(m: Option<String>) -> Option<Seq<char>> {
    match m {
        Some(s) => Some(s@),
        None => None,
    }
}

/// What asking to read the displayed range does (see `read_memory`).
pub open spec fn read_spec(s: MemoryEditor, t: MemoryEditor, r: Option<(u16, u16)>, connected: bool) -> bool {
    match s.address_space {
        AddressSpace::C64Ram => if connected {
            &&& r == Some(((s.current_address % 65536) as u16, s.display_length))
            &&& message_view(t.status_message) == Some("Reading memory…"@)
            &&& t == (MemoryEditor { is_loading: true, status_message: t.status_message, ..s })
        } else {
            &&& r is None
            &&& message_view(t.status_message) == Some("Not connected to Ultimate64"@)
            &&& t == (MemoryEditor { status_message: t.status_message, ..s })
        },
        AddressSpace::Reu => {
            &&& r is None
            &&& message_view(t.status_message) == Some(
                "REU read not available via REST — write-only via raw socket"@,
            )
            &&& t == (MemoryEditor { status_message: t.status_message, ..s })
        },
    }
}

/// The ASCII digits of a text, in order.
pub open spec fn ascii_digits(t: Seq<char>) -> Seq<char>
    decreases t.len(),
{
    if t.len() == 0 {
        Seq::empty()
    } else {
        let rest = ascii_digits(t.drop_last());
        if '0' <= t.last() && t.last() <= '9' {
            rest.push(t.last())
        } else {
            rest
        }
    }
}

/// The bookmark label for an address without a typed label: `$XXXX`.
pub open spec fn address_label(address: u32) -> Seq<char> {
    "$"@ + crate::text::hex_padded(address as nat, 4)
}

fn copy_string(s: &String) -> (r: String)
    ensures
        r@ == s@,
{
    s.clone()
}

impl MemoryEditor {
    /// Ask to read the displayed range of C64 RAM: with a device, the read
    /// `(address, length)` is asked for; without one, or in REU space
    /// (which cannot be read), only the status says why not.
    pub fn read_memory(&mut self, connected: bool) -> (r: Option<(u16, u16)>)
        ensures
            read_spec(*old(self), *final(self), r, connected),
    {
        match self.address_space {
            AddressSpace::C64Ram => {
                if connected {
                    self.is_loading = true;
                    self.status_message = Some(String::from_str("Reading memory…"));
                    Some(((self.current_address % 65536) as u16, self.display_length))
                } else {
                    self.status_message = Some(String::from_str("Not connected to Ultimate64"));
                    None
                }
            },
            AddressSpace::Reu => {
                self.status_message = Some(
                    String::from_str("REU read not available via REST — write-only via raw socket"),
                );
                None
            },
        }
    }

    /// A read finished: its bytes replace those shown (and clear the
    /// search matches), or the failure is reported.
    pub fn read_memory_complete(&mut self, result: Result<Vec<u8>, String>)
        ensures
            !final(self).is_loading,
            match result {
                Ok(data) => {
                    &&& final(self).memory_data == Some(data)
                    &&& final(self).search_matches@.len() == 0
                    &&& message_view(final(self).status_message) == Some(
                        "Read "@ + crate::text::decimal(data@.len()) + " bytes from $"@
                            + crate::text::hex_padded(old(self).current_address as nat, 4),
                    )
                },
                Err(e) => {
                    &&& final(self).memory_data == old(self).memory_data
                    &&& final(self).search_matches@ == old(self).search_matches@
                    &&& message_view(final(self).status_message) == Some("Read failed: "@ + e@)
                },
            },
    {
        self.is_loading = false;
        match result {
            Ok(data) => {
                let mut out: Vec<char> = Vec::new();
                push_str(&mut out, "Read ");
                push_decimal(&mut out, data.len() as u64);
                push_str(&mut out, " bytes from $");
                push_hex(&mut out, self.current_address as u64, 4);
                self.status_message = Some(string_from_chars(&out));
                self.memory_data = Some(data);
                self.search_matches.clear();
            },
            Err(e) => {
                self.status_message = Some(text_message("Read failed: ", e.as_str()));
            },
        }
    }

    /// Run the search over the bytes shown (see `perform_search`); the
    /// status tells how many matches there are.
    pub fn run_search(&mut self)
        requires
            old(self).memory_data matches Some(d) ==> (old(self).search_input@.len() > 0
                ==> search_safe(old(self).search_input@, d@)),
        ensures
            match old(self).memory_data {
                Some(d) => if old(self).search_input@.len() > 0 {
                    let m = search_result(old(self).search_input@, d@);
                    &&& final(self).search_matches@ == m
                    &&& message_view(final(self).status_message) == Some(
                        if m.len() == 0 {
                            "Pattern not found"@
                        } else {
                            "Found "@ + crate::text::decimal(m.len()) + " match(es)"@
                        },
                    )
                } else {
                    final(self).search_matches@.len() == 0 && final(self).status_message
                        == old(self).status_message
                },
                None => final(self).search_matches@.len() == 0 && final(self).status_message
                    == old(self).status_message,
            },
            final(self).memory_data == old(self).memory_data,
    {
        self.search_matches.clear();
        if let Some(data) = &self.memory_data {
            if !self.search_input.as_str().is_empty() {
                let matches = self.perform_search(data.as_slice());
                if matches.len() == 0 {
                    self.status_message = Some(String::from_str("Pattern not found"));
                } else {
                    self.status_message = Some(
                        number_message("Found ", matches.len() as u64, " match(es)"),
                    );
                }
                self.search_matches = matches;
            }
        }
    }

    /// Run the search where it can run (see `try_search`); `false`, with
    /// nothing changed, where a text search would look past the data.
    pub fn run_search_checked(&mut self) -> (ran: bool)
        ensures
            ran == (match old(self).memory_data {
                Some(d) => old(self).search_input@.len() == 0 || search_safe(
                    old(self).search_input@,
                    d@,
                ),
                None => true,
            }),
            !ran ==> final(self).search_matches@ == old(self).search_matches@
                && final(self).status_message == old(self).status_message,
            ran ==> match old(self).memory_data {
                Some(d) => if old(self).search_input@.len() > 0 {
                    final(self).search_matches@ == search_result(old(self).search_input@, d@)
                } else {
                    final(self).search_matches@.len() == 0
                },
                None => final(self).search_matches@.len() == 0,
            },
            final(self).memory_data == old(self).memory_data,
    {
        let safe = match &self.memory_data {
            Some(d) => self.search_input.as_str().is_empty() || self.try_search(
                d.as_slice(),
            ).is_some(),
            None => true,
        };
        if safe {
            self.run_search();
        }
        safe
    }

    /// Clear the search text and its matches.
    pub fn clear_search(&mut self)
        ensures
            final(self).search_input@.len() == 0,
            final(self).search_matches@.len() == 0,
            final(self).memory_data == old(self).memory_data,
    {
        self.search_input = String::new();
        self.search_matches.clear();
    }

    /// Forget the bytes shown, the matches, the edit, the status; stop
    /// watching.
    pub fn clear_memory_view(&mut self)
        ensures
            final(self).memory_data is None,
            final(self).search_matches@.len() == 0,
            final(self).editing_byte is None,
            final(self).status_message is None,
            !final(self).watch_active,
            final(self).undo_stack@ == old(self).undo_stack@,
            final(self).redo_stack@ == old(self).redo_stack@,
    {
        self.memory_data = None;
        self.search_matches.clear();
        self.editing_byte = None;
        self.status_message = None;
        self.watch_active = false;
    }

    /// Turn watching (re-reading twice a second) on or off.
    pub fn toggle_watch(&mut self)
        ensures
            final(self).watch_active == !old(self).watch_active,
            message_view(final(self).status_message) == Some(
                if final(self).watch_active {
                    "Watch mode ON — refreshing every 500 ms"@
                } else {
                    "Watch mode OFF"@
                },
            ),
            final(self).memory_data == old(self).memory_data,
    {
        self.watch_active = !self.watch_active;
        if self.watch_active {
            self.status_message = Some(
                String::from_str("Watch mode ON — refreshing every 500 ms"),
            );
        } else {
            self.status_message = Some(String::from_str("Watch mode OFF"));
        }
    }

    /// A watch tick: re-read quietly when watching, idle and connected.
    pub fn watch_tick(&mut self, connected: bool) -> (r: Option<(u16, u16)>)
        ensures
            old(self).watch_active && !old(self).is_loading && connected ==> r == Some(
                ((old(self).current_address % 65536) as u16, old(self).display_length),
            ) && final(self).is_loading,
            !(old(self).watch_active && !old(self).is_loading && connected) ==> r is None
                && final(self).is_loading == old(self).is_loading,
            final(self).status_message == old(self).status_message,
            final(self).memory_data == old(self).memory_data,
    {
        if self.watch_active && !self.is_loading && connected {
            self.is_loading = true;
            Some(((self.current_address % 65536) as u16, self.display_length))
        } else {
            None
        }
    }

    /// Bookmark the current range under the typed label (trimmed), or under
    /// `$XXXX` when none is typed.
    pub fn add_bookmark(&mut self)
        ensures
            final(self).bookmarks@.len() == old(self).bookmarks@.len() + 1,
            final(self).bookmarks@.drop_last() == old(self).bookmarks@,
            ({
                let b = final(self).bookmarks@.last();
                let typed = crate::text::trim(old(self).bookmark_label_input@);
                &&& b.label@ == (if typed.len() == 0 {
                    address_label(old(self).current_address)
                } else {
                    typed
                })
                &&& b.address == old(self).current_address
                &&& b.length == old(self).display_length
                &&& b.space == (if old(self).address_space == AddressSpace::Reu {
                    BookmarkSpace::Reu
                } else {
                    BookmarkSpace::C64Ram
                })
            }),
            final(self).bookmark_label_input@.len() == 0,
            message_view(final(self).status_message) == Some(
                "Bookmark added ("@ + crate::text::decimal(final(self).bookmarks@.len())
                    + " total)"@,
            ),
    {
        let typed = trim_chars(&chars_of(self.bookmark_label_input.as_str()));
        let label = if typed.len() == 0 {
            let mut out: Vec<char> = Vec::new();
            push_str(&mut out, "$");
            push_hex(&mut out, self.current_address as u64, 4);
            string_from_chars(&out)
        } else {
            string_from_chars(&typed)
        };
        let space = match self.address_space {
            AddressSpace::C64Ram => BookmarkSpace::C64Ram,
            AddressSpace::Reu => BookmarkSpace::Reu,
        };
        let ghost before = self.bookmarks@;
        self.bookmarks.push(
            Bookmark {
                label,
                address: self.current_address,
                length: self.display_length,
                space,
            },
        );
        assert(self.bookmarks@.drop_last() =~= before);
        self.bookmark_label_input = String::new();
        self.status_message = Some(
            number_message("Bookmark added (", self.bookmarks.len() as u64, " total)"),
        );
    }

    /// Jump to a bookmark: its space, address and length become current,
    /// the inputs show them, and C64 RAM is read when connected.
    pub fn select_bookmark(&mut self, bm: &Bookmark, connected: bool) -> (r: Option<(u16, u16)>)
        ensures
            final(self).address_space == (match bm.space {
                BookmarkSpace::C64Ram => AddressSpace::C64Ram,
                BookmarkSpace::Reu => AddressSpace::Reu,
            }),
            final(self).current_address == bm.address,
            final(self).display_length == bm.length,
            final(self).address_input@ == crate::text::hex_padded(
                bm.address as nat,
                if bm.space == BookmarkSpace::Reu {
                    6
                } else {
                    4
                },
            ),
            final(self).length_input@ == crate::text::decimal(bm.length as nat),
            connected && bm.space == BookmarkSpace::C64Ram ==> r == Some(
                ((bm.address % 65536) as u16, bm.length),
            ) && message_view(final(self).status_message) == Some("Reading memory…"@),
            !(connected && bm.space == BookmarkSpace::C64Ram) ==> r is None && message_view(
                final(self).status_message,
            ) == Some("Jumped to bookmark: "@ + bm.label@),
            final(self).bookmarks@ == old(self).bookmarks@,
    {
        self.address_space = match bm.space {
            BookmarkSpace::C64Ram => AddressSpace::C64Ram,
            BookmarkSpace::Reu => AddressSpace::Reu,
        };
        self.current_address = bm.address;
        self.display_length = bm.length;
        let width: u64 = if self.address_space == AddressSpace::Reu {
            6
        } else {
            4
        };
        let mut a: Vec<char> = Vec::new();
        push_hex(&mut a, bm.address as u64, width);
        self.address_input = string_from_chars(&a);
        let mut l: Vec<char> = Vec::new();
        push_decimal(&mut l, bm.length as u64);
        self.length_input = string_from_chars(&l);
        self.status_message = Some(text_message("Jumped to bookmark: ", bm.label.as_str()));
        if connected && self.address_space == AddressSpace::C64Ram {
            return self.read_memory(connected);
        }
        None
    }

    /// Remove a bookmark; an index past the end changes nothing.
    pub fn delete_bookmark(&mut self, idx: usize)
        ensures
            idx < old(self).bookmarks@.len() ==> final(self).bookmarks@ == old(self).bookmarks@.remove(idx as int) && message_view(final(self).status_message) == Some(
                "Bookmark '"@ + old(self).bookmarks@[idx as int].label@ + "' removed"@,
            ),
            idx >= old(self).bookmarks@.len() ==> final(self).bookmarks@ == old(self).bookmarks@
                && final(self).status_message == old(self).status_message,
    {
        if idx < self.bookmarks.len() {
            let removed = self.bookmarks.remove(idx);
            let mut out: Vec<char> = Vec::new();
            push_str(&mut out, "Bookmark '");
            push_str(&mut out, removed.label.as_str());
            push_str(&mut out, "' removed");
            self.status_message = Some(string_from_chars(&out));
        }
    }

    /// Jump to a named location of C64 RAM, reading it when connected.
    pub fn location_selected(&mut self, location: &MemoryLocation, connected: bool) -> (r: Option<
        (u16, u16),
    >)
        ensures
            final(self).selected_location matches Some(l) && l.name@ == location.name@
                && l.address == location.address && l.length == location.length
                && l.description@ == location.description@,
            final(self).current_address == location.address as u32,
            final(self).display_length == location.length,
            final(self).address_input@ == crate::text::hex_padded(location.address as nat, 4),
            final(self).length_input@ == crate::text::decimal(location.length as nat),
            final(self).address_space == AddressSpace::C64Ram,
            connected ==> r == Some((location.address, location.length)) && message_view(
                final(self).status_message,
            ) == Some("Reading memory…"@),
            !connected ==> r is None && message_view(final(self).status_message) == Some(
                "Selected: "@ + location.description@,
            ),
    {
        self.selected_location = Some(
            MemoryLocation {
                name: copy_string(&location.name),
                address: location.address,
                length: location.length,
                description: copy_string(&location.description),
            },
        );
        self.current_address = location.address as u32;
        self.display_length = location.length;
        let mut a: Vec<char> = Vec::new();
        push_hex(&mut a, location.address as u64, 4);
        self.address_input = string_from_chars(&a);
        let mut l: Vec<char> = Vec::new();
        push_decimal(&mut l, location.length as u64);
        self.length_input = string_from_chars(&l);
        self.address_space = AddressSpace::C64Ram;
        self.status_message = Some(text_message("Selected: ", location.description.as_str()));
        if connected {
            return self.read_memory(connected);
        }
        None
    }

    /// Ask to fill the displayed range with the fill value: with a device
    /// and a valid hex byte, the fill `(address, length, value)` is asked
    /// for.
    pub fn fill_memory(&mut self, connected: bool) -> (r: Option<(u16, u16, u8)>)
        ensures
            connected && parse_hex_byte(old(self).fill_value_input@) is Some ==> {
                let v = parse_hex_byte(old(self).fill_value_input@)->0;
                &&& r == Some(((old(self).current_address % 65536) as u16, old(self).display_length, v))
                &&& final(self).is_loading
                &&& message_view(final(self).status_message) == Some(
                    "Filling "@ + crate::text::decimal(old(self).display_length as nat)
                        + " bytes with $"@ + crate::text::hex_padded(v as nat, 2) + "…"@,
                )
            },
            !(connected && parse_hex_byte(old(self).fill_value_input@) is Some) ==> r is None
                && final(self).status_message == old(self).status_message && final(self).is_loading
                == old(self).is_loading,
            final(self).memory_data == old(self).memory_data,
    {
        if connected {
            if let Some(value) = parse_hex_byte_exec(self.fill_value_input.as_str()) {
                self.is_loading = true;
                let mut out: Vec<char> = Vec::new();
                push_str(&mut out, "Filling ");
                push_decimal(&mut out, self.display_length as u64);
                push_str(&mut out, " bytes with $");
                push_hex(&mut out, value as u64, 2);
                push_str(&mut out, "…");
                self.status_message = Some(string_from_chars(&out));
                return Some(((self.current_address % 65536) as u16, self.display_length, value));
            }
        }
        None
    }

    /// Flash geometry arrived (or failed).
    pub fn flash_info_complete(&mut self, result: Result<(u32, u32), String>)
        ensures
            !final(self).is_loading,
            match result {
                Ok((page_size, page_count)) => {
                    &&& final(self).flash_info matches Some(fi) && fi.page_size == page_size
                        && fi.page_count == page_count && fi.pages@.len() == 0 && fi.current_page
                        == 0
                    &&& message_view(final(self).status_message) == Some(
                        "Flash: "@ + crate::text::decimal(page_count as nat) + " pages × "@
                            + crate::text::decimal(page_size as nat) + " bytes = "@
                            + crate::text::decimal((page_count * page_size / 1024) as nat)
                            + " KB"@,
                    )
                },
                Err(e) => final(self).flash_info == old(self).flash_info && message_view(
                    final(self).status_message,
                ) == Some("Flash info failed: "@ + e@),
            },
    {
        self.is_loading = false;
        match result {
            Ok((page_size, page_count)) => {
                self.flash_info = Some(
                    FlashInfo { page_size, page_count, pages: Vec::new(), current_page: 0 },
                );
                let total = crate::port64::FlashGeometry { page_size, page_count }.total_bytes();
                assert(total == page_count * page_size) by (nonlinear_arith)
                    requires
                        total == page_size * page_count,
                ;
                let mut out: Vec<char> = Vec::new();
                push_str(&mut out, "Flash: ");
                push_decimal(&mut out, page_count as u64);
                push_str(&mut out, " pages × ");
                push_decimal(&mut out, page_size as u64);
                push_str(&mut out, " bytes = ");
                push_decimal(&mut out, total / 1024);
                push_str(&mut out, " KB");
                self.status_message = Some(string_from_chars(&out));
            },
            Err(e) => {
                self.status_message = Some(text_message("Flash info failed: ", e.as_str()));
            },
        }
    }

    /// A flash page arrived: it is stored at its index (the list grows with
    /// empty pages as needed), when flash geometry is known.
    pub fn flash_page_complete(&mut self, result: Result<(u32, Vec<u8>), String>)
        requires
            old(self).flash_info is Some ==> (result matches Ok((page, _)) ==> page < usize::MAX),
        ensures
            !final(self).is_loading,
            match result {
                Ok((page, data)) => match old(self).flash_info {
                    Some(fi) => {
                        let n: int = if page < fi.pages@.len() {
                            fi.pages@.len() as int
                        } else {
                            page + 1
                        };
                        &&& final(self).flash_info matches Some(g) && g.page_size
                            == fi.page_size && g.page_count == fi.page_count && g.current_page
                            == fi.current_page && g.pages@.len() == n && g.pages@[page as int]
                            == data && (forall|i: int|
                            0 <= i < n && i != page ==> #[trigger] g.pages@[i]@ == (if i
                            < fi.pages@.len() {
                            fi.pages@[i]@
                        } else {
                            Seq::<u8>::empty()
                        }))
                        &&& message_view(final(self).status_message) == Some(
                            "Flash page "@ + crate::text::decimal(page as nat) + " read ("@
                                + crate::text::decimal(data@.len()) + " bytes)"@,
                        )
                    },
                    None => final(self).flash_info is None && final(self).status_message == old(self).status_message,
                },
                Err(e) => final(self).flash_info == old(self).flash_info && message_view(
                    final(self).status_message,
                ) == Some("Flash read failed: "@ + e@),
            },
    {
        self.is_loading = false;
        match result {
            Ok((page, data)) => {
                let taken = self.flash_info.take();
                match taken {
                    Some(fi) => {
                        let p = page as usize;
                        let FlashInfo { page_size, page_count, mut pages, current_page } = fi;
                        let ghost orig = pages@;
                        while pages.len() <= p
                            invariant
                                p < usize::MAX,
                                orig.len() <= pages@.len(),
                                pages@.len() <= (if p < orig.len() {
                                    orig.len()
                                } else {
                                    (p + 1) as nat
                                }),
                                forall|i: int|
                                    0 <= i < pages@.len() ==> #[trigger] pages@[i]@ == (if i
                                        < orig.len() {
                                        orig[i]@
                                    } else {
                                        Seq::<u8>::empty()
                                    }),
                            decreases p + 1 - pages@.len(),
                        {
                            pages.push(Vec::new());
                        }
                        let len = data.len();
                        pages.set(p, data);
                        let mut out: Vec<char> = Vec::new();
                        push_str(&mut out, "Flash page ");
                        push_decimal(&mut out, page as u64);
                        push_str(&mut out, " read (");
                        push_decimal(&mut out, len as u64);
                        push_str(&mut out, " bytes)");
                        self.status_message = Some(string_from_chars(&out));
                        self.flash_info = Some(FlashInfo { page_size, page_count, pages, current_page });
                    },
                    None => {},
                }
            },
            Err(e) => {
                self.status_message = Some(text_message("Flash read failed: ", e.as_str()));
            },
        }
    }
}


impl MemoryLocation {
    /// How a location is listed: `<name> ($XXXX)`.
    pub fn display_text(&self) -> (t: String)
        ensures
            t@ == self.name@ + " ($"@ + crate::text::hex_padded(self.address as nat, 4) + ")"@,
    {
        let mut out: Vec<char> = Vec::new();
        push_str(&mut out, self.name.as_str());
        push_str(&mut out, " ($");
        push_hex(&mut out, self.address as u64, 4);
        push_str(&mut out, ")");
        string_from_chars(&out)
    }
}

impl AddressSpace {
    /// The name of an address space: `C64 RAM` or `REU`.
    pub fn display_text(&self) -> (t: String)
        ensures
            t@ == match *self {
                AddressSpace::C64Ram => "C64 RAM"@,
                AddressSpace::Reu => "REU"@,
            },
    {
        match self {
            AddressSpace::C64Ram => String::from_str("C64 RAM"),
            AddressSpace::Reu => String::from_str("REU"),
        }
    }
}

impl DisplayMode {
    /// The short name of a display mode: `HEX`, `ASCII`, `DEC` or `BIN`.
    pub fn display_text(&self) -> (t: String)
        ensures
            t@ == match *self {
                DisplayMode::Hex => "HEX"@,
                DisplayMode::Ascii => "ASCII"@,
                DisplayMode::Decimal => "DEC"@,
                DisplayMode::Binary => "BIN"@,
            },
    {
        match self {
            DisplayMode::Hex => String::from_str("HEX"),
            DisplayMode::Ascii => String::from_str("ASCII"),
            DisplayMode::Decimal => String::from_str("DEC"),
            DisplayMode::Binary => String::from_str("BIN"),
        }
    }
}

impl Bookmark {
    /// How a bookmark is listed: `<label> ($XXXX)`, with `REU:` before the
    /// `$` for an REU bookmark.
    pub fn display_text(&self) -> (t: String)
        ensures
            t@ == self.label@ + " ("@ + (if self.space == BookmarkSpace::Reu {
                "REU:"@
            } else {
                Seq::empty()
            }) + "$"@ + crate::text::hex_padded(self.address as nat, 4) + ")"@,
    {
        let mut out: Vec<char> = Vec::new();
        push_str(&mut out, self.label.as_str());
        push_str(&mut out, " (");
        if self.space == BookmarkSpace::Reu {
            push_str(&mut out, "REU:");
        }
        push_str(&mut out, "$");
        push_hex(&mut out, self.address as u64, 4);
        push_str(&mut out, ")");
        proof {
            if self.space != BookmarkSpace::Reu {
                assert(out@ =~= self.label@ + " ("@ + Seq::<char>::empty() + "$"@ + crate::text::hex_padded(
                    self.address as nat,
                    4,
                ) + ")"@);
            }
        }
        string_from_chars(&out)
    }
}

impl MemoryEditor {
    /// Close the byte editor without writing.
    pub fn write_byte_cancel(&mut self)
        ensures
            *final(self) == (MemoryEditor { editing_byte: None, ..*old(self) }),
    {
        self.editing_byte = None;
    }

    /// A fill ended: on success the range is read again.
    pub fn fill_complete(&mut self, result: Result<(), String>, connected: bool) -> (r: Option<(u16, u16)>)
        ensures
            match result {
                Ok(()) => read_spec(MemoryEditor { is_loading: false, ..*old(self) }, *final(self), r, connected),
                Err(e) => r is None && message_view(final(self).status_message) == Some(
                    "Fill failed: "@ + e@,
                ) && *final(self) == (MemoryEditor {
                    is_loading: false,
                    status_message: final(self).status_message,
                    ..*old(self)
                }),
            },
    {
        self.is_loading = false;
        match result {
            Ok(()) => {
                self.status_message = Some(String::from_str("Fill complete"));
                let ghost mid = *self;
                let r = self.read_memory(connected);
                assert(read_spec(MemoryEditor { is_loading: false, ..*old(self) }, *self, r, connected)) by {
                    assert(mid == (MemoryEditor { is_loading: false, status_message: mid.status_message, ..*old(self) }));
                }
                r
            },
            Err(e) => {
                self.status_message = Some(crate::text::join2("Fill failed: ", e.as_str()));
                None
            },
        }
    }

    /// Choose how bytes are shown.
    pub fn display_mode_changed(&mut self, mode: DisplayMode)
        ensures
            *final(self) == (MemoryEditor { display_mode: mode, ..*old(self) }),
    {
        self.display_mode = mode;
    }

    /// The search field was edited.
    pub fn search_input_changed(&mut self, value: String)
        ensures
            *final(self) == (MemoryEditor { search_input: value, ..*old(self) }),
    {
        self.search_input = value;
    }

    /// The bookmark label field was edited.
    pub fn bookmark_label_changed(&mut self, label: String)
        ensures
            *final(self) == (MemoryEditor { bookmark_label_input: label, ..*old(self) }),
    {
        self.bookmark_label_input = label;
    }

    /// Read the range again, when bytes are shown.
    pub fn refresh_memory(&mut self, connected: bool) -> (r: Option<(u16, u16)>)
        ensures
            old(self).memory_data is Some ==> read_spec(*old(self), *final(self), r, connected),
            old(self).memory_data is None ==> r is None && *final(self) == *old(self),
    {
        if self.memory_data.is_some() {
            return self.read_memory(connected);
        }
        None
    }

    /// Start saving the bytes read: the file name offered,
    /// `memdump_<start>_<end>.bin` (upper-case hex, at least four digits);
    /// without bytes the status says so.
    pub fn save_dump(&mut self) -> (name: Option<String>)
        ensures
            old(self).memory_data is None ==> name is None && message_view(final(self).status_message)
                == Some("No memory data to save. Read memory first."@) && *final(self) == (
            MemoryEditor { status_message: final(self).status_message, ..*old(self) }),
            old(self).memory_data is Some ==> *final(self) == *old(self) && (name matches Some(n) && n@
                == "memdump_"@ + crate::text::hex_padded(old(self).current_address as nat, 4) + "_"@
                + crate::text::hex_padded(
                dump_end(old(self).current_address, old(self).display_length) as nat,
                4,
            ) + ".bin"@),
    {
        if self.memory_data.is_none() {
            self.status_message = Some(String::from_str("No memory data to save. Read memory first."));
            return None;
        }
        let last: u16 = if self.display_length > 0 {
            self.display_length - 1
        } else {
            0
        };
        let end = self.current_address.wrapping_add(last as u32);
        let mut out: Vec<char> = Vec::new();
        push_str(&mut out, "memdump_");
        push_hex(&mut out, self.current_address as u64, 4);
        push_str(&mut out, "_");
        push_hex(&mut out, end as u64, 4);
        push_str(&mut out, ".bin");
        Some(string_from_chars(&out))
    }

    /// The bytes to write to the chosen dump file.
    pub fn dump_bytes(&self) -> (r: Option<Vec<u8>>)
        ensures
            match self.memory_data {
                Some(d) => r matches Some(v) && v@ == d@,
                None => r is None,
            },
    {
        match &self.memory_data {
            Some(d) => Some(crate::text::sub_bytes(d.as_slice(), 0, d.len())),
            None => None,
        }
    }

    /// A dump save ended: its message, or the error, is shown.
    pub fn save_dump_complete(&mut self, result: Result<String, String>)
        ensures
            message_view(final(self).status_message) == Some(
                match result {
                    Ok(m) => m@,
                    Err(e) => e@,
                },
            ),
            *final(self) == (MemoryEditor { status_message: final(self).status_message, ..*old(self) }),
    {
        self.status_message = Some(
            match result {
                Ok(m) => m,
                Err(e) => e,
            },
        );
    }

    /// A dump file was read: its bytes wait to be written at the current
    /// address.
    pub fn load_dump_complete(&mut self, result: Result<Vec<u8>, String>)
        ensures
            match result {
                Ok(data) => {
                    &&& final(self).pending_load_data == Some(data)
                    &&& message_view(final(self).status_message) == Some(
                        "Loaded "@ + crate::text::decimal(data@.len()) + " bytes — click 'Write to Device' to write to $"@
                            + crate::text::hex_padded(old(self).current_address as nat, 4),
                    )
                    &&& *final(self) == (MemoryEditor {
                        pending_load_data: final(self).pending_load_data,
                        status_message: final(self).status_message,
                        ..*old(self)
                    })
                },
                Err(e) => message_view(final(self).status_message) == Some(e@) && *final(self) == (
                MemoryEditor { status_message: final(self).status_message, ..*old(self) }),
            },
    {
        match result {
            Ok(data) => {
                let mut out: Vec<char> = Vec::new();
                push_str(&mut out, "Loaded ");
                push_decimal(&mut out, data.len() as u64);
                push_str(&mut out, " bytes — click 'Write to Device' to write to $");
                push_hex(&mut out, self.current_address as u64, 4);
                self.pending_load_data = Some(data);
                self.status_message = Some(string_from_chars(&out));
            },
            Err(e) => {
                self.status_message = Some(e);
            },
        }
    }

    /// Write the loaded dump at the current address (16 bits): the bytes
    /// waiting are taken in any case, and written only with a device.
    pub fn write_dump_to_device(&mut self, connected: bool) -> (r: Option<(u16, Vec<u8>)>)
        ensures
            final(self).pending_load_data is None,
            match (connected, old(self).pending_load_data) {
                (true, Some(data)) => {
                    &&& r == Some(((old(self).current_address % 65536) as u16, data))
                    &&& message_view(final(self).status_message) == Some(
                        "Writing "@ + crate::text::decimal(data@.len()) + " bytes to $"@ + crate::text::hex_padded(
                            old(self).current_address as nat % 65536,
                            4,
                        ) + "…"@,
                    )
                    &&& *final(self) == (MemoryEditor {
                        pending_load_data: None,
                        is_loading: true,
                        status_message: final(self).status_message,
                        ..*old(self)
                    })
                },
                _ => {
                    &&& r is None
                    &&& message_view(final(self).status_message) == Some(
                        "No data to write or not connected"@,
                    )
                    &&& *final(self) == (MemoryEditor {
                        pending_load_data: None,
                        status_message: final(self).status_message,
                        ..*old(self)
                    })
                },
            },
    {
        let mut pending: Option<Vec<u8>> = None;
        std::mem::swap(&mut pending, &mut self.pending_load_data);
        match pending {
            Some(data) => {
                if connected {
                    self.is_loading = true;
                    let address = (self.current_address % 65536) as u16;
                    let mut out: Vec<char> = Vec::new();
                    push_str(&mut out, "Writing ");
                    push_decimal(&mut out, data.len() as u64);
                    push_str(&mut out, " bytes to $");
                    push_hex(&mut out, address as u64, 4);
                    push_str(&mut out, "…");
                    self.status_message = Some(string_from_chars(&out));
                    return Some((address, data));
                }
            },
            None => {},
        }
        self.status_message = Some(String::from_str("No data to write or not connected"));
        None
    }

    /// A dump write ended: on success the range is read again.
    pub fn write_dump_complete(&mut self, result: Result<(), String>, connected: bool) -> (r: Option<(u16, u16)>)
        ensures
            match result {
                Ok(()) => read_spec(MemoryEditor { is_loading: false, ..*old(self) }, *final(self), r, connected),
                Err(e) => r is None && message_view(final(self).status_message) == Some(
                    "Write failed: "@ + e@,
                ) && *final(self) == (MemoryEditor {
                    is_loading: false,
                    status_message: final(self).status_message,
                    ..*old(self)
                }),
            },
    {
        self.is_loading = false;
        match result {
            Ok(()) => {
                self.status_message = Some(String::from_str("Memory written successfully!"));
                let ghost mid = *self;
                let r = self.read_memory(connected);
                assert(read_spec(MemoryEditor { is_loading: false, ..*old(self) }, *self, r, connected)) by {
                    assert(mid == (MemoryEditor { is_loading: false, status_message: mid.status_message, ..*old(self) }));
                }
                r
            },
            Err(e) => {
                self.status_message = Some(crate::text::join2("Write failed: ", e.as_str()));
                None
            },
        }
    }

    /// A raw-socket write of `len` bytes started: to C64 RAM at `offset`
    /// (`jump` when execution starts there) or, with `reu`, to the REU.
    pub fn raw_write_started(&mut self, kind: RawWrite, offset: u32, len: usize)
        ensures
            message_view(final(self).status_message) == Some(raw_start_message(kind, offset, len as nat)),
            *final(self) == (MemoryEditor {
                is_loading: true,
                status_message: final(self).status_message,
                ..*old(self)
            }),
    {
        self.is_loading = true;
        let mut out: Vec<char> = Vec::new();
        match kind {
            RawWrite::Dma => {
                push_str(&mut out, "DMA-writing ");
                push_decimal(&mut out, len as u64);
                push_str(&mut out, " bytes to $");
                push_hex(&mut out, offset as u64, 4);
            },
            RawWrite::DmaJump => {
                push_str(&mut out, "DMA-jump: loading ");
                push_decimal(&mut out, len as u64);
                push_str(&mut out, " bytes, jumping to $");
                push_hex(&mut out, offset as u64, 4);
            },
            RawWrite::Reu => {
                push_str(&mut out, "Writing ");
                push_decimal(&mut out, len as u64);
                push_str(&mut out, " bytes to REU $");
                push_hex(&mut out, offset as u64, 6);
            },
        }
        push_str(&mut out, "…");
        self.status_message = Some(string_from_chars(&out));
    }

    /// A raw-socket write ended.
    pub fn raw_write_complete(&mut self, kind: RawWrite, result: Result<(), String>)
        ensures
            message_view(final(self).status_message) == Some(raw_done_message(kind, result)),
            *final(self) == (MemoryEditor {
                is_loading: false,
                status_message: final(self).status_message,
                ..*old(self)
            }),
    {
        self.is_loading = false;
        self.status_message = Some(
            match (kind, result) {
                (RawWrite::Dma, Ok(())) => String::from_str("DMA write complete"),
                (RawWrite::Dma, Err(e)) => crate::text::join2("DMA write failed: ", e.as_str()),
                (RawWrite::DmaJump, Ok(())) => String::from_str("DMA jump dispatched"),
                (RawWrite::DmaJump, Err(e)) => crate::text::join2("DMA jump failed: ", e.as_str()),
                (RawWrite::Reu, Ok(())) => String::from_str("REU write complete"),
                (RawWrite::Reu, Err(e)) => crate::text::join2("REU write failed: ", e.as_str()),
            },
        );
    }

    /// A Kernal image was chosen: with a device it is to be sent.
    pub fn kernal_write_path_selected(&mut self, path: Option<String>, connected: bool) -> (send: bool)
        ensures
            send == (path is Some && connected),
            send ==> message_view(final(self).status_message) == Some("Sending Kernal ROM image…"@)
                && *final(self) == (MemoryEditor {
                kernal_pending_path: path,
                is_loading: true,
                status_message: final(self).status_message,
                ..*old(self)
            }),
            !send ==> *final(self) == *old(self),
    {
        if connected {
            if let Some(p) = path {
                self.kernal_pending_path = Some(p);
                self.is_loading = true;
                self.status_message = Some(String::from_str("Sending Kernal ROM image…"));
                return true;
            }
        }
        false
    }

    /// A Kernal write ended.
    pub fn kernal_write_complete(&mut self, result: Result<(), String>)
        ensures
            message_view(final(self).status_message) == Some(
                match result {
                    Ok(()) => "Kernal ROM replaced successfully"@,
                    Err(e) => "Kernal write failed: "@ + e@,
                },
            ),
            *final(self) == (MemoryEditor {
                is_loading: false,
                status_message: final(self).status_message,
                ..*old(self)
            }),
    {
        self.is_loading = false;
        self.status_message = Some(
            match result {
                Ok(()) => String::from_str("Kernal ROM replaced successfully"),
                Err(e) => crate::text::join2("Kernal write failed: ", e.as_str()),
            },
        );
    }

    /// Ask for the flash geometry, with a device.
    pub fn read_flash_info(&mut self, connected: bool) -> (ask: bool)
        ensures
            ask == connected,
            connected ==> message_view(final(self).status_message) == Some("Reading flash info…"@)
                && *final(self) == (MemoryEditor {
                is_loading: true,
                status_message: final(self).status_message,
                ..*old(self)
            }),
            !connected ==> *final(self) == *old(self),
    {
        if connected {
            self.is_loading = true;
            self.status_message = Some(String::from_str("Reading flash info…"));
        }
        connected
    }

    /// The flash page field was edited: only its ASCII digits are kept.
    pub fn flash_page_changed(&mut self, value: &str)
        ensures
            final(self).flash_page_input@ == ascii_digits(value@),
            *final(self) == (MemoryEditor { flash_page_input: final(self).flash_page_input, ..*old(self) }),
    {
        let cs = crate::text::chars_of(value);
        let mut out: Vec<char> = Vec::new();
        let mut i: usize = 0;
        while i < cs.len()
            invariant
                i <= cs@.len(),
                cs@ == value@,
                out@ == ascii_digits(cs@.take(i as int)),
            decreases cs@.len() - i,
        {
            assert(cs@.take(i as int + 1).drop_last() =~= cs@.take(i as int));
            if '0' <= cs[i] && cs[i] <= '9' {
                out.push(cs[i]);
            }
            i = i + 1;
        }
        assert(cs@.take(i as int) =~= cs@);
        self.flash_page_input = string_from_chars(&out);
    }

    /// Ask for a flash page, with a device; the inspector shows that page.
    pub fn read_flash_page(&mut self, page: u32, connected: bool) -> (ask: bool)
        ensures
            ask == connected,
            connected ==> {
                &&& message_view(final(self).status_message) == Some(
                    "Reading flash page "@ + crate::text::decimal(page as nat) + "…"@,
                )
                &&& final(self).flash_info == (match old(self).flash_info {
                    Some(fi) => Some(FlashInfo { current_page: page, ..fi }),
                    None => None,
                })
                &&& *final(self) == (MemoryEditor {
                    is_loading: true,
                    status_message: final(self).status_message,
                    flash_info: final(self).flash_info,
                    ..*old(self)
                })
            },
            !connected ==> *final(self) == *old(self),
    {
        if connected {
            self.is_loading = true;
            let mut out: Vec<char> = Vec::new();
            push_str(&mut out, "Reading flash page ");
            push_decimal(&mut out, page as u64);
            push_str(&mut out, "…");
            self.status_message = Some(string_from_chars(&out));
            if let Some(fi) = &mut self.flash_info {
                fi.current_page = page;
            }
        }
        connected
    }
}

/// The raw-socket writes of the editor.
#[derive(Debug, Clone, Copy, PartialEq, Eq, Structural)]
pub enum RawWrite {
    /// Write to C64 RAM.
    Dma,
    /// Write to C64 RAM and start execution there.
    DmaJump,
    /// Write to the REU.
    Reu,
}

/// The status shown when a raw-socket write starts.
pub open spec fn raw_start_message(kind: RawWrite, offset: u32, len: nat) -> Seq<char> {
    match kind {
        RawWrite::Dma => "DMA-writing "@ + crate::text::decimal(len) + " bytes to $"@ + crate::text::hex_padded(
            offset as nat,
            4,
        ) + "…"@,
        RawWrite::DmaJump => "DMA-jump: loading "@ + crate::text::decimal(len) + " bytes, jumping to $"@
            + crate::text::hex_padded(offset as nat, 4) + "…"@,
        RawWrite::Reu => "Writing "@ + crate::text::decimal(len) + " bytes to REU $"@ + crate::text::hex_padded(
            offset as nat,
            6,
        ) + "…"@,
    }
}

/// The status shown when a raw-socket write ends.
pub open spec fn raw_done_message(kind: RawWrite, result: Result<(), String>) -> Seq<char> {
    match (kind, result) {
        (RawWrite::Dma, Ok(())) => "DMA write complete"@,
        (RawWrite::Dma, Err(e)) => "DMA write failed: "@ + e@,
        (RawWrite::DmaJump, Ok(())) => "DMA jump dispatched"@,
        (RawWrite::DmaJump, Err(e)) => "DMA jump failed: "@ + e@,
        (RawWrite::Reu, Ok(())) => "REU write complete"@,
        (RawWrite::Reu, Err(e)) => "REU write failed: "@ + e@,
    }
}

/// The last address of a dump: the start plus the length less one (none
/// for an empty range), wrapped to 32 bits.
pub open spec fn dump_end(address: u32, length: u16) -> u32 {
    ((address + if length > 0 {
        length - 1
    } else {
        0
    }) % 0x1_0000_0000) as u32
}

/// Whether a byte is printable ASCII (space to tilde).
pub open spec fn printable(b: u8) -> bool {
    32 <= b && b <= 126
}

/// The character the ASCII column shows for a byte: itself where it is
/// printable, else `.`.
pub open spec fn ascii_char(b: u8) -> char {
    if printable(b) {
        b as char
    } else {
        '.'
    }
}

/// The binary digits of `n`, the last `width` of them, most significant
/// first.
pub open spec fn bits(n: nat, width: nat) -> Seq<char>
    decreases width,
{
    if width == 0 {
        Seq::empty()
    } else {
        bits(n / 2, (width - 1) as nat).push(
            if n % 2 == 1 {
                '1'
            } else {
                '0'
            },
        )
    }
}

/// A byte's decimal digits right-aligned in three places (`{:3}`).
pub open spec fn decimal3(b: u8) -> Seq<char> {
    if b < 10 {
        "  "@ + crate::text::decimal(b as nat)
    } else if b < 100 {
        " "@ + crate::text::decimal(b as nat)
    } else {
        crate::text::decimal(b as nat)
    }
}

/// How the memory view shows a byte in each display mode: two hex
/// digits, three decimal places, eight bits, or the character between
/// spaces (` . ` where it is not printable).
pub open spec fn byte_cell(mode: DisplayMode, b: u8) -> Seq<char> {
    match mode {
        DisplayMode::Hex => crate::text::hex_padded(b as nat, 2),
        DisplayMode::Decimal => decimal3(b),
        DisplayMode::Binary => bits(b as nat, 8),
        DisplayMode::Ascii => if printable(b) {
            seq![' ', b as char, ' ']
        } else {
            " . "@
        },
    }
}

fn push_bits(out: &mut Vec<char>, n: u64, width: u64)
    ensures
        final(out)@ == old(out)@ + bits(n as nat, width as nat),
    decreases width,
{
    if width > 0 {
        push_bits(out, n / 2, width - 1);
        out.push(
            if n % 2 == 1 {
                '1'
            } else {
                '0'
            },
        );
    }
}

/// The text of a byte in the memory view (see `byte_cell`).
pub fn byte_cell_text(mode: DisplayMode, b: u8) -> (t: String)
    ensures
        t@ == byte_cell(mode, b),
{
    proof {
        reveal_strlit(" . ");
    }
    let mut out: Vec<char> = Vec::new();
    match mode {
        DisplayMode::Hex => {
            push_hex(&mut out, b as u64, 2);
        },
        DisplayMode::Decimal => {
            if b < 10 {
                push_str(&mut out, "  ");
            } else if b < 100 {
                push_str(&mut out, " ");
            }
            push_decimal(&mut out, b as u64);
        },
        DisplayMode::Binary => {
            push_bits(&mut out, b as u64, 8);
        },
        DisplayMode::Ascii => {
            if 32 <= b && b <= 126 {
                out.push(' ');
                out.push(b as char);
                out.push(' ');
            } else {
                push_str(&mut out, " . ");
            }
        },
    }
    proof {
        if mode == DisplayMode::Ascii && printable(b) {
            assert(out@ =~= seq![' ', b as char, ' ']);
        }
        if mode == DisplayMode::Hex || mode == DisplayMode::Binary {
            assert(out@ =~= byte_cell(mode, b));
        }
    }
    string_from_chars(&out)
}

/// The ASCII column of a row of the memory view.
pub open spec fn ascii_column(row: Seq<u8>) -> Seq<char> {
    row.map_values(|b: u8| ascii_char(b))
}

/// The ASCII column of a row of bytes (see `ascii_column`).
pub fn ascii_column_text(row: &[u8]) -> (t: String)
    ensures
        t@ == ascii_column(row@),
{
    let mut out: Vec<char> = Vec::new();
    let mut i: usize = 0;
    while i < row.len()
        invariant
            i <= row.len(),
            out@ == ascii_column(row@.take(i as int)),
        decreases row.len() - i,
    {
        let b = row[i];
        out.push(
            if 32 <= b && b <= 126 {
                b as char
            } else {
                '.'
            },
        );
        i = i + 1;
        assert(out@ =~= ascii_column(row@.take(i as int)));
    }
    assert(row@.take(i as int) =~= row@);
    string_from_chars(&out)
}

/// The machine address of row `row` (sixteen bytes each) of the memory
/// view.
pub fn row_address(current_address: u32, row: usize) -> (a: u16)
    requires
        row * 16 <= usize::MAX,
    ensures
        a == byte_address(current_address, (row * 16) as usize),
{
    let address = (current_address % 65536) as u16;
    let offset = row * 16;
    address.wrapping_add((offset % 65536) as u16)
}

/// The line above the memory view: where it starts, how many bytes it
/// shows, and whether it is watched live.
pub open spec fn memory_header(address: u32, len: nat, watching: bool) -> Seq<char> {
    "Memory at $"@ + crate::text::hex_padded(address as nat, 4) + " — "@ + crate::text::decimal(len)
        + " bytes"@ + if watching {
        " 👁 LIVE"@
    } else {
        ""@
    }
}

impl MemoryEditor {
    /// The line above the memory view (see `memory_header`); none while
    /// nothing was read.
    pub fn memory_header_text(&self) -> (t: Option<String>)
        ensures
            match self.memory_data {
                Some(d) => t matches Some(s) && s@ == memory_header(
                    self.current_address,
                    d@.len(),
                    self.watch_active,
                ),
                None => t is None,
            },
    {
        proof {
            reveal_strlit("");
        }
        match &self.memory_data {
            Some(d) => {
                let mut out: Vec<char> = Vec::new();
                push_str(&mut out, "Memory at $");
                push_hex(&mut out, self.current_address as u64, 4);
                push_str(&mut out, " — ");
                push_decimal(&mut out, d.len() as u64);
                push_str(&mut out, " bytes");
                if self.watch_active {
                    push_str(&mut out, " 👁 LIVE");
                } else {
                    push_str(&mut out, "");
                }
                Some(string_from_chars(&out))
            },
            None => None,
        }
    }
}

/// What hovering a byte of the memory view shows: its address, its
/// decimal value, and the character it is (or that it is not printable).
pub open spec fn byte_tooltip(address: u16, b: u8) -> Seq<char> {
    "$"@ + crate::text::hex_padded(address as nat, 4) + ": "@ + crate::text::decimal(b as nat)
        + " ("@ + if printable(b) {
        seq!['\'', b as char, '\'']
    } else {
        "non-printable"@
    } + ")"@
}

/// The hover text of a byte (see `byte_tooltip`).
pub fn byte_tooltip_text(address: u16, b: u8) -> (t: String)
    ensures
        t@ == byte_tooltip(address, b),
{
    let mut out: Vec<char> = Vec::new();
    push_str(&mut out, "$");
    push_hex(&mut out, address as u64, 4);
    push_str(&mut out, ": ");
    push_decimal(&mut out, b as u64);
    push_str(&mut out, " (");
    let ghost mid = out@;
    if 32 <= b && b <= 126 {
        out.push('\'');
        out.push(b as char);
        out.push('\'');
        assert(out@ =~= mid + seq!['\'', b as char, '\'']);
    } else {
        push_str(&mut out, "non-printable");
    }
    push_str(&mut out, ")");
    string_from_chars(&out)
}

/// The current value of the byte being edited: `$XX (n) 'c'`, with `.`
/// for a character that is not printable.
pub open spec fn current_value_text(b: u8) -> Seq<char> {
    "$"@ + crate::text::hex_padded(b as nat, 2) + " ("@ + crate::text::decimal(b as nat) + ") '"@
        + seq![ascii_char(b)] + "'"@
}

/// The current value of the byte being edited (see `current_value_text`).
pub fn current_value(b: u8) -> (t: String)
    ensures
        t@ == current_value_text(b),
{
    let mut out: Vec<char> = Vec::new();
    push_str(&mut out, "$");
    push_hex(&mut out, b as u64, 2);
    push_str(&mut out, " (");
    push_decimal(&mut out, b as u64);
    push_str(&mut out, ") '");
    let ghost mid = out@;
    out.push(
        if 32 <= b && b <= 126 {
            b as char
        } else {
            '.'
        },
    );
    assert(out@ =~= mid + seq![ascii_char(b)]);
    push_str(&mut out, "'");
    string_from_chars(&out)
}

/// The number of pieces of at most `RAW_CHUNK` bytes that `len` bytes
/// take.
pub open spec fn chunk_count(len: nat) -> nat {
    ((len + 255) / 256) as nat
}

/// The `k`-th write of `len` bytes put at `address` in pieces of at most
/// `RAW_CHUNK` bytes: its machine address (wrapping at 64 KB), its offset
/// into the data and its size.
pub open spec fn chunk_at(address: u16, len: nat, k: int) -> (u16, usize, usize) {
    let offset = k * 256;
    let size = if len - offset < 256 {
        len - offset
    } else {
        256
    };
    (((address + offset % 65536) % 65536) as u16, offset as usize, size as usize)
}

/// The writes that put `len` bytes at `address`, in order.
pub open spec fn chunk_plan(address: u16, len: nat) -> Seq<(u16, usize, usize)> {
    Seq::new(chunk_count(len), |k: int| chunk_at(address, len, k))
}

/// The writes that put `len` bytes at `address` in pieces of at most
/// `RAW_CHUNK` bytes (see `chunk_plan`).
pub fn plan_chunks(address: u16, len: usize) -> (r: Vec<(u16, usize, usize)>)
    ensures
        r@ == chunk_plan(address, len as nat),
{
    let mut out: Vec<(u16, usize, usize)> = Vec::new();
    let mut offset: usize = 0;
    while offset < len
        invariant
            offset == out@.len() * 256,
            out@.len() * 256 < len + 256,
            out@ == Seq::new(out@.len(), |k: int| chunk_at(address, len as nat, k)),
        decreases len - offset,
    {
        let remaining = len - offset;
        let size = if remaining < RAW_CHUNK {
            remaining
        } else {
            RAW_CHUNK
        };
        let at = address.wrapping_add((offset % 65536) as u16);
        let ghost k = out@.len() as int;
        out.push((at, offset, size));
        proof {
            assert(chunk_at(address, len as nat, k) == (at, offset, size));
            assert(out@ =~= Seq::new(out@.len(), |j: int| chunk_at(address, len as nat, j)));
        }
        if remaining <= RAW_CHUNK {
            proof {
                assert(chunk_count(len as nat) == out@.len()) by (nonlinear_arith)
                    requires
                        offset == (out@.len() - 1) * 256,
                        offset < len,
                        len <= offset + 256,
                ;
            }
            return out;
        }
        offset = offset + RAW_CHUNK;
    }
    proof {
        assert(chunk_count(len as nat) == out@.len()) by (nonlinear_arith)
            requires
                offset == out@.len() * 256,
                offset >= len,
                out@.len() * 256 < len + 256,
        ;
    }
    out
}

/// Why writing a piece failed: `Fill failed at $XXXX: error` or `Write
/// failed at $XXXX: error`.
pub open spec fn chunk_failure(fill: bool, address: u16, e: Seq<char>) -> Seq<char> {
    (if fill {
        "Fill"@
    } else {
        "Write"@
    }) + " failed at $"@ + crate::text::hex_padded(address as nat, 4) + ": "@ + e
}

/// The message for a failed piece (see `chunk_failure`).
pub fn chunk_failure_text(fill: bool, address: u16, e: &str) -> (t: String)
    ensures
        t@ == chunk_failure(fill, address, e@),
{
    let mut out: Vec<char> = Vec::new();
    if fill {
        push_str(&mut out, "Fill");
    } else {
        push_str(&mut out, "Write");
    }
    push_str(&mut out, " failed at $");
    push_hex(&mut out, address as u64, 4);
    push_str(&mut out, ": ");
    push_str(&mut out, e);
    string_from_chars(&out)
}

/// The pieces cover the data exactly: the first starts at offset 0, each
/// starts where the one before ended, the last ends at `len`, and none is
/// empty or larger than `RAW_CHUNK`.
pub proof fn law_chunks_cover(address: u16, len: nat)
    requires
        len + 256 <= usize::MAX,
    ensures
        chunk_count(len) > 0 ==> chunk_at(address, len, 0).1 == 0,
        forall|k: int|
            0 <= k < chunk_count(len) ==> {
                &&& 0 < (#[trigger] chunk_at(address, len, k)).2 <= 256
                &&& chunk_at(address, len, k).1 + chunk_at(address, len, k).2 == if k + 1
                    < chunk_count(len) {
                    chunk_at(address, len, k + 1).1 as int
                } else {
                    len as int
                }
            },
{
    assert forall|k: int| 0 <= k < chunk_count(len) implies {
        &&& 0 < (#[trigger] chunk_at(address, len, k)).2 <= 256
        &&& chunk_at(address, len, k).1 + chunk_at(address, len, k).2 == if k + 1 < chunk_count(
            len,
        ) {
            chunk_at(address, len, k + 1).1 as int
        } else {
            len as int
        }
    } by {
        let n = chunk_count(len);
        assert(k * 256 < len) by (nonlinear_arith)
            requires
                0 <= k,
                k < n,
                n == (len + 255) / 256,
        ;
        if k + 1 < n {
            assert((k + 1) * 256 < len) by (nonlinear_arith)
                requires
                    0 <= k + 1,
                    k + 1 < n,
                    n == (len + 255) / 256,
            ;
        } else {
            assert(len <= (k + 1) * 256) by (nonlinear_arith)
                requires
                    k + 1 >= n,
                    n == (len + 255) / 256,
            ;
        }
    }
}

/// What the memory editor's controls show and allow, as its state decides
/// them.
pub struct Controls {
    /// "REU: $" in REU space, else "Address: $".
    pub address_prefix: String,
    pub can_read: bool,
    pub can_find: bool,
    pub can_fill: bool,
    pub can_save_dump: bool,
    pub can_load_dump: bool,
    pub can_undo: bool,
    pub can_redo: bool,
    /// "(undo count / redo count)".
    pub undo_redo_text: String,
    pub watch_label: String,
    pub can_watch: bool,
    pub flash_label: String,
    /// The line shown while a loaded dump waits to be written.
    pub pending_load_line: Option<String>,
    pub can_write_dump: bool,
}

/// The line shown while `n` loaded bytes wait to be written at `address`.
pub open spec fn pending_load_text(n: nat, address: u32) -> Seq<char> {
    "📁 "@ + crate::text::decimal(n) + " bytes loaded, ready to write to $"@
        + crate::text::hex_padded(address as nat, 4)
}

impl MemoryEditor {
    /// The controls' labels and which of them can be used: reading needs
    /// C64 space and nothing loading; finding needs a search text and bytes
    /// read; fill and dump loading need nothing loading; saving a dump also
    /// needs bytes read; undo and redo need an entry; watching needs bytes
    /// read; writing a loaded dump needs nothing loading.
    pub fn controls(&self) -> (c: Controls)
        ensures
            c.address_prefix@ == (if self.address_space == AddressSpace::Reu {
                "REU: $"@
            } else {
                "Address: $"@
            }),
            c.can_read == (!self.is_loading && self.address_space != AddressSpace::Reu),
            c.can_find == (self.search_input@.len() > 0 && self.memory_data is Some),
            c.can_fill == !self.is_loading,
            c.can_save_dump == (!self.is_loading && self.memory_data is Some),
            c.can_load_dump == !self.is_loading,
            c.can_undo == (self.undo_stack@.len() > 0),
            c.can_redo == (self.redo_stack@.len() > 0),
            c.undo_redo_text@ == "("@ + crate::text::decimal(self.undo_stack@.len()) + " / "@
                + crate::text::decimal(self.redo_stack@.len()) + ")"@,
            c.watch_label@ == (if self.watch_active {
                "⏹ Stop Watch"@
            } else {
                "👁 Watch"@
            }),
            c.can_watch == self.memory_data is Some,
            c.flash_label@ == (if self.flash_info is Some {
                "Flash ✓"@
            } else {
                "Flash Info"@
            }),
            match self.pending_load_data {
                Some(d) => c.pending_load_line matches Some(l) && l@ == pending_load_text(
                    d@.len(),
                    self.current_address,
                ),
                None => c.pending_load_line is None,
            },
            c.can_write_dump == !self.is_loading,
    {
        let reu = self.address_space == AddressSpace::Reu;
        let mut counts: Vec<char> = Vec::new();
        push_str(&mut counts, "(");
        push_decimal(&mut counts, self.undo_stack.len() as u64);
        push_str(&mut counts, " / ");
        push_decimal(&mut counts, self.redo_stack.len() as u64);
        push_str(&mut counts, ")");
        let pending = match &self.pending_load_data {
            Some(d) => {
                let mut out: Vec<char> = Vec::new();
                push_str(&mut out, "📁 ");
                push_decimal(&mut out, d.len() as u64);
                push_str(&mut out, " bytes loaded, ready to write to $");
                push_hex(&mut out, self.current_address as u64, 4);
                Some(string_from_chars(&out))
            },
            None => None,
        };
        let search = chars_of(self.search_input.as_str());
        Controls {
            address_prefix: String::from_str(if reu { "REU: $" } else { "Address: $" }),
            can_read: !self.is_loading && !reu,
            can_find: search.len() > 0 && self.memory_data.is_some(),
            can_fill: !self.is_loading,
            can_save_dump: !self.is_loading && self.memory_data.is_some(),
            can_load_dump: !self.is_loading,
            can_undo: self.undo_stack.len() > 0,
            can_redo: self.redo_stack.len() > 0,
            undo_redo_text: string_from_chars(&counts),
            watch_label: String::from_str(if self.watch_active { "⏹ Stop Watch" } else { "👁 Watch" }),
            can_watch: self.memory_data.is_some(),
            flash_label: String::from_str(if self.flash_info.is_some() { "Flash ✓" } else { "Flash Info" }),
            pending_load_line: pending,
            can_write_dump: !self.is_loading,
        }
    }
}

} // verus!
