//! Device file browser helpers: Game Mode art and launch choice, remote path
//! labels, and file-kind tests for remote names.
use vstd::prelude::*;
use crate::file_types::{
    disk_ext, extension, is_disk_image, is_image_file, is_image_name, is_pdf_file, is_pdf_name,
    is_text_file, is_text_name,
};
use crate::sorting::{key_view, key_views, lowercase_chars, sort_by_keys, sorted_by_keys, KeyView, SortKey};
use crate::text::{
    opt_str, str_views, unicode_lowercase,
    ascii_lower_chars, chars_of, contains, contains_seq, lower_seq, rfind_char, starts_with,
    starts_with_seq, str_eq, string_from_chars, sub_chars,
};

verus! {

/// One entry of a remote (device) directory listing.
#[derive(Debug, Clone)]
pub struct RemoteFileEntry {
    pub name: String,
    pub is_dir: bool,
    pub size: u64,
    pub path: String,
}

/// One entry in the Game Mode launcher: a subfolder under a library root.
#[derive(Debug, Clone)]
pub struct GameEntry {
    /// Folder name, shown as the title.
    pub title: String,
    /// Full device path of the game folder.
    pub path: String,
}

/// The name without its final extension: everything before the last `.`,
/// unless that `.` is the first character.
#[verifier::opaque]
pub open spec fn stem(name: Seq<char>) -> Seq<char> {
    if exists|i: int| 0 < i < name.len() && name[i] == '.' && forall|j: int|
        i < j < name.len() ==> name[j] != '.' {
        let i = choose|i: int|
            0 < i < name.len() && name[i] == '.' && forall|j: int| i < j < name.len() ==> name[j] != '.';
        name.take(i)
    } else {
        name
    }
}

/// Lower-cased file stem (`Game.PRG` and `game.jpg` both give `game`).
pub open spec fn stem_lower_spec(name: Seq<char>) -> Seq<char> {
    lower_seq(stem(name))
}

/// Lower-cased file stem (name without its final extension).
pub fn stem_lower(name: &str) -> (r: String)
    ensures
        r@ == stem_lower_spec(name@),
{
    reveal(stem);
    let cs = chars_of(name);
    let st = match rfind_char(&cs, '.') {
        Some(idx) => {
            if idx > 0 {
                let ghost w = choose|i: int|
                    0 < i < cs@.len() && cs@[i] == '.' && forall|j: int|
                        i < j < cs@.len() ==> cs@[j] != '.';
                assert(w == idx) by {
                    if w < idx {
                    } else if w > idx {
                    }
                }
                let t = sub_chars(&cs, 0, idx);
                assert(t@ =~= cs@.take(idx as int));
                t
            } else {
                assert(!exists|i: int|
                    0 < i < cs@.len() && cs@[i] == '.' && forall|j: int|
                        i < j < cs@.len() ==> cs@[j] != '.');
                cs
            }
        },
        None => cs,
    };
    let low = ascii_lower_chars(&st);
    string_from_chars(&low)
}

/// Whether an entry is an image file (not a directory).
pub open spec fn is_image_entry(f: RemoteFileEntry) -> bool {
    !f.is_dir && is_image_name(f.name@)
}

/// The first entry of `files` that satisfies `p`.
pub open spec fn first_where(
    files: Seq<RemoteFileEntry>,
    p: spec_fn(RemoteFileEntry) -> bool,
) -> Option<RemoteFileEntry>
    decreases files.len(),
{
    if files.len() == 0 {
        None
    } else if p(files[0]) {
        Some(files[0])
    } else {
        first_where(files.drop_first(), p)
    }
}

/// Conventional names of a cover image (a stem equal to one, or starting
/// with one, counts).
pub open spec fn conventional_cover(st: Seq<char>) -> bool {
    starts_with_seq(st, "cover"@) || starts_with_seq(st, "box"@) || starts_with_seq(st, "front"@)
        || starts_with_seq(st, "screenshot"@) || starts_with_seq(st, "screen"@) || starts_with_seq(
        st,
        "title"@,
    )
}

/// The cover image of a folder: among its image files, the first whose stem
/// matches the selected program's stem (both ASCII lower-cased), else the first with a conventional cover
/// name, else the first image; `None` without images.
pub open spec fn cover_choice(files: Seq<RemoteFileEntry>, sel: Option<Seq<char>>) -> Option<
    Seq<char>,
> {
    match first_where(files, |f: RemoteFileEntry| is_image_entry(f)) {
        None => None,
        Some(first) => {
            let by_stem = match sel {
                Some(s) => first_where(
                    files,
                    |f: RemoteFileEntry| is_image_entry(f) && stem_lower_spec(f.name@) == lower_seq(s),
                ),
                None => None,
            };
            match by_stem {
                Some(m) => Some(m.path@),
                None => match first_where(
                    files,
                    |f: RemoteFileEntry|
                        is_image_entry(f) && conventional_cover(stem_lower_spec(f.name@)),
                ) {
                    Some(m) => Some(m.path@),
                    None => Some(first.path@),
                },
            }
        },
    }
}

/// The index of the first entry satisfying `p`, as `first_where` finds it.
proof fn lemma_first_where_step(
    files: Seq<RemoteFileEntry>,
    p: spec_fn(RemoteFileEntry) -> bool,
    i: int,
)
    requires
        0 <= i < files.len(),
        forall|j: int| 0 <= j < i ==> !p(files[j]),
    ensures
        first_where(files, p) == first_where(files.skip(i), p),
    decreases i,
{
    if i > 0 {
        lemma_first_where_step(files.drop_first(), p, i - 1);
        assert(files.drop_first().skip(i - 1) =~= files.skip(i));
    } else {
        assert(files.skip(0) =~= files);
    }
}

proof fn lemma_first_where_none(files: Seq<RemoteFileEntry>, p: spec_fn(RemoteFileEntry) -> bool)
    requires
        forall|j: int| 0 <= j < files.len() ==> !p(files[j]),
    ensures
        first_where(files, p) is None,
    decreases files.len(),
{
    if files.len() > 0 {
        lemma_first_where_none(files.drop_first(), p);
    }
}

proof fn lemma_first_where_found(
    files: Seq<RemoteFileEntry>,
    p: spec_fn(RemoteFileEntry) -> bool,
    i: int,
)
    requires
        0 <= i < files.len(),
        forall|j: int| 0 <= j < i ==> !p(files[j]),
        p(files[i]),
    ensures
        first_where(files, p) == Some(files[i]),
{
    lemma_first_where_step(files, p, i);
}

fn image_at(files: &[RemoteFileEntry], i: usize) -> (b: bool)
    requires
        i < files@.len(),
    ensures
        b == is_image_entry(files@[i as int]),
{
    !files[i].is_dir && is_image_file(files[i].name.as_str())
}


fn conventional(st: &Vec<char>) -> (b: bool)
    ensures
        b == conventional_cover(st@),
{
    starts_with(st, &chars_of("cover")) || starts_with(st, &chars_of("box")) || starts_with(
        st,
        &chars_of("front"),
    ) || starts_with(st, &chars_of("screenshot")) || starts_with(st, &chars_of("screen"))
        || starts_with(st, &chars_of("title"))
}

/// Choose the cover image for a folder: an image whose stem matches the
/// selected program, else a conventionally named cover (`cover`, `box`,
/// `front`, `screenshot`, `screen`, `title`), else the first image.
#[verifier::loop_isolation(false)]
pub fn pick_cover(files: &[RemoteFileEntry], selected_stem: Option<&str>) -> (r: Option<String>)
    ensures
        crate::mod_info::opt_view(r) == cover_choice(
            files@,
            match selected_stem {
                Some(s) => Some(s@),
                None => None,
            },
        ),
{
    let ghost img = |f: RemoteFileEntry| is_image_entry(f);
    let ghost sel = match selected_stem {
        Some(s) => Some(s@),
        None => None::<Seq<char>>,
    };
    // the first image
    let mut first: usize = 0;
    while first < files.len() && !image_at(files, first)
        invariant
            first <= files@.len(),
            forall|j: int| 0 <= j < first ==> !is_image_entry(files@[j]),
        decreases files@.len() - first,
    {
        first = first + 1;
    }
    if first == files.len() {
        proof {
            lemma_first_where_none(files@, img);
        }
        return None;
    }
    proof {
        lemma_first_where_found(files@, img, first as int);
    }
    if let Some(s) = selected_stem {
        let sl = string_from_chars(&crate::text::ascii_lower_chars(&chars_of(s)));
        let mut i: usize = 0;
        while i < files.len()
            invariant
                i <= files@.len(),
                sl@ == lower_seq(s@),
                forall|j: int|
                    0 <= j < i ==> !(is_image_entry(files@[j]) && stem_lower_spec(files@[j].name@)
                        == lower_seq(s@)),
            decreases files@.len() - i,
        {
            if image_at(files, i) {
                let st = stem_lower(files[i].name.as_str());
                if str_eq(st.as_str(), sl.as_str()) {
                    proof {
                        lemma_first_where_found(
                            files@,
                            |f: RemoteFileEntry|
                                is_image_entry(f) && stem_lower_spec(f.name@) == lower_seq(s@),
                            i as int,
                        );
                    }
                    return Some(files[i].path.clone());
                }
            }
            i = i + 1;
        }
        proof {
            lemma_first_where_none(
                files@,
                |f: RemoteFileEntry| is_image_entry(f) && stem_lower_spec(f.name@) == lower_seq(s@),
            );
        }
    }
    let mut i: usize = 0;
    while i < files.len()
        invariant
            i <= files@.len(),
            forall|j: int|
                0 <= j < i ==> !(is_image_entry(files@[j]) && conventional_cover(
                    stem_lower_spec(files@[j].name@),
                )),
        decreases files@.len() - i,
    {
        if image_at(files, i) {
            let st = stem_lower(files[i].name.as_str());
            let sc = chars_of(st.as_str());
            if conventional(&sc) {
                proof {
                    lemma_first_where_found(
                        files@,
                        |f: RemoteFileEntry|
                            is_image_entry(f) && conventional_cover(stem_lower_spec(f.name@)),
                        i as int,
                    );
                }
                return Some(files[i].path.clone());
            }
        }
        i = i + 1;
    }
    proof {
        lemma_first_where_none(
            files@,
            |f: RemoteFileEntry| is_image_entry(f) && conventional_cover(stem_lower_spec(f.name@)),
        );
    }
    Some(files[first].path.clone())
}

/// Gameplay-shot hints looked for in a lower-cased file name.
pub open spec fn screenshot_hint(n: Seq<char>) -> bool {
    contains_seq(n, "screen"@) || contains_seq(n, "shot"@) || contains_seq(n, "ingame"@)
        || contains_seq(n, "gameplay"@) || contains_seq(n, "action"@)
}

/// An image that is not the cover.
pub open spec fn is_shot_candidate(f: RemoteFileEntry, cover: Option<Seq<char>>) -> bool {
    is_image_entry(f) && match cover {
        Some(c) => f.path@ != c,
        None => true,
    }
}

/// The screenshot of a folder: among its images other than the cover, the
/// first whose name hints at gameplay, else the first; `None` if there is
/// no such image.
pub open spec fn screenshot_choice(files: Seq<RemoteFileEntry>, cover: Option<Seq<char>>) -> Option<
    Seq<char>,
> {
    match first_where(files, |f: RemoteFileEntry| is_shot_candidate(f, cover)) {
        None => None,
        Some(first) => match first_where(
            files,
            |f: RemoteFileEntry| is_shot_candidate(f, cover) && screenshot_hint(lower_seq(f.name@)),
        ) {
            Some(m) => Some(m.path@),
            None => Some(first.path@),
        },
    }
}

fn shot_candidate(files: &[RemoteFileEntry], i: usize, cover_path: Option<&str>) -> (b: bool)
    requires
        i < files@.len(),
    ensures
        b == is_shot_candidate(
            files@[i as int],
            match cover_path {
                Some(c) => Some(c@),
                None => None,
            },
        ),
{
    if !image_at(files, i) {
        return false;
    }
    match cover_path {
        Some(c) => !str_eq(files[i].path.as_str(), c),
        None => true,
    }
}

fn hinted(name: &str) -> (b: bool)
    ensures
        b == screenshot_hint(lower_seq(name@)),
{
    let low = ascii_lower_chars(&chars_of(name));
    contains(&low, &chars_of("screen")) || contains(&low, &chars_of("shot")) || contains(
        &low,
        &chars_of("ingame"),
    ) || contains(&low, &chars_of("gameplay")) || contains(&low, &chars_of("action"))
}

/// Pick a screenshot image distinct from the cover, preferring names that
/// look like gameplay shots (`screen`, `shot`, `ingame`, `gameplay`,
/// `action`).
#[verifier::loop_isolation(false)]
pub fn pick_screenshot(files: &[RemoteFileEntry], cover_path: Option<&str>) -> (r: Option<String>)
    ensures
        crate::mod_info::opt_view(r) == screenshot_choice(
            files@,
            match cover_path {
                Some(c) => Some(c@),
                None => None,
            },
        ),
{
    let ghost cov = match cover_path {
        Some(c) => Some(c@),
        None => None::<Seq<char>>,
    };
    let mut first: usize = 0;
    while first < files.len() && !shot_candidate(files, first, cover_path)
        invariant
            first <= files@.len(),
            forall|j: int| 0 <= j < first ==> !is_shot_candidate(files@[j], cov),
        decreases files@.len() - first,
    {
        first = first + 1;
    }
    if first == files.len() {
        proof {
            lemma_first_where_none(files@, |f: RemoteFileEntry| is_shot_candidate(f, cov));
        }
        return None;
    }
    proof {
        lemma_first_where_found(
            files@,
            |f: RemoteFileEntry| is_shot_candidate(f, cov),
            first as int,
        );
    }
    let mut i: usize = 0;
    while i < files.len()
        invariant
            i <= files@.len(),
            forall|j: int|
                0 <= j < i ==> !(is_shot_candidate(files@[j], cov) && screenshot_hint(
                    lower_seq(files@[j].name@),
                )),
        decreases files@.len() - i,
    {
        if shot_candidate(files, i, cover_path) && hinted(files[i].name.as_str()) {
            proof {
                lemma_first_where_found(
                    files@,
                    |f: RemoteFileEntry|
                        is_shot_candidate(f, cov) && screenshot_hint(lower_seq(f.name@)),
                    i as int,
                );
            }
            return Some(files[i].path.clone());
        }
        i = i + 1;
    }
    proof {
        lemma_first_where_none(
            files@,
            |f: RemoteFileEntry| is_shot_candidate(f, cov) && screenshot_hint(lower_seq(f.name@)),
        );
    }
    Some(files[first].path.clone())
}

/// The lower-cased text after the last `.` of a name (the whole name when
/// it has no `.`).
pub open spec fn run_ext(name: Seq<char>) -> Seq<char> {
    lower_seq(
        match extension(name) {
            Some(e) => e,
            None => name,
        },
    )
}

/// A file (not a directory) whose `run_ext` satisfies `p`.
pub open spec fn file_with_ext(f: RemoteFileEntry, p: spec_fn(Seq<char>) -> bool) -> bool {
    !f.is_dir && p(run_ext(f.name@))
}

/// The file a game folder launches: the first `.prg`, else the first
/// `.crt`, else the first disk image.
pub open spec fn runnable_choice(files: Seq<RemoteFileEntry>) -> Option<RemoteFileEntry> {
    match first_where(files, |f: RemoteFileEntry| file_with_ext(f, |e: Seq<char>| e == "prg"@)) {
        Some(f) => Some(f),
        None => match first_where(
            files,
            |f: RemoteFileEntry| file_with_ext(f, |e: Seq<char>| e == "crt"@),
        ) {
            Some(f) => Some(f),
            None => first_where(files, |f: RemoteFileEntry| file_with_ext(f, |e: Seq<char>| disk_ext(e))),
        },
    }
}

fn ext_of(name: &str) -> (e: Vec<char>)
    ensures
        e@ == run_ext(name@),
{
    match crate::file_types::lower_extension(name) {
        Some(e) => e,
        None => ascii_lower_chars(&chars_of(name)),
    }
}

fn first_file_with(files: &[RemoteFileEntry], lit: &str) -> (r: Option<usize>)
    ensures
        match r {
            Some(i) => i < files@.len() && first_where(
                files@,
                |f: RemoteFileEntry| file_with_ext(f, |e: Seq<char>| e == lit@),
            ) == Some(files@[i as int]),
            None => first_where(
                files@,
                |f: RemoteFileEntry| file_with_ext(f, |e: Seq<char>| e == lit@),
            ) is None,
        },
{
    let want = chars_of(lit);
    let mut i: usize = 0;
    while i < files.len()
        invariant
            i <= files@.len(),
            want@ == lit@,
            forall|j: int|
                0 <= j < i ==> !file_with_ext(files@[j], |e: Seq<char>| e == lit@),
        decreases files@.len() - i,
    {
        if !files[i].is_dir {
            let e = ext_of(files[i].name.as_str());
            if crate::text::matches_at(&e, &want, 0) && e.len() == want.len() {
                assert(e@.subrange(0, want@.len() as int) == want@);
                assert(e@ =~= want@);
                proof {
                    lemma_first_where_found(
                        files@,
                        |f: RemoteFileEntry| file_with_ext(f, |e: Seq<char>| e == lit@),
                        i as int,
                    );
                }
                return Some(i);
            }
            assert(e@ != lit@) by {
                if e@ == want@ {
                    assert(e@.subrange(0, want@.len() as int) =~= e@);
                }
            }
        }
        i = i + 1;
    }
    proof {
        lemma_first_where_none(
            files@,
            |f: RemoteFileEntry| file_with_ext(f, |e: Seq<char>| e == lit@),
        );
    }
    None
}

/// The file a game folder should launch, in priority order: `.prg`, then
/// `.crt`, then a disk image.  `None` if nothing is runnable.
#[verifier::loop_isolation(false)]
pub fn primary_runnable(files: &[RemoteFileEntry]) -> (r: Option<&RemoteFileEntry>)
    ensures
        match r {
            Some(f) => runnable_choice(files@) == Some(*f),
            None => runnable_choice(files@) is None,
        },
{
    proof {
        reveal_strlit("prg");
        reveal_strlit("crt");
    }
    if let Some(i) = first_file_with(files, "prg") {
        return Some(&files[i]);
    }
    if let Some(i) = first_file_with(files, "crt") {
        return Some(&files[i]);
    }
    let mut i: usize = 0;
    while i < files.len()
        invariant
            i <= files@.len(),
            forall|j: int| 0 <= j < i ==> !file_with_ext(files@[j], |e: Seq<char>| disk_ext(e)),
        decreases files@.len() - i,
    {
        if !files[i].is_dir && is_disk_image(&ext_of(files[i].name.as_str())) {
            proof {
                lemma_first_where_found(
                    files@,
                    |f: RemoteFileEntry| file_with_ext(f, |e: Seq<char>| disk_ext(e)),
                    i as int,
                );
            }
            return Some(&files[i]);
        }
        i = i + 1;
    }
    proof {
        lemma_first_where_none(
            files@,
            |f: RemoteFileEntry| file_with_ext(f, |e: Seq<char>| disk_ext(e)),
        );
    }
    None
}

/// The path without trailing `/` characters.
pub open spec fn trim_slashes(p: Seq<char>) -> Seq<char>
    decreases p.len(),
{
    if p.len() > 0 && p.last() == '/' {
        trim_slashes(p.drop_last())
    } else {
        p
    }
}

/// Last `/`-separated segment of a remote path, or `"/"` for the root.
pub open spec fn basename_spec(p: Seq<char>) -> Seq<char> {
    let t = trim_slashes(p);
    if t.len() == 0 {
        "/"@
    } else if exists|i: int| 0 <= i < t.len() && t[i] == '/' {
        let i = choose|i: int|
            0 <= i < t.len() && t[i] == '/' && forall|j: int| i < j < t.len() ==> t[j] != '/';
        t.skip(i + 1)
    } else {
        t
    }
}

/// Last `/`-separated segment of a remote path, or `"/"` for the root.
pub fn remote_basename(path: &str) -> (r: String)
    ensures
        r@ == basename_spec(path@),
{
    let cs = chars_of(path);
    let mut k = cs.len();
    assert(cs@.take(k as int) =~= cs@);
    while k > 0 && cs[k - 1] == '/'
        invariant
            k <= cs@.len(),
            trim_slashes(path@) == trim_slashes(cs@.take(k as int)),
            cs@ == path@,
        decreases k,
    {
        assert(cs@.take(k as int).drop_last() =~= cs@.take(k - 1));
        k = k - 1;
    }
    let t = sub_chars(&cs, 0, k);
    assert(t@ =~= cs@.take(k as int));
    if t.len() == 0 {
        return String::from_str("/");
    }
    match rfind_char(&t, '/') {
        Some(idx) => {
            let ghost w = choose|i: int|
                0 <= i < t@.len() && t@[i] == '/' && forall|j: int| i < j < t@.len() ==> t@[j] != '/';
            assert(w == idx) by {
                if w < idx {
                } else if w > idx {
                }
            }
            let tail = sub_chars(&t, idx + 1, t.len());
            assert(tail@ =~= t@.skip(idx + 1));
            string_from_chars(&tail)
        },
        None => string_from_chars(&t),
    }
}

/// Display string for the favorites dropdown: the device path, or `"/"`
/// for an empty path.
pub fn remote_favorite_label(path: &str) -> (r: String)
    ensures
        r@ == (if path@.len() == 0 {
            "/"@
        } else {
            path@
        }),
{
    if path.is_empty() {
        String::from_str("/")
    } else {
        path.to_owned()
    }
}

/// Whether a remote file name is a text file.
pub fn is_remote_text_file(name: &str) -> (b: bool)
    ensures
        b == is_text_name(name@),
{
    is_text_file(name)
}

/// Whether a remote file name is an image file.
pub fn is_remote_image_file(name: &str) -> (b: bool)
    ensures
        b == is_image_name(name@),
{
    is_image_file(name)
}

/// Whether a remote file name is a PDF file.
pub fn is_remote_pdf_file(name: &str) -> (b: bool)
    ensures
        b == is_pdf_name(name@),
{
    is_pdf_file(name)
}


/// The part of a name after its last `.`, or the whole name without one
/// (`str::rsplit('.').next()`).
pub open spec fn last_dot_part(name: Seq<char>) -> Seq<char> {
    crate::text::after_last(name, '.')
}

/// The sort key of a listed file: directories first, then by the column.
pub open spec fn remote_sort_key(f: RemoteFileEntry, column: crate::file_types::SortColumn) -> KeyView {
    let group: u8 = if f.is_dir {
        0
    } else {
        1
    };
    match column {
        crate::file_types::SortColumn::Name => (group, unicode_lowercase(f.name@), 0),
        crate::file_types::SortColumn::Size => (group, Seq::empty(), f.size),
        crate::file_types::SortColumn::Type => (group, unicode_lowercase(last_dot_part(f.name@)), 0),
    }
}

/// The sort keys of a listing.
pub open spec fn remote_sort_keys(files: Seq<RemoteFileEntry>, column: crate::file_types::SortColumn) -> Seq<
    KeyView,
> {
    files.map_values(|f: RemoteFileEntry| remote_sort_key(f, column))
}

fn last_dot_part_of(name: &str) -> (r: String)
    ensures
        r@ == last_dot_part(name@),
{
    crate::text::after_last_of(name, '.')
}

/// A directory listing sorted as the browser shows it: directories first,
/// then by name (lower-cased), size or type (lower-cased last extension),
/// ascending or descending; equal keys keep their order.
pub fn sort_remote_files(
    files: Vec<RemoteFileEntry>,
    column: crate::file_types::SortColumn,
    order: crate::file_types::SortOrder,
) -> (r: Vec<RemoteFileEntry>)
    ensures
        sorted_by_keys(
            r@,
            files@,
            remote_sort_keys(files@, column),
            order == crate::file_types::SortOrder::Descending,
        ),
{
    let mut keys: Vec<SortKey> = Vec::new();
    let mut i: usize = 0;
    while i < files.len()
        invariant
            i <= files@.len(),
            key_views(keys@) == remote_sort_keys(files@, column).take(i as int),
        decreases files@.len() - i,
    {
        let f = &files[i];
        let group: u8 = if f.is_dir {
            0
        } else {
            1
        };
        let key = match column {
            crate::file_types::SortColumn::Name => SortKey {
                group,
                text: lowercase_chars(f.name.as_str()),
                number: 0,
            },
            crate::file_types::SortColumn::Size => SortKey { group, text: Vec::new(), number: f.size },
            crate::file_types::SortColumn::Type => SortKey {
                group,
                text: lowercase_chars(last_dot_part_of(f.name.as_str()).as_str()),
                number: 0,
            },
        };
        assert(key_view(key) == remote_sort_key(files@[i as int], column));
        let ghost prev = keys@;
        keys.push(key);
        assert(key_views(keys@) =~= key_views(prev).push(key_view(key)));
        assert(key_views(keys@) =~= remote_sort_keys(files@, column).take(i as int + 1));
        i = i + 1;
    }
    assert(remote_sort_keys(files@, column).take(i as int) =~= remote_sort_keys(files@, column));
    sort_by_keys(files, &keys, order == crate::file_types::SortOrder::Descending)
}


// ── The browser pane ──────────────────────────────────────────────

/// Progress of a running transfer, which the task doing it updates.
#[derive(Debug, Clone)]
pub struct TransferProgress {
    pub current: usize,
    pub total: usize,
    pub current_file: String,
    pub operation: String,
    pub done: bool,
    pub cancelled: bool,
    pub bytes_transferred: u64,
    pub bytes_total: u64,
}

/// A delete waiting for the user's confirmation.
#[derive(Debug, Clone)]
pub struct DeletePending {
    pub paths: Vec<String>,
    pub summary: String,
}

/// A rename being edited.
#[derive(Debug, Clone)]
pub struct RenamePending {
    pub original_path: String,
    pub new_name: String,
}

/// How a program file is started on the device.
#[derive(Debug, Clone, Copy, PartialEq, Eq, Structural)]
pub enum RunKind {
    RunPrg,
    LoadPrg,
    RunCrt,
    PlaySid,
    PlayMod,
}

/// The outside work that a browser event asks for; its outcome comes back
/// as the next event.
#[derive(Debug, Clone)]
pub enum BrowserAction {
    Nothing,
    /// List a directory (then `files_loaded`).
    FetchFiles { host: String, path: String, password: Option<String> },
    /// Download one file (then `download_complete`).
    Download { host: String, remote_path: String, password: Option<String> },
    /// Upload a local file to a remote path (then `upload_complete`).
    Upload { host: String, local_path: String, remote_dest: String, password: Option<String> },
    /// Upload a local file into a remote directory (then `upload_complete`).
    UploadToDir { host: String, local_path: String, remote_dir: String, password: Option<String> },
    /// Upload a local directory (then `upload_directory_complete`).
    UploadDirectory { host: String, local_path: String, remote_dest: String, password: Option<String> },
    /// Start a program file (then `runner_complete`).
    Run { kind: RunKind, host: String, path: String, password: Option<String> },
    /// Mount a disk image (then `mount_complete`).
    MountDisk { host: String, path: String, drive: String, mode: String, password: Option<String> },
    /// Mount and run a disk image (then `mount_complete`).
    RunDisk { host: String, path: String, drive: String, password: Option<String> },
    /// Download files and directories (then `download_batch_complete`).
    DownloadBatch {
        host: String,
        file_paths: Vec<String>,
        dir_paths: Vec<String>,
        local_dest: String,
        password: Option<String>,
    },
    /// Read a disk image's directory (then `disk_info_loaded`).
    LoadDiskInfo { host: String, path: String, password: Option<String> },
    /// Download a file for preview (then `content_preview_loaded`).
    LoadContentPreview { host: String, path: String, password: Option<String> },
    /// List the games under the library roots (then `games_enumerated`).
    EnumerateGames { host: String, roots: Vec<String>, password: Option<String> },
    /// Fetch a game folder's art (then `game_art_loaded`).
    LoadGameArt { host: String, folder: String, password: Option<String> },
    /// List a game folder to find what to run (then `game_run_resolved`).
    ResolveGame { host: String, folder: String, password: Option<String> },
    /// Delete paths, each marked whether it is a directory (then
    /// `delete_complete`).
    Delete { host: String, paths: Vec<(String, bool)>, password: Option<String> },
    /// Rename a path (then `rename_complete`).
    Rename { host: String, old_path: String, new_path: String, password: Option<String> },
    /// Create a directory (then `create_dir_complete`).
    MakeDirectory { host: String, path: String, password: Option<String> },
    /// Store the favorite folders.
    SaveFavorites { favorites: Vec<String> },
    /// Make an empty disk image and upload it into a directory (then
    /// `create_disk_complete`).
    CreateDisk {
        host: String,
        name: String,
        id: String,
        disk_type: DiskCreateType,
        dest: String,
        password: Option<String>,
    },
}

/// The state of the device file browser pane.
#[derive(Debug, Clone)]
pub struct RemoteBrowser {
    pub current_path: String,
    pub files: Vec<RemoteFileEntry>,
    pub selected_file: Option<String>,
    pub status_message: Option<String>,
    pub is_loading: bool,
    pub is_connected: bool,
    pub host_address: Option<String>,
    pub password: Option<String>,
    pub filter: String,
    /// Paths checked for batch operations, each once.
    pub checked_files: Vec<String>,
    pub disk_info_path: Option<String>,
    pub disk_info_loading: bool,
    pub disk_info_open: bool,
    pub content_preview: Option<crate::pdf_preview::ContentPreview>,
    pub content_preview_path: Option<String>,
    pub content_preview_loading: bool,
    pub transfer: Option<TransferProgress>,
    pub delete_pending: Option<DeletePending>,
    pub rename_pending: Option<RenamePending>,
    pub show_create_dir: bool,
    pub create_dir_name: String,
    pub sort_column: crate::file_types::SortColumn,
    pub sort_order: crate::file_types::SortOrder,
    /// Names of the root's directories, for the quick navigation bar.
    pub root_dirs: Vec<String>,
    /// Favorite folders on the device.
    pub favorites: Vec<String>,
    /// The folder row whose action bar is open.
    pub context_menu_for: Option<String>,
    /// The favorite just opened: dropped if its listing fails.
    pub pending_favorite_check: Option<String>,
    /// The editable path field.
    pub path_input: String,
    pub game_mode: bool,
    pub games: Vec<GameEntry>,
    pub games_loading: bool,
    pub game_selected: usize,
    pub game_error: Option<String>,
    /// Art of the game folders whose fetch has completed.
    pub game_art: Vec<GameArt>,
    /// Game folders whose art is being fetched.
    pub game_art_loading: Vec<String>,
    pub game_launching: bool,
    /// The new-disk dialog.
    pub create_disk: CreateDiskDialog,
}

/// The new-disk dialog: shown, the disk's name and ID, its kind, and
/// whether it is being made.
#[derive(Debug, Clone)]
pub struct CreateDiskDialog {
    pub show: bool,
    pub name: String,
    pub id: String,
    pub disk_type: DiskCreateType,
    pub busy: bool,
}

/// The kind of an empty disk image to make.
#[derive(Debug, Clone, Copy, PartialEq, Eq, Structural)]
pub enum DiskCreateType {
    D64,
    D71,
    D81,
}

/// An optional message holding exactly the given text.
pub open spec fn msg_is(o: Option<String>, m: Seq<char>) -> bool {
    o matches Some(s) && s@ == m
}

/// A text with every leading copy of a non-empty prefix removed
/// (`str::trim_start_matches`).
pub open spec fn strip_all(s: Seq<char>, p: Seq<char>) -> Seq<char>
    decreases s.len(),
{
    if p.len() > 0 && starts_with_seq(s, p) {
        strip_all(s.skip(p.len() as int), p)
    } else {
        s
    }
}

/// A host without leading `http://`, then without leading `https://`.
pub open spec fn host_spec(h: Seq<char>) -> Seq<char> {
    strip_all(strip_all(h, "http://"@), "https://"@)
}

fn strip_all_of(s: &str, p: &str) -> (r: String)
    requires
        p@.len() > 0,
    ensures
        r@ == strip_all(s@, p@),
{
    let cs = chars_of(s);
    let ps = chars_of(p);
    let mut k: usize = 0;
    assert(cs@.skip(0) =~= cs@);
    while ps.len() <= cs.len() - k && crate::text::matches_at(&cs, &ps, k)
        invariant
            k <= cs@.len(),
            ps@ == p@,
            p@.len() > 0,
            strip_all(s@, p@) == strip_all(cs@.skip(k as int), p@),
            cs@ == s@,
        decreases cs@.len() - k,
    {
        assert(cs@.skip(k as int).subrange(0, ps@.len() as int) =~= cs@.subrange(k as int, k + ps@.len()));
        assert(cs@.skip(k as int).skip(ps@.len() as int) =~= cs@.skip(k + ps@.len()));
        k = k + ps.len();
    }
    proof {
        if k + ps@.len() <= cs@.len() {
            assert(cs@.skip(k as int).subrange(0, ps@.len() as int) =~= cs@.subrange(k as int, k + ps@.len()));
        }
    }
    let rest = sub_chars(&cs, k, cs.len());
    assert(rest@ =~= cs@.skip(k as int));
    string_from_chars(&rest)
}

/// The names of the directories of a listing, in order.
pub open spec fn dir_names(files: Seq<RemoteFileEntry>) -> Seq<Seq<char>>
    decreases files.len(),
{
    if files.len() == 0 {
        Seq::empty()
    } else {
        let rest = dir_names(files.drop_last());
        if files.last().is_dir {
            rest.push(files.last().name@)
        } else {
            rest
        }
    }
}

/// A list without any copy of a path.
pub open spec fn without(v: Seq<Seq<char>>, p: Seq<char>) -> Seq<Seq<char>>
    decreases v.len(),
{
    if v.len() == 0 {
        Seq::empty()
    } else {
        let rest = without(v.drop_last(), p);
        if v.last() == p {
            rest
        } else {
            rest.push(v.last())
        }
    }
}

/// What reloading the current directory does (see `refresh_files`).
pub open spec fn refresh_spec(s: RemoteBrowser, t: RemoteBrowser, a: BrowserAction) -> bool {
    match s.host_address {
        Some(h) => {
            &&& a matches BrowserAction::FetchFiles { host, path, password } && host@ == h@
                && path@ == s.current_path@ && opt_str(password) == opt_str(s.password)
            &&& msg_is(t.status_message, "Loading..."@)
            &&& t == (RemoteBrowser { is_loading: true, status_message: t.status_message, ..s })
        },
        None => {
            &&& a is Nothing
            &&& msg_is(t.status_message, "Not connected"@)
            &&& t == (RemoteBrowser { is_connected: false, status_message: t.status_message, ..s })
        },
    }
}

/// The first listed entry with the given path.
pub open spec fn entry_at(files: Seq<RemoteFileEntry>, path: Seq<char>) -> Option<RemoteFileEntry> {
    first_where(files, |f: RemoteFileEntry| f.path@ == path)
}

/// What `Path::parent` (std) gives for a path: the path without its last
/// component, if it has one.
pub uninterp spec fn parent_path(path: Seq<char>) -> Option<Seq<char>>;

/// Calls `Path::parent` (std) on the path, turning the result back into a
/// string (lossless: the path came from a string).
#[verifier::external_body]
pub(crate) fn path_parent(path: &str) -> (r: Option<String>)
    ensures
        opt_str(r) == parent_path(path@),
{
    match std::path::Path::new(path).parent() {
        Some(p) => Some(p.to_string_lossy().to_string()),
        None => None,
    }
}

/// A list with each path added that it does not hold yet, in order.
pub open spec fn insert_all(v: Seq<Seq<char>>, ps: Seq<Seq<char>>) -> Seq<Seq<char>>
    decreases ps.len(),
{
    if ps.len() == 0 {
        v
    } else {
        let w = insert_all(v, ps.drop_last());
        if w.contains(ps.last()) {
            w
        } else {
            w.push(ps.last())
        }
    }
}

/// The paths of a listing.
pub open spec fn entry_paths(files: Seq<RemoteFileEntry>) -> Seq<Seq<char>> {
    files.map_values(|f: RemoteFileEntry| f.path@)
}

/// A list without the first copy of a path.
pub open spec fn remove_first(v: Seq<Seq<char>>, p: Seq<char>) -> Seq<Seq<char>>
    decreases v.len(),
{
    if v.len() == 0 {
        v
    } else if v[0] == p {
        v.drop_first()
    } else {
        seq![v[0]] + remove_first(v.drop_first(), p)
    }
}

/// The path typed into the path field, made absolute: `None` when it is
/// blank.
pub open spec fn typed_path(input: Seq<char>) -> Option<Seq<char>> {
    let t = crate::text::trim(input);
    if t.len() == 0 {
        None
    } else if t[0] == '/' {
        Some(t)
    } else {
        Some("/"@ + t)
    }
}

proof fn lemma_remove_first_at(v: Seq<Seq<char>>, p: Seq<char>, i: int)
    requires
        0 <= i < v.len(),
        v[i] == p,
        forall|j: int| 0 <= j < i ==> v[j] != p,
    ensures
        remove_first(v, p) == v.remove(i),
    decreases i,
{
    if i > 0 {
        lemma_remove_first_at(v.drop_first(), p, i - 1);
        assert(v.remove(i) =~= seq![v[0]] + v.drop_first().remove(i - 1));
    }
}

/// Starring a folder that is not a favorite and then unstarring it gives
/// back the favorites as they were.
pub proof fn lemma_favorite_toggle_undone(favorites: Seq<Seq<char>>, path: Seq<char>)
    requires
        !favorites.contains(path),
    ensures
        favorites.push(path).contains(path),
        remove_first(favorites.push(path), path) == favorites,
{
    let v = favorites.push(path);
    assert(v[favorites.len() as int] == path);
    lemma_remove_first_at(v, path, favorites.len() as int);
    assert(v.remove(favorites.len() as int) =~= favorites);
}

proof fn lemma_without_props(v: Seq<Seq<char>>, p: Seq<char>)
    ensures
        !without(v, p).contains(p),
        forall|q: Seq<char>| q != p ==> (without(v, p).contains(q) <==> v.contains(q)),
        v.no_duplicates() ==> without(v, p).no_duplicates(),
    decreases v.len(),
{
    if v.len() > 0 {
        lemma_without_props(v.drop_last(), p);
        assert forall|q: Seq<char>| q != p implies (without(v, p).contains(q) <==> v.contains(q)) by {
            let w = without(v.drop_last(), p);
            if v.contains(q) {
                let k = choose|k: int| 0 <= k < v.len() && v[k] == q;
                if k < v.len() - 1 {
                    assert(v.drop_last()[k] == q);
                    assert(v.drop_last().contains(q));
                    assert(w.contains(q));
                    let m = choose|m: int| 0 <= m < w.len() && w[m] == q;
                    if v.last() != p {
                        assert(w.push(v.last())[m] == q);
                    }
                } else {
                    assert(without(v, p) == w.push(v.last()));
                    assert(without(v, p)[w.len() as int] == q);
                }
            }
            if without(v, p).contains(q) {
                let k = choose|k: int| 0 <= k < without(v, p).len() && without(v, p)[k] == q;
                if v.last() != p && k == w.len() {
                    assert(v[v.len() - 1] == q);
                } else {
                    assert(w[k] == q);
                    assert(w.contains(q));
                    assert(v.drop_last().contains(q));
                    let m = choose|m: int| 0 <= m < v.drop_last().len() && v.drop_last()[m] == q;
                    assert(v[m] == v.drop_last()[m]);
                }
            }
        }
        if v.no_duplicates() {
            assert(v.drop_last().no_duplicates()) by {
                assert forall|a: int, b: int| 0 <= a < b < v.drop_last().len() implies v.drop_last()[a]
                    != v.drop_last()[b] by {
                    assert(v[a] != v[b]);
                }
            }
            if v.last() != p {
                assert(!v.drop_last().contains(v.last())) by {
                    if v.drop_last().contains(v.last()) {
                        let k = choose|k: int| 0 <= k < v.drop_last().len() && v.drop_last()[k] == v.last();
                        assert(v[k] == v[v.len() - 1]);
                    }
                }
                assert(!without(v.drop_last(), p).contains(v.last()));
                let w = without(v.drop_last(), p);
                assert forall|a: int, b: int| 0 <= a < b < w.push(v.last()).len() implies w.push(
                    v.last(),
                )[a] != w.push(v.last())[b] by {
                    if b == w.len() {
                        assert(w[a] != v.last());
                    }
                }
            }
        }
    }
}

proof fn lemma_insert_all_no_dup(v: Seq<Seq<char>>, ps: Seq<Seq<char>>)
    requires
        v.no_duplicates(),
    ensures
        insert_all(v, ps).no_duplicates(),
    decreases ps.len(),
{
    if ps.len() > 0 {
        lemma_insert_all_no_dup(v, ps.drop_last());
        let w = insert_all(v, ps.drop_last());
        if !w.contains(ps.last()) {
            assert forall|a: int, b: int| 0 <= a < b < w.push(ps.last()).len() implies w.push(
                ps.last(),
            )[a] != w.push(ps.last())[b] by {
                if b == w.len() {
                    assert(w[a] != ps.last());
                }
            }
        }
    }
}

/// What an event that needs the device does when there is none: it says
/// so and changes nothing else.
pub open spec fn not_connected(s: RemoteBrowser, t: RemoteBrowser, a: BrowserAction) -> bool {
    &&& a is Nothing
    &&& msg_is(t.status_message, "Not connected"@)
    &&& t == (RemoteBrowser { status_message: t.status_message, ..s })
}

/// A transfer just started: nothing done yet of `total` steps.
pub open spec fn started(t: Option<TransferProgress>, operation: Seq<char>, file: Seq<char>, total: nat) -> bool {
    t matches Some(p) && p.current == 0 && p.total == total && p.current_file@ == file
        && p.operation@ == operation && !p.done && !p.cancelled && p.bytes_transferred == 0
        && p.bytes_total == 0
}

/// The name of a local file, or `file` where the path has none.
pub open spec fn local_name(path: Seq<char>) -> Seq<char> {
    match crate::music_player::path_file_name(path) {
        Some(n) => n,
        None => "file"@,
    }
}

/// Whether a path is listed as a directory (unlisted paths are not).
pub open spec fn listed_dir(files: Seq<RemoteFileEntry>, path: Seq<char>) -> bool {
    match entry_at(files, path) {
        Some(f) => f.is_dir,
        None => false,
    }
}

/// The checked paths that are listed, split into files and directories,
/// in order.
pub open spec fn split_listed(files: Seq<RemoteFileEntry>, checked: Seq<Seq<char>>) -> (Seq<Seq<char>>, Seq<Seq<char>>)
    decreases checked.len(),
{
    if checked.len() == 0 {
        (Seq::empty(), Seq::empty())
    } else {
        let (fs, ds) = split_listed(files, checked.drop_last());
        let p = checked.last();
        match entry_at(files, p) {
            Some(f) => if f.is_dir {
                (fs, ds.push(p))
            } else {
                (fs.push(p), ds)
            },
            None => (fs, ds),
        }
    }
}

/// The checked paths split into files and directories, in order; paths
/// that are not listed count as files.
pub open spec fn split_checked(files: Seq<RemoteFileEntry>, checked: Seq<Seq<char>>) -> (Seq<Seq<char>>, Seq<Seq<char>>)
    decreases checked.len(),
{
    if checked.len() == 0 {
        (Seq::empty(), Seq::empty())
    } else {
        let (fs, ds) = split_checked(files, checked.drop_last());
        let p = checked.last();
        if listed_dir(files, p) {
            (fs, ds.push(p))
        } else {
            (fs.push(p), ds)
        }
    }
}

/// The status line of a running transfer.
pub open spec fn progress_line(p: TransferProgress) -> Seq<char> {
    p.operation@ + " ("@ + crate::text::decimal(p.current as nat) + "/"@ + crate::text::decimal(
        p.total as nat,
    ) + ") "@ + p.current_file@
}

/// A game folder's art: box cover and screenshot bytes, where found.
#[derive(Debug, Clone)]
pub struct GameArt {
    pub folder: String,
    pub cover: Option<Vec<u8>>,
    pub shot: Option<Vec<u8>>,
}

/// The folders whose art has been fetched.
pub open spec fn art_folders(v: Seq<GameArt>) -> Seq<Seq<char>> {
    v.map_values(|g: GameArt| g.folder@)
}

/// The art list with a folder's art replaced, or added when it is new.
pub open spec fn set_art(v: Seq<GameArt>, g: GameArt) -> Seq<GameArt>
    decreases v.len(),
{
    if v.len() == 0 {
        seq![g]
    } else if v[0].folder@ == g.folder@ {
        v.update(0, g)
    } else {
        seq![v[0]] + set_art(v.drop_first(), g)
    }
}

proof fn lemma_set_art_at(v: Seq<GameArt>, g: GameArt, i: int)
    requires
        0 <= i < v.len(),
        v[i].folder@ == g.folder@,
        forall|j: int| 0 <= j < i ==> v[j].folder@ != g.folder@,
    ensures
        set_art(v, g) == v.update(i, g),
    decreases i,
{
    if i > 0 {
        lemma_set_art_at(v.drop_first(), g, i - 1);
        assert(v.update(i, g) =~= seq![v[0]] + v.drop_first().update(i - 1, g));
    }
}

proof fn lemma_set_art_new(v: Seq<GameArt>, g: GameArt)
    requires
        forall|j: int| 0 <= j < v.len() ==> v[j].folder@ != g.folder@,
    ensures
        set_art(v, g) == v.push(g),
    decreases v.len(),
{
    if v.len() > 0 {
        lemma_set_art_new(v.drop_first(), g);
        assert(v.push(g) =~= seq![v[0]] + v.drop_first().push(g));
    }
}

/// The question asked before deleting one path.
pub open spec fn delete_one_summary(name: Seq<char>, is_dir: bool) -> Seq<char> {
    if is_dir {
        "Delete directory \""@ + name + "\" and ALL its contents?"@
    } else {
        "Delete file \""@ + name + "\"?"@
    }
}

/// `y` for one directory, `ies` for more.
pub open spec fn dir_suffix(d: nat) -> Seq<char> {
    if d == 1 {
        "y"@
    } else {
        "ies"@
    }
}

/// The question asked before deleting `f` files and `d` directories.
pub open spec fn delete_many_summary(f: nat, d: nat) -> Seq<char> {
    if d == 0 {
        "Delete "@ + crate::text::decimal(f) + " file(s)?"@
    } else if f == 0 {
        "Delete "@ + crate::text::decimal(d) + " director"@ + dir_suffix(d) + "? (recursive)"@
    } else {
        "Delete "@ + crate::text::decimal(f) + " file(s) and "@ + crate::text::decimal(d) + " director"@
            + dir_suffix(d) + "? (recursive)"@
    }
}

/// Each path with whether it is listed as a directory.
pub open spec fn typed_paths(files: Seq<RemoteFileEntry>, paths: Seq<Seq<char>>) -> Seq<(Seq<char>, bool)> {
    paths.map_values(|p: Seq<char>| (p, listed_dir(files, p)))
}

/// The characters of each path, with its flag.
pub open spec fn pair_views(v: Seq<(String, bool)>) -> Seq<(Seq<char>, bool)> {
    v.map_values(|e: (String, bool)| (e.0@, e.1))
}

/// The path a rename gives: the new name in the old path's parent
/// directory (the root where the parent is empty or missing).
pub open spec fn renamed_path(original: Seq<char>, name: Seq<char>) -> Seq<char> {
    let parent = match crate::text::before_last(original, '/') {
        Some(p) => p,
        None => "/"@,
    };
    if parent.len() == 0 || parent == "/"@ {
        "/"@ + name
    } else {
        parent + "/"@ + name
    }
}

/// What fetching the art of the highlighted game does (see
/// `load_game_art_for_selected`).
pub open spec fn art_spec(s: RemoteBrowser, t: RemoteBrowser, a: BrowserAction) -> bool {
    if s.game_selected < s.games@.len() {
        let folder = s.games@[s.game_selected as int].path@;
        if art_folders(s.game_art@).contains(folder) || str_views(s.game_art_loading@).contains(folder) {
            a is Nothing && t == s
        } else {
            match s.host_address {
                None => a is Nothing && t == s,
                Some(h) => {
                    &&& a matches BrowserAction::LoadGameArt { host, folder: f, password } && host@ == h@
                        && f@ == folder && opt_str(password) == opt_str(s.password)
                    &&& str_views(t.game_art_loading@) == str_views(s.game_art_loading@).push(folder)
                    &&& t == (RemoteBrowser { game_art_loading: t.game_art_loading, ..s })
                },
            }
        }
    } else {
        a is Nothing && t == s
    }
}

/// What launching a game folder's chosen file does: run it by its
/// lower-cased extension, or say the folder has nothing to run.
pub open spec fn launch_spec(
    s: RemoteBrowser,
    t: RemoteBrowser,
    a: BrowserAction,
    folder: Seq<char>,
    choice: Option<RemoteFileEntry>,
) -> bool {
    let nothing = a is Nothing && msg_is(t.status_message, nothing_runnable(folder)) && t == (
    RemoteBrowser { status_message: t.status_message, ..s });
    match choice {
        Some(f) => {
            let ext = unicode_lowercase(crate::text::after_last(f.name@, '.'));
            if ext == "prg"@ {
                runner_spec(s, t, a, RunKind::RunPrg, f.path@)
            } else if ext == "crt"@ {
                runner_spec(s, t, a, RunKind::RunCrt, f.path@)
            } else if disk_ext(ext) {
                run_disk_spec(s, t, a, f.path@, "a"@)
            } else {
                nothing
            }
        },
        None => nothing,
    }
}

/// The message of a game folder with nothing to run.
pub open spec fn nothing_runnable(folder: Seq<char>) -> Seq<char> {
    "Nothing runnable in "@ + basename_spec(folder)
}

impl RemoteBrowser {
    /// A fresh, unconnected browser at the root, with the stored favorite
    /// folders.
    pub fn new(favorites: Vec<String>) -> (b: Self)
        ensures
            b.current_path@ == "/"@,
            b.files@.len() == 0,
            b.selected_file is None,
            msg_is(b.status_message, "Not connected"@),
            !b.is_loading,
            !b.is_connected,
            b.host_address is None,
            b.password is None,
            b.filter@.len() == 0,
            b.checked_files@.len() == 0,
            b.disk_info_path is None,
            !b.disk_info_loading,
            !b.disk_info_open,
            b.content_preview is None,
            b.content_preview_path is None,
            !b.content_preview_loading,
            b.transfer is None,
            b.delete_pending is None,
            b.rename_pending is None,
            !b.show_create_dir,
            b.create_dir_name@.len() == 0,
            b.sort_column == crate::file_types::SortColumn::Name,
            b.sort_order == crate::file_types::SortOrder::Ascending,
            b.root_dirs@.len() == 0,
            b.favorites == favorites,
            b.context_menu_for is None,
            b.pending_favorite_check is None,
            b.path_input@ == "/"@,
            !b.game_mode,
            b.games@.len() == 0,
            !b.games_loading,
            b.game_selected == 0,
            b.game_error is None,
            b.game_art@.len() == 0,
            b.game_art_loading@.len() == 0,
            !b.game_launching,
            !b.create_disk.show,
            b.create_disk.name@ == "NEWDISK"@,
            b.create_disk.id@ == "01 2A"@,
            b.create_disk.disk_type == DiskCreateType::D64,
            !b.create_disk.busy,
    {
        RemoteBrowser {
            current_path: String::from_str("/"),
            files: Vec::new(),
            selected_file: None,
            status_message: Some(String::from_str("Not connected")),
            is_loading: false,
            is_connected: false,
            host_address: None,
            password: None,
            filter: String::new(),
            checked_files: Vec::new(),
            disk_info_path: None,
            disk_info_loading: false,
            disk_info_open: false,
            content_preview: None,
            content_preview_path: None,
            content_preview_loading: false,
            transfer: None,
            delete_pending: None,
            rename_pending: None,
            show_create_dir: false,
            create_dir_name: String::new(),
            sort_column: crate::file_types::SortColumn::Name,
            sort_order: crate::file_types::SortOrder::Ascending,
            root_dirs: Vec::new(),
            favorites,
            context_menu_for: None,
            pending_favorite_check: None,
            path_input: String::from_str("/"),
            game_mode: false,
            games: Vec::new(),
            games_loading: false,
            game_selected: 0,
            game_error: None,
            game_art: Vec::new(),
            game_art_loading: Vec::new(),
            game_launching: false,
            create_disk: CreateDiskDialog {
                show: false,
                name: String::from_str("NEWDISK"),
                id: String::from_str("01 2A"),
                disk_type: DiskCreateType::D64,
                busy: false,
            },
        }
    }

    /// Whether the checked paths are each listed once.
    pub open spec fn well_formed(&self) -> bool {
        str_views(self.checked_files@).no_duplicates()
    }

    /// Set the device to browse: the host without its scheme (`None`
    /// disconnects and empties the listing).
    pub fn set_host(&mut self, host: Option<String>, password: Option<String>)
        ensures
            opt_str(final(self).host_address) == (match host {
                Some(h) => Some(host_spec(h@)),
                None => None,
            }),
            *final(self) == (RemoteBrowser {
                host_address: final(self).host_address,
                password,
                is_connected: host is Some,
                files: final(self).files,
                status_message: final(self).status_message,
                ..*old(self)
            }),
            host is None ==> final(self).files@.len() == 0 && msg_is(
                final(self).status_message,
                "Not connected"@,
            ),
            host is Some ==> final(self).files == old(self).files && final(self).status_message
                == old(self).status_message,
    {
        proof {
            reveal_strlit("http://");
            reveal_strlit("https://");
        }
        match host {
            Some(h) => {
                let a = strip_all_of(h.as_str(), "http://");
                let b = strip_all_of(a.as_str(), "https://");
                self.host_address = Some(b);
                self.password = password;
                self.is_connected = true;
            },
            None => {
                self.host_address = None;
                self.password = password;
                self.is_connected = false;
                self.files = Vec::new();
                self.status_message = Some(String::from_str("Not connected"));
            },
        }
    }

    /// Reload the current directory: asks for its listing, or says the
    /// browser is not connected.
    pub fn refresh_files(&mut self) -> (a: BrowserAction)
        ensures
            refresh_spec(*old(self), *final(self), a),
    {
        match &self.host_address {
            Some(h) => {
                let host = h.clone();
                self.is_loading = true;
                self.status_message = Some(String::from_str("Loading..."));
                BrowserAction::FetchFiles {
                    host,
                    path: self.current_path.clone(),
                    password: self.password.clone(),
                }
            },
            None => {
                self.status_message = Some(String::from_str("Not connected"));
                self.is_connected = false;
                BrowserAction::Nothing
            },
        }
    }

    /// The listing in the chosen order (see `sort_remote_files`).
    pub fn sort_files(&mut self)
        ensures
            sorted_by_keys(
                final(self).files@,
                old(self).files@,
                remote_sort_keys(old(self).files@, old(self).sort_column),
                old(self).sort_order == crate::file_types::SortOrder::Descending,
            ),
            *final(self) == (RemoteBrowser { files: final(self).files, ..*old(self) }),
    {
        let mut files: Vec<RemoteFileEntry> = Vec::new();
        std::mem::swap(&mut files, &mut self.files);
        self.files = sort_remote_files(files, self.sort_column, self.sort_order);
    }

    /// A directory listing arrived: on success it is shown sorted (the
    /// root's directory names kept for quick navigation); on failure the
    /// error is shown, and a favorite just opened that failed is dropped
    /// (the favorites are then to be stored).
    pub fn files_loaded(&mut self, result: Result<Vec<RemoteFileEntry>, String>) -> (a: BrowserAction)
        ensures
            !final(self).is_loading,
            final(self).pending_favorite_check is None,
            match result {
                Ok(files) => {
                    &&& sorted_by_keys(
                        final(self).files@,
                        files@,
                        remote_sort_keys(files@, old(self).sort_column),
                        old(self).sort_order == crate::file_types::SortOrder::Descending,
                    )
                    &&& if old(self).current_path@ == "/"@ {
                        str_views(final(self).root_dirs@) == dir_names(files@)
                    } else {
                        final(self).root_dirs == old(self).root_dirs
                    }
                    &&& msg_is(final(self).status_message, crate::text::decimal(files@.len()) + " items"@)
                    &&& final(self).path_input@ == old(self).current_path@
                    &&& a is Nothing
                    &&& *final(self) == (RemoteBrowser {
                        is_loading: false,
                        files: final(self).files,
                        root_dirs: final(self).root_dirs,
                        is_connected: true,
                        status_message: final(self).status_message,
                        pending_favorite_check: None,
                        path_input: final(self).path_input,
                        ..*old(self)
                    })
                },
                Err(e) => match old(self).pending_favorite_check {
                    Some(stale) if stale@ == old(self).current_path@ => {
                        &&& str_views(final(self).favorites@) == without(str_views(old(self).favorites@), stale@)
                        &&& msg_is(
                            final(self).status_message,
                            "Removed missing favorite: "@ + basename_spec(stale@) + " ("@ + stale@ + ") — "@ + e@,
                        )
                        &&& a matches BrowserAction::SaveFavorites { favorites } && str_views(favorites@)
                            == str_views(final(self).favorites@)
                        &&& *final(self) == (RemoteBrowser {
                            is_loading: false,
                            favorites: final(self).favorites,
                            status_message: final(self).status_message,
                            pending_favorite_check: None,
                            ..*old(self)
                        })
                    },
                    _ => {
                        &&& msg_is(final(self).status_message, e@)
                        &&& a is Nothing
                        &&& *final(self) == (RemoteBrowser {
                            is_loading: false,
                            status_message: final(self).status_message,
                            pending_favorite_check: None,
                            ..*old(self)
                        })
                    },
                },
            },
    {
        self.is_loading = false;
        match result {
            Ok(files) => {
                proof {
                    reveal_strlit("/");
                }
                if str_eq(self.current_path.as_str(), "/") {
                    self.root_dirs = names_of_dirs(&files);
                }
                let count = files.len();
                self.files = files;
                self.sort_files();
                self.is_connected = true;
                let mut out: Vec<char> = Vec::new();
                crate::text::push_decimal(&mut out, count as u64);
                crate::text::push_str(&mut out, " items");
                self.status_message = Some(string_from_chars(&out));
                self.pending_favorite_check = None;
                self.path_input = self.current_path.clone();
                BrowserAction::Nothing
            },
            Err(e) => {
                let mut pending: Option<String> = None;
                std::mem::swap(&mut pending, &mut self.pending_favorite_check);
                if let Some(stale) = pending {
                    if str_eq(stale.as_str(), self.current_path.as_str()) {
                        let label = remote_basename(stale.as_str());
                        self.favorites = strings_without(&self.favorites, stale.as_str());
                        let mut out: Vec<char> = Vec::new();
                        crate::text::push_str(&mut out, "Removed missing favorite: ");
                        crate::text::push_str(&mut out, label.as_str());
                        crate::text::push_str(&mut out, " (");
                        crate::text::push_str(&mut out, stale.as_str());
                        crate::text::push_str(&mut out, ") — ");
                        crate::text::push_str(&mut out, e.as_str());
                        self.status_message = Some(string_from_chars(&out));
                        return BrowserAction::SaveFavorites { favorites: clone_strings(&self.favorites) };
                    }
                }
                self.status_message = Some(e);
                BrowserAction::Nothing
            },
        }
    }

    /// A row was clicked: a directory is entered (and listed), a file
    /// becomes the selection; an unknown path changes nothing.
    pub fn file_selected(&mut self, path: String) -> (a: BrowserAction)
        ensures
            match entry_at(old(self).files@, path@) {
                Some(f) => if f.is_dir {
                    &&& final(self).checked_files@.len() == 0
                    &&& refresh_spec(
                        RemoteBrowser {
                            current_path: path,
                            selected_file: None,
                            checked_files: final(self).checked_files,
                            ..*old(self)
                        },
                        *final(self),
                        a,
                    )
                } else {
                    a is Nothing && *final(self) == (RemoteBrowser {
                        selected_file: Some(path),
                        ..*old(self)
                    })
                },
                None => a is Nothing && *final(self) == *old(self),
            },
    {
        match find_entry(&self.files, path.as_str()) {
            Some(i) => {
                if self.files[i].is_dir {
                    self.current_path = path;
                    self.selected_file = None;
                    self.checked_files = Vec::new();
                    self.refresh_files()
                } else {
                    self.selected_file = Some(path);
                    BrowserAction::Nothing
                }
            },
            None => BrowserAction::Nothing,
        }
    }

    /// Go to the parent directory (an empty parent is the root) and list
    /// it; at the root nothing happens.
    pub fn navigate_up(&mut self) -> (a: BrowserAction)
        ensures
            old(self).current_path@ == "/"@ ==> a is Nothing && *final(self) == *old(self),
            old(self).current_path@ != "/"@ ==> {
                &&& final(self).checked_files@.len() == 0
                &&& final(self).current_path@ == match parent_path(old(self).current_path@) {
                    Some(p) => if p.len() == 0 {
                        "/"@
                    } else {
                        p
                    },
                    None => old(self).current_path@,
                }
                &&& refresh_spec(
                    RemoteBrowser {
                        current_path: final(self).current_path,
                        checked_files: final(self).checked_files,
                        ..*old(self)
                    },
                    *final(self),
                    a,
                )
            },
    {
        proof {
            reveal_strlit("/");
        }
        if str_eq(self.current_path.as_str(), "/") {
            return BrowserAction::Nothing;
        }
        self.checked_files = Vec::new();
        if let Some(parent) = path_parent(self.current_path.as_str()) {
            if parent.as_str().unicode_len() == 0 {
                self.current_path = String::from_str("/");
            } else {
                self.current_path = parent;
            }
        }
        self.refresh_files()
    }

    /// Go to a path and list it.
    pub fn navigate_to_path(&mut self, path: String) -> (a: BrowserAction)
        ensures
            final(self).checked_files@.len() == 0,
            refresh_spec(
                RemoteBrowser { current_path: path, checked_files: final(self).checked_files, ..*old(self) },
                *final(self),
                a,
            ),
    {
        self.current_path = path;
        self.checked_files = Vec::new();
        self.refresh_files()
    }

    /// Check or uncheck a path for batch operations.
    pub fn toggle_file_check(&mut self, path: String, checked: bool)
        requires
            old(self).well_formed(),
        ensures
            final(self).well_formed(),
            str_views(final(self).checked_files@) == if checked {
                if str_views(old(self).checked_files@).contains(path@) {
                    str_views(old(self).checked_files@)
                } else {
                    str_views(old(self).checked_files@).push(path@)
                }
            } else {
                without(str_views(old(self).checked_files@), path@)
            },
            *final(self) == (RemoteBrowser { checked_files: final(self).checked_files, ..*old(self) }),
    {
        if checked {
            if !contains_string(&self.checked_files, path.as_str()) {
                let ghost prev = self.checked_files@;
                self.checked_files.push(path);
                proof {
                    assert(str_views(self.checked_files@) =~= str_views(prev).push(path@));
                    let w = str_views(prev);
                    assert forall|a: int, b: int| 0 <= a < b < w.push(path@).len() implies w.push(
                        path@,
                    )[a] != w.push(path@)[b] by {
                        if b == w.len() {
                            assert(w[a] != path@);
                        }
                    }
                }
            }
        } else {
            proof {
                lemma_without_props(str_views(self.checked_files@), path@);
            }
            self.checked_files = strings_without(&self.checked_files, path.as_str());
        }
    }

    /// Check every listed path.
    pub fn select_all(&mut self)
        requires
            old(self).well_formed(),
        ensures
            final(self).well_formed(),
            str_views(final(self).checked_files@) == insert_all(
                str_views(old(self).checked_files@),
                entry_paths(old(self).files@),
            ),
            *final(self) == (RemoteBrowser { checked_files: final(self).checked_files, ..*old(self) }),
    {
        let mut i: usize = 0;
        while i < self.files.len()
            invariant
                i <= self.files@.len(),
                self.files == old(self).files,
                str_views(self.checked_files@) == insert_all(
                    str_views(old(self).checked_files@),
                    entry_paths(self.files@.take(i as int)),
                ),
                *self == (RemoteBrowser { checked_files: self.checked_files, ..*old(self) }),
            decreases self.files@.len() - i,
        {
            assert(entry_paths(self.files@.take(i as int + 1)).drop_last() =~= entry_paths(
                self.files@.take(i as int),
            ));
            if !contains_string(&self.checked_files, self.files[i].path.as_str()) {
                let p = self.files[i].path.clone();
                let ghost prev = self.checked_files@;
                self.checked_files.push(p);
                assert(str_views(self.checked_files@) =~= str_views(prev).push(p@));
            }
            i = i + 1;
        }
        assert(self.files@.take(i as int) =~= self.files@);
        proof {
            lemma_insert_all_no_dup(str_views(old(self).checked_files@), entry_paths(self.files@));
        }
    }

    /// Uncheck everything.
    pub fn select_none(&mut self)
        ensures
            final(self).checked_files@.len() == 0,
            *final(self) == (RemoteBrowser { checked_files: final(self).checked_files, ..*old(self) }),
    {
        self.checked_files = Vec::new();
    }

    /// The name filter was edited.
    pub fn filter_changed(&mut self, value: String)
        ensures
            *final(self) == (RemoteBrowser { filter: value, ..*old(self) }),
    {
        self.filter = value;
    }

    /// A column header was clicked: the same column flips the direction,
    /// another sorts ascending by it; the listing is sorted again.
    pub fn sort_by(&mut self, column: crate::file_types::SortColumn)
        ensures
            (final(self).sort_column, final(self).sort_order) == (if column == old(self).sort_column {
                (column, match old(self).sort_order {
                    crate::file_types::SortOrder::Ascending => crate::file_types::SortOrder::Descending,
                    crate::file_types::SortOrder::Descending => crate::file_types::SortOrder::Ascending,
                })
            } else {
                (column, crate::file_types::SortOrder::Ascending)
            }),
            sorted_by_keys(
                final(self).files@,
                old(self).files@,
                remote_sort_keys(old(self).files@, final(self).sort_column),
                final(self).sort_order == crate::file_types::SortOrder::Descending,
            ),
            *final(self) == (RemoteBrowser {
                files: final(self).files,
                sort_column: final(self).sort_column,
                sort_order: final(self).sort_order,
                ..*old(self)
            }),
    {
        let (c, o) = crate::file_types::sort_by_clicked(self.sort_column, self.sort_order, column);
        self.sort_column = c;
        self.sort_order = o;
        self.sort_files();
    }

    /// Add a path to the favorites, or drop its first copy when it is one;
    /// says whether it is a favorite now.
    pub fn toggle_favorite_path(&mut self, path: String) -> (now_favorite: bool)
        ensures
            now_favorite == !str_views(old(self).favorites@).contains(path@),
            str_views(final(self).favorites@) == if now_favorite {
                str_views(old(self).favorites@).push(path@)
            } else {
                remove_first(str_views(old(self).favorites@), path@)
            },
            *final(self) == (RemoteBrowser { favorites: final(self).favorites, ..*old(self) }),
    {
        match position_of_string(&self.favorites, path.as_str()) {
            Some(pos) => {
                let ghost prev = self.favorites@;
                assert(str_views(prev)[pos as int] == path@);
                self.favorites.remove(pos);
                proof {
                    lemma_remove_first_at(str_views(prev), path@, pos as int);
                    assert(str_views(self.favorites@) =~= str_views(prev).remove(pos as int));
                }
                false
            },
            None => {
                let ghost prev = self.favorites@;
                self.favorites.push(path);
                assert(str_views(self.favorites@) =~= str_views(prev).push(path@));
                true
            },
        }
    }

    /// The star button: toggle the current folder as a favorite.
    pub fn toggle_current_favorite(&mut self) -> (a: BrowserAction)
        ensures
            str_views(final(self).favorites@) == if !str_views(old(self).favorites@).contains(
                old(self).current_path@,
            ) {
                str_views(old(self).favorites@).push(old(self).current_path@)
            } else {
                remove_first(str_views(old(self).favorites@), old(self).current_path@)
            },
            msg_is(
                final(self).status_message,
                if !str_views(old(self).favorites@).contains(old(self).current_path@) {
                    "★ Added to favorites"@
                } else {
                    "Removed from favorites"@
                },
            ),
            a matches BrowserAction::SaveFavorites { favorites } && str_views(favorites@) == str_views(
                final(self).favorites@,
            ),
            *final(self) == (RemoteBrowser {
                favorites: final(self).favorites,
                status_message: final(self).status_message,
                ..*old(self)
            }),
    {
        let path = self.current_path.clone();
        let now = self.toggle_favorite_path(path);
        self.status_message = Some(
            if now {
                String::from_str("★ Added to favorites")
            } else {
                String::from_str("Removed from favorites")
            },
        );
        BrowserAction::SaveFavorites { favorites: clone_strings(&self.favorites) }
    }

    /// The action bar's star: toggle a folder as a favorite and close the
    /// bar.
    pub fn toggle_favorite(&mut self, path: String) -> (a: BrowserAction)
        ensures
            str_views(final(self).favorites@) == if !str_views(old(self).favorites@).contains(path@) {
                str_views(old(self).favorites@).push(path@)
            } else {
                remove_first(str_views(old(self).favorites@), path@)
            },
            msg_is(
                final(self).status_message,
                if !str_views(old(self).favorites@).contains(path@) {
                    "★ "@ + basename_spec(path@)
                } else {
                    "Removed: "@ + basename_spec(path@)
                },
            ),
            a matches BrowserAction::SaveFavorites { favorites } && str_views(favorites@) == str_views(
                final(self).favorites@,
            ),
            *final(self) == (RemoteBrowser {
                favorites: final(self).favorites,
                status_message: final(self).status_message,
                context_menu_for: None,
                ..*old(self)
            }),
    {
        let label = remote_basename(path.as_str());
        let now = self.toggle_favorite_path(path);
        self.context_menu_for = None;
        self.status_message = Some(
            if now {
                crate::text::join2("★ ", label.as_str())
            } else {
                crate::text::join2("Removed: ", label.as_str())
            },
        );
        BrowserAction::SaveFavorites { favorites: clone_strings(&self.favorites) }
    }

    /// Open the action bar under a folder row.
    pub fn open_context_menu(&mut self, path: String)
        ensures
            *final(self) == (RemoteBrowser { context_menu_for: Some(path), ..*old(self) }),
    {
        self.context_menu_for = Some(path);
    }

    /// Close the action bar.
    pub fn close_context_menu(&mut self)
        ensures
            *final(self) == (RemoteBrowser { context_menu_for: None, ..*old(self) }),
    {
        self.context_menu_for = None;
    }

    /// The path field was edited.
    pub fn path_input_changed(&mut self, value: String)
        ensures
            *final(self) == (RemoteBrowser { path_input: value, ..*old(self) }),
    {
        self.path_input = value;
    }

    /// Enter in the path field: go to the typed path, trimmed and made
    /// absolute; a blank field does nothing.
    pub fn path_input_submit(&mut self) -> (a: BrowserAction)
        ensures
            match typed_path(old(self).path_input@) {
                None => a is Nothing && *final(self) == *old(self),
                Some(p) => {
                    &&& final(self).current_path@ == p
                    &&& final(self).checked_files@.len() == 0
                    &&& refresh_spec(
                        RemoteBrowser {
                            current_path: final(self).current_path,
                            checked_files: final(self).checked_files,
                            ..*old(self)
                        },
                        *final(self),
                        a,
                    )
                },
            },
    {
        let trimmed = crate::text::trim_chars(&chars_of(self.path_input.as_str()));
        if trimmed.len() == 0 {
            return BrowserAction::Nothing;
        }
        let path = if trimmed[0] == '/' {
            string_from_chars(&trimmed)
        } else {
            let mut out: Vec<char> = Vec::new();
            out.push('/');
            crate::text::push_chars(&mut out, &trimmed);
            assert(out@ =~= "/"@ + trimmed@) by {
                reveal_strlit("/");
            }
            string_from_chars(&out)
        };
        self.current_path = path;
        self.checked_files = Vec::new();
        self.refresh_files()
    }

    /// Open a favorite folder, remembering it so that a failed listing
    /// drops it.
    pub fn navigate_to_favorite(&mut self, path: String) -> (a: BrowserAction)
        ensures
            opt_str(final(self).pending_favorite_check) == Some(path@),
            final(self).checked_files@.len() == 0,
            refresh_spec(
                RemoteBrowser {
                    current_path: path,
                    checked_files: final(self).checked_files,
                    pending_favorite_check: final(self).pending_favorite_check,
                    ..*old(self)
                },
                *final(self),
                a,
            ),
    {
        self.pending_favorite_check = Some(path.clone());
        self.current_path = path;
        self.checked_files = Vec::new();
        self.refresh_files()
    }

    /// Download one file, showing its progress.
    pub fn download_file(&mut self, remote_path: String) -> (a: BrowserAction)
        ensures
            match old(self).host_address {
                Some(h) => {
                    let name = crate::text::after_last(remote_path@, '/');
                    &&& a matches BrowserAction::Download { host, remote_path: rp, password } && host@
                        == h@ && rp == remote_path && opt_str(password) == opt_str(old(self).password)
                    &&& msg_is(final(self).status_message, "Downloading "@ + name + "..."@)
                    &&& started(final(self).transfer, "Downloading"@, name, 1)
                    &&& *final(self) == (RemoteBrowser {
                        status_message: final(self).status_message,
                        transfer: final(self).transfer,
                        ..*old(self)
                    })
                },
                None => not_connected(*old(self), *final(self), a),
            },
    {
        match &self.host_address {
            Some(h) => {
                let host = h.clone();
                let name = crate::text::after_last_of(remote_path.as_str(), '/');
                self.status_message = Some(crate::text::join3("Downloading ", name.as_str(), "..."));
                self.transfer = Some(new_progress(name, "Downloading", 1));
                BrowserAction::Download { host, remote_path, password: self.password.clone() }
            },
            None => {
                self.status_message = Some(String::from_str("Not connected"));
                BrowserAction::Nothing
            },
        }
    }

    /// A download ended.
    pub fn download_complete(&mut self, result: Result<String, String>)
        ensures
            msg_is(
                final(self).status_message,
                match result {
                    Ok(name) => "Downloaded: "@ + name@,
                    Err(e) => "Download failed: "@ + e@,
                },
            ),
            *final(self) == (RemoteBrowser {
                transfer: None,
                status_message: final(self).status_message,
                ..*old(self)
            }),
    {
        self.transfer = None;
        self.status_message = Some(
            match result {
                Ok(name) => crate::text::join2("Downloaded: ", name.as_str()),
                Err(e) => crate::text::join2("Download failed: ", e.as_str()),
            },
        );
    }

    /// Upload a local file to a remote path, showing its progress.
    pub fn upload_file(&mut self, local_path: String, remote_dest: String) -> (a: BrowserAction)
        ensures
            match old(self).host_address {
                Some(h) => {
                    let name = local_name(local_path@);
                    &&& a matches BrowserAction::Upload { host, local_path: lp, remote_dest: rd, password }
                        && host@ == h@ && lp == local_path && rd == remote_dest && opt_str(password)
                        == opt_str(old(self).password)
                    &&& msg_is(final(self).status_message, "Uploading "@ + name + "..."@)
                    &&& started(final(self).transfer, "Uploading"@, name, 1)
                    &&& *final(self) == (RemoteBrowser {
                        status_message: final(self).status_message,
                        transfer: final(self).transfer,
                        ..*old(self)
                    })
                },
                None => not_connected(*old(self), *final(self), a),
            },
    {
        match &self.host_address {
            Some(h) => {
                let host = h.clone();
                let name = local_file_name(local_path.as_str());
                self.status_message = Some(crate::text::join3("Uploading ", name.as_str(), "..."));
                self.transfer = Some(new_progress(name, "Uploading", 1));
                BrowserAction::Upload { host, local_path, remote_dest, password: self.password.clone() }
            },
            None => {
                self.status_message = Some(String::from_str("Not connected"));
                BrowserAction::Nothing
            },
        }
    }

    /// Upload a local file into a remote directory, showing its progress.
    pub fn upload_file_to_dir(&mut self, local_path: String, remote_dir: String) -> (a: BrowserAction)
        ensures
            match old(self).host_address {
                Some(h) => {
                    let name = local_name(local_path@);
                    &&& a matches BrowserAction::UploadToDir { host, local_path: lp, remote_dir: rd, password }
                        && host@ == h@ && lp == local_path && rd@ == remote_dir@ && opt_str(password)
                        == opt_str(old(self).password)
                    &&& msg_is(final(self).status_message, "Uploading "@ + name + " → "@ + remote_dir@ + "…"@)
                    &&& started(final(self).transfer, "Uploading"@, name, 1)
                    &&& *final(self) == (RemoteBrowser {
                        status_message: final(self).status_message,
                        transfer: final(self).transfer,
                        ..*old(self)
                    })
                },
                None => not_connected(*old(self), *final(self), a),
            },
    {
        match &self.host_address {
            Some(h) => {
                let host = h.clone();
                let name = local_file_name(local_path.as_str());
                let mut out: Vec<char> = Vec::new();
                crate::text::push_str(&mut out, "Uploading ");
                crate::text::push_str(&mut out, name.as_str());
                crate::text::push_str(&mut out, " → ");
                crate::text::push_str(&mut out, remote_dir.as_str());
                crate::text::push_str(&mut out, "…");
                self.status_message = Some(string_from_chars(&out));
                self.transfer = Some(new_progress(name, "Uploading", 1));
                BrowserAction::UploadToDir { host, local_path, remote_dir, password: self.password.clone() }
            },
            None => {
                self.status_message = Some(String::from_str("Not connected"));
                BrowserAction::Nothing
            },
        }
    }

    /// An upload ended: on success the directory is listed again.
    pub fn upload_complete(&mut self, result: Result<String, String>) -> (a: BrowserAction)
        ensures
            match result {
                Ok(_) => refresh_spec(RemoteBrowser { transfer: None, ..*old(self) }, *final(self), a),
                Err(e) => {
                    &&& a is Nothing
                    &&& msg_is(final(self).status_message, "Upload failed: "@ + e@)
                    &&& *final(self) == (RemoteBrowser {
                        transfer: None,
                        status_message: final(self).status_message,
                        ..*old(self)
                    })
                },
            },
    {
        self.transfer = None;
        match result {
            Ok(name) => {
                self.status_message = Some(crate::text::join2("Uploaded: ", name.as_str()));
                let ghost mid = *self;
                let a = self.refresh_files();
                assert(refresh_spec(RemoteBrowser { transfer: None, ..*old(self) }, *self, a)) by {
                    assert(mid == (RemoteBrowser { status_message: mid.status_message, transfer: None, ..*old(self) }));
                }
                a
            },
            Err(e) => {
                self.status_message = Some(crate::text::join2("Upload failed: ", e.as_str()));
                BrowserAction::Nothing
            },
        }
    }

    /// Upload a local directory.
    pub fn upload_directory(&mut self, local_path: String, remote_dest: String) -> (a: BrowserAction)
        ensures
            match old(self).host_address {
                Some(h) => {
                    &&& a matches BrowserAction::UploadDirectory { host, local_path: lp, remote_dest: rd, password }
                        && host@ == h@ && lp == local_path && rd == remote_dest && opt_str(password)
                        == opt_str(old(self).password)
                    &&& msg_is(final(self).status_message, "Uploading directory..."@)
                    &&& *final(self) == (RemoteBrowser {
                        status_message: final(self).status_message,
                        ..*old(self)
                    })
                },
                None => not_connected(*old(self), *final(self), a),
            },
    {
        match &self.host_address {
            Some(h) => {
                let host = h.clone();
                self.status_message = Some(String::from_str("Uploading directory..."));
                BrowserAction::UploadDirectory {
                    host,
                    local_path,
                    remote_dest,
                    password: self.password.clone(),
                }
            },
            None => {
                self.status_message = Some(String::from_str("Not connected"));
                BrowserAction::Nothing
            },
        }
    }

    /// A directory upload ended: on success the directory is listed again.
    pub fn upload_directory_complete(&mut self, result: Result<String, String>) -> (a: BrowserAction)
        ensures
            match result {
                Ok(_) => refresh_spec(RemoteBrowser { transfer: None, ..*old(self) }, *final(self), a),
                Err(e) => {
                    &&& a is Nothing
                    &&& msg_is(final(self).status_message, "Directory upload failed: "@ + e@)
                    &&& *final(self) == (RemoteBrowser {
                        transfer: None,
                        status_message: final(self).status_message,
                        ..*old(self)
                    })
                },
            },
    {
        self.transfer = None;
        match result {
            Ok(msg) => {
                self.status_message = Some(msg);
                let ghost mid = *self;
                let a = self.refresh_files();
                assert(refresh_spec(RemoteBrowser { transfer: None, ..*old(self) }, *self, a)) by {
                    assert(mid == (RemoteBrowser { status_message: mid.status_message, transfer: None, ..*old(self) }));
                }
                a
            },
            Err(e) => {
                self.status_message = Some(crate::text::join2("Directory upload failed: ", e.as_str()));
                BrowserAction::Nothing
            },
        }
    }

    /// Start a program file on the device.
    pub fn start_runner(&mut self, kind: RunKind, path: String) -> (a: BrowserAction)
        ensures
            runner_spec(*old(self), *final(self), a, kind, path@),
    {
        match &self.host_address {
            Some(h) => {
                let host = h.clone();
                self.status_message = Some(
                    match kind {
                        RunKind::RunPrg => String::from_str("Running PRG..."),
                        RunKind::LoadPrg => String::from_str("Loading PRG..."),
                        RunKind::RunCrt => String::from_str("Running CRT..."),
                        RunKind::PlaySid => String::from_str("Playing SID..."),
                        RunKind::PlayMod => String::from_str("Playing MOD..."),
                    },
                );
                BrowserAction::Run { kind, host, path, password: self.password.clone() }
            },
            None => {
                self.status_message = Some(String::from_str("Not connected"));
                BrowserAction::Nothing
            },
        }
    }

    /// A program start ended.
    pub fn runner_complete(&mut self, result: Result<String, String>)
        ensures
            msg_is(
                final(self).status_message,
                match result {
                    Ok(m) => m@,
                    Err(e) => "Failed: "@ + e@,
                },
            ),
            *final(self) == (RemoteBrowser { status_message: final(self).status_message, ..*old(self) }),
    {
        self.status_message = Some(
            match result {
                Ok(m) => m,
                Err(e) => crate::text::join2("Failed: ", e.as_str()),
            },
        );
    }

    /// Mount a disk image on a drive.
    pub fn mount_disk(&mut self, path: String, drive: String, mode: String) -> (a: BrowserAction)
        ensures
            match old(self).host_address {
                Some(h) => {
                    &&& a matches BrowserAction::MountDisk { host, path: p, drive: d, mode: m, password }
                        && host@ == h@ && p == path && d == drive && m == mode && opt_str(password)
                        == opt_str(old(self).password)
                    &&& msg_is(
                        final(self).status_message,
                        "Mounting to drive "@ + crate::text::unicode_uppercase(drive@) + "..."@,
                    )
                    &&& *final(self) == (RemoteBrowser {
                        status_message: final(self).status_message,
                        ..*old(self)
                    })
                },
                None => not_connected(*old(self), *final(self), a),
            },
    {
        match &self.host_address {
            Some(h) => {
                let host = h.clone();
                let upper = crate::text::to_uppercase(drive.as_str());
                self.status_message = Some(crate::text::join3("Mounting to drive ", upper.as_str(), "..."));
                BrowserAction::MountDisk { host, path, drive, mode, password: self.password.clone() }
            },
            None => {
                self.status_message = Some(String::from_str("Not connected"));
                BrowserAction::Nothing
            },
        }
    }

    /// A mount (or disk run) ended.
    pub fn mount_complete(&mut self, result: Result<String, String>)
        ensures
            msg_is(
                final(self).status_message,
                match result {
                    Ok(m) => m@,
                    Err(e) => "Mount failed: "@ + e@,
                },
            ),
            *final(self) == (RemoteBrowser { status_message: final(self).status_message, ..*old(self) }),
    {
        self.status_message = Some(
            match result {
                Ok(m) => m,
                Err(e) => crate::text::join2("Mount failed: ", e.as_str()),
            },
        );
    }

    /// Mount a disk image on a drive and run it.
    pub fn run_disk(&mut self, path: String, drive: String) -> (a: BrowserAction)
        ensures
            run_disk_spec(*old(self), *final(self), a, path@, drive@),
    {
        match &self.host_address {
            Some(h) => {
                let host = h.clone();
                let upper = crate::text::to_uppercase(drive.as_str());
                self.status_message = Some(crate::text::join3("Running disk on drive ", upper.as_str(), "..."));
                BrowserAction::RunDisk { host, path, drive, password: self.password.clone() }
            },
            None => {
                self.status_message = Some(String::from_str("Not connected"));
                BrowserAction::Nothing
            },
        }
    }

    /// Download the checked paths that are listed into a local folder.
    pub fn download_checked_to_local(&mut self, local_dest: String) -> (a: BrowserAction)
        ensures
            old(self).checked_files@.len() == 0 ==> {
                &&& a is Nothing
                &&& msg_is(final(self).status_message, "No files selected"@)
                &&& *final(self) == (RemoteBrowser {
                    status_message: final(self).status_message,
                    ..*old(self)
                })
            },
            old(self).checked_files@.len() > 0 ==> match old(self).host_address {
                Some(h) => {
                    let (fs, ds) = split_listed(old(self).files@, str_views(old(self).checked_files@));
                    &&& a matches BrowserAction::DownloadBatch { host, file_paths, dir_paths, local_dest: ld, password }
                        && host@ == h@ && str_views(file_paths@) == fs && str_views(dir_paths@) == ds
                        && ld == local_dest && opt_str(password) == opt_str(old(self).password)
                    &&& msg_is(
                        final(self).status_message,
                        "Downloading "@ + crate::text::decimal(fs.len() + ds.len()) + " item(s)..."@,
                    )
                    &&& *final(self) == (RemoteBrowser {
                        status_message: final(self).status_message,
                        ..*old(self)
                    })
                },
                None => not_connected(*old(self), *final(self), a),
            },
    {
        if self.checked_files.len() == 0 {
            self.status_message = Some(String::from_str("No files selected"));
            return BrowserAction::Nothing;
        }
        match &self.host_address {
            Some(h) => {
                let host = h.clone();
                let (file_paths, dir_paths) = split_paths(&self.files, &self.checked_files, false);
                let mut out: Vec<char> = Vec::new();
                crate::text::push_str(&mut out, "Downloading ");
                crate::text::push_decimal(&mut out, (file_paths.len() as u64) + (dir_paths.len() as u64));
                crate::text::push_str(&mut out, " item(s)...");
                self.status_message = Some(string_from_chars(&out));
                BrowserAction::DownloadBatch {
                    host,
                    file_paths,
                    dir_paths,
                    local_dest,
                    password: self.password.clone(),
                }
            },
            None => {
                self.status_message = Some(String::from_str("Not connected"));
                BrowserAction::Nothing
            },
        }
    }

    /// A batch download ended: on success the checks are cleared.
    pub fn download_batch_complete(&mut self, result: Result<String, String>)
        ensures
            match result {
                Ok(m) => {
                    &&& msg_is(final(self).status_message, m@)
                    &&& final(self).checked_files@.len() == 0
                    &&& *final(self) == (RemoteBrowser {
                        transfer: None,
                        status_message: final(self).status_message,
                        checked_files: final(self).checked_files,
                        ..*old(self)
                    })
                },
                Err(e) => {
                    &&& msg_is(final(self).status_message, "Download failed: "@ + e@)
                    &&& *final(self) == (RemoteBrowser {
                        transfer: None,
                        status_message: final(self).status_message,
                        ..*old(self)
                    })
                },
            },
    {
        self.transfer = None;
        match result {
            Ok(m) => {
                self.status_message = Some(m);
                self.checked_files = Vec::new();
            },
            Err(e) => {
                self.status_message = Some(crate::text::join2("Download failed: ", e.as_str()));
            },
        }
    }

    /// The checked paths split into files and directories (unlisted paths
    /// count as files).
    pub fn get_checked_files_and_dirs(&self) -> (r: (Vec<String>, Vec<String>))
        ensures
            (str_views(r.0@), str_views(r.1@)) == split_checked(self.files@, str_views(self.checked_files@)),
    {
        split_paths(&self.files, &self.checked_files, true)
    }

    /// Read a disk image's directory for the disk popup.
    pub fn show_disk_info(&mut self, path: String) -> (a: BrowserAction)
        ensures
            match old(self).host_address {
                Some(h) => {
                    &&& a matches BrowserAction::LoadDiskInfo { host, path: p, password } && host@ == h@
                        && p@ == path@ && opt_str(password) == opt_str(old(self).password)
                    &&& *final(self) == (RemoteBrowser {
                        disk_info_loading: true,
                        disk_info_path: Some(path),
                        ..*old(self)
                    })
                },
                None => not_connected(*old(self), *final(self), a),
            },
    {
        match &self.host_address {
            Some(h) => {
                let host = h.clone();
                let p = path.clone();
                self.disk_info_loading = true;
                self.disk_info_path = Some(path);
                BrowserAction::LoadDiskInfo { host, path: p, password: self.password.clone() }
            },
            None => {
                self.status_message = Some(String::from_str("Not connected"));
                BrowserAction::Nothing
            },
        }
    }

    /// A disk directory arrived (the popup opens), or reading it failed.
    pub fn disk_info_loaded(&mut self, result: Result<(), String>)
        ensures
            match result {
                Ok(()) => *final(self) == (RemoteBrowser {
                    disk_info_loading: false,
                    disk_info_open: true,
                    ..*old(self)
                }),
                Err(e) => {
                    &&& msg_is(final(self).status_message, "Failed to read disk: "@ + e@)
                    &&& *final(self) == (RemoteBrowser {
                        disk_info_loading: false,
                        status_message: final(self).status_message,
                        disk_info_path: None,
                        ..*old(self)
                    })
                },
            },
    {
        self.disk_info_loading = false;
        match result {
            Ok(()) => {
                self.disk_info_open = true;
            },
            Err(e) => {
                self.status_message = Some(crate::text::join2("Failed to read disk: ", e.as_str()));
                self.disk_info_path = None;
            },
        }
    }

    /// Close the disk popup.
    pub fn close_disk_info(&mut self)
        ensures
            *final(self) == (RemoteBrowser { disk_info_open: false, disk_info_path: None, ..*old(self) }),
    {
        self.disk_info_open = false;
        self.disk_info_path = None;
    }

    /// Download a file to preview it.
    pub fn show_content_preview(&mut self, path: String) -> (a: BrowserAction)
        ensures
            match old(self).host_address {
                Some(h) => {
                    &&& a matches BrowserAction::LoadContentPreview { host, path: p, password } && host@
                        == h@ && p@ == path@ && opt_str(password) == opt_str(old(self).password)
                    &&& msg_is(
                        final(self).status_message,
                        "Downloading "@ + crate::text::after_last(path@, '/') + "..."@,
                    )
                    &&& *final(self) == (RemoteBrowser {
                        content_preview_loading: true,
                        status_message: final(self).status_message,
                        content_preview_path: Some(path),
                        ..*old(self)
                    })
                },
                None => not_connected(*old(self), *final(self), a),
            },
    {
        match &self.host_address {
            Some(h) => {
                let host = h.clone();
                self.content_preview_loading = true;
                let name = crate::text::after_last_of(path.as_str(), '/');
                self.status_message = Some(crate::text::join3("Downloading ", name.as_str(), "..."));
                let p = path.clone();
                self.content_preview_path = Some(path);
                BrowserAction::LoadContentPreview { host, path: p, password: self.password.clone() }
            },
            None => {
                self.status_message = Some(String::from_str("Not connected"));
                BrowserAction::Nothing
            },
        }
    }

    /// A preview arrived, or loading it failed.
    pub fn content_preview_loaded(&mut self, result: Result<crate::pdf_preview::ContentPreview, String>)
        ensures
            match result {
                Ok(p) => *final(self) == (RemoteBrowser {
                    content_preview_loading: false,
                    content_preview: Some(p),
                    ..*old(self)
                }),
                Err(e) => {
                    &&& msg_is(final(self).status_message, "Failed to load content: "@ + e@)
                    &&& *final(self) == (RemoteBrowser {
                        content_preview_loading: false,
                        status_message: final(self).status_message,
                        content_preview_path: None,
                        ..*old(self)
                    })
                },
            },
    {
        self.content_preview_loading = false;
        match result {
            Ok(p) => {
                self.content_preview = Some(p);
            },
            Err(e) => {
                self.status_message = Some(crate::text::join2("Failed to load content: ", e.as_str()));
                self.content_preview_path = None;
            },
        }
    }

    /// Close the preview.
    pub fn close_content_preview(&mut self)
        ensures
            *final(self) == (RemoteBrowser { content_preview: None, content_preview_path: None, ..*old(self) }),
    {
        self.content_preview = None;
        self.content_preview_path = None;
    }

    /// The periodic progress check: a finished transfer is dropped, a
    /// running one is shown in the status line.
    pub fn progress_tick(&mut self)
        ensures
            match old(self).transfer {
                Some(p) => if p.done {
                    *final(self) == (RemoteBrowser { transfer: None, ..*old(self) })
                } else {
                    msg_is(final(self).status_message, progress_line(p)) && *final(self) == (
                    RemoteBrowser { status_message: final(self).status_message, ..*old(self) })
                },
                None => *final(self) == *old(self),
            },
    {
        let line = match &self.transfer {
            Some(p) => {
                if p.done {
                    None
                } else {
                    let mut out: Vec<char> = Vec::new();
                    crate::text::push_str(&mut out, p.operation.as_str());
                    crate::text::push_str(&mut out, " (");
                    crate::text::push_decimal(&mut out, p.current as u64);
                    crate::text::push_str(&mut out, "/");
                    crate::text::push_decimal(&mut out, p.total as u64);
                    crate::text::push_str(&mut out, ") ");
                    crate::text::push_str(&mut out, p.current_file.as_str());
                    Some(string_from_chars(&out))
                }
            },
            None => {
                return ;
            },
        };
        match line {
            Some(l) => {
                self.status_message = Some(l);
            },
            None => {
                self.transfer = None;
            },
        }
    }

    /// Cancel the running transfer: it is marked cancelled and done.
    pub fn cancel_transfer(&mut self)
        ensures
            match old(self).transfer {
                Some(p) => final(self).transfer == Some(
                    TransferProgress { cancelled: true, done: true, ..p },
                ) && *final(self) == (RemoteBrowser { transfer: final(self).transfer, ..*old(self) }),
                None => *final(self) == *old(self),
            },
    {
        if let Some(p) = &mut self.transfer {
            p.cancelled = true;
            p.done = true;
        }
    }

    /// Whether a transfer is running.
    pub fn is_transferring(&self) -> (b: bool)
        ensures
            b == self.transfer is Some,
    {
        self.transfer.is_some()
    }

    /// Ask before deleting one path.
    pub fn delete_file(&mut self, path: String)
        ensures
            final(self).delete_pending matches Some(d) && str_views(d.paths@) == seq![path@]
                && d.summary@ == delete_one_summary(
                crate::text::after_last(path@, '/'),
                listed_dir(old(self).files@, path@),
            ),
            *final(self) == (RemoteBrowser { delete_pending: final(self).delete_pending, ..*old(self) }),
    {
        let name = crate::text::after_last_of(path.as_str(), '/');
        let is_dir = match find_entry(&self.files, path.as_str()) {
            Some(k) => self.files[k].is_dir,
            None => false,
        };
        let summary = if is_dir {
            crate::text::join3("Delete directory \"", name.as_str(), "\" and ALL its contents?")
        } else {
            crate::text::join3("Delete file \"", name.as_str(), "\"?")
        };
        let mut paths: Vec<String> = Vec::new();
        paths.push(path);
        assert(str_views(paths@) =~= seq![path@]);
        self.delete_pending = Some(DeletePending { paths, summary });
    }

    /// Ask before deleting the checked paths (unlisted ones count as
    /// files).
    pub fn delete_checked(&mut self) -> (a: BrowserAction)
        ensures
            a is Nothing,
            old(self).checked_files@.len() == 0 ==> msg_is(final(self).status_message, "No files selected"@)
                && *final(self) == (RemoteBrowser {
                status_message: final(self).status_message,
                ..*old(self)
            }),
            old(self).checked_files@.len() > 0 ==> {
                let (fs, ds) = split_checked(old(self).files@, str_views(old(self).checked_files@));
                &&& final(self).delete_pending matches Some(d) && str_views(d.paths@) == str_views(
                    old(self).checked_files@,
                ) && d.summary@ == delete_many_summary(fs.len(), ds.len())
                &&& *final(self) == (RemoteBrowser {
                    delete_pending: final(self).delete_pending,
                    ..*old(self)
                })
            },
    {
        if self.checked_files.len() == 0 {
            self.status_message = Some(String::from_str("No files selected"));
            return BrowserAction::Nothing;
        }
        let paths = clone_strings(&self.checked_files);
        let (fs, ds) = split_paths(&self.files, &self.checked_files, true);
        let f = fs.len();
        let d = ds.len();
        let mut out: Vec<char> = Vec::new();
        crate::text::push_str(&mut out, "Delete ");
        if d == 0 {
            crate::text::push_decimal(&mut out, f as u64);
            crate::text::push_str(&mut out, " file(s)?");
        } else {
            if f > 0 {
                crate::text::push_decimal(&mut out, f as u64);
                crate::text::push_str(&mut out, " file(s) and ");
            }
            crate::text::push_decimal(&mut out, d as u64);
            crate::text::push_str(&mut out, " director");
            crate::text::push_str(&mut out, if d == 1 { "y" } else { "ies" });
            crate::text::push_str(&mut out, "? (recursive)");
        }
        self.delete_pending = Some(DeletePending { paths, summary: string_from_chars(&out) });
        BrowserAction::Nothing
    }

    /// Close the delete question.
    pub fn delete_cancel(&mut self)
        ensures
            *final(self) == (RemoteBrowser { delete_pending: None, ..*old(self) }),
    {
        self.delete_pending = None;
    }

    /// The delete was confirmed: delete the paths, each marked whether it
    /// is a listed directory, showing progress.
    pub fn delete_confirm(&mut self) -> (a: BrowserAction)
        ensures
            match old(self).delete_pending {
                None => a is Nothing && *final(self) == *old(self),
                Some(d) => match old(self).host_address {
                    Some(h) => {
                        &&& a matches BrowserAction::Delete { host, paths, password } && host@ == h@
                            && pair_views(paths@) == typed_paths(old(self).files@, str_views(d.paths@))
                            && opt_str(password) == opt_str(old(self).password)
                        &&& msg_is(
                            final(self).status_message,
                            "Deleting "@ + crate::text::decimal(d.paths@.len()) + " item(s)..."@,
                        )
                        &&& started(final(self).transfer, "Deleting"@, Seq::empty(), d.paths@.len())
                        &&& *final(self) == (RemoteBrowser {
                            delete_pending: None,
                            status_message: final(self).status_message,
                            transfer: final(self).transfer,
                            ..*old(self)
                        })
                    },
                    None => not_connected(
                        RemoteBrowser { delete_pending: None, ..*old(self) },
                        *final(self),
                        a,
                    ),
                },
            },
    {
        let mut pending: Option<DeletePending> = None;
        std::mem::swap(&mut pending, &mut self.delete_pending);
        let pending = match pending {
            Some(p) => p,
            None => {
                return BrowserAction::Nothing;
            },
        };
        match &self.host_address {
            Some(h) => {
                let host = h.clone();
                let count = pending.paths.len();
                let mut out: Vec<char> = Vec::new();
                crate::text::push_str(&mut out, "Deleting ");
                crate::text::push_decimal(&mut out, count as u64);
                crate::text::push_str(&mut out, " item(s)...");
                self.status_message = Some(string_from_chars(&out));
                self.transfer = Some(new_progress(String::new(), "Deleting", count));
                let paths = mark_dirs(&self.files, &pending.paths);
                BrowserAction::Delete { host, paths, password: self.password.clone() }
            },
            None => {
                self.status_message = Some(String::from_str("Not connected"));
                BrowserAction::Nothing
            },
        }
    }

    /// A delete ended: checks are cleared, and on success the directory is
    /// listed again.
    pub fn delete_complete(&mut self, result: Result<String, String>) -> (a: BrowserAction)
        ensures
            final(self).checked_files@.len() == 0,
            match result {
                Ok(_) => refresh_spec(
                    RemoteBrowser { transfer: None, checked_files: final(self).checked_files, ..*old(self) },
                    *final(self),
                    a,
                ),
                Err(e) => {
                    &&& a is Nothing
                    &&& msg_is(final(self).status_message, "Delete failed: "@ + e@)
                    &&& *final(self) == (RemoteBrowser {
                        transfer: None,
                        checked_files: final(self).checked_files,
                        status_message: final(self).status_message,
                        ..*old(self)
                    })
                },
            },
    {
        self.transfer = None;
        self.checked_files = Vec::new();
        match result {
            Ok(msg) => {
                self.status_message = Some(msg);
                let ghost mid = *self;
                let a = self.refresh_files();
                assert(refresh_spec(
                    RemoteBrowser { transfer: None, checked_files: mid.checked_files, ..*old(self) },
                    *self,
                    a,
                )) by {
                    assert(mid == (RemoteBrowser {
                        status_message: mid.status_message,
                        transfer: None,
                        checked_files: mid.checked_files,
                        ..*old(self)
                    }));
                }
                a
            },
            Err(e) => {
                self.status_message = Some(crate::text::join2("Delete failed: ", e.as_str()));
                BrowserAction::Nothing
            },
        }
    }

    /// Open the rename field for a path, holding its current name.
    pub fn rename_file(&mut self, path: String)
        ensures
            final(self).rename_pending matches Some(r) && r.original_path == path && r.new_name@
                == crate::text::after_last(path@, '/'),
            *final(self) == (RemoteBrowser { rename_pending: final(self).rename_pending, ..*old(self) }),
    {
        let name = crate::text::after_last_of(path.as_str(), '/');
        self.rename_pending = Some(RenamePending { original_path: path, new_name: name });
    }

    /// The rename field was edited.
    pub fn rename_input_changed(&mut self, value: String)
        ensures
            final(self).rename_pending == (match old(self).rename_pending {
                Some(r) => Some(RenamePending { new_name: value, ..r }),
                None => None,
            }),
            *final(self) == (RemoteBrowser { rename_pending: final(self).rename_pending, ..*old(self) }),
    {
        if let Some(rp) = &mut self.rename_pending {
            rp.new_name = value;
        }
    }

    /// Close the rename field.
    pub fn rename_cancel(&mut self)
        ensures
            *final(self) == (RemoteBrowser { rename_pending: None, ..*old(self) }),
    {
        self.rename_pending = None;
    }

    /// The rename was confirmed: a blank name is refused, an unchanged
    /// path does nothing, otherwise the path is renamed in its directory.
    pub fn rename_confirm(&mut self) -> (a: BrowserAction)
        ensures
            match old(self).rename_pending {
                None => a is Nothing && *final(self) == *old(self),
                Some(r) => {
                    let name = crate::text::trim(r.new_name@);
                    let closed = RemoteBrowser { rename_pending: None, ..*old(self) };
                    if name.len() == 0 {
                        &&& a is Nothing
                        &&& msg_is(final(self).status_message, "Name cannot be empty"@)
                        &&& *final(self) == (RemoteBrowser {
                            status_message: final(self).status_message,
                            ..closed
                        })
                    } else if renamed_path(r.original_path@, name) == r.original_path@ {
                        a is Nothing && *final(self) == closed
                    } else {
                        match old(self).host_address {
                            Some(h) => {
                                &&& a matches BrowserAction::Rename { host, old_path, new_path, password }
                                    && host@ == h@ && old_path@ == r.original_path@ && new_path@
                                    == renamed_path(r.original_path@, name) && opt_str(password)
                                    == opt_str(old(self).password)
                                &&& msg_is(final(self).status_message, "Renaming to "@ + name + "..."@)
                                &&& *final(self) == (RemoteBrowser {
                                    status_message: final(self).status_message,
                                    ..closed
                                })
                            },
                            None => not_connected(closed, *final(self), a),
                        }
                    }
                },
            },
    {
        let mut pending: Option<RenamePending> = None;
        std::mem::swap(&mut pending, &mut self.rename_pending);
        let pending = match pending {
            Some(p) => p,
            None => {
                return BrowserAction::Nothing;
            },
        };
        let name = string_from_chars(&crate::text::trim_chars(&chars_of(pending.new_name.as_str())));
        if name.as_str().unicode_len() == 0 {
            self.status_message = Some(String::from_str("Name cannot be empty"));
            return BrowserAction::Nothing;
        }
        let new_path = renamed_path_of(pending.original_path.as_str(), name.as_str());
        if str_eq(new_path.as_str(), pending.original_path.as_str()) {
            return BrowserAction::Nothing;
        }
        match &self.host_address {
            Some(h) => {
                let host = h.clone();
                self.status_message = Some(crate::text::join3("Renaming to ", name.as_str(), "..."));
                BrowserAction::Rename {
                    host,
                    old_path: pending.original_path,
                    new_path,
                    password: self.password.clone(),
                }
            },
            None => {
                self.status_message = Some(String::from_str("Not connected"));
                BrowserAction::Nothing
            },
        }
    }

    /// A rename ended: on success the directory is listed again.
    pub fn rename_complete(&mut self, result: Result<String, String>) -> (a: BrowserAction)
        ensures
            match result {
                Ok(_) => refresh_spec(*old(self), *final(self), a),
                Err(e) => {
                    &&& a is Nothing
                    &&& msg_is(final(self).status_message, "Rename failed: "@ + e@)
                    &&& *final(self) == (RemoteBrowser {
                        status_message: final(self).status_message,
                        ..*old(self)
                    })
                },
            },
    {
        match result {
            Ok(msg) => {
                self.status_message = Some(msg);
                let ghost mid = *self;
                let a = self.refresh_files();
                assert(refresh_spec(*old(self), *self, a)) by {
                    assert(mid == (RemoteBrowser { status_message: mid.status_message, ..*old(self) }));
                }
                a
            },
            Err(e) => {
                self.status_message = Some(crate::text::join2("Rename failed: ", e.as_str()));
                BrowserAction::Nothing
            },
        }
    }

    /// Open the new-directory field, empty.
    pub fn show_create_dir(&mut self)
        ensures
            final(self).create_dir_name@.len() == 0,
            *final(self) == (RemoteBrowser {
                show_create_dir: true,
                create_dir_name: final(self).create_dir_name,
                ..*old(self)
            }),
    {
        self.show_create_dir = true;
        self.create_dir_name = String::new();
    }

    /// The new-directory field was edited.
    pub fn create_dir_name_changed(&mut self, name: String)
        ensures
            *final(self) == (RemoteBrowser { create_dir_name: name, ..*old(self) }),
    {
        self.create_dir_name = name;
    }

    /// Close the new-directory field.
    pub fn create_dir_cancel(&mut self)
        ensures
            *final(self) == (RemoteBrowser { show_create_dir: false, ..*old(self) }),
    {
        self.show_create_dir = false;
    }

    /// Create the typed directory (trimmed) in the current one; a blank
    /// name does nothing.  Without a device the host is empty.
    pub fn create_dir_confirm(&mut self) -> (a: BrowserAction)
        ensures
            crate::text::trim(old(self).create_dir_name@).len() == 0 ==> a is Nothing && *final(self)
                == *old(self),
            crate::text::trim(old(self).create_dir_name@).len() > 0 ==> {
                &&& a matches BrowserAction::MakeDirectory { host, path, password } && host@ == match old(
                    self,
                ).host_address {
                    Some(h) => h@,
                    None => Seq::empty(),
                } && path@ == trim_slashes(old(self).current_path@) + "/"@ + crate::text::trim(
                    old(self).create_dir_name@,
                ) && opt_str(password) == opt_str(old(self).password)
                &&& *final(self) == (RemoteBrowser { show_create_dir: false, ..*old(self) })
            },
    {
        let name = crate::text::trim_chars(&chars_of(self.create_dir_name.as_str()));
        if name.len() == 0 {
            return BrowserAction::Nothing;
        }
        let cur = chars_of(self.current_path.as_str());
        let mut k = cur.len();
        assert(cur@.take(k as int) =~= cur@);
        while k > 0 && cur[k - 1] == '/'
            invariant
                k <= cur@.len(),
                trim_slashes(cur@) == trim_slashes(cur@.take(k as int)),
            decreases k,
        {
            assert(cur@.take(k as int).drop_last() =~= cur@.take(k - 1));
            k = k - 1;
        }
        let mut out = sub_chars(&cur, 0, k);
        assert(out@ =~= cur@.take(k as int));
        out.push('/');
        crate::text::push_chars(&mut out, &name);
        assert(out@ =~= trim_slashes(cur@) + "/"@ + name@) by {
            reveal_strlit("/");
        }
        let host = match &self.host_address {
            Some(h) => h.clone(),
            None => String::new(),
        };
        self.show_create_dir = false;
        BrowserAction::MakeDirectory { host, path: string_from_chars(&out), password: self.password.clone() }
    }

    /// A directory creation ended: on success the directory is listed
    /// again.
    pub fn create_dir_complete(&mut self, result: Result<String, String>) -> (a: BrowserAction)
        ensures
            match result {
                Ok(_) => refresh_spec(*old(self), *final(self), a),
                Err(e) => {
                    &&& a is Nothing
                    &&& msg_is(final(self).status_message, "Error: "@ + e@)
                    &&& *final(self) == (RemoteBrowser {
                        status_message: final(self).status_message,
                        ..*old(self)
                    })
                },
            },
    {
        match result {
            Ok(msg) => {
                self.status_message = Some(msg);
                let ghost mid = *self;
                let a = self.refresh_files();
                assert(refresh_spec(*old(self), *self, a)) by {
                    assert(mid == (RemoteBrowser { status_message: mid.status_message, ..*old(self) }));
                }
                a
            },
            Err(e) => {
                self.status_message = Some(crate::text::join2("Error: ", e.as_str()));
                BrowserAction::Nothing
            },
        }
    }

    /// Whether the checked paths are each listed once and the highlighted
    /// game is one of the games (when there are any).
    pub open spec fn valid(&self) -> bool {
        &&& self.well_formed()
        &&& self.games@.len() > 0 ==> self.game_selected < self.games@.len()
    }

    /// Open Game Mode (listing the games under the library roots), or
    /// close it.
    pub fn toggle_game_mode(&mut self, roots: Vec<String>) -> (a: BrowserAction)
        ensures
            old(self).game_mode ==> a is Nothing && *final(self) == (RemoteBrowser {
                game_mode: false,
                ..*old(self)
            }),
            !old(self).game_mode ==> {
                let opened = RemoteBrowser {
                    game_mode: true,
                    game_error: final(self).game_error,
                    game_selected: 0,
                    games: final(self).games,
                    games_loading: final(self).games_loading,
                    ..*old(self)
                };
                &&& final(self).games@.len() == 0
                &&& *final(self) == opened
                &&& match old(self).host_address {
                    None => a is Nothing && msg_is(final(self).game_error, "Connect to the device first."@)
                        && final(self).games_loading == old(self).games_loading,
                    Some(h) => if roots@.len() == 0 {
                        &&& a is Nothing
                        &&& msg_is(
                            final(self).game_error,
                            "No game library set. Add a folder in Settings → Preferences → Game library."@,
                        )
                        &&& final(self).games_loading == old(self).games_loading
                    } else {
                        &&& a matches BrowserAction::EnumerateGames { host, roots: r, password } && host@
                            == h@ && r == roots && opt_str(password) == opt_str(old(self).password)
                        &&& final(self).game_error is None
                        &&& final(self).games_loading
                    },
                }
            },
    {
        if self.game_mode {
            self.game_mode = false;
            return BrowserAction::Nothing;
        }
        self.game_mode = true;
        self.game_error = None;
        self.game_selected = 0;
        self.games = Vec::new();
        let host = match &self.host_address {
            Some(h) => h.clone(),
            None => {
                self.game_error = Some(String::from_str("Connect to the device first."));
                return BrowserAction::Nothing;
            },
        };
        if roots.len() == 0 {
            self.game_error = Some(
                String::from_str("No game library set. Add a folder in Settings → Preferences → Game library."),
            );
            return BrowserAction::Nothing;
        }
        self.games_loading = true;
        BrowserAction::EnumerateGames { host, roots, password: self.password.clone() }
    }

    /// Fetch the art of the highlighted game, unless it is fetched or
    /// being fetched, or there is no device.
    pub fn load_game_art_for_selected(&mut self) -> (a: BrowserAction)
        ensures
            art_spec(*old(self), *final(self), a),
    {
        if self.game_selected >= self.games.len() {
            return BrowserAction::Nothing;
        }
        let folder = self.games[self.game_selected].path.clone();
        if has_art(&self.game_art, folder.as_str()) || contains_string(&self.game_art_loading, folder.as_str()) {
            return BrowserAction::Nothing;
        }
        let host = match &self.host_address {
            Some(h) => h.clone(),
            None => {
                return BrowserAction::Nothing;
            },
        };
        let ghost prev = self.game_art_loading@;
        self.game_art_loading.push(folder.clone());
        assert(str_views(self.game_art_loading@) =~= str_views(prev).push(folder@));
        BrowserAction::LoadGameArt { host, folder, password: self.password.clone() }
    }

    /// The games under the library arrived (the first is highlighted and
    /// its art fetched), or listing them failed.
    pub fn games_enumerated(&mut self, result: Result<Vec<GameEntry>, String>) -> (a: BrowserAction)
        ensures
            match result {
                Ok(games) => if games@.len() == 0 {
                    &&& a is Nothing
                    &&& msg_is(final(self).game_error, "No games found under the configured library."@)
                    &&& *final(self) == (RemoteBrowser {
                        games_loading: false,
                        games,
                        game_selected: 0,
                        game_error: final(self).game_error,
                        ..*old(self)
                    })
                } else {
                    art_spec(
                        RemoteBrowser {
                            games_loading: false,
                            games,
                            game_selected: 0,
                            game_error: None,
                            ..*old(self)
                        },
                        *final(self),
                        a,
                    )
                },
                Err(e) => a is Nothing && *final(self) == (RemoteBrowser {
                    games_loading: false,
                    game_error: Some(e),
                    ..*old(self)
                }),
            },
    {
        self.games_loading = false;
        match result {
            Ok(games) => {
                self.games = games;
                self.game_selected = 0;
                if self.games.len() == 0 {
                    self.game_error = Some(String::from_str("No games found under the configured library."));
                    BrowserAction::Nothing
                } else {
                    self.game_error = None;
                    self.load_game_art_for_selected()
                }
            },
            Err(e) => {
                self.game_error = Some(e);
                BrowserAction::Nothing
            },
        }
    }

    /// Highlight a game (and fetch its art); an index past the games does
    /// nothing.
    pub fn select_game(&mut self, idx: usize) -> (a: BrowserAction)
        ensures
            idx < old(self).games@.len() ==> art_spec(
                RemoteBrowser { game_selected: idx, ..*old(self) },
                *final(self),
                a,
            ),
            idx >= old(self).games@.len() ==> a is Nothing && *final(self) == *old(self),
    {
        if idx < self.games.len() {
            self.game_selected = idx;
            return self.load_game_art_for_selected();
        }
        BrowserAction::Nothing
    }

    /// Move the highlight by `delta` games, wrapping around (and fetch the
    /// art of a newly highlighted game).
    pub fn game_nav(&mut self, delta: i32) -> (a: BrowserAction)
        requires
            old(self).valid(),
            old(self).games@.len() <= i32::MAX,
            i32::MIN <= old(self).game_selected + delta <= i32::MAX,
        ensures
            old(self).games@.len() == 0 ==> a is Nothing && *final(self) == *old(self),
            old(self).games@.len() > 0 ==> {
                let next = ((old(self).game_selected + delta) % (old(self).games@.len() as int)) as usize;
                if next != old(self).game_selected {
                    art_spec(RemoteBrowser { game_selected: next, ..*old(self) }, *final(self), a)
                } else {
                    a is Nothing && *final(self) == *old(self)
                }
            },
    {
        if self.games.len() == 0 {
            return BrowserAction::Nothing;
        }
        let n: u64 = self.games.len() as u64;
        let sel: u64 = self.game_selected as u64;
        let next: u64 = if delta >= 0 {
            (sel + delta as u64) % n
        } else {
            let back: u64 = (-(delta as i64)) as u64;
            if back <= sel {
                (sel - back) % n
            } else {
                let r = (back - sel) % n;
                if r == 0 {
                    0
                } else {
                    n - r
                }
            }
        };
        proof {
            let ni = n as int;
            if delta < 0 && (-(delta as int)) > sel {
                lemma_neg_mod((-(delta as int)) - sel, ni);
                assert(self.game_selected + delta == -((-(delta as int)) - sel));
            }
        }
        let next = next as usize;
        if next != self.game_selected {
            self.game_selected = next;
            return self.load_game_art_for_selected();
        }
        BrowserAction::Nothing
    }

    /// A game folder's art fetch ended: its art is kept (none where the
    /// fetch failed).
    pub fn game_art_loaded(&mut self, folder: String, result: Result<(Option<Vec<u8>>, Option<Vec<u8>>), String>)
        ensures
            str_views(final(self).game_art_loading@) == without(str_views(old(self).game_art_loading@), folder@),
            final(self).game_art@ == set_art(
                old(self).game_art@,
                match result {
                    Ok((cover, shot)) => GameArt { folder, cover, shot },
                    Err(_) => GameArt { folder, cover: None, shot: None },
                },
            ),
            *final(self) == (RemoteBrowser {
                game_art_loading: final(self).game_art_loading,
                game_art: final(self).game_art,
                ..*old(self)
            }),
    {
        self.game_art_loading = strings_without(&self.game_art_loading, folder.as_str());
        let art = match result {
            Ok((cover, shot)) => GameArt { folder, cover, shot },
            Err(_) => GameArt { folder, cover: None, shot: None },
        };
        match art_position(&self.game_art, art.folder.as_str()) {
            Some(i) => {
                proof {
                    lemma_set_art_at(self.game_art@, art, i as int);
                }
                self.game_art.set(i, art);
            },
            None => {
                proof {
                    lemma_set_art_new(self.game_art@, art);
                }
                self.game_art.push(art);
            },
        }
    }

    /// Launch the highlighted game: list its folder to find what to run.
    pub fn run_selected_game(&mut self) -> (a: BrowserAction)
        ensures
            old(self).game_selected >= old(self).games@.len() ==> a is Nothing && *final(self) == *old(self),
            old(self).game_selected < old(self).games@.len() ==> {
                let g = old(self).games@[old(self).game_selected as int];
                match old(self).host_address {
                    None => not_connected(*old(self), *final(self), a),
                    Some(h) => {
                        &&& a matches BrowserAction::ResolveGame { host, folder, password } && host@ == h@
                            && folder@ == g.path@ && opt_str(password) == opt_str(old(self).password)
                        &&& msg_is(final(self).status_message, "Launching "@ + g.title@ + "…"@)
                        &&& *final(self) == (RemoteBrowser {
                            game_launching: true,
                            status_message: final(self).status_message,
                            ..*old(self)
                        })
                    },
                }
            },
    {
        if self.game_selected >= self.games.len() {
            return BrowserAction::Nothing;
        }
        let title = self.games[self.game_selected].title.clone();
        let folder = self.games[self.game_selected].path.clone();
        let host = match &self.host_address {
            Some(h) => h.clone(),
            None => {
                self.status_message = Some(String::from_str("Not connected"));
                return BrowserAction::Nothing;
            },
        };
        self.game_launching = true;
        self.status_message = Some(crate::text::join3("Launching ", title.as_str(), "…"));
        BrowserAction::ResolveGame { host, folder, password: self.password.clone() }
    }

    /// A game folder's listing arrived: its primary runnable file is run
    /// by its extension (`.prg`, `.crt`, or a disk image on drive `a`).
    pub fn game_run_resolved(&mut self, folder: String, result: Result<Vec<RemoteFileEntry>, String>) -> (a: BrowserAction)
        ensures
            match result {
                Err(e) => a is Nothing && msg_is(final(self).status_message, "Launch failed: "@ + e@)
                    && *final(self) == (RemoteBrowser {
                    game_launching: false,
                    status_message: final(self).status_message,
                    ..*old(self)
                }),
                Ok(files) => launch_spec(
                    RemoteBrowser { game_launching: false, ..*old(self) },
                    *final(self),
                    a,
                    folder@,
                    runnable_choice(files@),
                ),
            },
    {
        self.game_launching = false;
        match result {
            Err(e) => {
                self.status_message = Some(crate::text::join2("Launch failed: ", e.as_str()));
                BrowserAction::Nothing
            },
            Ok(files) => {
                let choice = primary_runnable(files.as_slice());
                self.launch_choice(folder.as_str(), choice)
            },
        }
    }

    /// Run a game folder's chosen file by its extension, or say there is
    /// nothing to run (see `launch_spec`).
    pub fn launch_choice(&mut self, folder: &str, choice: Option<&RemoteFileEntry>) -> (a: BrowserAction)
        ensures
            launch_spec(
                *old(self),
                *final(self),
                a,
                folder@,
                match choice {
                    Some(f) => Some(*f),
                    None => None,
                },
            ),
    {
        if let Some(entry) = choice {
            let ext = crate::text::to_lowercase(crate::text::after_last_of(entry.name.as_str(), '.').as_str());
            let path = entry.path.clone();
            proof {
                reveal_strlit("prg");
                reveal_strlit("crt");
                reveal_strlit("a");
            }
            if str_eq(ext.as_str(), "prg") {
                return self.start_runner(RunKind::RunPrg, path);
            } else if str_eq(ext.as_str(), "crt") {
                return self.start_runner(RunKind::RunCrt, path);
            } else if is_disk_image(&chars_of(ext.as_str())) {
                return self.run_disk(path, String::from_str("a"));
            }
        }
        self.status_message = Some(crate::text::join2("Nothing runnable in ", remote_basename(folder).as_str()));
        BrowserAction::Nothing
    }
}

/// The names of the directories of a listing, in order.
fn names_of_dirs(files: &Vec<RemoteFileEntry>) -> (r: Vec<String>)
    ensures
        str_views(r@) == dir_names(files@),
{
    let mut out: Vec<String> = Vec::new();
    let mut i: usize = 0;
    while i < files.len()
        invariant
            i <= files@.len(),
            str_views(out@) == dir_names(files@.take(i as int)),
        decreases files@.len() - i,
    {
        assert(files@.take(i as int + 1).drop_last() =~= files@.take(i as int));
        if files[i].is_dir {
            let ghost prev = out@;
            out.push(files[i].name.clone());
            assert(str_views(out@) =~= str_views(prev).push(files@[i as int].name@));
        }
        i = i + 1;
    }
    assert(files@.take(i as int) =~= files@);
    out
}

/// A copy of a list of strings.
fn clone_strings(v: &Vec<String>) -> (r: Vec<String>)
    ensures
        str_views(r@) == str_views(v@),
{
    let mut out: Vec<String> = Vec::new();
    let mut i: usize = 0;
    while i < v.len()
        invariant
            i <= v@.len(),
            str_views(out@) == str_views(v@.take(i as int)),
        decreases v@.len() - i,
    {
        let ghost prev = out@;
        out.push(v[i].clone());
        assert(str_views(out@) =~= str_views(prev).push(v@[i as int]@));
        assert(str_views(v@.take(i as int + 1)) =~= str_views(v@.take(i as int)).push(v@[i as int]@));
        i = i + 1;
    }
    assert(v@.take(i as int) =~= v@);
    out
}

/// A list of strings without any copy of `p`.
fn strings_without(v: &Vec<String>, p: &str) -> (r: Vec<String>)
    ensures
        str_views(r@) == without(str_views(v@), p@),
{
    let mut out: Vec<String> = Vec::new();
    let mut i: usize = 0;
    while i < v.len()
        invariant
            i <= v@.len(),
            str_views(out@) == without(str_views(v@.take(i as int)), p@),
        decreases v@.len() - i,
    {
        assert(str_views(v@.take(i as int + 1)).drop_last() =~= str_views(v@.take(i as int)));
        if !str_eq(v[i].as_str(), p) {
            let ghost prev = out@;
            out.push(v[i].clone());
            assert(str_views(out@) =~= str_views(prev).push(v@[i as int]@));
        }
        i = i + 1;
    }
    assert(v@.take(i as int) =~= v@);
    out
}
/// The index of the first listed entry with the given path.
fn find_entry(files: &Vec<RemoteFileEntry>, path: &str) -> (r: Option<usize>)
    ensures
        match r {
            Some(i) => i < files@.len() && entry_at(files@, path@) == Some(files@[i as int]),
            None => entry_at(files@, path@) is None,
        },
{
    let mut i: usize = 0;
    while i < files.len()
        invariant
            i <= files@.len(),
            forall|j: int| 0 <= j < i ==> files@[j].path@ != path@,
        decreases files@.len() - i,
    {
        if str_eq(files[i].path.as_str(), path) {
            proof {
                lemma_first_where_found(files@, |f: RemoteFileEntry| f.path@ == path@, i as int);
            }
            return Some(i);
        }
        i = i + 1;
    }
    proof {
        lemma_first_where_none(files@, |f: RemoteFileEntry| f.path@ == path@);
    }
    None
}

/// Whether a list holds a string.
fn contains_string(v: &Vec<String>, p: &str) -> (b: bool)
    ensures
        b == str_views(v@).contains(p@),
{
    match position_of_string(v, p) {
        Some(i) => {
            assert(str_views(v@)[i as int] == p@);
            true
        },
        None => false,
    }
}

/// The index of the first copy of a string in a list.
fn position_of_string(v: &Vec<String>, p: &str) -> (r: Option<usize>)
    ensures
        match r {
            Some(i) => i < v@.len() && v@[i as int]@ == p@ && forall|j: int|
                0 <= j < i ==> v@[j]@ != p@,
            None => !str_views(v@).contains(p@),
        },
{
    let mut i: usize = 0;
    while i < v.len()
        invariant
            i <= v@.len(),
            forall|j: int| 0 <= j < i ==> v@[j]@ != p@,
        decreases v@.len() - i,
    {
        if str_eq(v[i].as_str(), p) {
            return Some(i);
        }
        i = i + 1;
    }
    proof {
        if str_views(v@).contains(p@) {
            let k = choose|k: int| 0 <= k < str_views(v@).len() && str_views(v@)[k] == p@;
            assert(v@[k]@ == p@);
        }
    }
    None
}
/// What starting a program file does (see `start_runner`).
pub open spec fn runner_spec(s: RemoteBrowser, t: RemoteBrowser, a: BrowserAction, kind: RunKind, path: Seq<char>) -> bool {
    match s.host_address {
        Some(h) => {
            &&& a matches BrowserAction::Run { kind: k, host, path: p, password } && k == kind
                && host@ == h@ && p@ == path && opt_str(password) == opt_str(s.password)
            &&& msg_is(t.status_message, runner_message(kind))
            &&& t == (RemoteBrowser { status_message: t.status_message, ..s })
        },
        None => not_connected(s, t, a),
    }
}

/// What mounting and running a disk image does (see `run_disk`).
pub open spec fn run_disk_spec(s: RemoteBrowser, t: RemoteBrowser, a: BrowserAction, path: Seq<char>, drive: Seq<char>) -> bool {
    match s.host_address {
        Some(h) => {
            &&& a matches BrowserAction::RunDisk { host, path: p, drive: d, password } && host@ == h@
                && p@ == path && d@ == drive && opt_str(password) == opt_str(s.password)
            &&& msg_is(
                t.status_message,
                "Running disk on drive "@ + crate::text::unicode_uppercase(drive) + "..."@,
            )
            &&& t == (RemoteBrowser { status_message: t.status_message, ..s })
        },
        None => not_connected(s, t, a),
    }
}

/// The message shown when a program file is started.
pub open spec fn runner_message(kind: RunKind) -> Seq<char> {
    match kind {
        RunKind::RunPrg => "Running PRG..."@,
        RunKind::LoadPrg => "Loading PRG..."@,
        RunKind::RunCrt => "Running CRT..."@,
        RunKind::PlaySid => "Playing SID..."@,
        RunKind::PlayMod => "Playing MOD..."@,
    }
}

/// A transfer's progress at its start.
fn new_progress(file: String, operation: &str, total: usize) -> (p: TransferProgress)
    ensures
        started(Some(p), operation@, file@, total as nat),
{
    TransferProgress {
        current: 0,
        total,
        current_file: file,
        operation: String::from_str(operation),
        done: false,
        cancelled: false,
        bytes_transferred: 0,
        bytes_total: 0,
    }
}

/// The name of a local file (see `local_name`).
fn local_file_name(path: &str) -> (r: String)
    ensures
        r@ == local_name(path@),
{
    match crate::music_player::file_name_of(path) {
        Some(n) => n,
        None => String::from_str("file"),
    }
}

/// Checked paths split into files and directories: with `unlisted_as_files`
/// as `split_checked`, else as `split_listed`.
fn split_paths(files: &Vec<RemoteFileEntry>, checked: &Vec<String>, unlisted_as_files: bool) -> (r: (
    Vec<String>,
    Vec<String>,
))
    ensures
        (str_views(r.0@), str_views(r.1@)) == if unlisted_as_files {
            split_checked(files@, str_views(checked@))
        } else {
            split_listed(files@, str_views(checked@))
        },
        r.0@.len() + r.1@.len() <= checked@.len(),
{
    let mut fs: Vec<String> = Vec::new();
    let mut ds: Vec<String> = Vec::new();
    let mut i: usize = 0;
    while i < checked.len()
        invariant
            i <= checked@.len(),
            (str_views(fs@), str_views(ds@)) == if unlisted_as_files {
                split_checked(files@, str_views(checked@.take(i as int)))
            } else {
                split_listed(files@, str_views(checked@.take(i as int)))
            },
            fs@.len() + ds@.len() <= i,
        decreases checked@.len() - i,
    {
        assert(str_views(checked@.take(i as int + 1)).drop_last() =~= str_views(checked@.take(i as int)));
        assert(str_views(checked@.take(i as int + 1)).last() == checked@[i as int]@);
        let p = checked[i].clone();
        match find_entry(files, p.as_str()) {
            Some(k) => {
                if files[k].is_dir {
                    let ghost prev = ds@;
                    ds.push(p);
                    assert(str_views(ds@) =~= str_views(prev).push(checked@[i as int]@));
                } else {
                    let ghost prev = fs@;
                    fs.push(p);
                    assert(str_views(fs@) =~= str_views(prev).push(checked@[i as int]@));
                }
            },
            None => {
                if unlisted_as_files {
                    let ghost prev = fs@;
                    fs.push(p);
                    assert(str_views(fs@) =~= str_views(prev).push(checked@[i as int]@));
                }
            },
        }
        i = i + 1;
    }
    assert(checked@.take(i as int) =~= checked@);
    (fs, ds)
}
/// Each path with whether it is listed as a directory.
fn mark_dirs(files: &Vec<RemoteFileEntry>, paths: &Vec<String>) -> (r: Vec<(String, bool)>)
    ensures
        pair_views(r@) == typed_paths(files@, str_views(paths@)),
{
    let mut out: Vec<(String, bool)> = Vec::new();
    let mut i: usize = 0;
    while i < paths.len()
        invariant
            i <= paths@.len(),
            pair_views(out@) == typed_paths(files@, str_views(paths@.take(i as int))),
        decreases paths@.len() - i,
    {
        let is_dir = match find_entry(files, paths[i].as_str()) {
            Some(k) => files[k].is_dir,
            None => false,
        };
        let ghost prev = out@;
        out.push((paths[i].clone(), is_dir));
        assert(pair_views(out@) =~= pair_views(prev).push((paths@[i as int]@, is_dir)));
        assert(typed_paths(files@, str_views(paths@.take(i as int + 1))) =~= typed_paths(
            files@,
            str_views(paths@.take(i as int)),
        ).push((paths@[i as int]@, listed_dir(files@, paths@[i as int]@))));
        i = i + 1;
    }
    assert(paths@.take(i as int) =~= paths@);
    out
}

/// The path a rename gives (see `renamed_path`).
fn renamed_path_of(original: &str, name: &str) -> (r: String)
    ensures
        r@ == renamed_path(original@, name@),
{
    proof {
        reveal_strlit("/");
    }
    let parent = match crate::text::before_last_of(original, '/') {
        Some(p) => p,
        None => String::from_str("/"),
    };
    if parent.as_str().unicode_len() == 0 || str_eq(parent.as_str(), "/") {
        crate::text::join2("/", name)
    } else {
        crate::text::join3(parent.as_str(), "/", name)
    }
}
/// The remainder (Euclidean) of a negative number.
proof fn lemma_neg_mod(m: int, n: int)
    requires
        n > 0,
        m > 0,
    ensures
        (-m) % n == if m % n == 0 {
            0
        } else {
            n - m % n
        },
{
    let q = m / n;
    let r = m % n;
    vstd::arithmetic::div_mod::lemma_fundamental_div_mod(m, n);
    assert(0 <= r < n);
    assert(m == n * q + r);
    if r == 0 {
        assert(-m == (-q) * n + 0) by (nonlinear_arith)
            requires
                m == n * q + r,
                r == 0,
        ;
        vstd::arithmetic::div_mod::lemma_fundamental_div_mod_converse(-m, n, -q, 0);
    } else {
        assert(-m == (-q - 1) * n + (n - r)) by (nonlinear_arith)
            requires
                m == n * q + r,
        ;
        vstd::arithmetic::div_mod::lemma_fundamental_div_mod_converse(-m, n, -q - 1, n - r);
    }
}

/// The index of a folder's art.
fn art_position(v: &Vec<GameArt>, folder: &str) -> (r: Option<usize>)
    ensures
        match r {
            Some(i) => i < v@.len() && v@[i as int].folder@ == folder@ && forall|j: int|
                0 <= j < i ==> v@[j].folder@ != folder@,
            None => forall|j: int| 0 <= j < v@.len() ==> v@[j].folder@ != folder@,
        },
{
    let mut i: usize = 0;
    while i < v.len()
        invariant
            i <= v@.len(),
            forall|j: int| 0 <= j < i ==> v@[j].folder@ != folder@,
        decreases v@.len() - i,
    {
        if str_eq(v[i].folder.as_str(), folder) {
            return Some(i);
        }
        i = i + 1;
    }
    None
}

/// Whether art of a folder has been fetched.
fn has_art(v: &Vec<GameArt>, folder: &str) -> (b: bool)
    ensures
        b == art_folders(v@).contains(folder@),
{
    let mut i: usize = 0;
    while i < v.len()
        invariant
            i <= v@.len(),
            forall|j: int| 0 <= j < i ==> v@[j].folder@ != folder@,
        decreases v@.len() - i,
    {
        if str_eq(v[i].folder.as_str(), folder) {
            assert(art_folders(v@)[i as int] == folder@);
            return true;
        }
        i = i + 1;
    }
    proof {
        if art_folders(v@).contains(folder@) {
            let k = choose|k: int| 0 <= k < art_folders(v@).len() && art_folders(v@)[k] == folder@;
            assert(v@[k].folder@ == folder@);
        }
    }
    false
}


// ── Game library ──────────────────────────────────────────────────

/// The model of a game: title and folder path.
pub open spec fn game_views(v: Seq<GameEntry>) -> Seq<(Seq<char>, Seq<char>)> {
    v.map_values(|g: GameEntry| (g.title@, g.path@))
}

/// The games of one root's listing: its directories, in order.
pub open spec fn root_games(files: Seq<RemoteFileEntry>) -> Seq<(Seq<char>, Seq<char>)>
    decreases files.len(),
{
    if files.len() == 0 {
        Seq::empty()
    } else {
        let rest = root_games(files.drop_last());
        if files.last().is_dir {
            rest.push((files.last().name@, files.last().path@))
        } else {
            rest
        }
    }
}

/// The games of all the roots listed, root by root.
pub open spec fn library_games(listings: Seq<(String, Result<Vec<RemoteFileEntry>, String>)>) -> Seq<
    (Seq<char>, Seq<char>),
>
    decreases listings.len(),
{
    if listings.len() == 0 {
        Seq::empty()
    } else {
        library_games(listings.drop_last()) + match listings.last().1 {
            Ok(files) => root_games(files@),
            Err(_) => Seq::empty(),
        }
    }
}

/// The errors of the roots that could not be listed: `<root>: <error>`.
pub open spec fn library_errors(listings: Seq<(String, Result<Vec<RemoteFileEntry>, String>)>) -> Seq<
    Seq<char>,
>
    decreases listings.len(),
{
    if listings.len() == 0 {
        Seq::empty()
    } else {
        let rest = library_errors(listings.drop_last());
        match listings.last().1 {
            Ok(_) => rest,
            Err(e) => rest.push(listings.last().0@ + ": "@ + e@),
        }
    }
}

/// The sort keys of games: their titles lower-cased.
pub open spec fn title_keys(games: Seq<(Seq<char>, Seq<char>)>) -> Seq<KeyView> {
    games.map_values(|g: (Seq<char>, Seq<char>)| (0u8, unicode_lowercase(g.0), 0u64))
}

/// The games of a library from the listings of its roots (each root with
/// its listing or error): every directory of a listed root is a game,
/// titled by its name.  The games come sorted by lower-cased title (equal
/// titles keeping their order); when no game was found and some root
/// failed, the errors are returned, joined by `; `.
pub fn games_from_listings(listings: &Vec<(String, Result<Vec<RemoteFileEntry>, String>)>) -> (r: Result<
    Vec<GameEntry>,
    String,
>)
    ensures
        match r {
            Err(m) => library_games(listings@).len() == 0 && library_errors(listings@).len() > 0 && m@
                == crate::text::join_with(library_errors(listings@), "; "@),
            Ok(games) => !(library_games(listings@).len() == 0 && library_errors(listings@).len() > 0)
                && sorted_by_keys(
                game_views(games@),
                library_games(listings@),
                title_keys(library_games(listings@)),
                false,
            ),
        },
{
    let mut games: Vec<GameEntry> = Vec::new();
    let mut errors: Vec<String> = Vec::new();
    let mut i: usize = 0;
    while i < listings.len()
        invariant
            i <= listings@.len(),
            game_views(games@) == library_games(listings@.take(i as int)),
            str_views(errors@) == library_errors(listings@.take(i as int)),
        decreases listings@.len() - i,
    {
        assert(listings@.take(i as int + 1).drop_last() =~= listings@.take(i as int));
        let (root, result) = &listings[i];
        match result {
            Ok(files) => {
                let ghost before = game_views(games@);
                let mut j: usize = 0;
                while j < files.len()
                    invariant
                        j <= files@.len(),
                        game_views(games@) == before + root_games(files@.take(j as int)),
                    decreases files@.len() - j,
                {
                    assert(files@.take(j as int + 1).drop_last() =~= files@.take(j as int));
                    if files[j].is_dir {
                        let ghost prev = games@;
                        games.push(GameEntry { title: files[j].name.clone(), path: files[j].path.clone() });
                        assert(game_views(games@) =~= game_views(prev).push(
                            (files@[j as int].name@, files@[j as int].path@),
                        ));
                    }
                    j = j + 1;
                }
                assert(files@.take(j as int) =~= files@);
            },
            Err(e) => {
                let ghost prev = errors@;
                errors.push(crate::text::join3(root.as_str(), ": ", e.as_str()));
                assert(str_views(errors@) =~= str_views(prev).push(root@ + ": "@ + e@));
            },
        }
        i = i + 1;
    }
    assert(listings@.take(i as int) =~= listings@);
    if games.len() == 0 && errors.len() > 0 {
        return Err(crate::text::join_strings(&errors, "; "));
    }
    let mut keys: Vec<SortKey> = Vec::new();
    let mut k: usize = 0;
    while k < games.len()
        invariant
            k <= games@.len(),
            key_views(keys@) == title_keys(game_views(games@)).take(k as int),
        decreases games@.len() - k,
    {
        let key = SortKey { group: 0, text: lowercase_chars(games[k].title.as_str()), number: 0 };
        let ghost prev = keys@;
        keys.push(key);
        assert(key_views(keys@) =~= key_views(prev).push(key_view(key)));
        assert(key_views(keys@) =~= title_keys(game_views(games@)).take(k as int + 1));
        k = k + 1;
    }
    assert(title_keys(game_views(games@)).take(k as int) =~= title_keys(game_views(games@)));
    let ghost built = games@;
    let sorted = sort_by_keys(games, &keys, false);
    proof {
        let order = choose|order: Seq<usize>|
            #[trigger] crate::sorting::stable_sort_of(order, key_views(keys@), false) && sorted@
                == crate::sorting::arranged(built, order);
        assert(game_views(sorted@) =~= crate::sorting::arranged(game_views(built), order));
        assert(crate::sorting::stable_sort_of(order, title_keys(library_games(listings@)), false));
    }
    Ok(sorted)
}


// ── What the pane shows ───────────────────────────────────────────

/// Whether a name passes the name filter: an empty filter passes all,
/// else the lower-cased name holds the lower-cased filter.
pub open spec fn name_passes(name: Seq<char>, filter: Seq<char>) -> bool {
    filter.len() == 0 || contains_seq(unicode_lowercase(name), unicode_lowercase(filter))
}

/// The positions of the listed files whose names pass the filter, in order.
pub open spec fn shown_files(files: Seq<RemoteFileEntry>, filter: Seq<char>) -> Seq<usize>
    decreases files.len(),
{
    if files.len() == 0 {
        Seq::empty()
    } else {
        let rest = shown_files(files.drop_last(), filter);
        if name_passes(files.last().name@, filter) {
            rest.push((files.len() - 1) as usize)
        } else {
            rest
        }
    }
}

/// Whether a name passes the name filter (see `name_passes`).
pub fn name_passes_filter(name: &str, filter: &str) -> (b: bool)
    ensures
        b == name_passes(name@, filter@),
{
    if filter.unicode_len() == 0 {
        return true;
    }
    let n = chars_of(crate::text::to_lowercase(name).as_str());
    let f = chars_of(crate::text::to_lowercase(filter).as_str());
    contains(&n, &f)
}

/// The quick navigation targets: `(label, path)` for each root directory
/// of the device, or `Usb0` and `SD` before the root was listed.
pub open spec fn quick_nav_spec(root_dirs: Seq<Seq<char>>) -> Seq<(Seq<char>, Seq<char>)> {
    if root_dirs.len() == 0 {
        seq![("Usb0"@, "/Usb0"@), ("SD"@, "/SD"@)]
    } else {
        root_dirs.map_values(|d: Seq<char>| (d, "/"@ + d))
    }
}

impl RemoteBrowser {
    /// The positions of the files shown, those whose names pass the filter.
    pub fn visible_files(&self) -> (r: Vec<usize>)
        ensures
            r@ == shown_files(self.files@, self.filter@),
    {
        let mut r: Vec<usize> = Vec::new();
        let mut i: usize = 0;
        while i < self.files.len()
            invariant
                i <= self.files@.len(),
                r@ == shown_files(self.files@.take(i as int), self.filter@),
            decreases self.files@.len() - i,
        {
            assert(self.files@.take(i as int + 1).drop_last() =~= self.files@.take(i as int));
            if name_passes_filter(self.files[i].name.as_str(), self.filter.as_str()) {
                r.push(i);
            }
            i = i + 1;
        }
        assert(self.files@.take(i as int) =~= self.files@);
        r
    }

    /// The buttons of the quick navigation bar: `(label, path)`.
    pub fn quick_nav_targets(&self) -> (r: Vec<(String, String)>)
        ensures
            r@.map_values(|t: (String, String)| (t.0@, t.1@)) == quick_nav_spec(str_views(self.root_dirs@)),
    {
        let mut r: Vec<(String, String)> = Vec::new();
        if self.root_dirs.len() == 0 {
            r.push((String::from_str("Usb0"), String::from_str("/Usb0")));
            r.push((String::from_str("SD"), String::from_str("/SD")));
            proof {
                reveal_strlit("Usb0");
                reveal_strlit("/Usb0");
            }
            assert(r@.map_values(|t: (String, String)| (t.0@, t.1@)) =~= quick_nav_spec(
                str_views(self.root_dirs@),
            ));
            return r;
        }
        let mut i: usize = 0;
        while i < self.root_dirs.len()
            invariant
                i <= self.root_dirs@.len(),
                self.root_dirs@.len() > 0,
                r@.map_values(|t: (String, String)| (t.0@, t.1@)) == quick_nav_spec(
                    str_views(self.root_dirs@),
                ).take(i as int),
            decreases self.root_dirs@.len() - i,
        {
            let name = self.root_dirs[i].clone();
            let path = crate::text::join2("/", name.as_str());
            let ghost prev = r@;
            let ghost nv = name@;
            let ghost pv = path@;
            proof {
                let v = str_views(self.root_dirs@);
                assert(v[i as int] == nv);
                assert(quick_nav_spec(v)[i as int] == (nv, "/"@ + nv));
                reveal_strlit("/");
            }
            r.push((name, path));
            assert(r@.map_values(|t: (String, String)| (t.0@, t.1@)) =~= prev.map_values(
                |t: (String, String)| (t.0@, t.1@),
            ).push((nv, pv)));
            assert(r@.map_values(|t: (String, String)| (t.0@, t.1@)) =~= quick_nav_spec(
                str_views(self.root_dirs@),
            ).take(i as int + 1));
            i = i + 1;
        }
        assert(quick_nav_spec(str_views(self.root_dirs@)).take(i as int) =~= quick_nav_spec(
            str_views(self.root_dirs@),
        ));
        r
    }
}

impl RemoteBrowser {
    /// The listing filter typed by the user.
    pub fn filter(&self) -> (f: &str)
        ensures
            f@ == self.filter@,
    {
        self.filter.as_str()
    }

    /// The selected file, if any.
    pub fn get_selected_file(&self) -> (f: Option<&str>)
        ensures
            match self.selected_file {
                Some(s) => f matches Some(x) && x@ == s@,
                None => f is None,
            },
    {
        match &self.selected_file {
            Some(s) => Some(s.as_str()),
            None => None,
        }
    }

    /// The folder being browsed.
    pub fn get_current_path(&self) -> (p: &str)
        ensures
            p@ == self.current_path@,
    {
        self.current_path.as_str()
    }

    /// The checked paths, in the order they were checked.
    pub fn get_checked_files(&self) -> (v: Vec<String>)
        ensures
            str_views(v@) == str_views(self.checked_files@),
    {
        let mut out: Vec<String> = Vec::new();
        let mut i: usize = 0;
        while i < self.checked_files.len()
            invariant
                i <= self.checked_files@.len(),
                str_views(out@) == str_views(self.checked_files@.take(i as int)),
            decreases self.checked_files@.len() - i,
        {
            let ghost before = out@;
            out.push(self.checked_files[i].clone());
            assert(str_views(out@) =~= str_views(before).push(self.checked_files@[i as int]@));
            assert(str_views(self.checked_files@.take(i as int + 1)) =~= str_views(
                self.checked_files@.take(i as int),
            ).push(self.checked_files@[i as int]@));
            i = i + 1;
        }
        assert(self.checked_files@.take(i as int) =~= self.checked_files@);
        out
    }

    /// Uncheck everything.
    pub fn clear_checked(&mut self)
        ensures
            final(self).checked_files@.len() == 0,
            final(self).well_formed(),
            *final(self) == (RemoteBrowser { checked_files: final(self).checked_files, ..*old(self) }),
    {
        self.checked_files = Vec::new();
        assert(str_views(self.checked_files@) =~= Seq::<Seq<char>>::empty());
    }

    /// Whether a path is a favorite.
    pub fn is_favorite(&self, path: &str) -> (b: bool)
        ensures
            b == str_views(self.favorites@).contains(path@),
    {
        match position_of_string(&self.favorites, path) {
            Some(i) => {
                assert(str_views(self.favorites@)[i as int] == path@);
                true
            },
            None => false,
        }
    }
}

/// The first `n` characters of a text (all of a shorter one).
pub open spec fn first_chars(s: Seq<char>, n: nat) -> Seq<char> {
    if s.len() <= n {
        s
    } else {
        s.take(n as int)
    }
}

fn take_chars(s: &str, n: usize) -> (r: String)
    ensures
        r@ == first_chars(s@, n as nat),
{
    let cs = chars_of(s);
    if cs.len() <= n {
        string_from_chars(&cs)
    } else {
        let t = sub_chars(&cs, 0, n);
        assert(t@ =~= cs@.take(n as int));
        string_from_chars(&t)
    }
}

/// The file extension of a disk kind.
pub open spec fn disk_extension(t: DiskCreateType) -> Seq<char> {
    match t {
        DiskCreateType::D64 => "d64"@,
        DiskCreateType::D71 => "d71"@,
        DiskCreateType::D81 => "d81"@,
    }
}

/// The name of the image file a new disk gets: its name with spaces turned
/// into underscores, then its kind's extension.
pub open spec fn disk_file_name(name: Seq<char>, t: DiskCreateType) -> Seq<char> {
    name.map_values(|c: char| if c == ' ' { '_' } else { c }) + "."@ + disk_extension(t)
}

impl RemoteBrowser {
    /// Open the new-disk dialog.
    pub fn show_create_disk(&mut self)
        ensures
            *final(self) == (RemoteBrowser {
                create_disk: CreateDiskDialog { show: true, ..old(self).create_disk },
                ..*old(self)
            }),
    {
        self.create_disk.show = true;
    }

    /// Close the new-disk dialog.
    pub fn close_create_disk(&mut self)
        ensures
            *final(self) == (RemoteBrowser {
                create_disk: CreateDiskDialog { show: false, busy: false, ..old(self).create_disk },
                ..*old(self)
            }),
    {
        self.create_disk.show = false;
        self.create_disk.busy = false;
    }

    /// The disk name was edited: upper-cased, at most 16 characters.
    pub fn create_disk_name_changed(&mut self, name: &str)
        ensures
            final(self).create_disk.name@ == first_chars(crate::text::unicode_uppercase(name@), 16),
            *final(self) == (RemoteBrowser {
                create_disk: CreateDiskDialog {
                    name: final(self).create_disk.name,
                    ..old(self).create_disk
                },
                ..*old(self)
            }),
    {
        let upper = crate::text::to_uppercase(name);
        self.create_disk.name = take_chars(upper.as_str(), 16);
    }

    /// The disk ID was edited: upper-cased, at most 5 characters.
    pub fn create_disk_id_changed(&mut self, id: &str)
        ensures
            final(self).create_disk.id@ == first_chars(crate::text::unicode_uppercase(id@), 5),
            *final(self) == (RemoteBrowser {
                create_disk: CreateDiskDialog { id: final(self).create_disk.id, ..old(self).create_disk },
                ..*old(self)
            }),
    {
        let upper = crate::text::to_uppercase(id);
        self.create_disk.id = take_chars(upper.as_str(), 5);
    }

    /// The disk kind was chosen.
    pub fn create_disk_type_changed(&mut self, t: DiskCreateType)
        ensures
            *final(self) == (RemoteBrowser {
                create_disk: CreateDiskDialog { disk_type: t, ..old(self).create_disk },
                ..*old(self)
            }),
    {
        self.create_disk.disk_type = t;
    }

    /// Whether the dialog may make the disk: not already making one, a
    /// name typed, and a device connected.
    pub fn can_create_disk(&self) -> (b: bool)
        ensures
            b == (!self.create_disk.busy && self.create_disk.name@.len() > 0 && self.is_connected),
    {
        let cs = chars_of(self.create_disk.name.as_str());
        !self.create_disk.busy && cs.len() > 0 && self.is_connected
    }

    /// The image file the dialog will make (see `disk_file_name`).
    pub fn disk_file_name_preview(&self) -> (t: String)
        ensures
            t@ == disk_file_name(self.create_disk.name@, self.create_disk.disk_type),
    {
        disk_file_name_of(self.create_disk.name.as_str(), self.create_disk.disk_type)
    }

    /// Make the disk: with a device, the dialog shows it is busy and the
    /// image is asked for, in the current directory; without one nothing
    /// happens.
    pub fn create_disk_confirm(&mut self) -> (a: BrowserAction)
        ensures
            match old(self).host_address {
                None => a is Nothing && *final(self) == *old(self),
                Some(h) => {
                    &&& a matches BrowserAction::CreateDisk { host, name, id, disk_type, dest, password }
                        && host@ == h@ && name@ == old(self).create_disk.name@ && id@ == old(
                        self,
                    ).create_disk.id@ && disk_type == old(self).create_disk.disk_type && dest@
                        == old(self).current_path@ && opt_str(password) == opt_str(old(self).password)
                    &&& *final(self) == (RemoteBrowser {
                        create_disk: CreateDiskDialog { busy: true, ..old(self).create_disk },
                        ..*old(self)
                    })
                },
            },
    {
        match &self.host_address {
            Some(h) => {
                let host = h.clone();
                let password = match &self.password {
                    Some(p) => Some(p.clone()),
                    None => None,
                };
                let a = BrowserAction::CreateDisk {
                    host,
                    name: self.create_disk.name.clone(),
                    id: self.create_disk.id.clone(),
                    disk_type: self.create_disk.disk_type,
                    dest: self.current_path.clone(),
                    password,
                };
                self.create_disk.busy = true;
                a
            },
            None => BrowserAction::Nothing,
        }
    }

    /// The disk was made and uploaded (or not): the dialog closes; on
    /// success the status names it and, with a device, the directory is
    /// listed again.
    pub fn create_disk_complete(&mut self, result: Result<String, String>) -> (a: BrowserAction)
        ensures
            final(self).create_disk == (CreateDiskDialog {
                show: false,
                busy: false,
                ..old(self).create_disk
            }),
            match result {
                Ok(name) => {
                    &&& msg_is(final(self).status_message, "Created: "@ + name@)
                    &&& match old(self).host_address {
                        Some(h) => {
                            &&& a matches BrowserAction::FetchFiles { host, path, password } && host@
                                == h@ && path@ == old(self).current_path@ && opt_str(password)
                                == opt_str(old(self).password)
                            &&& *final(self) == (RemoteBrowser {
                                create_disk: final(self).create_disk,
                                status_message: final(self).status_message,
                                is_loading: true,
                                ..*old(self)
                            })
                        },
                        None => a is Nothing && *final(self) == (RemoteBrowser {
                            create_disk: final(self).create_disk,
                            status_message: final(self).status_message,
                            ..*old(self)
                        }),
                    }
                },
                Err(e) => {
                    &&& a is Nothing
                    &&& msg_is(final(self).status_message, "Create failed: "@ + e@)
                    &&& *final(self) == (RemoteBrowser {
                        create_disk: final(self).create_disk,
                        status_message: final(self).status_message,
                        ..*old(self)
                    })
                },
            },
    {
        self.create_disk.busy = false;
        self.create_disk.show = false;
        match result {
            Ok(name) => {
                self.status_message = Some(crate::text::join2("Created: ", name.as_str()));
                match &self.host_address {
                    Some(h) => {
                        let host = h.clone();
                        let password = match &self.password {
                            Some(p) => Some(p.clone()),
                            None => None,
                        };
                        self.is_loading = true;
                        BrowserAction::FetchFiles { host, path: self.current_path.clone(), password }
                    },
                    None => BrowserAction::Nothing,
                }
            },
            Err(e) => {
                self.status_message = Some(crate::text::join2("Create failed: ", e.as_str()));
                BrowserAction::Nothing
            },
        }
    }
}

/// The image file name for a disk (see `disk_file_name`).
pub fn disk_file_name_of(name: &str, t: DiskCreateType) -> (r: String)
    ensures
        r@ == disk_file_name(name@, t),
{
    proof {
        reveal_strlit(".");
        reveal_strlit("d64");
        reveal_strlit("d71");
        reveal_strlit("d81");
    }
    let cs = chars_of(name);
    let mut out: Vec<char> = Vec::new();
    let mut i: usize = 0;
    while i < cs.len()
        invariant
            i <= cs@.len(),
            cs@ == name@,
            out@ == cs@.take(i as int).map_values(|c: char| if c == ' ' { '_' } else { c }),
        decreases cs@.len() - i,
    {
        out.push(if cs[i] == ' ' { '_' } else { cs[i] });
        i = i + 1;
        assert(out@ =~= cs@.take(i as int).map_values(|c: char| if c == ' ' { '_' } else { c }));
    }
    assert(cs@.take(i as int) =~= cs@);
    out.push('.');
    match t {
        DiskCreateType::D64 => crate::text::push_str(&mut out, "d64"),
        DiskCreateType::D71 => crate::text::push_str(&mut out, "d71"),
        DiskCreateType::D81 => crate::text::push_str(&mut out, "d81"),
    }
    let r = string_from_chars(&out);
    assert(r@ =~= disk_file_name(name@, t));
    r
}

} // verus!
