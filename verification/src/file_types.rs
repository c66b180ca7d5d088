//! File-name classification by extension (case-insensitive).
use vstd::prelude::*;
use crate::text::{ascii_lower_chars, chars_of, lower_seq, rfind_char, sub_chars};

verus! {

/// The extension of a file name: the characters after its last `.`, or
/// `None` when the name has no `.`.
#[verifier::opaque]
pub open spec fn extension(name: Seq<char>) -> Option<Seq<char>> {
    if exists|i: int| 0 <= i < name.len() && name[i] == '.' {
        let i = choose|i: int|
            0 <= i < name.len() && name[i] == '.' && forall|j: int| i < j < name.len() ==> name[j] != '.';
        Some(name.skip(i + 1))
    } else {
        None
    }
}

/// The lower-cased extension of a name (`None` without a `.`).
pub fn lower_extension(name: &str) -> (r: Option<Vec<char>>)
    ensures
        match r {
            Some(e) => extension(name@) is Some && e@ == lower_seq(extension(name@)->0),
            None => extension(name@) is None,
        },
{
    reveal(extension);
    let cs = chars_of(name);
    match rfind_char(&cs, '.') {
        Some(i) => {
            let ghost w = choose|k: int|
                0 <= k < cs@.len() && cs@[k] == '.' && forall|j: int| k < j < cs@.len() ==> cs@[j] != '.';
            assert(w == i) by {
                if w < i {
                } else if w > i {
                }
            }
            let tail = sub_chars(&cs, i + 1, cs.len());
            assert(tail@ =~= cs@.skip(i + 1));
            Some(ascii_lower_chars(&tail))
        },
        None => None,
    }
}

/// The extension of a name as written (`None` without a `.`).
pub fn name_extension(name: &str) -> (r: Option<String>)
    ensures
        match r {
            Some(e) => extension(name@) == Some(e@),
            None => extension(name@) is None,
        },
{
    reveal(extension);
    let cs = chars_of(name);
    match rfind_char(&cs, '.') {
        Some(i) => {
            let ghost w = choose|k: int|
                0 <= k < cs@.len() && cs@[k] == '.' && forall|j: int| k < j < cs@.len() ==> cs@[j] != '.';
            assert(w == i) by {
                if w < i {
                } else if w > i {
                }
            }
            let tail = sub_chars(&cs, i + 1, cs.len());
            assert(tail@ =~= cs@.skip(i + 1));
            Some(crate::text::string_from_chars(&tail))
        },
        None => None,
    }
}

/// Whether `e` equals the characters of `lit`.
fn ext_is(e: &Vec<char>, lit: &str) -> (b: bool)
    ensures
        b == (e@ == lit@),
{
    let l = chars_of(lit);
    if e.len() != l.len() {
        return false;
    }
    let mut i: usize = 0;
    while i < e.len()
        invariant
            i <= e.len(),
            e.len() == l.len(),
            l@ == lit@,
            forall|k: int| 0 <= k < i ==> e@[k] == l@[k],
        decreases e.len() - i,
    {
        if e[i] != l[i] {
            return false;
        }
        i = i + 1;
    }
    assert(e@ =~= l@);
    true
}

/// Image extensions shown as pictures.
pub open spec fn image_ext(e: Seq<char>) -> bool {
    e == "png"@ || e == "jpg"@ || e == "jpeg"@ || e == "gif"@ || e == "bmp"@
}

/// Disk image extensions of the 1541/1571/1581 drives.
pub open spec fn disk_ext(e: Seq<char>) -> bool {
    e == "d64"@ || e == "d71"@ || e == "d81"@ || e == "g64"@ || e == "g71"@
}

/// Plain-text extensions shown in the text preview.
pub open spec fn text_ext(e: Seq<char>) -> bool {
    e == "txt"@ || e == "nfo"@ || e == "diz"@ || e == "md"@ || e == "doc"@
}

/// Whether a file name has an image extension.
pub open spec fn is_image_name(name: Seq<char>) -> bool {
    extension(name) matches Some(e) && image_ext(lower_seq(e))
}

/// Whether a file name has a text extension.
pub open spec fn is_text_name(name: Seq<char>) -> bool {
    extension(name) matches Some(e) && text_ext(lower_seq(e))
}

/// Whether a file name has the PDF extension.
pub open spec fn is_pdf_name(name: Seq<char>) -> bool {
    extension(name) matches Some(e) && lower_seq(e) == "pdf"@
}

/// Whether an (already lower-cased) extension is a disk image.
pub fn is_disk_image(ext: &Vec<char>) -> (b: bool)
    ensures
        b == disk_ext(ext@),
{
    proof {
        reveal_strlit("d64");
        reveal_strlit("d71");
        reveal_strlit("d81");
        reveal_strlit("g64");
        reveal_strlit("g71");
    }
    ext_is(ext, "d64") || ext_is(ext, "d71") || ext_is(ext, "d81") || ext_is(ext, "g64") || ext_is(
        ext,
        "g71",
    )
}

/// Whether a file name has an image extension.
pub fn is_image_file(name: &str) -> (b: bool)
    ensures
        b == is_image_name(name@),
{
    match lower_extension(name) {
        Some(e) => ext_is(&e, "png") || ext_is(&e, "jpg") || ext_is(&e, "jpeg") || ext_is(
            &e,
            "gif",
        ) || ext_is(&e, "bmp"),
        None => false,
    }
}

/// Whether a file name has a text extension.
pub fn is_text_file(name: &str) -> (b: bool)
    ensures
        b == is_text_name(name@),
{
    match lower_extension(name) {
        Some(e) => ext_is(&e, "txt") || ext_is(&e, "nfo") || ext_is(&e, "diz") || ext_is(&e, "md")
            || ext_is(&e, "doc"),
        None => false,
    }
}

/// Whether a file name has the PDF extension.
pub fn is_pdf_file(name: &str) -> (b: bool)
    ensures
        b == is_pdf_name(name@),
{
    match lower_extension(name) {
        Some(e) => ext_is(&e, "pdf"),
        None => false,
    }
}


/// Column a file listing is sorted by.
#[derive(Debug, Clone, Copy, PartialEq, Eq, Structural)]
pub enum SortColumn {
    Name,
    Size,
    Type,
}

/// Direction of a sort.
#[derive(Debug, Clone, Copy, PartialEq, Eq, Structural)]
pub enum SortOrder {
    Ascending,
    Descending,
}

impl SortOrder {
    /// The other direction.
    pub fn toggle(self) -> (r: Self)
        ensures
            r == (match self {
                SortOrder::Ascending => SortOrder::Descending,
                SortOrder::Descending => SortOrder::Ascending,
            }),
    {
        match self {
            SortOrder::Ascending => SortOrder::Descending,
            SortOrder::Descending => SortOrder::Ascending,
        }
    }
}

/// Clicking a column header: the same column flips the direction, another
/// column sorts ascending by it.
pub fn sort_by_clicked(
    column: SortColumn,
    order: SortOrder,
    clicked: SortColumn,
) -> (r: (SortColumn, SortOrder))
    ensures
        r == (if column == clicked {
            (column, match order {
                SortOrder::Ascending => SortOrder::Descending,
                SortOrder::Descending => SortOrder::Ascending,
            })
        } else {
            (clicked, SortOrder::Ascending)
        }),
{
    if column == clicked {
        (column, order.toggle())
    } else {
        (clicked, SortOrder::Ascending)
    }
}

} // verus!
