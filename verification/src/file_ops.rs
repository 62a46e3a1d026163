//! Which files count as media: extension detection and the supported list.
//!
//! Directory walking and metadata reading are host I/O; what the library
//! owns is the decision, per path, whether the entry is an importable
//! image.

use vstd::prelude::*;
use vstd::string::StrSliceExecFns;
use crate::pathname::basename_start;
use crate::pathname::find_last_char;
use crate::seq_search::last_index_of;

verus! {

/// `x` reads as the (already lowercase) `y` under ASCII case folding.
pub open spec fn char_lower_matches(x: char, y: char) -> bool {
    x == y || ('A' <= x && x <= 'Z' && y as int == x as int + 32)
}

/// `a` equals the lowercase pattern `l`, ignoring ASCII case in `a`.
pub open spec fn eq_ignore_ascii_case_lower(a: Seq<char>, l: Seq<char>) -> bool {
    a.len() == l.len() && forall|i: int|
        0 <= i < a.len() ==> char_lower_matches(#[trigger] a[i], l[i])
}

/// The extension of a path: what follows the last `.` of the last
/// component; none if that component has no `.` past its first character.
pub open spec fn extension_of(path: Seq<char>) -> Option<Seq<char>> {
    let base = basename_start(path);
    let name = path.subrange(base, path.len() as int);
    let di = last_index_of(name, '.');
    if di <= 0 {
        None
    } else {
        Some(name.subrange(di + 1, name.len() as int))
    }
}

/// Whether the path names a file in one of the supported image formats.
pub open spec fn supported_format(path: Seq<char>) -> bool {
    match extension_of(path) {
        Some(e) => {
            ||| eq_ignore_ascii_case_lower(e, "jpg"@)
            ||| eq_ignore_ascii_case_lower(e, "jpeg"@)
            ||| eq_ignore_ascii_case_lower(e, "png"@)
            ||| eq_ignore_ascii_case_lower(e, "gif"@)
            ||| eq_ignore_ascii_case_lower(e, "bmp"@)
            ||| eq_ignore_ascii_case_lower(e, "ico"@)
        },
        None => false,
    }
}

/// Case-insensitive comparison of `a` against a lowercase pattern.
fn eq_ci_lower(a: &str, l: &str) -> (r: bool)
    ensures
        r == eq_ignore_ascii_case_lower(a@, l@),
{
    let an = a.unicode_len();
    let ln = l.unicode_len();
    if an != ln {
        return false;
    }
    let mut i: usize = 0;
    while i < an
        invariant
            i <= an,
            an == a@.len(),
            an == l@.len(),
            forall|j: int| 0 <= j < i ==> char_lower_matches(#[trigger] a@[j], l@[j]),
        decreases an - i,
    {
        let x = a.get_char(i);
        let y = l.get_char(i);
        let matches_here = x == y || ('A' <= x && x <= 'Z' && (y as u32) == (x as u32) + 32);
        if !matches_here {
            return false;
        }
        i = i + 1;
    }
    true
}

/// File discovery against the primary drive; the walking itself is host
/// I/O, the format decision lives here.
pub struct FileOperationService {
    pub primary_path: String,
}

impl FileOperationService {
    /// A service rooted at the given directory.
    pub fn new(primary_path: String) -> (s: FileOperationService)
        ensures
            s.primary_path@ == primary_path@,
    {
        FileOperationService { primary_path }
    }

    /// The extensions the vault imports, lowercase.
    pub fn get_supported_formats() -> (r: Vec<&'static str>)
        ensures
            r@.len() == 6,
            r@[0]@ == "jpg"@,
            r@[1]@ == "jpeg"@,
            r@[2]@ == "png"@,
            r@[3]@ == "gif"@,
            r@[4]@ == "bmp"@,
            r@[5]@ == "ico"@,
    {
        let mut v: Vec<&'static str> = Vec::new();
        v.push("jpg");
        v.push("jpeg");
        v.push("png");
        v.push("gif");
        v.push("bmp");
        v.push("ico");
        v
    }

    /// Whether this path names a file in a supported image format.
    pub fn is_supported_format(&self, path: &str) -> (r: bool)
        ensures
            r == supported_format(path@),
    {
        let n = path.unicode_len();
        let base = match find_last_char(path, '/') {
            Some(k) => k + 1,
            None => 0,
        };
        let name = path.substring_char(base, n);
        match find_last_char(name, '.') {
            None => false,
            Some(0) => false,
            Some(di) => {
                let ext = name.substring_char(di + 1, name.unicode_len());
                eq_ci_lower(ext, "jpg") || eq_ci_lower(ext, "jpeg") || eq_ci_lower(ext, "png")
                    || eq_ci_lower(ext, "gif") || eq_ci_lower(ext, "bmp") || eq_ci_lower(
                    ext,
                    "ico",
                )
            },
        }
    }
}

} // verus!
