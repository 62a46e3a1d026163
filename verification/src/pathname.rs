//! Path arithmetic on plain strings.
//!
//! Stores see paths as strings with `/` separating components. A rename in
//! place keeps the directory and replaces everything after the last slash;
//! format detection reads the extension after the last dot of the last
//! component.

use vstd::prelude::*;
use vstd::string::StrSliceExecFns;
use vstd::string::StringExecFns;
use crate::seq_search::{last_index_of, lemma_last_index_of_is, lemma_last_index_of_none};

verus! {

/// Where a rename-in-place of `path` to `new_name` lands: the prefix up to
/// and including the last `/`, followed by `new_name`; just `new_name` when
/// `path` has no directory part.
pub open spec fn rename_target_spec(path: Seq<char>, new_name: Seq<char>) -> Seq<char> {
    let i = last_index_of(path, '/');
    if i < 0 {
        new_name
    } else {
        path.subrange(0, i + 1) + new_name
    }
}

/// Index just past the last `/` of `path`, or `0` if there is none: where
/// the file name begins.
pub open spec fn basename_start(path: Seq<char>) -> int {
    let i = last_index_of(path, '/');
    if i < 0 {
        0
    } else {
        i + 1
    }
}

/// Compute the sibling path a rename-in-place produces.
pub fn rename_target(path: &str, new_name: &str) -> (r: String)
    ensures
        r@ == rename_target_spec(path@, new_name@),
{
    let n = path.unicode_len();
    let slash = find_last_char(path, '/');
    match slash {
        Some(k) => {
            let prefix = path.substring_char(0, k + 1);
            let mut out = prefix.to_owned();
            out.append(new_name);
            out
        },
        None => new_name.to_owned(),
    }
}

/// Index of the last occurrence of `c` in `s`, scanning from the end.
pub fn find_last_char(s: &str, c: char) -> (r: Option<usize>)
    ensures
        match r {
            Some(k) => k == last_index_of(s@, c) && k < s@.len(),
            None => last_index_of(s@, c) < 0,
        },
{
    let n = s.unicode_len();
    let mut i = n;
    while i > 0
        invariant
            i <= n,
            n == s@.len(),
            forall|j: int| i <= j < n ==> s@[j] != c,
        decreases i,
    {
        let ch = s.get_char(i - 1);
        if ch == c {
            proof {
                lemma_last_index_of_is(s@, c, i - 1);
            }
            return Some(i - 1);
        }
        i = i - 1;
    }
    proof {
        lemma_last_index_of_none(s@, c);
    }
    None
}

} // verus!
