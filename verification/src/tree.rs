//! A project tree as a pre-order listing of its entries, and the pruning of
//! ignored and hidden directories.

use vstd::prelude::*;
use crate::text::names;

verus! {

/// One entry of a project tree, as plain values.
///
/// A tree is handed over as the list of its entries in pre-order: a
/// directory stands before everything beneath it, and what is beneath it has
/// a greater `depth`. The root has depth 0.
#[derive(Debug, Clone, PartialEq, Eq)]
pub struct Entry {
    /// Distance from the root of the walk.
    pub depth: usize,
    /// Base name, where it is valid Unicode.
    pub name: Option<String>,
    /// The entry is a directory.
    pub is_dir: bool,
    /// The entry is a regular file.
    pub is_file: bool,
    /// The path as it is written in messages.
    pub path: String,
    /// The extension without its dot; empty where there is none.
    pub ext: String,
    /// The size on disk in bytes, where the metadata could be read.
    pub size: Option<u64>,
    /// The raw content, where the file could be read.
    pub bytes: Option<Vec<u8>>,
}

/// A name that marks a hidden entry: it begins with a dot.
pub open spec fn is_hidden_name(name: Seq<char>) -> bool {
    name.len() > 0 && name[0] == '.'
}

/// The ignore filter: the root is never skipped; any other entry is skipped
/// when its base name is on the ignore list, and a directory also when its
/// name is hidden.
pub open spec fn skipped(e: Entry, ignore: Seq<Seq<char>>) -> bool {
    e.depth != 0 && match e.name {
        Some(n) => ignore.contains(n@) || (e.is_dir && is_hidden_name(n@)),
        None => false,
    }
}

/// Every entry strictly between `j` and `i` lies deeper than entry `j`.
pub open spec fn covers(listing: Seq<Entry>, j: int, i: int) -> bool {
    forall|k: int| j < k < i ==> (#[trigger] listing[k]).depth > listing[j].depth
}

/// Entry `i` lies beneath entry `j` in the tree.
pub open spec fn beneath(listing: Seq<Entry>, j: int, i: int) -> bool {
    0 <= j < i < listing.len() && covers(listing, j, i + 1)
}

/// Entry `j` is a skipped directory whose subtree holds every entry after it
/// and before `i`.
pub open spec fn prunes(listing: Seq<Entry>, ignore: Seq<Seq<char>>, j: int, i: int) -> bool {
    &&& 0 <= j < i <= listing.len()
    &&& skipped(listing[j], ignore)
    &&& listing[j].is_dir
    &&& covers(listing, j, i)
}

/// Entry `i` is left out of the walk: it is skipped itself or lies beneath a
/// skipped directory.
pub open spec fn pruned(listing: Seq<Entry>, ignore: Seq<Seq<char>>, i: int) -> bool {
    skipped(listing[i], ignore) || exists|j: int| #[trigger] prunes(listing, ignore, j, i + 1)
}

/// Entry `i` is a regular file that the walk reaches.
pub open spec fn selected(listing: Seq<Entry>, ignore: Seq<Seq<char>>, i: int) -> bool {
    0 <= i < listing.len() && listing[i].is_file && !pruned(listing, ignore, i)
}

/// The indices of the selected files among the first `n` entries, ascending.
pub open spec fn selected_upto(listing: Seq<Entry>, ignore: Seq<Seq<char>>, n: int) -> Seq<usize>
    decreases n,
{
    if n <= 0 {
        Seq::empty()
    } else if selected(listing, ignore, n - 1) {
        selected_upto(listing, ignore, n - 1).push((n - 1) as usize)
    } else {
        selected_upto(listing, ignore, n - 1)
    }
}

/// The indices of all files that the walk reaches, in listing order.
pub open spec fn selected_files(listing: Seq<Entry>, ignore: Seq<Seq<char>>) -> Seq<usize> {
    selected_upto(listing, ignore, listing.len() as int)
}

/// Tests whether `name` is on the ignore list.
pub fn is_listed(ignore: &Vec<String>, name: &String) -> (r: bool)
    ensures
        r == names(ignore@).contains(name@),
{
    let mut k: usize = 0;
    while k < ignore.len()
        invariant
            k <= ignore.len(),
            forall|j: int| 0 <= j < k ==> names(ignore@)[j] != name@,
        decreases ignore.len() - k,
    {
        if ignore[k] == *name {
            assert(names(ignore@)[k as int] == name@);
            return true;
        }
        k += 1;
    }
    false
}

/// The ignore filter: tells whether the walk skips `entry`.
pub fn is_ignored(entry: &Entry, ignore: &Vec<String>) -> (r: bool)
    ensures
        r == skipped(*entry, names(ignore@)),
{
    if entry.depth == 0 {
        return false;
    }
    match &entry.name {
        None => false,
        Some(name) => {
            if is_listed(ignore, name) {
                return true;
            }
            entry.is_dir && !name.as_str().is_empty() && name.as_str().get_char(0) == '.'
        },
    }
}

/// Walks a pre-order listing and returns the indices of the regular files
/// that are neither skipped nor beneath a skipped directory.
pub fn enumerate(listing: &Vec<Entry>, ignore: &Vec<String>) -> (files: Vec<usize>)
    ensures
        files@ == selected_files(listing@, names(ignore@)),
{
    let mut files: Vec<usize> = Vec::new();
    let mut skip_below: Option<usize> = None;
    let ghost mut pruner: int = 0;
    let ghost ig = names(ignore@);
    let mut i: usize = 0;
    while i < listing.len()
        invariant
            i <= listing.len(),
            ig == names(ignore@),
            files@ == selected_upto(listing@, ig, i as int),
            match skip_below {
                Some(d) => prunes(listing@, ig, pruner, i as int) && listing@[pruner].depth == d
                    && forall|j: int| #[trigger]
                    prunes(listing@, ig, j, i as int) ==> listing@[j].depth >= d,
                None => forall|j: int| !#[trigger] prunes(listing@, ig, j, i as int),
            },
        decreases listing.len() - i,
    {
        let entry = &listing[i];
        let inside = match skip_below {
            Some(d) => entry.depth > d,
            None => false,
        };
        if inside {
            proof {
                assert(prunes(listing@, ig, pruner, i + 1));
                assert forall|j: int| #[trigger]
                    prunes(listing@, ig, j, i + 1) implies listing@[j].depth
                    >= skip_below.unwrap() by {
                    if j < i {
                        assert(prunes(listing@, ig, j, i as int));
                    }
                }
            }
        } else {
            proof {
                assert forall|j: int| j < i implies !#[trigger] prunes(listing@, ig, j, i + 1) by {
                    if prunes(listing@, ig, j, i + 1) {
                        assert(prunes(listing@, ig, j, i as int));
                        assert(listing@[i as int].depth > listing@[j].depth);
                    }
                }
            }
            let ignored = is_ignored(entry, ignore);
            if ignored && entry.is_dir {
                skip_below = Some(entry.depth);
                proof {
                    pruner = i as int;
                    assert(prunes(listing@, ig, pruner, i + 1));
                }
            } else {
                skip_below = None;
            }
            proof {
                assert(pruned(listing@, ig, i as int) == ignored) by {
                    if !ignored {
                        assert forall|j: int| !#[trigger] prunes(listing@, ig, j, i + 1) by {}
                    }
                }
            }
            if !ignored && entry.is_file {
                files.push(i);
            }
        }
        i += 1;
    }
    files
}

/// Each of the indices selected among the first `n` entries points at a
/// selected file before `n`.
pub proof fn lemma_selected_members(listing: Seq<Entry>, ignore: Seq<Seq<char>>, n: int, k: int)
    requires
        n <= listing.len() <= usize::MAX,
        0 <= k < selected_upto(listing, ignore, n).len(),
    ensures
        0 <= selected_upto(listing, ignore, n)[k] < n,
        selected(listing, ignore, selected_upto(listing, ignore, n)[k] as int),
    decreases n,
{
    if n > 0 {
        if k < selected_upto(listing, ignore, n - 1).len() {
            lemma_selected_members(listing, ignore, n - 1, k);
        }
    }
}

} // verus!
