use vstd::prelude::*;

use super::state::ImageEntry;
use crate::paths::{file_name_of, opt_text, path_file_name};
use crate::text::chars_of;

verus! {

#[derive(Clone, Copy, Debug, PartialEq, Eq, Structural)]
pub enum SortKey {
    Filesystem,
    CreatedAt,
    LastModified,
    Alphabetical,
    Size,
}

#[derive(Clone, Copy, Debug, PartialEq, Eq, Structural)]
pub enum SortDirection {
    Asc,
    Desc,
}

#[derive(Clone, Copy, Debug, PartialEq, Eq, Structural)]
pub struct SortMode {
    pub key: SortKey,
    pub direction: SortDirection,
}

/// -1, 0 or 1 as `a` is below, equal to or above `b`.
pub open spec fn int_order(a: int, b: int) -> int {
    if a < b {
        -1
    } else if a > b {
        1
    } else {
        0
    }
}

/// Order of optional integers: `None` comes first.
pub open spec fn opt_int_order(a: Option<i128>, b: Option<i128>) -> int {
    match (a, b) {
        (None, None) => 0,
        (None, Some(_)) => -1,
        (Some(_), None) => 1,
        (Some(x), Some(y)) => int_order(x as int, y as int),
    }
}

/// Lexicographic order of strings by character code (the order of `str`).
pub open spec fn text_order(a: Seq<char>, b: Seq<char>) -> int
    decreases a.len(),
{
    if a.len() == 0 && b.len() == 0 {
        0
    } else if a.len() == 0 {
        -1
    } else if b.len() == 0 {
        1
    } else if (a[0] as u32) < (b[0] as u32) {
        -1
    } else if (a[0] as u32) > (b[0] as u32) {
        1
    } else {
        text_order(a.drop_first(), b.drop_first())
    }
}

/// Order of optional strings: `None` comes first.
pub open spec fn opt_text_order(a: Option<Seq<char>>, b: Option<Seq<char>>) -> int {
    match (a, b) {
        (None, None) => 0,
        (None, Some(_)) => -1,
        (Some(_), None) => 1,
        (Some(x), Some(y)) => text_order(x, y),
    }
}

/// How two images compare under a sort key, ascending.
pub open spec fn key_order(a: ImageEntry, b: ImageEntry, key: SortKey) -> int {
    match key {
        SortKey::Filesystem => int_order(a.original_order as int, b.original_order as int),
        SortKey::Alphabetical => opt_text_order(file_name_of(a.path@), file_name_of(b.path@)),
        SortKey::CreatedAt => opt_int_order(a.meta.created, b.meta.created),
        SortKey::LastModified => opt_int_order(a.meta.modified, b.meta.modified),
        SortKey::Size => int_order(a.meta.size as int, b.meta.size as int),
    }
}

/// How two images compare under a sort mode: -1, 0 or 1.
pub open spec fn entry_order(a: ImageEntry, b: ImageEntry, mode: SortMode) -> int {
    match mode.direction {
        SortDirection::Asc => key_order(a, b, mode.key),
        SortDirection::Desc => -key_order(a, b, mode.key),
    }
}

/// `order` lists every index of `entries` once.
pub open spec fn is_index_permutation(order: Seq<usize>, n: nat) -> bool {
    &&& order.len() == n
    &&& forall|i: int| 0 <= i < order.len() ==> order[i] < n
    &&& order.no_duplicates()
}

/// `order` is the stable sort of the indices of `entries` under `mode`: a
/// permutation, in order, with equal entries kept in their original order.
pub open spec fn is_stable_sort(entries: Seq<ImageEntry>, mode: SortMode, order: Seq<usize>) -> bool {
    &&& is_index_permutation(order, entries.len())
    &&& forall|i: int, j: int|
        0 <= i < j < order.len() ==> entry_order(entries[order[i] as int], entries[order[j] as int], mode) <= 0
    &&& forall|i: int, j: int|
        0 <= i < j < order.len() && entry_order(entries[order[i] as int], entries[order[j] as int], mode) == 0
            ==> order[i] < order[j]
}

pub(crate) proof fn lemma_text_order(a: Seq<char>, b: Seq<char>, c: Seq<char>)
    ensures
        text_order(a, b) == -text_order(b, a),
        -1 <= text_order(a, b) <= 1,
        text_order(a, b) <= 0 && text_order(b, c) <= 0 ==> text_order(a, c) <= 0,
    decreases a.len(),
{
    if a.len() > 0 && b.len() > 0 && c.len() > 0 {
        lemma_text_order(a.drop_first(), b.drop_first(), c.drop_first());
    } else if a.len() > 0 && b.len() > 0 {
        lemma_text_order(a.drop_first(), b.drop_first(), c);
    }
}

proof fn lemma_key_order(a: ImageEntry, b: ImageEntry, c: ImageEntry, key: SortKey)
    ensures
        key_order(a, b, key) == -key_order(b, a, key),
        -1 <= key_order(a, b, key) <= 1,
        key_order(a, b, key) <= 0 && key_order(b, c, key) <= 0 ==> key_order(a, c, key) <= 0,
{
    match key {
        SortKey::Alphabetical => {
            let (x, y, z) = (file_name_of(a.path@), file_name_of(b.path@), file_name_of(c.path@));
            if x is Some && y is Some && z is Some {
                lemma_text_order(x->0, y->0, z->0);
            } else if x is Some && y is Some {
                lemma_text_order(x->0, y->0, x->0);
            }
        },
        _ => {},
    }
}

/// Images compare under a sort mode as a total preorder.
pub proof fn lemma_entry_order(a: ImageEntry, b: ImageEntry, c: ImageEntry, mode: SortMode)
    ensures
        entry_order(a, b, mode) == -entry_order(b, a, mode),
        -1 <= entry_order(a, b, mode) <= 1,
        entry_order(a, b, mode) <= 0 && entry_order(b, c, mode) <= 0 ==> entry_order(a, c, mode) <= 0,
{
    lemma_key_order(a, b, c, mode.key);
    lemma_key_order(c, b, a, mode.key);
    lemma_key_order(a, c, b, mode.key);
    lemma_key_order(b, a, c, mode.key);
}

/// The characters of an optional string.
pub open spec fn opt_chars(o: Option<Vec<char>>) -> Option<Seq<char>> {
    match o {
        Some(v) => Some(v@),
        None => None,
    }
}

fn int_compare(a: u64, b: u64) -> (r: i8)
    ensures
        r as int == int_order(a as int, b as int),
{
    if a < b {
        -1
    } else if a > b {
        1
    } else {
        0
    }
}

fn opt_int_compare(a: Option<i128>, b: Option<i128>) -> (r: i8)
    ensures
        r as int == opt_int_order(a, b),
{
    match (a, b) {
        (None, None) => 0,
        (None, Some(_)) => -1,
        (Some(_), None) => 1,
        (Some(x), Some(y)) => {
            if x < y {
                -1
            } else if x > y {
                1
            } else {
                0
            }
        },
    }
}

fn text_compare(a: &Vec<char>, b: &Vec<char>) -> (r: i8)
    ensures
        r as int == text_order(a@, b@),
{
    let mut i: usize = 0;
    assert(a@.skip(0) =~= a@);
    assert(b@.skip(0) =~= b@);
    while i < a.len() && i < b.len()
        invariant
            i <= a.len(),
            i <= b.len(),
            text_order(a@, b@) == text_order(a@.skip(i as int), b@.skip(i as int)),
        decreases a.len() - i,
    {
        let x = a[i] as u32;
        let y = b[i] as u32;
        if x < y {
            return -1;
        }
        if x > y {
            return 1;
        }
        assert(a@.skip(i as int).drop_first() =~= a@.skip(i + 1));
        assert(b@.skip(i as int).drop_first() =~= b@.skip(i + 1));
        i = i + 1;
    }
    if i == a.len() && i == b.len() {
        0
    } else if i == a.len() {
        -1
    } else {
        1
    }
}

fn opt_text_compare(a: &Option<Vec<char>>, b: &Option<Vec<char>>) -> (r: i8)
    ensures
        r as int == opt_text_order(opt_chars(*a), opt_chars(*b)),
{
    match (a, b) {
        (None, None) => 0,
        (None, Some(_)) => -1,
        (Some(_), None) => 1,
        (Some(x), Some(y)) => text_compare(x, y),
    }
}

/// How two images compare under `mode`, given their file names.
fn compare_entries(
    a: &ImageEntry,
    a_name: &Option<Vec<char>>,
    b: &ImageEntry,
    b_name: &Option<Vec<char>>,
    mode: SortMode,
) -> (r: i8)
    requires
        opt_chars(*a_name) == file_name_of(a.path@),
        opt_chars(*b_name) == file_name_of(b.path@),
    ensures
        r as int == entry_order(*a, *b, mode),
{
    let ordering = match mode.key {
        SortKey::Filesystem => int_compare(a.original_order as u64, b.original_order as u64),
        SortKey::Alphabetical => opt_text_compare(a_name, b_name),
        SortKey::CreatedAt => opt_int_compare(a.meta.created, b.meta.created),
        SortKey::LastModified => opt_int_compare(a.meta.modified, b.meta.modified),
        SortKey::Size => int_compare(a.meta.size, b.meta.size),
    };
    proof {
        lemma_key_order(*a, *b, *b, mode.key);
    }
    match mode.direction {
        SortDirection::Asc => ordering,
        SortDirection::Desc => -ordering,
    }
}

/// The file name of each entry's path, as characters.
fn file_names(entries: &[ImageEntry]) -> (names: Vec<Option<Vec<char>>>)
    ensures
        names.len() == entries.len(),
        forall|i: int| 0 <= i < names.len() ==> opt_chars(#[trigger] names@[i]) == file_name_of(entries@[i].path@),
{
    let mut names: Vec<Option<Vec<char>>> = Vec::new();
    let mut i: usize = 0;
    while i < entries.len()
        invariant
            i <= entries.len(),
            names.len() == i,
            forall|k: int| 0 <= k < i ==> opt_chars(#[trigger] names@[k]) == file_name_of(entries@[k].path@),
        decreases entries.len() - i,
    {
        let name = path_file_name(entries[i].path.as_str());
        let chars = match &name {
            Some(n) => Some(chars_of(n.as_str())),
            None => None,
        };
        names.push(chars);
        i = i + 1;
    }
    names
}

/// The indices of `entries` in the order `mode` gives them; entries that
/// compare equal keep their original order.
pub fn sort_indices(entries: &[ImageEntry], mode: SortMode) -> (order: Vec<usize>)
    ensures
        is_stable_sort(entries@, mode, order@),
{
    let names = file_names(entries);
    let mut order: Vec<usize> = Vec::new();
    let mut k: usize = 0;
    while k < entries.len()
        invariant
            k <= entries.len(),
            names.len() == entries.len(),
            forall|i: int| 0 <= i < names.len() ==> opt_chars(#[trigger] names@[i]) == file_name_of(entries@[i].path@),
            is_index_permutation(order@, k as nat),
            forall|i: int, j: int|
                0 <= i < j < order.len() ==> entry_order(entries@[order@[i] as int], entries@[order@[j] as int], mode) <= 0,
            forall|i: int, j: int|
                0 <= i < j < order.len() && entry_order(entries@[order@[i] as int], entries@[order@[j] as int], mode) == 0
                    ==> order@[i] < order@[j],
        decreases entries.len() - k,
    {
        // Find the slot after every placed entry that does not sort above entry `k`.
        let mut p: usize = order.len();
        while p > 0
            invariant
                p <= order.len(),
                k < entries.len(),
                names.len() == entries.len(),
                forall|i: int| 0 <= i < names.len() ==> opt_chars(#[trigger] names@[i]) == file_name_of(entries@[i].path@),
                is_index_permutation(order@, k as nat),
                forall|i: int| p <= i < order.len() ==> entry_order(entries@[order@[i] as int], entries@[k as int], mode) > 0,
            ensures
                p <= order.len(),
                p == 0 || entry_order(entries@[order@[p - 1] as int], entries@[k as int], mode) <= 0,
                forall|i: int| p <= i < order.len() ==> entry_order(entries@[order@[i] as int], entries@[k as int], mode) > 0,
            decreases p,
        {
            let idx = order[p - 1];
            let c = compare_entries(&entries[idx], &names[idx], &entries[k], &names[k], mode);
            if c <= 0 {
                break;
            }
            p = p - 1;
        }
        proof {
            // Every entry before the slot sorts at or below entry `k`.
            assert forall|i: int| 0 <= i < p implies entry_order(entries@[order@[i] as int], entries@[k as int], mode) <= 0 by {
                if i < p - 1 {
                    lemma_entry_order(entries@[order@[i] as int], entries@[order@[p - 1] as int], entries@[k as int], mode);
                }
            }
        }
        let ghost before = order@;
        order.insert(p, k);
        proof {
            assert forall|i: int, j: int| 0 <= i < j < order.len() implies
                entry_order(entries@[order@[i] as int], entries@[order@[j] as int], mode) <= 0 by {
                if j == p {
                } else if i == p {
                    lemma_entry_order(entries@[k as int], entries@[before[j - 1] as int], entries@[k as int], mode);
                }
            }
            assert forall|i: int, j: int| 0 <= i < j < order.len()
                && entry_order(entries@[order@[i] as int], entries@[order@[j] as int], mode) == 0 implies order@[i] < order@[j] by {
                if i == p {
                    lemma_entry_order(entries@[k as int], entries@[before[j - 1] as int], entries@[k as int], mode);
                }
            }
            assert(order@.no_duplicates()) by {
                assert forall|i: int, j: int| 0 <= i < order.len() && 0 <= j < order.len() && i != j implies order@[i] != order@[j] by {
                    let ii = if i < p { i } else if i == p { -1 } else { i - 1 };
                    let jj = if j < p { j } else if j == p { -1 } else { j - 1 };
                    if i != p {
                        assert(order@[i] == before[ii]);
                    }
                    if j != p {
                        assert(order@[j] == before[jj]);
                    }
                }
            }
        }
        k = k + 1;
    }
    order
}

} // verus!
