//! Directory listings: the order in which entries are shown, name lists and
//! name search, and where copies, moves and renames land. Reading and
//! changing the file system itself is left to the caller, which hands the
//! raw listing over and carries out the operation.
use vstd::prelude::*;
use crate::Entry;
use crate::sort::{WeakOrder, is_stable_sort, stable_sort, sorted_by, arranges, stable_by};
use crate::paths::{
    is_clean_path, clean_parent, names_no_file, is_relative_name, joined, joinable, last_component,
    ends_in_parent_ref, lemma_clean_path_parts, path_file_name, path_parent, join_path,
};
use crate::text::{
    string_from_str, unicode_lowercase, lex_lt, to_lowercase, chars_of, chars_less, contains_seq, chars_contain,
    push_char, lemma_lex_lt_asymmetric, lemma_lex_le_transitive,
};

verus! {

/// The listing order: directories first, then by the lowercase name.
pub struct ListingOrder;

/// `a` is listed strictly before `b`.
pub open spec fn listed_before(a: Entry, b: Entry) -> bool {
    ||| a.is_dir && !b.is_dir
    ||| a.is_dir == b.is_dir && lex_lt(unicode_lowercase(a.name@), unicode_lowercase(b.name@))
}

impl WeakOrder<Entry> for ListingOrder {
    open spec fn valid(&self, a: Entry) -> bool {
        true
    }

    open spec fn before(&self, a: Entry, b: Entry) -> bool {
        listed_before(a, b)
    }

    fn is_before(&self, a: &Entry, b: &Entry) -> (r: bool) {
        if a.is_dir != b.is_dir {
            return a.is_dir;
        }
        let la = to_lowercase(a.name.as_str());
        let lb = to_lowercase(b.name.as_str());
        let ca = chars_of(la.as_str());
        let cb = chars_of(lb.as_str());
        chars_less(&ca, &cb)
    }

    proof fn lemma_asymmetric(&self, a: Entry, b: Entry) {
        if a.is_dir == b.is_dir {
            lemma_lex_lt_asymmetric(unicode_lowercase(a.name@), unicode_lowercase(b.name@));
        }
    }

    proof fn lemma_not_before_transitive(&self, a: Entry, b: Entry, c: Entry) {
        if a.is_dir == b.is_dir && b.is_dir == c.is_dir {
            lemma_lex_le_transitive(
                unicode_lowercase(a.name@),
                unicode_lowercase(b.name@),
                unicode_lowercase(c.name@),
            );
        }
    }
}

/// Sorts a raw directory listing for display: directories first, then by
/// lowercase name; entries that compare equal keep their listing order.
pub fn list_dir(listing: Vec<Entry>) -> (res: Vec<Entry>)
    ensures
        is_stable_sort(&ListingOrder, listing@, res@),
{
    stable_sort(&ListingOrder, listing)
}

/// The name shown for an entry in a name list: directories end with `/`.
pub open spec fn listed_name(e: Entry) -> Seq<char> {
    if e.is_dir {
        e.name@.push('/')
    } else {
        e.name@
    }
}

/// The names of `entries`, in order, directories ending with `/`.
pub fn entry_names(entries: Vec<Entry>) -> (res: Vec<String>)
    ensures
        res@.len() == entries@.len(),
        forall|i: int| 0 <= i < res@.len() ==> #[trigger] res@[i]@ == listed_name(entries@[i]),
{
    let ghost input = entries@;
    let mut res: Vec<String> = Vec::new();
    for e in it: entries
        invariant
            it.seq() == input,
            res@.len() == it.index(),
            forall|i: int| 0 <= i < res@.len() ==> #[trigger] res@[i]@ == listed_name(input[i]),
    {
        let mut name = e.name;
        if e.is_dir {
            push_char(&mut name, '/');
        }
        res.push(name);
    }
    res
}

/// `list_dir` followed by `entry_names`: the names of a listing in display
/// order, directories ending with `/`.
pub fn list_dir_names(listing: Vec<Entry>) -> (res: Vec<String>)
    ensures
        exists|sorted: Seq<Entry>|
            #![trigger is_stable_sort(&ListingOrder, listing@, sorted)]
            is_stable_sort(&ListingOrder, listing@, sorted) && res@.len() == sorted.len() && (
            forall|i: int| 0 <= i < res@.len() ==> #[trigger] res@[i]@ == listed_name(sorted[i])),
{
    let sorted = list_dir(listing);
    let ghost s = sorted@;
    let res = entry_names(sorted);
    assert(is_stable_sort(&ListingOrder, listing@, s));
    res
}

/// The entry's name contains `pattern`.
pub open spec fn name_matches(e: Entry, pattern: Seq<char>) -> bool {
    contains_seq(e.name@, pattern)
}

/// The entries of `entries` whose name contains `pattern`, in order.
pub fn filter_by_name(entries: Vec<Entry>, pattern: &str) -> (res: Vec<Entry>)
    ensures
        res@ == entries@.filter(|e: Entry| name_matches(e, pattern@)),
{
    let ghost input = entries@;
    let ghost pred = |e: Entry| name_matches(e, pattern@);
    let pat = chars_of(pattern);
    let mut res: Vec<Entry> = Vec::new();
    for e in it: entries
        invariant
            it.seq() == input,
            pat@ == pattern@,
            pred == (|e: Entry| name_matches(e, pattern@)),
            res@ == input.take(it.index() as int).filter(pred),
    {
        let ghost i = it.index();
        proof {
            reveal_with_fuel(Seq::<_>::filter, 1);
            assert(input.take(i + 1).drop_last() == input.take(i as int));
            assert(input.take(i + 1).last() == e);
        }
        let name = chars_of(e.name.as_str());
        if chars_contain(&name, &pat) {
            res.push(e);
        }
    }
    assert(input.take(input.len() as int) == input);
    res
}

/// Entries of a listing whose name contains `pattern`, in display order.
pub fn search(listing: Vec<Entry>, pattern: &str) -> (res: Vec<Entry>)
    ensures
        exists|sorted: Seq<Entry>|
            #![trigger is_stable_sort(&ListingOrder, listing@, sorted)]
            is_stable_sort(&ListingOrder, listing@, sorted) && res@ == sorted.filter(
                |e: Entry| name_matches(e, pattern@),
            ),
{
    let sorted = list_dir(listing);
    let ghost s = sorted@;
    let res = filter_by_name(sorted, pattern);
    assert(is_stable_sort(&ListingOrder, listing@, s));
    res
}

// ---------------------------------------------------------------------------
// Destinations of copies, moves and renames
// ---------------------------------------------------------------------------

/// Why a file operation is refused before it touches the file system.
#[derive(Debug, Clone, Copy, PartialEq, Eq, Structural)]
pub enum FsError {
    /// The source path names no file.
    NoFileName,
    /// The path has no parent directory.
    InvalidPath,
    /// The destination of a rename is taken.
    DestinationExists,
}

/// The message reported for each refusal.
pub open spec fn fs_error_text(e: FsError) -> Seq<char> {
    match e {
        FsError::NoFileName => "Source path has no file name"@,
        FsError::InvalidPath => "Invalid path"@,
        FsError::DestinationExists => "Destination already exists"@,
    }
}

impl FsError {
    /// The message reported for this refusal.
    pub fn message(&self) -> (r: String)
        ensures
            r@ == fs_error_text(*self),
    {
        match self {
            FsError::NoFileName => string_from_str("Source path has no file name"),
            FsError::InvalidPath => string_from_str("Invalid path"),
            FsError::DestinationExists => string_from_str("Destination already exists"),
        }
    }
}

/// Where a moved entry lands: `dest_dir` joined with the source's file name
/// (for a clean source, its last component). A source with no file name
/// is refused.
pub fn move_destination(src: &str, dest_dir: &str) -> (r: Result<String, FsError>)
    ensures
        is_clean_path(src@) ==> r is Ok,
        is_clean_path(src@) && joinable(dest_dir@) ==> (r matches Ok(d) && joined(
            dest_dir@,
            last_component(src@),
            d@,
        )),
        names_no_file(src@) || ends_in_parent_ref(src@) ==> r == Err::<String, FsError>(
            FsError::NoFileName,
        ),
        r matches Err(e) ==> e == FsError::NoFileName,
{
    match path_file_name(src) {
        None => Err(FsError::NoFileName),
        Some(name) => {
            proof {
                if is_clean_path(src@) {
                    lemma_clean_path_parts(src@);
                }
            }
            Ok(join_path(dest_dir, name.as_str()))
        },
    }
}

/// Where a copied file lands: `dest_dir` joined with the source's file name
/// (for a clean source, its last component); none when the source has no
/// file name (the copy is then skipped).
pub fn copy_destination(src: &str, dest_dir: &str) -> (r: Option<String>)
    ensures
        is_clean_path(src@) ==> r is Some,
        is_clean_path(src@) && joinable(dest_dir@) ==> (r matches Some(d) && joined(
            dest_dir@,
            last_component(src@),
            d@,
        )),
        names_no_file(src@) || ends_in_parent_ref(src@) ==> r is None,
{
    match move_destination(src, dest_dir) {
        Ok(d) => Some(d),
        Err(_) => None,
    }
}

/// Where a renamed entry lands: its parent directory joined with `new_name`.
/// A path with no parent is refused.
pub fn rename_destination(src: &str, new_name: &str) -> (r: Result<String, FsError>)
    ensures
        src@.len() == 0 || src@ == seq!['/'] ==> r == Err::<String, FsError>(FsError::InvalidPath),
        r matches Err(e) ==> e == FsError::InvalidPath,
        is_clean_path(src@) ==> (r matches Ok(d) && (is_relative_name(new_name@)
            ==> joined(clean_parent(src@), new_name@, d@))),
        r matches Ok(d) ==> exists|p: Seq<char>|
            #![trigger src@.take(p.len() as int)]
            p.len() < src@.len() && src@.take(p.len() as int) == p && (joinable(p) && is_relative_name(
                new_name@,
            ) ==> joined(p, new_name@, d@)),
{
    match path_parent(src) {
        None => Err(FsError::InvalidPath),
        Some(parent) => {
            let d = join_path(parent.as_str(), new_name);
            proof {
                assert(src@.take(parent@.len() as int) == parent@);
                if is_clean_path(src@) {
                    lemma_clean_path_parts(src@);
                }
            }
            Ok(d)
        },
    }
}

} // verus!
