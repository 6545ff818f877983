//! How a file or directory is laid out in a ZIP archive, and what the
//! archive file is called. Walking the tree and writing the archive is left
//! to the caller, which asks here for each name.
use vstd::prelude::*;
use crate::paths::{
    is_clean_path, clean_parent, last_component, ends_in_parent_ref, joinable, lemma_clean_path_parts,
    last_dot, lemma_last_dot_bounds, is_path_syntax_char, is_normal_name, names_no_file, name_stem, is_plain_name, joined, path_file_name,
    path_parent, file_stem, join_path,
};
use crate::text::{
    chars_of, contains_seq, decimal, decimal_chars, push_char, push_str, replace, replace_all,
    string_from_chars, string_from_str,
};

verus! {

/// Why an archive cannot be built.
#[derive(Debug, Clone, Copy, PartialEq, Eq, Structural)]
pub enum ArchiveError {
    /// The directory to archive has no parent to name its entries from.
    InvalidSource,
    /// A path met while walking the directory lies outside it.
    EntryOutsideSource,
}

/// The message reported for each refusal.
pub open spec fn archive_error_text(e: ArchiveError) -> Seq<char> {
    match e {
        ArchiveError::InvalidSource => "Invalid source"@,
        ArchiveError::EntryOutsideSource => "Failed to build archive entry"@,
    }
}

impl ArchiveError {
    /// The message reported for this refusal.
    pub fn message(&self) -> (r: String)
        ensures
            r@ == archive_error_text(*self),
    {
        match self {
            ArchiveError::InvalidSource => string_from_str("Invalid source"),
            ArchiveError::EntryOutsideSource => string_from_str("Failed to build archive entry"),
        }
    }
}

/// The name used when the source names nothing better.
pub open spec fn fallback_name() -> Seq<char> {
    "archive"@
}

/// The name of an entry of a directory archive, from its path relative to
/// the directory's parent: backslashes become `/`, and a directory's name
/// ends with `/`.
pub open spec fn entry_name_of(relative: Seq<char>, is_dir: bool) -> Seq<char> {
    let r = replace_all(relative, seq!['\\'], seq!['/']);
    if is_dir && !(r.len() > 0 && r.last() == '/') {
        r.push('/')
    } else {
        r
    }
}

/// The name under which an entry of a directory archive is stored.
pub fn entry_name(relative: &str, is_dir: bool) -> (r: String)
    ensures
        r@ == entry_name_of(relative@, is_dir),
{
    let s = chars_of(relative);
    let back: Vec<char> = vec!['\\'];
    let slash: Vec<char> = vec!['/'];
    assert(back@ == seq!['\\'] && slash@ == seq!['/']);
    let replaced = replace(&s, &back, &slash);
    let mut r = string_from_chars(&replaced);
    let n = replaced.len();
    if is_dir && !(n > 0 && replaced[n - 1] == '/') {
        push_char(&mut r, '/');
    }
    r
}

/// The directory whose children the entries of a directory archive are
/// named relative to: the parent of the archived directory.
pub fn archive_root(src: &str) -> (r: Result<String, ArchiveError>)
    ensures
        src@.len() == 0 || src@ == seq!['/'] ==> r == Err::<String, ArchiveError>(
            ArchiveError::InvalidSource,
        ),
        match r {
            Ok(p) => p@.len() < src@.len() && src@.take(p@.len() as int) == p@ && (is_clean_path(
                src@,
            ) ==> p@ == clean_parent(src@)),
            Err(e) => e == ArchiveError::InvalidSource && !is_clean_path(src@),
        },
{
    match path_parent(src) {
        Some(p) => Ok(p),
        None => Err(ArchiveError::InvalidSource),
    }
}

/// The name of the only entry of a single-file archive: the file's name, or
/// `archive` when the path names no file.
pub fn file_entry_name(src: &str) -> (r: String)
    ensures
        is_clean_path(src@) ==> r@ == last_component(src@),
        names_no_file(src@) || ends_in_parent_ref(src@) ==> r@ == fallback_name(),
        r@ == fallback_name() || (r@.len() > 0 && contains_seq(src@, r@)),
{
    match path_file_name(src) {
        Some(n) => n,
        None => string_from_str("archive"),
    }
}

/// The base of the archive's name for a clean source: the directory's name,
/// or the file's stem (its name up to the last `.` that does not start it).
pub open spec fn clean_archive_base(src: Seq<char>, is_dir: bool) -> Seq<char> {
    if is_dir {
        last_component(src)
    } else {
        match name_stem(last_component(src)) {
            Some(stem) => stem,
            None => fallback_name(),
        }
    }
}

/// The base of the archive's file name: a directory's name, or a file's
/// stem; `archive` when the path gives none.
pub fn archive_base_name(src: &str, is_dir: bool) -> (r: String)
    ensures
        is_clean_path(src@) ==> r@ == clean_archive_base(src@, is_dir),
        is_dir ==> (names_no_file(src@) || ends_in_parent_ref(src@) ==> r@ == fallback_name()),
        !is_dir && is_plain_name(src@) ==> r@ == match name_stem(src@) {
            Some(stem) => stem,
            None => fallback_name(),
        },
{
    if is_dir {
        file_entry_name(src)
    } else {
        proof {
            reveal_strlit("archive");
        }
        match file_stem(src) {
            Some(stem) => stem,
            None => string_from_str("archive"),
        }
    }
}

/// The archive file name tried at `attempt` (counting from 0):
/// `<base>.zip` first, then `<base> (2).zip`, `<base> (3).zip`, and so on.
pub open spec fn archive_file_name_of(base: Seq<char>, attempt: nat) -> Seq<char> {
    if attempt == 0 {
        base + ".zip"@
    } else {
        base + " ("@ + decimal(attempt + 1) + ").zip"@
    }
}

/// The archive file name tried at `attempt`.
pub fn archive_file_name(base: &str, attempt: u64) -> (r: String)
    ensures
        r@ == archive_file_name_of(base@, attempt as nat),
{
    let mut r = string_from_str(base);
    if attempt == 0 {
        push_str(&mut r, ".zip");
    } else {
        push_str(&mut r, " (");
        let digits = decimal_chars(attempt as u128 + 1);
        let number = string_from_chars(&digits);
        push_str(&mut r, number.as_str());
        push_str(&mut r, ").zip");
    }
    r
}

/// `r` is the archive file name on `base` for `attempt`, put in `dir`:
/// `.` or a proper prefix of `src`; joined exactly where `dir` is joinable
/// and `base` a plain name.
pub open spec fn placed_in(src: Seq<char>, dir: Seq<char>, base: Seq<char>, attempt: nat, r: Seq<char>) -> bool {
    &&& dir == seq!['.'] || (dir.len() < src.len() && src.take(dir.len() as int) == dir)
    &&& joinable(dir) && is_plain_name(base) ==> joined(dir, archive_file_name_of(base, attempt), r)
}

/// The archive path tried at `attempt` for `src`: the archive file name in
/// the source's parent directory (`.` when it has none).
pub fn archive_candidate(src: &str, is_dir: bool, attempt: u64) -> (r: String)
    ensures
        is_clean_path(src@) ==> joined(
            clean_parent(src@),
            archive_file_name_of(clean_archive_base(src@, is_dir), attempt as nat),
            r@,
        ),
        exists|dir: Seq<char>, base: Seq<char>| #[trigger] placed_in(src@, dir, base, attempt as nat, r@),
{
    let parent = path_parent(src);
    let ghost found = parent;
    let dir = match parent {
        Some(p) => p,
        None => string_from_str("."),
    };
    let base = archive_base_name(src, is_dir);
    let name = archive_file_name(base.as_str(), attempt);
    let r = join_path(dir.as_str(), name.as_str());
    proof {
        reveal_strlit(".");
        if let Some(p) = found {
            assert(dir@ == p@);
            assert(src@.take(dir@.len() as int) == dir@);
        } else {
            assert(dir@ == seq!['.']);
        }
        if is_clean_path(src@) {
            lemma_clean_path_parts(src@);
            lemma_stem_plain(last_component(src@));
            assert(is_plain_name(base@));
        }
        if is_plain_name(base@) {
            lemma_archive_file_name_plain(base@, attempt as nat);
        }
        assert(placed_in(src@, dir@, base@, attempt as nat, r@));
    }
    r
}

/// `r` is a path `archive_candidate` may give for `src` at `attempt`.
pub open spec fn is_archive_candidate(src: Seq<char>, is_dir: bool, attempt: nat, r: Seq<char>) -> bool {
    &&& is_clean_path(src) ==> joined(
        clean_parent(src),
        archive_file_name_of(clean_archive_base(src, is_dir), attempt),
        r,
    )
    &&& exists|dir: Seq<char>, base: Seq<char>| #[trigger] placed_in(src, dir, base, attempt, r)
}

/// Where the search for a free archive path stands: the candidate of
/// `attempt`, `path`, is to be checked, or `path` was found free.
#[derive(Debug)]
pub enum ArchiveSearch {
    Check { attempt: u64, path: String },
    Chosen { path: String },
}

/// The search for a free archive path next to `src` starts with the
/// candidate of the first attempt.
pub fn archive_search_start(src: &str, is_dir: bool) -> (r: ArchiveSearch)
    ensures
        r matches ArchiveSearch::Check { attempt, path } && attempt == 0
            && is_archive_candidate(src@, is_dir, 0, path@),
{
    let path = archive_candidate(src, is_dir, 0);
    ArchiveSearch::Check { attempt: 0, path }
}

/// One step of the search, once the candidate `path` of `attempt` has been
/// looked up: a free candidate is chosen; a taken one moves the search on to
/// the candidate of the next attempt. Started at the first attempt, the
/// search thus chooses the first candidate that is free.
pub fn archive_search_next(src: &str, is_dir: bool, attempt: u64, path: String, taken: bool) -> (r: ArchiveSearch)
    requires
        taken ==> attempt < u64::MAX,
    ensures
        !taken ==> r == (ArchiveSearch::Chosen { path }),
        taken ==> (r matches ArchiveSearch::Check { attempt: next, path: p } && next == attempt + 1
            && is_archive_candidate(src@, is_dir, next as nat, p@)),
{
    if taken {
        let next = attempt + 1;
        let p = archive_candidate(src, is_dir, next);
        ArchiveSearch::Check { attempt: next, path: p }
    } else {
        ArchiveSearch::Chosen { path }
    }
}

/// The stem of a normal name is a plain name.
proof fn lemma_stem_plain(n: Seq<char>)
    requires
        is_normal_name(n),
    ensures
        name_stem(n) matches Some(stem) && is_plain_name(stem),
{
    lemma_last_dot_bounds(n);
    if last_dot(n) > 0 {
        let stem = n.take(last_dot(n));
        assert forall|i: int| 0 <= i < stem.len() implies !is_path_syntax_char(#[trigger] stem[i]) by {
            assert(stem[i] == n[i]);
        }
    }
}

/// Two plain names joined without a separator make a plain name.
proof fn lemma_concat_plain(a: Seq<char>, b: Seq<char>)
    requires
        is_plain_name(a),
        is_plain_name(b),
    ensures
        is_plain_name(a + b),
{
    assert forall|i: int| 0 <= i < (a + b).len() implies !is_path_syntax_char(#[trigger] (a + b)[i]) by {
        if i < a.len() {
            assert((a + b)[i] == a[i]);
        } else {
            assert((a + b)[i] == b[i - a.len()]);
        }
    }
}

/// The archive file name built on a plain base is plain and not empty.
proof fn lemma_archive_file_name_plain(base: Seq<char>, attempt: nat)
    requires
        is_plain_name(base),
    ensures
        is_plain_name(archive_file_name_of(base, attempt)),
        archive_file_name_of(base, attempt).len() > 0,
{
    reveal_strlit(".zip");
    reveal_strlit(" (");
    reveal_strlit(").zip");
    assert(is_plain_name(".zip"@));
    assert(is_plain_name(" ("@));
    assert(is_plain_name(").zip"@));
    lemma_concat_plain(base, ".zip"@);
    lemma_decimal_plain(attempt + 1);
    lemma_concat_plain(base, " ("@);
    lemma_concat_plain(base + " ("@, decimal(attempt + 1));
    lemma_concat_plain(base + " ("@ + decimal(attempt + 1), ").zip"@);
}

/// Replacing every backslash with `/` leaves none.
proof fn lemma_no_backslash_left(s: Seq<char>)
    ensures
        !replace_all(s, seq!['\\'], seq!['/']).contains('\\'),
    decreases s.len(),
{
    let r = replace_all(s, seq!['\\'], seq!['/']);
    if s.len() >= 1 {
        if s.take(1) == seq!['\\'] {
            lemma_no_backslash_left(s.skip(1));
            let rest = replace_all(s.skip(1), seq!['\\'], seq!['/']);
            assert(r == seq!['/'] + rest);
            assert forall|i: int| 0 <= i < r.len() implies r[i] != '\\' by {
                if i > 0 {
                    assert(r[i] == rest[i - 1]);
                }
            }
        } else {
            lemma_no_backslash_left(s.drop_first());
            let rest = replace_all(s.drop_first(), seq!['\\'], seq!['/']);
            assert(s[0] != '\\') by {
                if s[0] == '\\' {
                    assert(s.take(1) == seq!['\\']);
                }
            }
            assert(r == seq![s[0]] + rest);
            assert forall|i: int| 0 <= i < r.len() implies r[i] != '\\' by {
                if i > 0 {
                    assert(r[i] == rest[i - 1]);
                }
            }
        }
    }
}

/// An archive entry name holds no backslash, and a directory's name ends
/// with `/`; a file's name is its relative path with backslashes turned
/// into `/`.
pub proof fn lemma_entry_name_shape(relative: Seq<char>, is_dir: bool)
    ensures
        !entry_name_of(relative, is_dir).contains('\\'),
        is_dir ==> entry_name_of(relative, is_dir).len() > 0 && entry_name_of(relative, is_dir).last()
            == '/',
        !is_dir ==> entry_name_of(relative, is_dir) == replace_all(relative, seq!['\\'], seq!['/']),
{
    lemma_no_backslash_left(relative);
    let r = replace_all(relative, seq!['\\'], seq!['/']);
    if is_dir && !(r.len() > 0 && r.last() == '/') {
        assert forall|i: int| 0 <= i < r.push('/').len() implies r.push('/')[i] != '\\' by {
            if i < r.len() {
                assert(r.push('/')[i] == r[i]);
            }
        }
    }
}

/// A number's decimal digits hold no path syntax.
proof fn lemma_decimal_plain(n: nat)
    ensures
        is_plain_name(decimal(n)),
    decreases n,
{
    if n >= 10 {
        lemma_decimal_plain(n / 10);
    }
}

} // verus!
