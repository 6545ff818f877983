//! The few `std::path` questions the model asks of a path held as text.
//!
//! Path syntax depends on the platform the program is built for (separators,
//! drive prefixes), so these wrappers state only what holds on every
//! platform: exact results for names that no platform splits or reads as a
//! drive, for clean paths of such names joined by `/`, and for joins of a
//! relative name onto such a path.
use vstd::prelude::*;
use crate::text::contains_seq;

verus! {

/// `c` can separate path components or mark a drive on some platform.
pub open spec fn is_path_syntax_char(c: char) -> bool {
    c == '/' || c == '\\' || c == ':'
}

/// A single file name: no separator and no drive marker.
pub open spec fn is_plain_name(s: Seq<char>) -> bool {
    forall|i: int| 0 <= i < s.len() ==> !is_path_syntax_char(#[trigger] s[i])
}

/// The index of the last `.` in `s`, or -1 when there is none.
pub open spec fn last_dot(s: Seq<char>) -> int
    decreases s.len(),
{
    if s.len() == 0 {
        -1
    } else if s.last() == '.' {
        s.len() - 1
    } else {
        last_dot(s.drop_last())
    }
}

/// Where the last `.` of `s` stands: nothing after it is a `.`.
pub(crate) proof fn lemma_last_dot_bounds(s: Seq<char>)
    ensures
        -1 <= last_dot(s) < s.len(),
        last_dot(s) >= 0 ==> s[last_dot(s)] == '.',
        forall|j: int| last_dot(s) < j < s.len() ==> s[j] != '.',
    decreases s.len(),
{
    if s.len() > 0 && s.last() != '.' {
        lemma_last_dot_bounds(s.drop_last());
        assert forall|j: int| last_dot(s) < j < s.len() implies s[j] != '.' by {
            if j < s.len() - 1 {
                assert(s[j] == s.drop_last()[j]);
            }
        }
    }
}

/// `s` is a file name that `Path::file_name` returns unchanged: a plain name
/// other than the empty string, `.` and `..`.
pub open spec fn is_normal_name(s: Seq<char>) -> bool {
    is_plain_name(s) && s.len() > 0 && s != seq!['.'] && s != seq!['.', '.']
}

/// `c` separates path components on some platform.
pub open spec fn is_separator(c: char) -> bool {
    c == '/' || c == '\\'
}

/// `s` is read as at most one component on every platform: it holds no
/// separator, and no drive marker as its second character.
pub open spec fn is_single_name(s: Seq<char>) -> bool {
    &&& forall|i: int| 0 <= i < s.len() ==> !is_separator(#[trigger] s[i])
    &&& !(s.len() >= 2 && s[1] == ':')
}

/// `s` is one file name on every platform: a single name other than the
/// empty string, `.` and `..`. Every normal name is one.
pub open spec fn is_file_name(s: Seq<char>) -> bool {
    is_single_name(s) && s.len() > 0 && s != seq!['.'] && s != seq!['.', '.']
}

/// `Path::file_stem` of a single name: the part before the last `.`, or
/// the whole name when it has no `.` or its only `.` comes first.
pub open spec fn name_stem(s: Seq<char>) -> Option<Seq<char>> {
    if !is_file_name(s) {
        None
    } else if last_dot(s) <= 0 {
        Some(s)
    } else {
        Some(s.take(last_dot(s)))
    }
}

/// `Path::extension` of a single name: the part after the last `.`, when
/// that `.` does not come first.
pub open spec fn name_extension(s: Seq<char>) -> Option<Seq<char>> {
    if !is_file_name(s) || last_dot(s) <= 0 {
        None
    } else {
        Some(s.skip(last_dot(s) + 1))
    }
}

/// The index of the last `/` in `s`, or -1 when there is none.
pub open spec fn last_slash(s: Seq<char>) -> int
    decreases s.len(),
{
    if s.len() == 0 {
        -1
    } else if s.last() == '/' {
        s.len() - 1
    } else {
        last_slash(s.drop_last())
    }
}

/// A relative path of normal plain names joined by single `/`.
pub open spec fn is_clean_relative(p: Seq<char>) -> bool
    decreases p.len(),
{
    let i = last_slash(p);
    if i < 0 {
        is_normal_name(p)
    } else {
        is_normal_name(p.skip(i + 1)) && i < p.len() && is_clean_relative(p.take(i))
    }
}

/// A path that reads the same on every platform: normal plain names
/// joined by single `/`, with or without one leading `/`.
pub open spec fn is_clean_path(p: Seq<char>) -> bool {
    is_clean_relative(p) || (p.len() > 1 && p[0] == '/' && is_clean_relative(p.skip(1)))
}

/// The parent of a clean path: what comes before its last `/` (the root
/// `/` when that is the first character), or the empty path for a single
/// name.
pub open spec fn clean_parent(p: Seq<char>) -> Seq<char> {
    let i = last_slash(p);
    if i > 0 {
        p.take(i)
    } else if i == 0 {
        seq!['/']
    } else {
        Seq::empty()
    }
}

/// A clean path, possibly followed by one `/`, which names the same
/// directory: its parent is the same on every platform.
pub open spec fn is_tidy_path(p: Seq<char>) -> bool {
    is_clean_path(p) || (p.len() > 0 && p.last() == '/' && is_clean_path(p.drop_last()))
}

/// The parent of a tidy path: that of the clean path it names.
pub open spec fn tidy_parent(p: Seq<char>) -> Seq<char> {
    if is_clean_path(p) {
        clean_parent(p)
    } else {
        clean_parent(p.drop_last())
    }
}

/// The clean path a tidy path names: without its trailing `/`.
pub open spec fn tidy_form(p: Seq<char>) -> Seq<char> {
    if is_clean_path(p) {
        p
    } else {
        p.drop_last()
    }
}

/// `same` may be what `Path` equality answers for `a` and `b`: equal texts
/// are the same path, and two tidy paths are the same exactly when they
/// name the same clean path (a trailing `/` is not a component).
pub open spec fn same_path_answer(a: Seq<char>, b: Seq<char>, same: bool) -> bool {
    &&& a == b ==> same
    &&& is_tidy_path(a) && is_tidy_path(b) ==> (same <==> tidy_form(a) == tidy_form(b))
}

/// The last component of a clean path: what follows its last `/`.
pub open spec fn last_component(p: Seq<char>) -> Seq<char> {
    p.skip(last_slash(p) + 1)
}

/// The path ends in a `..` component, so it names no file.
pub open spec fn ends_in_parent_ref(p: Seq<char>) -> bool {
    p == seq!['.', '.'] || (p.len() >= 3 && p.skip(p.len() - 3) == seq!['/', '.', '.'])
}

proof fn lemma_last_slash_bounds(s: Seq<char>)
    ensures
        -1 <= last_slash(s) < s.len(),
        last_slash(s) >= 0 ==> s[last_slash(s)] == '/',
        forall|j: int| last_slash(s) < j < s.len() ==> s[j] != '/',
    decreases s.len(),
{
    if s.len() > 0 && s.last() != '/' {
        lemma_last_slash_bounds(s.drop_last());
        assert forall|j: int| last_slash(s) < j < s.len() implies s[j] != '/' by {
            if j < s.len() - 1 {
                assert(s[j] == s.drop_last()[j]);
            }
        }
    }
}

/// The last `/` of `c` followed by `rest`.
proof fn lemma_last_slash_cons(c: char, rest: Seq<char>)
    ensures
        last_slash(seq![c] + rest) == if last_slash(rest) >= 0 {
            last_slash(rest) + 1
        } else if c == '/' {
            0
        } else {
            -1
        },
    decreases rest.len(),
{
    let s = seq![c] + rest;
    if rest.len() > 0 {
        assert(s.drop_last() == seq![c] + rest.drop_last());
        assert(s.last() == rest.last());
        assert(s.len() == rest.len() + 1);
        lemma_last_slash_cons(c, rest.drop_last());
    } else {
        assert(s == seq![c]);
        assert(s.last() == c);
        assert(s.drop_last() =~= Seq::<char>::empty());
        assert(last_slash(Seq::<char>::empty()) == -1);
    }
}

/// The last component of a clean path is a normal name, and its parent is
/// a joinable base from which `join` gives the path back.
pub proof fn lemma_clean_path_parts(p: Seq<char>)
    requires
        is_clean_path(p),
    ensures
        is_normal_name(last_component(p)),
        joinable(clean_parent(p)),
        last_slash(p) >= 0 ==> p == clean_parent(p).push('/').add(last_component(p)) || (
        last_slash(p) == 0 && p == seq!['/'] + last_component(p)),
        last_slash(p) < 0 ==> last_component(p) == p,
{
    lemma_last_slash_bounds(p);
    let i = last_slash(p);
    if is_clean_relative(p) {
        if i >= 0 {
            let q = p.take(i);
            assert(is_clean_relative(q));
            assert(q.len() > 0) by {
                if q.len() == 0 {
                    lemma_clean_relative_starts(p);
                }
            }
            assert(is_clean_path(q));
            assert(p == q.push('/').add(p.skip(i + 1)));
        } else {
            assert(p.skip(0) == p);
        }
    } else {
        let rest = p.skip(1);
        assert(p == seq!['/'] + rest);
        lemma_last_slash_cons('/', rest);
        lemma_last_slash_bounds(rest);
        if last_slash(rest) >= 0 {
            let j = last_slash(rest);
            assert(rest.skip(j + 1) == p.skip(i + 1));
            let q = rest.take(j);
            assert(is_clean_relative(q));
            assert(q.len() > 0) by {
                if q.len() == 0 {
                    lemma_clean_relative_starts(rest);
                }
            }
            assert(p.take(i) == seq!['/'] + q);
            assert((seq!['/'] + q).skip(1) == q);
            assert(is_clean_path(p.take(i)));
            assert(p == p.take(i).push('/').add(p.skip(i + 1)));
        } else {
            assert(p.skip(1) == rest);
        }
    }
}

/// A clean relative path does not begin with `/`.
proof fn lemma_clean_relative_starts(p: Seq<char>)
    requires
        is_clean_relative(p),
    ensures
        p.len() > 0 && p[0] != '/',
    decreases p.len(),
{
    lemma_last_slash_bounds(p);
    let i = last_slash(p);
    if i < 0 {
        assert(!is_path_syntax_char(p[0]));
    } else {
        lemma_clean_relative_starts(p.take(i));
        assert(p.take(i)[0] == p[0]);
    }
}

/// `Path::new(path).parent().is_some()`. The empty path and the root `/`
/// have no parent on every platform, a tidy path has one; for other paths
/// the answer depends on the platform's path syntax and is not stated.
#[verifier::external_body]
pub(crate) fn path_has_parent(path: &str) -> (r: bool)
    ensures
        path@.len() == 0 ==> !r,
        path@ == seq!['/'] ==> !r,
        is_tidy_path(path@) ==> r,
{
    std::path::Path::new(path).parent().is_some()
}

/// `Path::new(name).file_stem()`, as text. For a single name the result
/// is `name_stem`, for a clean path that of its last component; for other
/// names it depends on the platform's path syntax and is not stated.
#[verifier::external_body]
pub(crate) fn file_stem(name: &str) -> (r: Option<String>)
    ensures
        is_single_name(name@) ==> match r {
            Some(s) => name_stem(name@) == Some(s@),
            None => name_stem(name@) is None,
        },
        is_clean_path(name@) ==> match r {
            Some(s) => name_stem(last_component(name@)) == Some(s@),
            None => name_stem(last_component(name@)) is None,
        },
{
    std::path::Path::new(name).file_stem().map(|s| s.to_string_lossy().into_owned())
}

/// `Path::new(name).extension()`, as text. For a single name the result
/// is `name_extension`; for other names it depends on the platform's path
/// syntax and is not stated.
#[verifier::external_body]
pub(crate) fn file_extension(name: &str) -> (r: Option<String>)
    ensures
        is_single_name(name@) ==> match r {
            Some(s) => name_extension(name@) == Some(s@),
            None => name_extension(name@) is None,
        },
{
    std::path::Path::new(name).extension().map(|s| s.to_string_lossy().into_owned())
}

/// A relative path that `Path::join` appends to its base on every
/// platform: not empty, not starting with a separator, and with no drive
/// marker as its second character. Every non-empty plain name is one.
pub open spec fn is_relative_name(s: Seq<char>) -> bool {
    s.len() > 0 && s[0] != '/' && s[0] != '\\' && !(s.len() >= 2 && s[1] == ':')
}

/// `s` starts at the root `/`: joined onto a base without a drive it
/// replaces the base on every platform.
pub open spec fn is_rooted(s: Seq<char>) -> bool {
    s.len() > 0 && s[0] == '/'
}

/// A base that `Path::join` extends the same way on every platform: the
/// empty path, the root `/`, the current directory `.`, or a tidy path.
pub open spec fn joinable(base: Seq<char>) -> bool {
    base.len() == 0 || base == seq!['/'] || base == seq!['.'] || is_tidy_path(base)
}

/// `r` is `name` joined onto a joinable `base`: `name` itself after the
/// empty path, `base` and `name` after a base that ends in `/`, and
/// otherwise `base`, one separator (`/` or `\\`, as the platform has it)
/// and `name`.
pub open spec fn joined(base: Seq<char>, name: Seq<char>, r: Seq<char>) -> bool {
    if base.len() == 0 {
        r == name
    } else if base.last() == '/' {
        r == base + name
    } else {
        r == base + seq!['/'] + name || r == base + seq!['\\'] + name
    }
}

/// `Path::new(base).join(name)`, as text. For a joinable base and a
/// relative name the result is `joined(base, name, ..)`; the separator
/// used is the platform's. A name rooted at `/` replaces a joinable base,
/// which has no drive, on every platform. The result for other bases (a Windows prefix is
/// normalized, for one) and for names that are absolute or carry a drive
/// on some platform is not stated.
#[verifier::external_body]
pub(crate) fn join_path(base: &str, name: &str) -> (r: String)
    ensures
        joinable(base@) && is_relative_name(name@) ==> joined(base@, name@, r@),
        joinable(base@) && is_rooted(name@) ==> r@ == name@,
{
    std::path::Path::new(base).join(name).to_string_lossy().into_owned()
}

/// `Path::new(path).parent()`, as text: a proper prefix of the path; none
/// for the empty path and for the root `/`; `tidy_parent` for a tidy path
/// (a trailing `/` is not a component). Which prefix it is for other paths
/// depends on the platform's path syntax and is not stated.
#[verifier::external_body]
pub(crate) fn path_parent(path: &str) -> (r: Option<String>)
    ensures
        path@.len() == 0 ==> r is None,
        path@ == seq!['/'] ==> r is None,
        match r {
            Some(p) => p@.len() < path@.len() && path@.take(p@.len() as int) == p@ && (
            is_tidy_path(path@) ==> p@ == tidy_parent(path@)),
            None => !is_tidy_path(path@),
        },
{
    std::path::Path::new(path).parent().map(|p| p.to_string_lossy().into_owned())
}

/// `Path::new(a) == Path::new(b)`: paths are compared by their
/// components. Equal texts are equal paths, and tidy paths are equal
/// exactly when their clean forms are; for other paths the answer depends
/// on the platform's path syntax (which separators and drives it reads)
/// and is not stated.
#[verifier::external_body]
pub(crate) fn same_path(a: &str, b: &str) -> (r: bool)
    ensures
        same_path_answer(a@, b@, r),
{
    std::path::Path::new(a) == std::path::Path::new(b)
}

/// `Path::new(path).is_absolute()`. A plain name (the empty path among
/// them) and a relative name are relative on every platform; for other
/// paths the answer is not stated.
#[verifier::external_body]
pub(crate) fn path_is_absolute(path: &str) -> (r: bool)
    ensures
        is_plain_name(path@) ==> !r,
        is_relative_name(path@) ==> !r,
{
    std::path::Path::new(path).is_absolute()
}

/// The path has no file name on any platform: empty, the root, `.` or `..`.
pub open spec fn names_no_file(path: Seq<char>) -> bool {
    path.len() == 0 || path == seq!['/'] || path == seq!['.'] || path == seq!['.', '.']
}

/// `Path::new(path).file_name()`, as text: the final component of the
/// path. A clean path's is its last component (a normal plain name is its
/// own); the empty path, `/`, `.` and paths ending in `..` have none;
/// whatever is returned is a non-empty part of the path. Which component
/// is returned for other paths depends on the platform's path syntax and
/// is not stated.
#[verifier::external_body]
pub(crate) fn path_file_name(path: &str) -> (r: Option<String>)
    ensures
        names_no_file(path@) ==> r is None,
        ends_in_parent_ref(path@) ==> r is None,
        match r {
            Some(n) => n@.len() > 0 && contains_seq(path@, n@) && (is_normal_name(path@) ==> n@
                == path@) && (is_clean_path(path@) ==> n@ == last_component(path@)),
            None => !is_normal_name(path@) && !is_clean_path(path@),
        },
{
    std::path::Path::new(path).file_name().map(|s| s.to_string_lossy().into_owned())
}

} // verus!
