//! The state behind each panel of the file manager and the labels it shows.
use vstd::prelude::*;
use vstd::set_lib::{set_int_range, lemma_int_range, lemma_map_size, lemma_len_subset};
use std::cmp::Ordering;
use crate::Entry;
use crate::sort::{WeakOrder, is_stable_sort, stable_sort, arranges, sorted_by, stable_by};
use crate::text::{
    ascii_lowercase, lex_lt, to_ascii_lowercase, chars_less, chars_equal,
    lemma_lex_lt_irreflexive, lemma_lex_lt_asymmetric, lemma_lex_lt_transitive,
    lemma_lex_lt_total,
};
use crate::paths::{
    path_has_parent, file_stem, file_extension, is_single_name, is_file_name, last_dot, lemma_last_dot_bounds, name_stem, is_tidy_path,
    name_extension,
};
use crate::text::{
    push_char, push_str, string_from_str, starts_with_char, unicode_lowercase, contains_seq,
    trim, is_blank, to_lowercase, chars_of, chars_contain, decimal, decimal_chars, replace_all, occurs_at,
    digit_char,
    replace, string_from_chars,
};

verus! {

#[derive(Debug, Clone, Copy, PartialEq, Eq, Structural)]
pub enum Side {
    Left,
    Right,
}

impl Side {
    /// The other side.
    pub open spec fn opposite(self) -> Side {
        match self {
            Side::Left => Side::Right,
            Side::Right => Side::Left,
        }
    }

    /// The other panel.
    pub fn other(self) -> (r: Side)
        ensures
            r == self.opposite(),
    {
        match self {
            Side::Left => Side::Right,
            Side::Right => Side::Left,
        }
    }
}

/// The texts the panel model formats its labels with (one set per language).
#[derive(Debug, Clone)]
pub struct Strings {
    /// Shown as the size of a directory.
    pub dir_label: String,
    /// The unit after a size in kilobytes.
    pub size_unit_kb: String,
    /// Panel status when nothing is selected; `{total}` is replaced.
    pub status_items: String,
    /// Panel status with a selection; `{total}` and `{name}` are replaced.
    pub status_selected: String,
    /// Panel status while loading.
    pub status_loading: String,
    /// Put before an error text in the panel status.
    pub status_error_prefix: String,
    /// The base name suggested for a new folder.
    pub new_folder_suggestion: String,
    /// The window title, before the edition badge.
    pub title_base: String,
    /// The edition badge of a registered copy.
    pub badge_registered: String,
    /// The edition badge of an unregistered copy.
    pub badge_open_source: String,
}

#[derive(Debug, Clone)]
pub enum PanelStatus {
    Ready,
    Loading,
    Busy(String),
    Error(String),
}

#[derive(Debug, Clone, Copy, PartialEq, Eq, Structural)]
pub enum SortColumn {
    Name,
    Extension,
    Size,
    Date,
    Attributes,
}

#[derive(Debug, Clone, Copy, PartialEq, Eq, Structural)]
pub enum SortOrder {
    Ascending,
    Descending,
}

impl SortOrder {
    /// The opposite order.
    pub open spec fn flipped(self) -> SortOrder {
        match self {
            SortOrder::Ascending => SortOrder::Descending,
            SortOrder::Descending => SortOrder::Ascending,
        }
    }

    /// The opposite order.
    pub fn toggled(self) -> (r: Self)
        ensures
            r == self.flipped(),
    {
        match self {
            SortOrder::Ascending => SortOrder::Descending,
            SortOrder::Descending => SortOrder::Ascending,
        }
    }
}

#[derive(Debug, Clone, Copy, PartialEq, Eq, Structural)]
pub enum ThemeMode {
    Light,
    Dark,
}

impl ThemeMode {
    /// The other theme.
    pub open spec fn switched(self) -> ThemeMode {
        match self {
            ThemeMode::Light => ThemeMode::Dark,
            ThemeMode::Dark => ThemeMode::Light,
        }
    }

    /// The other theme.
    pub fn toggle(self) -> (r: Self)
        ensures
            r == self.switched(),
    {
        match self {
            ThemeMode::Light => ThemeMode::Dark,
            ThemeMode::Dark => ThemeMode::Light,
        }
    }
}

#[derive(Debug, Clone, Copy, PartialEq, Eq, Structural)]
pub enum BannerSeverity {
    Info,
    Error,
}

/// A one-line message shown under the panels.
#[derive(Debug, Clone)]
pub struct BannerMessage {
    pub severity: BannerSeverity,
    pub text: String,
}

impl BannerMessage {
    /// An informational banner.
    pub fn info(text: String) -> (r: Self)
        ensures
            r.severity == BannerSeverity::Info,
            r.text@ == text@,
    {
        BannerMessage { severity: BannerSeverity::Info, text }
    }

    /// An error banner.
    pub fn error(text: String) -> (r: Self)
        ensures
            r.severity == BannerSeverity::Error,
            r.text@ == text@,
    {
        BannerMessage { severity: BannerSeverity::Error, text }
    }
}

/// The file viewer: loading a file, showing its text, or showing why it
/// could not be read.
#[derive(Debug, Clone)]
pub enum ViewerState {
    Loading { path: String },
    Ready { path: String, content: String },
    Error { path: String, message: String },
}

// ---------------------------------------------------------------------------
// Directory entries as shown in a panel
// ---------------------------------------------------------------------------

/// An entry of a panel listing with the labels derived from it.
#[derive(Debug, Clone)]
pub struct DirEntryView {
    pub name: String,
    stem: String,
    extension: String,
    pub is_dir: bool,
    size: Option<u64>,
    modified: Option<i128>,
    attributes: String,
}


// ---------------------------------------------------------------------------
// Sizes in kilobytes, as `format!("{:.1}", bytes as f64 / 1024.0)` shows them
// ---------------------------------------------------------------------------

/// Below this a `u64` converts to `f64` exactly (53 significant bits).
pub open spec fn f64_exact_limit() -> nat {
    0x20_0000_0000_0000
}

/// The spacing of the `f64` values near `b`: the power of two by which `b`
/// must be divided to fit in 53 bits.
pub open spec fn f64_unit(b: nat) -> nat
    decreases b,
{
    if b < f64_exact_limit() {
        1
    } else {
        2 * f64_unit(b / 2)
    }
}

/// `n / d` rounded to the nearest integer, ties to the even one.
pub open spec fn round_half_even(n: nat, d: nat) -> nat
    recommends
        d > 0,
{
    let q = n / d;
    let r = n % d;
    if 2 * r > d || (2 * r == d && q % 2 == 1) {
        q + 1
    } else {
        q
    }
}

/// `b as f64`: the nearest `f64` to `b`, ties to an even significand.
pub open spec fn f64_of(b: nat) -> nat {
    round_half_even(b, f64_unit(b)) * f64_unit(b)
}

/// A size in tenths of a kilobyte: `b as f64 / 1024.0` rounded to one
/// decimal, ties to even.
pub open spec fn kb_tenths(b: nat) -> nat {
    round_half_even(f64_of(b) * 10, 1024)
}

/// A size in kilobytes with one decimal, as `{:.1}` shows it.
pub open spec fn kb_text(b: nat) -> Seq<char> {
    decimal(kb_tenths(b) / 10) + seq!['.'] + decimal(kb_tenths(b) % 10)
}

/// The value of `b as f64`, held exactly.
fn f64_value(b: u64) -> (r: u128)
    ensures
        r == f64_of(b as nat),
        r <= b as nat + 0x1000,
{
    let mut q: u128 = b as u128;
    let mut unit: u128 = 1;
    while q >= 0x20_0000_0000_0000
        invariant
            unit >= 1,
            unit <= 0x1000,
            q == b as nat / unit as nat,
            f64_unit(b as nat) == unit * f64_unit(q as nat),
        decreases q,
    {
        proof {
            vstd::arithmetic::div_mod::lemma_fundamental_div_mod(b as int, unit as int);
            assert(unit * q <= b);
            assert(unit < 0x800) by (nonlinear_arith)
                requires
                    unit * q <= b,
                    b < 0x1_0000_0000_0000_0000,
                    q >= 0x20_0000_0000_0000,
            ;
            vstd::arithmetic::div_mod::lemma_div_denominator(b as int, unit as int, 2);
            assert(f64_unit(q as nat) == 2 * f64_unit((q / 2) as nat));
            assert(unit * f64_unit(q as nat) == (unit * 2) * f64_unit((q / 2) as nat)) by (nonlinear_arith)
                requires
                    f64_unit(q as nat) == 2 * f64_unit((q / 2) as nat),
            ;
        }
        q = q / 2;
        unit = unit * 2;
    }
    proof {
        vstd::arithmetic::div_mod::lemma_fundamental_div_mod(b as int, unit as int);
        assert(f64_unit(q as nat) == 1);
        assert(f64_unit(b as nat) == unit) by (nonlinear_arith)
            requires
                f64_unit(b as nat) == unit * f64_unit(q as nat),
                f64_unit(q as nat) == 1,
        ;
        assert(q * unit <= b) by (nonlinear_arith)
            requires
                b == unit * q + (b as nat % unit as nat),
                b as nat % unit as nat >= 0,
        ;
    }
    let r = b as u128 - q * unit;
    assert(r == b as nat % unit as nat) by (nonlinear_arith)
        requires
            b == unit * q + (b as nat % unit as nat),
            r == b - q * unit,
    ;
    let rounded = if 2 * r > unit || (2 * r == unit && q % 2 == 1) {
        q + 1
    } else {
        q
    };
    assert(rounded * unit <= b as nat + unit) by (nonlinear_arith)
        requires
            rounded <= q + 1,
            q * unit <= b,
    ;
    rounded * unit
}

/// A size in kilobytes with one decimal.
pub fn kb_label(b: u64) -> (r: String)
    ensures
        r@ == kb_text(b as nat),
{
    let v = f64_value(b);
    let n = v * 10;
    let q = n / 1024;
    let rem = n % 1024;
    let tenths = if 2 * rem > 1024 || (2 * rem == 1024 && q % 2 == 1) {
        q + 1
    } else {
        q
    };
    assert(tenths == kb_tenths(b as nat));
    let whole = decimal_chars(tenths / 10);
    let frac = decimal_chars(tenths % 10);
    let mut r = string_from_chars(&whole);
    push_char(&mut r, '.');
    let f = string_from_chars(&frac);
    push_str(&mut r, f.as_str());
    r
}


/// `1024` to the power `k`.
pub open spec fn pow1024(k: nat) -> nat
    decreases k,
{
    if k == 0 {
        1
    } else {
        1024 * pow1024((k - 1) as nat)
    }
}

/// How many times a size of `v` bytes is divided by 1024 before it is
/// shown: while it is at least 1024, at most four times (terabytes).
pub open spec fn size_steps(v: nat) -> nat {
    if v >= pow1024(4) {
        4
    } else if v >= pow1024(3) {
        3
    } else if v >= pow1024(2) {
        2
    } else if v >= pow1024(1) {
        1
    } else {
        0
    }
}

/// The unit after `k` divisions by 1024.
pub open spec fn size_unit(k: nat) -> Seq<char> {
    if k == 0 {
        "B"@
    } else if k == 1 {
        "KB"@
    } else if k == 2 {
        "MB"@
    } else if k == 3 {
        "GB"@
    } else {
        "TB"@
    }
}

/// A size in the largest unit up to terabytes that keeps it at least 1,
/// as `{:.0}` shows bytes and `{:.1}` the larger units: the `f64` nearest
/// to the size, divided by the unit, rounded ties to even.
pub open spec fn human_size_text(size: nat) -> Seq<char> {
    let v = f64_of(size);
    let k = size_steps(v);
    if k == 0 {
        decimal(v) + seq![' '] + size_unit(0)
    } else {
        let t = round_half_even(v * 10, pow1024(k));
        decimal(t / 10) + seq!['.'] + decimal(t % 10) + seq![' '] + size_unit(k)
    }
}

/// A size with the largest fitting unit, as the listing's size column shows
/// it.
pub fn human_size(size: u64) -> (r: String)
    ensures
        r@ == human_size_text(size as nat),
{
    let v = f64_value(size);
    proof {
        reveal_with_fuel(pow1024, 5);
    }
    let (k, d): (u64, u128) = if v >= 0x100_0000_0000 {
        (4, 0x100_0000_0000)
    } else if v >= 0x4000_0000 {
        (3, 0x4000_0000)
    } else if v >= 0x10_0000 {
        (2, 0x10_0000)
    } else if v >= 0x400 {
        (1, 0x400)
    } else {
        (0, 1)
    };
    assert(k == size_steps(v as nat) && d == pow1024(k as nat));
    let mut r = String::new();
    if k == 0 {
        let digits = decimal_chars(v);
        r = string_from_chars(&digits);
    } else {
        let n = v * 10;
        let q = n / d;
        let rem = n % d;
        let t = if 2 * rem > d || (2 * rem == d && q % 2 == 1) {
            q + 1
        } else {
            q
        };
        let whole = decimal_chars(t / 10);
        let frac = decimal_chars(t % 10);
        r = string_from_chars(&whole);
        push_char(&mut r, '.');
        let f = string_from_chars(&frac);
        push_str(&mut r, f.as_str());
    }
    push_char(&mut r, ' ');
    let unit = if k == 0 {
        "B"
    } else if k == 1 {
        "KB"
    } else if k == 2 {
        "MB"
    } else if k == 3 {
        "GB"
    } else {
        "TB"
    };
    push_str(&mut r, unit);
    r
}

/// The attribute flags of an entry: `D` for a directory, `R` when read-only,
/// `H` when hidden, or `-` when none applies.
pub open spec fn attribute_flags(is_dir: bool, readonly: bool, hidden: bool) -> Seq<char> {
    let flags = (if is_dir {
        seq!['D']
    } else {
        Seq::empty()
    }) + (if readonly {
        seq!['R']
    } else {
        Seq::empty()
    }) + (if hidden {
        seq!['H']
    } else {
        Seq::empty()
    });
    if flags.len() == 0 {
        seq!['-']
    } else {
        flags
    }
}

/// The attribute text is `-` exactly when no flag applies, and holds `D`,
/// `R` and `H` exactly for a directory, a read-only and a hidden entry.
pub proof fn lemma_attribute_flags(is_dir: bool, readonly: bool, hidden: bool)
    ensures
        (attribute_flags(is_dir, readonly, hidden) == seq!['-']) == !(is_dir || readonly || hidden),
        attribute_flags(is_dir, readonly, hidden).contains('D') == is_dir,
        attribute_flags(is_dir, readonly, hidden).contains('R') == readonly,
        attribute_flags(is_dir, readonly, hidden).contains('H') == hidden,
{
    let d: Seq<char> = if is_dir { seq!['D'] } else { Seq::empty() };
    let r: Seq<char> = if readonly { seq!['R'] } else { Seq::empty() };
    let h: Seq<char> = if hidden { seq!['H'] } else { Seq::empty() };
    let flags = d + r + h;
    let a = attribute_flags(is_dir, readonly, hidden);
    assert forall|c: char| flags.contains(c) <==> (d.contains(c) || r.contains(c) || h.contains(c)) by {
        if flags.contains(c) {
            let i = choose|i: int| 0 <= i < flags.len() && flags[i] == c;
            if i < d.len() {
                assert(d[i] == c);
            } else if i < d.len() + r.len() {
                assert(r[i - d.len()] == c);
            } else {
                assert(h[i - d.len() - r.len()] == c);
            }
        }
        if d.contains(c) {
            let i = choose|i: int| 0 <= i < d.len() && d[i] == c;
            assert(flags[i] == c);
        }
        if r.contains(c) {
            let i = choose|i: int| 0 <= i < r.len() && r[i] == c;
            assert(flags[d.len() + i] == c);
        }
        if h.contains(c) {
            let i = choose|i: int| 0 <= i < h.len() && h[i] == c;
            assert(flags[d.len() + r.len() + i] == c);
        }
    }
    if is_dir {
        assert(d[0] == 'D');
    }
    if readonly {
        assert(r[0] == 'R');
    }
    if hidden {
        assert(h[0] == 'H');
    }
    if flags.len() == 0 {
        assert(a == seq!['-']);
        assert(a[0] == '-');
    }
}

/// Builds the attribute flags of an entry.
pub fn describe_attributes(is_dir: bool, readonly: bool, hidden: bool) -> (r: String)
    ensures
        r@ == attribute_flags(is_dir, readonly, hidden),
{
    let mut flags = String::new();
    if is_dir {
        push_char(&mut flags, 'D');
    }
    if readonly {
        push_char(&mut flags, 'R');
    }
    if hidden {
        push_char(&mut flags, 'H');
    }
    if flags.as_str().unicode_len() == 0 {
        push_char(&mut flags, '-');
    }
    flags
}

/// Whether an entry with this name is hidden by the Unix convention: its
/// name starts with a dot.
pub fn is_hidden(name: &str) -> (r: bool)
    ensures
        r == starts_with_char(name@, '.'),
{
    name.unicode_len() > 0 && name.get_char(0) == '.'
}

/// The stem shown for an entry: the whole name for a directory; for a file
/// `Path::file_stem`, or the whole name when there is none.
pub open spec fn shown_stem(e: Entry) -> Seq<char> {
    if e.is_dir {
        e.name@
    } else {
        match name_stem(e.name@) {
            Some(s) => s,
            None => e.name@,
        }
    }
}

/// The extension shown for an entry: empty for a directory; for a file
/// `Path::extension`, or empty when there is none.
pub open spec fn shown_extension(e: Entry) -> Seq<char> {
    if e.is_dir {
        Seq::empty()
    } else {
        match name_extension(e.name@) {
            Some(s) => s,
            None => Seq::empty(),
        }
    }
}

/// The name and extension columns give a listed entry's name back: a
/// directory shows its whole name and no extension; a file with a single
/// name shows either its whole name and no extension, or what comes before
/// its last `.` and what comes after it. The extension holds no `.`.
pub proof fn lemma_columns_rebuild_name(v: DirEntryView, entry: Entry, readonly: bool, hidden: bool)
    requires
        v.shows(entry, readonly, hidden),
        entry.is_dir || is_single_name(entry.name@),
    ensures
        entry.is_dir ==> v.stem_text() == entry.name@ && v.extension_text().len() == 0,
        !entry.is_dir ==> (v.stem_text() == entry.name@ && v.extension_text().len() == 0) || (
        v.stem_text() + seq!['.'] + v.extension_text() == entry.name@),
        forall|j: int| 0 <= j < v.extension_text().len() ==> #[trigger] v.extension_text()[j] != '.',
{
    let n = entry.name@;
    lemma_last_dot_bounds(n);
    if !entry.is_dir && is_file_name(n) && last_dot(n) > 0 {
        let d = last_dot(n);
        assert(n.take(d) + seq!['.'] + n.skip(d + 1) == n);
        assert forall|j: int| 0 <= j < n.skip(d + 1).len() implies #[trigger] n.skip(d + 1)[j] != '.' by {
            assert(n.skip(d + 1)[j] == n[d + 1 + j]);
        }
    }
}

impl DirEntryView {
    /// The entry's name.
    pub closed spec fn name_text(&self) -> Seq<char> {
        self.name@
    }

    /// The entry is a directory.
    pub closed spec fn is_directory(&self) -> bool {
        self.is_dir
    }

    /// The view was built from `entry` with these file system flags: name,
    /// kind, size and time are the entry's, the attributes are its flags, and
    /// for directories and single file names the stem and extension are
    /// `shown_stem` and `shown_extension`.
    pub open spec fn shows(&self, entry: Entry, readonly: bool, hidden: bool) -> bool {
        &&& self.name_text() == entry.name@
        &&& self.is_directory() == entry.is_dir
        &&& self.size_bytes() == entry.size
        &&& self.modified_nanos() == entry.modified
        &&& self.attribute_text() == attribute_flags(entry.is_dir, readonly, hidden)
        &&& entry.is_dir || is_single_name(entry.name@) ==> self.stem_text() == shown_stem(entry)
        &&& entry.is_dir || is_single_name(entry.name@) ==> self.extension_text()
            == shown_extension(entry)
    }

    /// The name without its extension.
    pub closed spec fn stem_text(&self) -> Seq<char> {
        self.stem@
    }

    /// The extension, without the dot.
    pub closed spec fn extension_text(&self) -> Seq<char> {
        self.extension@
    }

    /// The attribute flags.
    pub closed spec fn attribute_text(&self) -> Seq<char> {
        self.attributes@
    }

    /// The size in bytes, when known.
    pub closed spec fn size_bytes(&self) -> Option<u64> {
        self.size
    }

    /// The modification time, when known.
    pub closed spec fn modified_nanos(&self) -> Option<i128> {
        self.modified
    }

    /// The view of a listed entry. `readonly` and `hidden` are what the file
    /// system reports for it (see `is_hidden` for the Unix convention).
    pub fn from_entry(entry: Entry, readonly: bool, hidden: bool) -> (r: Self)
        ensures
            r.shows(entry, readonly, hidden),
    {
        let stem = if entry.is_dir {
            string_from_str(entry.name.as_str())
        } else {
            match file_stem(entry.name.as_str()) {
                Some(s) => s,
                None => string_from_str(entry.name.as_str()),
            }
        };
        let extension = if entry.is_dir {
            String::new()
        } else {
            match file_extension(entry.name.as_str()) {
                Some(s) => s,
                None => String::new(),
            }
        };
        let attributes = describe_attributes(entry.is_dir, readonly, hidden);
        DirEntryView {
            name: entry.name,
            stem,
            extension,
            is_dir: entry.is_dir,
            size: entry.size,
            modified: entry.modified,
            attributes,
        }
    }

    /// The entry's name.
    pub fn entry_name(&self) -> (r: &str)
        ensures
            r@ == self.name_text(),
    {
        self.name.as_str()
    }

    /// Whether the entry is a directory.
    pub fn entry_is_dir(&self) -> (r: bool)
        ensures
            r == self.is_directory(),
    {
        self.is_dir
    }

    /// The name column: the name without its extension.
    pub fn name_label(&self) -> (r: &str)
        ensures
            r@ == self.stem_text(),
    {
        self.stem.as_str()
    }

    /// The extension column.
    pub fn extension_label(&self) -> (r: &str)
        ensures
            r@ == self.extension_text(),
    {
        self.extension.as_str()
    }

    /// The attributes column.
    pub fn attributes_label(&self) -> (r: &str)
        ensures
            r@ == self.attribute_text(),
    {
        self.attributes.as_str()
    }

    /// The size in bytes, when known.
    pub fn size(&self) -> (r: Option<u64>)
        ensures
            r == self.size_bytes(),
    {
        self.size
    }

    /// The modification time in nanoseconds since the Unix epoch, when known.
    pub fn modified(&self) -> (r: Option<i128>)
        ensures
            r == self.modified_nanos(),
    {
        self.modified
    }

    /// The name shown in the listing: directories in brackets.
    pub fn display_name(&self) -> (r: String)
        ensures
            r@ == (if self.is_directory() {
                seq!['['] + self.stem_text() + seq![']']
            } else {
                self.stem_text()
            }),
    {
        if self.is_dir {
            let mut s = String::new();
            push_char(&mut s, '[');
            push_str(&mut s, self.stem.as_str());
            push_char(&mut s, ']');
            s
        } else {
            string_from_str(self.stem.as_str())
        }
    }

    /// The size column: the directory label for a directory, otherwise the
    /// size in kilobytes with one decimal and the unit, or `-` when unknown.
    pub fn size_kb_label(&self, strings: &Strings) -> (r: String)
        ensures
            r@ == (if self.is_directory() {
                strings.dir_label@
            } else {
                match self.size_bytes() {
                    Some(b) => kb_text(b as nat) + seq![' '] + strings.size_unit_kb@,
                    None => seq!['-'],
                }
            }),
    {
        if self.is_dir {
            string_from_str(strings.dir_label.as_str())
        } else {
            match self.size {
                Some(b) => {
                    let mut r = kb_label(b);
                    push_char(&mut r, ' ');
                    push_str(&mut r, strings.size_unit_kb.as_str());
                    r
                },
                None => {
                    let mut r = String::new();
                    push_char(&mut r, '-');
                    r
                },
            }
        }
    }

    /// The size column of the compact listing: `-` for a directory or an
    /// unknown size, otherwise the size with the largest fitting unit.
    pub fn size_label(&self) -> (r: String)
        ensures
            r@ == (if self.is_directory() {
                seq!['-']
            } else {
                match self.size_bytes() {
                    Some(b) => human_size_text(b as nat),
                    None => seq!['-'],
                }
            }),
    {
        match self.size {
            Some(b) if !self.is_dir => human_size(b),
            _ => {
                let mut r = String::new();
                push_char(&mut r, '-');
                r
            },
        }
    }

    /// The modification time in UTC as RFC 3339 text, or `-` when it is
    /// unknown. Times before the Unix epoch or from the year 10000 on cannot
    /// be written this way.
    pub fn rfc3339_label(&self) -> (r: String)
        requires
            self.modified_nanos() matches Some(n) ==> 0 <= n < rfc3339_limit() * 1_000_000_000,
        ensures
            r@ == match self.modified_nanos() {
                Some(n) => rfc3339_text((n / 1_000_000_000) as u64, (n % 1_000_000_000) as u32),
                None => seq!['-'],
            },
    {
        match self.modified {
            Some(n) => {
                let secs = (n / 1_000_000_000) as u64;
                let sub = (n % 1_000_000_000) as u32;
                format_utc(secs, sub)
            },
            None => {
                let mut r = String::new();
                push_char(&mut r, '-');
                r
            },
        }
    }

    /// The modification time in the local time zone as `yy-mm-dd HH:MM`, or
    /// `-` when it is unknown. Times outside the years that `chrono`
    /// represents cannot be shown this way.
    pub fn modified_label(&self) -> (r: String)
        requires
            self.modified_nanos() matches Some(n) ==> local_time_shown(n),
        ensures
            self.modified_nanos() is None ==> r@ == seq!['-'],
            self.modified_nanos() matches Some(n) ==> exists|local: int|
                #![trigger naive_time_text(local, minutes_pattern())]
                n / 1_000_000_000 - max_zone_offset() < local < n / 1_000_000_000
                    + max_zone_offset() && r@ == naive_time_text(local, minutes_pattern()),
    {
        match self.modified {
            None => {
                let mut s = String::new();
                push_char(&mut s, '-');
                s
            },
            Some(nanos) => {
                let (secs, sub) = split_nanos(nanos);
                proof {
                    reveal_strlit("%y-%m-%d %H:%M");
                    vstd::arithmetic::div_mod::lemma_fundamental_div_mod_converse(
                        nanos as int,
                        1_000_000_000,
                        secs as int,
                        sub as int,
                    );
                    assert(local_time_shown(nanos));
                    assert(-8_334_601_228_800 <= secs <= 8_210_266_876_799);
                    assert((secs as i64) as int == secs as int);
                }
                match format_local_minutes(secs as i64, sub, "%y-%m-%d %H:%M") {
                    Some(s) => {
                        proof {
                            let local = choose|local: int|
                                #![trigger naive_time_text(local, minutes_pattern())]
                                secs - max_zone_offset() < local < secs + max_zone_offset() && s@
                                    == naive_time_text(local, minutes_pattern());
                            assert(nanos / 1_000_000_000 == secs);
                            assert(s@ == naive_time_text(local, minutes_pattern()));
                        }
                        s
                    },
                    None => {
                        let mut s = String::new();
                        push_char(&mut s, '-');
                        s
                    },
                }
            },
        }
    }
}

/// The first second that `chrono` represents: the start of the year
/// -262143.
pub open spec fn chrono_first_second() -> int {
    -8_334_601_228_800
}

/// The last second that `chrono` represents: the end of the year 262142.
pub open spec fn chrono_last_second() -> int {
    8_210_266_876_799
}

/// A time, in nanoseconds since the Unix epoch, within the years `chrono`
/// represents.
pub open spec fn local_time_shown(nanos: i128) -> bool {
    chrono_first_second() * 1_000_000_000 <= nanos < (chrono_last_second() + 1) * 1_000_000_000
}

/// Whether `modified_label` can show this time.
pub fn local_time_in_range(nanos: i128) -> (r: bool)
    ensures
        r == local_time_shown(nanos),
{
    -8_334_601_228_800_000_000_000i128 <= nanos && nanos < 8_210_266_876_800_000_000_000i128
}

/// The first second that `humantime` cannot write (year 10000).
pub open spec fn rfc3339_limit() -> nat {
    253_402_300_800
}

/// What `humantime::format_rfc3339` writes for the time `secs` seconds and
/// `nanos` nanoseconds after the Unix epoch: the UTC date and time as
/// `YYYY-MM-DDTHH:MM:SSZ`, with nine digits of fraction before the `Z` when
/// `nanos` is not zero.
pub uninterp spec fn rfc3339_text(secs: u64, nanos: u32) -> Seq<char>;

/// `humantime::format_rfc3339(UNIX_EPOCH + Duration::new(secs, nanos))`,
/// as text. The text is named by `rfc3339_text`; its length is 20 without a
/// fraction and 30 with one, and it ends with `Z`. Its writing fails, and
/// `to_string` panics, from the year 10000 on, so such times are left out.
#[verifier::external_body]
fn format_utc(secs: u64, nanos: u32) -> (r: String)
    requires
        secs < rfc3339_limit(),
        nanos < 1_000_000_000,
    ensures
        r@ == rfc3339_text(secs, nanos),
        r@.len() == (if nanos == 0 { 20int } else { 30int }),
        r@.last() == 'Z',
{
    let t = std::time::UNIX_EPOCH + std::time::Duration::new(secs, nanos);
    humantime::format_rfc3339(t).to_string()
}

/// Splits nanoseconds relative to the Unix epoch into whole seconds (rounded
/// down) and the nanoseconds past them.
pub fn split_nanos(nanos: i128) -> (r: (i128, u32))
    ensures
        r.0 * 1_000_000_000 + r.1 == nanos,
        r.1 < 1_000_000_000,
{
    let q = nanos / 1_000_000_000;
    let m = nanos % 1_000_000_000;
    if m < 0 {
        (q - 1, (m + 1_000_000_000) as u32)
    } else {
        (q, m as u32)
    }
}

/// The pattern the modification time is shown with.
pub open spec fn minutes_pattern() -> Seq<char> {
    "%y-%m-%d %H:%M"@
}

/// What `chrono` writes with `format(pattern)` for the calendar date and
/// time of day that lie `secs` seconds after 1970-01-01 00:00:00.
pub uninterp spec fn naive_time_text(secs: int, pattern: Seq<char>) -> Seq<char>;

/// The largest offset, in seconds, of a time zone from UTC that `chrono`
/// represents (`FixedOffset` stays strictly within a day).
pub open spec fn max_zone_offset() -> int {
    86_400
}

/// `chrono`: the time `secs` seconds and `nanos` nanoseconds after the Unix
/// epoch in the machine's local time zone, formatted with `pattern`.
/// `DateTime::from_timestamp` gives a time for every second within the
/// years it represents; the text is that of the local date and time, which
/// lie less than a day from UTC. Which offset the time zone has is not
/// stated. Only the pattern the library uses is handed in, so the
/// formatting cannot fail.
#[verifier::external_body]
fn format_local_minutes(secs: i64, nanos: u32, pattern: &str) -> (r: Option<String>)
    requires
        pattern@ == minutes_pattern(),
    ensures
        chrono_first_second() <= secs <= chrono_last_second() && nanos < 1_000_000_000 ==> r is Some,
        r matches Some(t) ==> exists|local: int|
            #![trigger naive_time_text(local, pattern@)]
            secs - max_zone_offset() < local < secs + max_zone_offset() && t@ == naive_time_text(
                local,
                pattern@,
            ),
{
    chrono::DateTime::from_timestamp(secs, nanos).map(
        |t| t.with_timezone(&chrono::Local).format(pattern).to_string(),
    )
}

// ---------------------------------------------------------------------------
// Three-way comparisons and the laws the panel order is built from
// ---------------------------------------------------------------------------

/// The opposite outcome of a comparison.
pub open spec fn flip(o: Ordering) -> Ordering {
    match o {
        Ordering::Less => Ordering::Greater,
        Ordering::Equal => Ordering::Equal,
        Ordering::Greater => Ordering::Less,
    }
}

/// Lexicographic comparison of character sequences (`Ord` for `str`).
pub open spec fn text_order(x: Seq<char>, y: Seq<char>) -> Ordering {
    if lex_lt(x, y) {
        Ordering::Less
    } else if x == y {
        Ordering::Equal
    } else {
        Ordering::Greater
    }
}

/// Comparison of integers (`Ord` for integer types).
pub open spec fn int_order(x: int, y: int) -> Ordering {
    if x < y {
        Ordering::Less
    } else if x == y {
        Ordering::Equal
    } else {
        Ordering::Greater
    }
}

/// `a` refined by `b` when `a` is `Equal` (`Ordering::then`).
pub open spec fn then_order(a: Ordering, b: Ordering) -> Ordering {
    if a == Ordering::Equal {
        b
    } else {
        a
    }
}

/// The outcomes `ab`, `bc`, `ac` of comparing three items pairwise obey the
/// laws of a total preorder.
pub open spec fn chain_laws(ab: Ordering, bc: Ordering, ac: Ordering) -> bool {
    &&& ab == Ordering::Equal ==> ac == bc
    &&& bc == Ordering::Equal ==> ac == ab
    &&& ab == Ordering::Less && bc == Ordering::Less ==> ac == Ordering::Less
}

proof fn lemma_text_order_flip(x: Seq<char>, y: Seq<char>)
    ensures
        text_order(y, x) == flip(text_order(x, y)),
{
    lemma_lex_lt_total(x, y);
    lemma_lex_lt_irreflexive(x);
    if lex_lt(x, y) {
        lemma_lex_lt_asymmetric(x, y);
    }
    if lex_lt(y, x) {
        lemma_lex_lt_asymmetric(y, x);
    }
}

proof fn lemma_text_order_chain(x: Seq<char>, y: Seq<char>, z: Seq<char>)
    ensures
        chain_laws(text_order(x, y), text_order(y, z), text_order(x, z)),
{
    lemma_text_order_flip(x, y);
    lemma_text_order_flip(y, z);
    lemma_text_order_flip(x, z);
    lemma_lex_lt_total(x, z);
    if lex_lt(x, y) && lex_lt(y, z) {
        lemma_lex_lt_transitive(x, y, z);
    }
}

proof fn lemma_then_chain(
    pab: Ordering,
    pbc: Ordering,
    pac: Ordering,
    nab: Ordering,
    nbc: Ordering,
    nac: Ordering,
)
    requires
        chain_laws(pab, pbc, pac),
        chain_laws(nab, nbc, nac),
    ensures
        chain_laws(then_order(pab, nab), then_order(pbc, nbc), then_order(pac, nac)),
{
}

// ---------------------------------------------------------------------------
// Sort keys of an entry
// ---------------------------------------------------------------------------

/// `size_key`: the size, or 0 when unknown.
pub open spec fn size_key_of(e: DirEntryView) -> int {
    match e.size_bytes() {
        Some(s) => s as int,
        None => 0,
    }
}

/// `modified_key`: nanoseconds since the Unix epoch, or 0 when the time is
/// unknown or before the epoch.
pub open spec fn modified_key_of(e: DirEntryView) -> int {
    match e.modified_nanos() {
        Some(n) => if n >= 0 {
            n as int
        } else {
            0
        },
        None => 0,
    }
}

/// The case-insensitive (ASCII) comparison of the stems.
pub open spec fn name_order(a: DirEntryView, b: DirEntryView) -> Ordering {
    text_order(ascii_lowercase(a.stem_text()), ascii_lowercase(b.stem_text()))
}

/// The comparison of two files by the chosen column alone.
pub open spec fn column_order(col: SortColumn, a: DirEntryView, b: DirEntryView) -> Ordering {
    match col {
        SortColumn::Name => name_order(a, b),
        SortColumn::Extension => text_order(
            ascii_lowercase(a.extension_text()),
            ascii_lowercase(b.extension_text()),
        ),
        SortColumn::Size => int_order(size_key_of(a), size_key_of(b)),
        SortColumn::Date => int_order(modified_key_of(a), modified_key_of(b)),
        SortColumn::Attributes => text_order(
            ascii_lowercase(a.attribute_text()),
            ascii_lowercase(b.attribute_text()),
        ),
    }
}

/// Two files: by the column, ties broken by name, reversed when descending.
pub open spec fn file_order(col: SortColumn, ord: SortOrder, a: DirEntryView, b: DirEntryView) -> Ordering {
    let o = then_order(column_order(col, a, b), name_order(a, b));
    match ord {
        SortOrder::Ascending => o,
        SortOrder::Descending => flip(o),
    }
}

/// `compare_for_sort`: directories come first and are ordered by name
/// (always ascending); files follow, ordered by `file_order`.
pub open spec fn view_order(col: SortColumn, ord: SortOrder, a: DirEntryView, b: DirEntryView) -> Ordering {
    if a.is_directory() && !b.is_directory() {
        Ordering::Less
    } else if !a.is_directory() && b.is_directory() {
        Ordering::Greater
    } else if a.is_directory() && b.is_directory() {
        name_order(a, b)
    } else {
        file_order(col, ord, a, b)
    }
}

proof fn lemma_column_order(col: SortColumn, a: DirEntryView, b: DirEntryView, c: DirEntryView)
    ensures
        column_order(col, b, a) == flip(column_order(col, a, b)),
        chain_laws(column_order(col, a, b), column_order(col, b, c), column_order(col, a, c)),
{
    match col {
        SortColumn::Name => {
            lemma_text_order_flip(ascii_lowercase(a.stem_text()), ascii_lowercase(b.stem_text()));
            lemma_text_order_chain(
                ascii_lowercase(a.stem_text()),
                ascii_lowercase(b.stem_text()),
                ascii_lowercase(c.stem_text()),
            );
        },
        SortColumn::Extension => {
            lemma_text_order_flip(
                ascii_lowercase(a.extension_text()),
                ascii_lowercase(b.extension_text()),
            );
            lemma_text_order_chain(
                ascii_lowercase(a.extension_text()),
                ascii_lowercase(b.extension_text()),
                ascii_lowercase(c.extension_text()),
            );
        },
        SortColumn::Attributes => {
            lemma_text_order_flip(
                ascii_lowercase(a.attribute_text()),
                ascii_lowercase(b.attribute_text()),
            );
            lemma_text_order_chain(
                ascii_lowercase(a.attribute_text()),
                ascii_lowercase(b.attribute_text()),
                ascii_lowercase(c.attribute_text()),
            );
        },
        _ => {},
    }
}

proof fn lemma_name_order(a: DirEntryView, b: DirEntryView, c: DirEntryView)
    ensures
        name_order(b, a) == flip(name_order(a, b)),
        chain_laws(name_order(a, b), name_order(b, c), name_order(a, c)),
{
    lemma_column_order(SortColumn::Name, a, b, c);
}

proof fn lemma_file_order(col: SortColumn, ord: SortOrder, a: DirEntryView, b: DirEntryView, c: DirEntryView)
    ensures
        file_order(col, ord, b, a) == flip(file_order(col, ord, a, b)),
        chain_laws(file_order(col, ord, a, b), file_order(col, ord, b, c), file_order(col, ord, a, c)),
{
    lemma_column_order(col, a, b, c);
    lemma_column_order(col, c, b, a);
    lemma_column_order(col, b, c, a);
    lemma_column_order(col, a, c, b);
    lemma_name_order(a, b, c);
    lemma_name_order(c, b, a);
    lemma_name_order(b, c, a);
    lemma_name_order(a, c, b);
    lemma_then_chain(
        column_order(col, a, b),
        column_order(col, b, c),
        column_order(col, a, c),
        name_order(a, b),
        name_order(b, c),
        name_order(a, c),
    );
    lemma_then_chain(
        column_order(col, c, b),
        column_order(col, b, a),
        column_order(col, c, a),
        name_order(c, b),
        name_order(b, a),
        name_order(c, a),
    );
}

/// The panel order is a total preorder: comparing the other way round flips
/// the outcome, and outcomes chain.
pub proof fn lemma_view_order(col: SortColumn, ord: SortOrder, a: DirEntryView, b: DirEntryView, c: DirEntryView)
    ensures
        view_order(col, ord, b, a) == flip(view_order(col, ord, a, b)),
        chain_laws(view_order(col, ord, a, b), view_order(col, ord, b, c), view_order(col, ord, a, c)),
{
    lemma_file_order(col, ord, a, b, c);
    lemma_name_order(a, b, c);
}

// ---------------------------------------------------------------------------
// Panel state
// ---------------------------------------------------------------------------

#[derive(Debug, Clone)]
pub struct PanelState {
    pub path: String,
    pub path_input: String,
    pub search: String,
    pub entries: Vec<DirEntryView>,
    pub selected: Option<usize>,
    pub status: PanelStatus,
    pub new_folder: String,
    pub rename_target: Option<usize>,
    pub rename_input: String,
    pub sort_column: SortColumn,
    pub sort_order: SortOrder,
    pub parent_selected: bool,
}

impl PanelState {
    /// The entry at index `i`.
    pub open spec fn entry_at(&self, i: usize) -> DirEntryView {
        self.entries@[i as int]
    }

    /// The panel order on entry indexes.
    pub open spec fn index_order(&self, i: usize, j: usize) -> Ordering {
        view_order(self.sort_column, self.sort_order, self.entry_at(i), self.entry_at(j))
    }

    /// Compares two entries for display (see `view_order`).
    fn compare_for_sort(&self, a_idx: usize, b_idx: usize) -> (r: Ordering)
        requires
            a_idx < self.entries@.len(),
            b_idx < self.entries@.len(),
        ensures
            r == self.index_order(a_idx, b_idx),
    {
        let a_entry = &self.entries[a_idx];
        let b_entry = &self.entries[b_idx];
        if a_entry.is_dir && !b_entry.is_dir {
            return Ordering::Less;
        }
        if !a_entry.is_dir && b_entry.is_dir {
            return Ordering::Greater;
        }
        if a_entry.is_dir && b_entry.is_dir {
            return cmp_insensitive(a_entry.name_label(), b_entry.name_label());
        }
        let mut ordering = match self.sort_column {
            SortColumn::Name => cmp_insensitive(a_entry.name_label(), b_entry.name_label()),
            SortColumn::Extension => cmp_insensitive(
                a_entry.extension_label(),
                b_entry.extension_label(),
            ),
            SortColumn::Size => compare_keys(size_key(a_entry), size_key(b_entry)),
            SortColumn::Date => compare_wide_keys(modified_key(a_entry), modified_key(b_entry)),
            SortColumn::Attributes => cmp_insensitive(
                a_entry.attributes_label(),
                b_entry.attributes_label(),
            ),
        };
        if let Ordering::Equal = ordering {
            ordering = cmp_insensitive(a_entry.name_label(), b_entry.name_label());
        }
        match self.sort_order {
            SortOrder::Ascending => ordering,
            SortOrder::Descending => reversed(ordering),
        }
    }
}

impl WeakOrder<usize> for PanelState {
    open spec fn valid(&self, a: usize) -> bool {
        a < self.entries@.len()
    }

    open spec fn before(&self, a: usize, b: usize) -> bool {
        self.index_order(a, b) == Ordering::Less
    }

    fn is_before(&self, a: &usize, b: &usize) -> (r: bool) {
        match self.compare_for_sort(*a, *b) {
            Ordering::Less => true,
            _ => false,
        }
    }

    proof fn lemma_asymmetric(&self, a: usize, b: usize) {
        lemma_view_order(self.sort_column, self.sort_order, self.entry_at(a), self.entry_at(b), self.entry_at(b));
    }

    proof fn lemma_not_before_transitive(&self, a: usize, b: usize, c: usize) {
        let (x, y, z) = (self.entry_at(a), self.entry_at(b), self.entry_at(c));
        lemma_view_order(self.sort_column, self.sort_order, x, y, z);
        lemma_view_order(self.sort_column, self.sort_order, z, y, x);
        lemma_view_order(self.sort_column, self.sort_order, x, z, y);
    }
}

/// `Ordering::reverse`.
fn reversed(o: Ordering) -> (r: Ordering)
    ensures
        r == flip(o),
{
    match o {
        Ordering::Less => Ordering::Greater,
        Ordering::Equal => Ordering::Equal,
        Ordering::Greater => Ordering::Less,
    }
}

/// Compares the ASCII-lowercased texts.
fn cmp_insensitive(left: &str, right: &str) -> (r: Ordering)
    ensures
        r == text_order(ascii_lowercase(left@), ascii_lowercase(right@)),
{
    let l = to_ascii_lowercase(left);
    let r = to_ascii_lowercase(right);
    if chars_less(&l, &r) {
        Ordering::Less
    } else if chars_equal(&l, &r) {
        Ordering::Equal
    } else {
        Ordering::Greater
    }
}

/// An unsigned key as an integer.
pub open spec fn u64_value(a: u64) -> int {
    a as int
}

/// A signed key as an integer.
pub open spec fn i128_value(a: i128) -> int {
    a as int
}

fn compare_keys(a: u64, b: u64) -> (r: Ordering)
    ensures
        r == int_order(u64_value(a), u64_value(b)),
{
    if a < b {
        Ordering::Less
    } else if a == b {
        Ordering::Equal
    } else {
        Ordering::Greater
    }
}

fn compare_wide_keys(a: i128, b: i128) -> (r: Ordering)
    ensures
        r == int_order(i128_value(a), i128_value(b)),
{
    if a < b {
        Ordering::Less
    } else if a == b {
        Ordering::Equal
    } else {
        Ordering::Greater
    }
}

fn size_key(entry: &DirEntryView) -> (r: u64)
    ensures
        r as int == size_key_of(*entry),
{
    match entry.size() {
        Some(s) => s,
        None => 0,
    }
}

fn modified_key(entry: &DirEntryView) -> (r: i128)
    ensures
        r as int == modified_key_of(*entry),
{
    match entry.modified() {
        Some(n) => if n >= 0 {
            n
        } else {
            0
        },
        None => 0,
    }
}


// ---------------------------------------------------------------------------
// Panel operations
// ---------------------------------------------------------------------------

/// The first index of `x` in `v`, if it occurs.
pub open spec fn position_in(v: Seq<usize>, x: usize) -> Option<int> {
    if exists|i: int| 0 <= i < v.len() && v[i] == x {
        Some(choose|i: int| 0 <= i < v.len() && v[i] == x)
    } else {
        None
    }
}

/// No index occurs twice in `v`.
pub open spec fn all_distinct(v: Seq<usize>) -> bool {
    forall|i: int, j: int| 0 <= i < j < v.len() ==> v[i] != v[j]
}

/// `x` brought into `lo..=hi`.
pub open spec fn clamp(x: int, lo: int, hi: int) -> int {
    if x < lo {
        lo
    } else if x > hi {
        hi
    } else {
        x
    }
}

/// The (selected entry, parent row selected) pair after moving the cursor by
/// `delta` rows over the rows shown: the parent row first when
/// `has_parent`, then the entries `visible` in display order. The cursor
/// starts on the parent row when that is selected, else on the selected
/// entry; without a cursor it starts on the first row (`delta >= 0`) or the
/// last one. The move stops at the first and the last row.
pub open spec fn moved_selection(
    selected: Option<usize>,
    parent_selected: bool,
    delta: int,
    visible: Seq<usize>,
    has_parent: bool,
) -> (Option<usize>, bool) {
    let offset: int = if has_parent {
        1
    } else {
        0
    };
    let total = visible.len() + offset;
    if total == 0 {
        (selected, parent_selected)
    } else {
        let current: Option<int> = if parent_selected {
            Some(0)
        } else {
            match selected {
                Some(s) => match position_in(visible, s) {
                    Some(p) => Some(p + offset),
                    None => None,
                },
                None => None,
            }
        };
        let raw = match current {
            Some(p) => p + delta,
            None => if delta >= 0 {
                0
            } else {
                total - 1
            },
        };
        let new_pos = clamp(raw, 0, total - 1);
        if has_parent && new_pos == 0 {
            (None, true)
        } else {
            (Some(visible[new_pos - offset]), false)
        }
    }
}

/// The shown status line of a panel.
pub open spec fn status_text(panel: PanelState, strings: Strings) -> Seq<char> {
    match panel.status {
        PanelStatus::Ready => {
            let total = decimal(panel.filtered().len());
            match panel.selected_view() {
                Some(e) => replace_all(
                    replace_all(strings.status_selected@, "{total}"@, total),
                    "{name}"@,
                    e.name_text(),
                ),
                None => replace_all(strings.status_items@, "{total}"@, total),
            }
        },
        PanelStatus::Loading => strings.status_loading@,
        PanelStatus::Busy(text) => text@,
        PanelStatus::Error(text) => strings.status_error_prefix@ + seq![':', ' '] + text@,
    }
}

/// `base (n)`
pub open spec fn numbered_name(base: Seq<char>, n: nat) -> Seq<char> {
    base + seq![' ', '('] + decimal(n) + seq![')']
}

impl PanelState {
    /// This is `old` after `set_path(path)`.
    pub open spec fn after_set_path(&self, old: PanelState, path: String) -> bool {
        &&& *self == PanelState {
            path,
            path_input: self.path_input,
            search: self.search,
            selected: None,
            status: PanelStatus::Loading,
            new_folder: self.new_folder,
            rename_target: None,
            rename_input: self.rename_input,
            parent_selected: false,
            ..old
        }
        &&& self.path_input@ == path@
        &&& self.search@.len() == 0
        &&& self.new_folder@.len() == 0
        &&& self.rename_input@.len() == 0
    }

    /// The panel after a click on the header of `column`: the sorted column
    /// flips its order, another column becomes the sorted one, ascending.
    pub open spec fn sorted_on(&self, column: SortColumn) -> PanelState {
        if self.sort_column == column {
            PanelState { sort_order: self.sort_order.flipped(), ..*self }
        } else {
            PanelState { sort_column: column, sort_order: SortOrder::Ascending, ..*self }
        }
    }

    /// This and `other` differ at most in the sort column and order.
    pub open spec fn same_but_sort(&self, other: PanelState) -> bool {
        *self == PanelState { sort_column: self.sort_column, sort_order: self.sort_order, ..other }
    }

    /// The selection, when there is one, names one of the entries.
    pub open spec fn selection_in_range(&self) -> bool {
        self.selected matches Some(i) ==> i < self.entries@.len()
    }

    /// This is `old` after `clear_rename`.
    pub open spec fn after_clear_rename(&self, old: PanelState) -> bool {
        &&& *self == PanelState { rename_target: None, rename_input: self.rename_input, ..old }
        &&& self.rename_input@.len() == 0
    }

    /// Every field but the selection is as in `other`.
    pub open spec fn same_but_selection(&self, other: PanelState) -> bool {
        &&& self.path == other.path
        &&& self.path_input == other.path_input
        &&& self.search == other.search
        &&& self.entries == other.entries
        &&& self.status == other.status
        &&& self.new_folder == other.new_folder
        &&& self.rename_target == other.rename_target
        &&& self.rename_input == other.rename_input
        &&& self.sort_column == other.sort_column
        &&& self.sort_order == other.sort_order
    }

    /// The selected entry, when the selection points into the listing.
    pub open spec fn selected_view(&self) -> Option<DirEntryView> {
        match self.selected {
            Some(i) => if i < self.entries@.len() {
                Some(self.entries@[i as int])
            } else {
                None
            },
            None => None,
        }
    }

    /// The entry at `i` matches the search text, ignoring case.
    pub open spec fn matches_search(&self, i: int) -> bool {
        contains_seq(
            unicode_lowercase(self.entries@[i].name_text()),
            unicode_lowercase(self.search@),
        )
    }

    /// The indexes below `k` of entries that match the search text.
    pub open spec fn matching_upto(&self, k: int) -> Seq<usize>
        decreases k,
    {
        if k <= 0 {
            Seq::empty()
        } else if self.matches_search(k - 1) {
            self.matching_upto(k - 1).push((k - 1) as usize)
        } else {
            self.matching_upto(k - 1)
        }
    }

    /// The indexes of the entries the filter lets through, ascending: all of
    /// them when the search text is blank.
    pub open spec fn filtered(&self) -> Seq<usize> {
        if trim(self.search@).len() == 0 {
            Seq::new(self.entries@.len(), |i: int| i as usize)
        } else {
            self.matching_upto(self.entries@.len() as int)
        }
    }

    /// Some entry is named `s`.
    pub open spec fn name_taken(&self, s: Seq<char>) -> bool {
        exists|i: int| 0 <= i < self.entries@.len() && #[trigger] self.entries@[i].name_text() == s
    }

    /// The first of `base (idx)`, `base (idx + 1)`, ... up to `base (999)`
    /// that no entry is named; `base (n + 1)` for `n` entries when all are.
    pub open spec fn first_free_from(&self, base: Seq<char>, idx: nat) -> Seq<char>
        decreases 1000 - idx,
    {
        if idx >= 1000 {
            numbered_name(base, self.entries@.len() + 1)
        } else if !self.name_taken(numbered_name(base, idx)) {
            numbered_name(base, idx)
        } else {
            self.first_free_from(base, idx + 1)
        }
    }

    /// The name suggested for a new folder: `base` when free, else the first
    /// free numbered variant.
    pub open spec fn suggested_name(&self, base: Seq<char>) -> Seq<char> {
        if !self.name_taken(base) {
            base
        } else {
            self.first_free_from(base, 2)
        }
    }

    /// The matching indexes below `k` are ascending and below `k`.
    pub proof fn lemma_matching_upto(&self, k: int)
        requires
            0 <= k <= self.entries@.len(),
        ensures
            self.matching_upto(k).len() <= k,
            forall|i: int| 0 <= i < self.matching_upto(k).len() ==> #[trigger] self.matching_upto(k)[i] < k,
            forall|i: int, j: int| 0 <= i < j < self.matching_upto(k).len() ==> self.matching_upto(k)[i] < self.matching_upto(k)[j],
        decreases k,
    {
        assert(self.entries.len() == self.entries@.len());
        if k > 0 {
            self.lemma_matching_upto(k - 1);
            let prev = self.matching_upto(k - 1);
            let cur = self.matching_upto(k);
            if self.matches_search(k - 1) {
                assert forall|i: int, j: int| 0 <= i < j < cur.len() implies cur[i] < cur[j] by {
                    if j == cur.len() - 1 {
                        assert(cur[i] == prev[i]);
                    } else {
                        assert(cur[i] == prev[i] && cur[j] == prev[j]);
                    }
                }
            }
        }
    }

    /// The filtered indexes are valid, ascending and no more than the entries.
    pub proof fn lemma_filtered(&self)
        ensures
            self.filtered().len() <= self.entries@.len(),
            forall|i: int| 0 <= i < self.filtered().len() ==> #[trigger] self.filtered()[i] < self.entries@.len(),
            forall|i: int, j: int| 0 <= i < j < self.filtered().len() ==> self.filtered()[i] < self.filtered()[j],
    {
        self.lemma_matching_upto(self.entries@.len() as int);
        assert(self.entries.len() == self.entries@.len());
        let f = self.filtered();
        if trim(self.search@).len() == 0 {
            assert forall|i: int, j: int| 0 <= i < j < f.len() implies f[i] < f[j] by {
                assert(f[i] == i as usize && f[j] == j as usize);
            }
        }
    }

    /// A panel on `path` with nothing listed yet, sorted by name, ascending.
    pub fn new(path: String) -> (r: Self)
        ensures
            r.path@ == path@,
            r.path_input@ == path@,
            r.search@.len() == 0,
            r.entries@.len() == 0,
            r.selected is None,
            r.status is Ready,
            r.new_folder@.len() == 0,
            r.rename_target is None,
            r.rename_input@.len() == 0,
            r.sort_column == SortColumn::Name,
            r.sort_order == SortOrder::Ascending,
            !r.parent_selected,
    {
        let path_input = string_from_str(path.as_str());
        PanelState {
            path,
            path_input,
            search: String::new(),
            entries: Vec::new(),
            selected: None,
            status: PanelStatus::Ready,
            new_folder: String::new(),
            rename_target: None,
            rename_input: String::new(),
            sort_column: SortColumn::Name,
            sort_order: SortOrder::Ascending,
            parent_selected: false,
        }
    }

    /// Points the panel at another directory: the inputs, the selection and
    /// a pending rename are reset and the panel waits for its listing.
    pub fn set_path(&mut self, path: String)
        ensures
            final(self).after_set_path(*old(self), path),
    {
        self.path_input = string_from_str(path.as_str());
        self.path = path;
        self.search = String::new();
        self.selected = None;
        self.status = PanelStatus::Loading;
        self.new_folder = String::new();
        self.rename_target = None;
        self.rename_input = String::new();
        self.parent_selected = false;
    }

    /// The directory has a parent to go up to (`Path::parent`).
    pub fn can_go_up(&self) -> (r: bool)
        ensures
            self.path@.len() == 0 ==> !r,
            self.path@ == seq!['/'] ==> !r,
            is_tidy_path(self.path@) ==> r,
    {
        path_has_parent(self.path.as_str())
    }

    /// Nothing is selected any more, not even the parent row.
    pub fn clear_selection(&mut self)
        ensures
            *final(self) == (PanelState { selected: None, parent_selected: false, ..*old(self) }),
    {
        self.selected = None;
        self.parent_selected = false;
    }

    /// The selected entry, when the selection names one.
    pub fn selected_entry(&self) -> (r: Option<&DirEntryView>)
        ensures
            match r {
                Some(e) => self.selected_view() == Some(*e),
                None => self.selected_view() is None,
            },
    {
        match self.selected {
            Some(idx) => if idx < self.entries.len() {
                Some(&self.entries[idx])
            } else {
                None
            },
            None => None,
        }
    }

    /// Copy, delete, rename and compress apply: an entry is selected.
    pub fn has_selection(&self) -> (r: bool)
        ensures
            r == self.selected_view() is Some,
    {
        self.selected_entry().is_some()
    }

    /// View, edit and hashing apply: the selected entry is a file.
    pub fn file_selected(&self) -> (r: bool)
        ensures
            r == (self.selected_view() matches Some(e) && !e.is_directory()),
    {
        match self.selected_entry() {
            Some(e) => !e.entry_is_dir(),
            None => false,
        }
    }

    /// A folder can be created: the folder name input is not blank.
    pub fn folder_name_given(&self) -> (r: bool)
        ensures
            r == (trim(self.new_folder@).len() > 0),
    {
        !is_blank(self.new_folder.as_str())
    }

    /// A rename can be submitted: the new name input is not blank.
    pub fn rename_name_given(&self) -> (r: bool)
        ensures
            r == (trim(self.rename_input@).len() > 0),
    {
        !is_blank(self.rename_input.as_str())
    }

    /// The indexes of the entries whose lowercase name contains the
    /// lowercase search text, ascending; all indexes when the search text
    /// is blank.
    pub fn filtered_indexes(&self) -> (r: Vec<usize>)
        ensures
            r@ == self.filtered(),
    {
        let n = self.entries.len();
        if is_blank(self.search.as_str()) {
            let mut all: Vec<usize> = Vec::new();
            for i in 0..n
                invariant
                    n == self.entries@.len(),
                    all@ == Seq::new(i as nat, |j: int| j as usize),
            {
                all.push(i);
                assert(all@ =~= Seq::new((i + 1) as nat, |j: int| j as usize));
            }
            return all;
        }
        let needle_text = to_lowercase(self.search.as_str());
        let needle = chars_of(needle_text.as_str());
        let mut res: Vec<usize> = Vec::new();
        for idx in 0..n
            invariant
                n == self.entries@.len(),
                needle@ == unicode_lowercase(self.search@),
                res@ == self.matching_upto(idx as int),
        {
            let lower = to_lowercase(self.entries[idx].name.as_str());
            let hay = chars_of(lower.as_str());
            if chars_contain(&hay, &needle) {
                res.push(idx);
            }
        }
        res
    }

    /// The filtered indexes in display order (a stable sort by
    /// `compare_for_sort`).
    pub fn visible_indexes(&self) -> (r: Vec<usize>)
        ensures
            is_stable_sort(self, self.filtered(), r@),
    {
        let indexes = self.filtered_indexes();
        proof {
            self.lemma_filtered();
        }
        stable_sort(self, indexes)
    }

    /// Clicking a column header: the same column flips the order, another
    /// column sorts by it ascending.
    pub fn toggle_sort(&mut self, column: SortColumn)
        ensures
            *final(self) == old(self).sorted_on(column),
    {
        if self.sort_column == column {
            self.sort_order = self.sort_order.toggled();
        } else {
            self.sort_column = column;
            self.sort_order = SortOrder::Ascending;
        }
    }

    /// Abandons a pending rename.
    pub fn clear_rename(&mut self)
        ensures
            final(self).after_clear_rename(*old(self)),
    {
        self.rename_target = None;
        self.rename_input = String::new();
    }

    /// Moves the cursor by `delta` rows over the rows `visible` (entry
    /// indexes in display order), below a parent row when `has_parent`.
    pub fn move_selection_among(&mut self, delta: i32, visible: &Vec<usize>, has_parent: bool)
        requires
            visible@.len() < i32::MAX,
            all_distinct(visible@),
        ensures
            (final(self).selected, final(self).parent_selected) == moved_selection(
                old(self).selected,
                old(self).parent_selected,
                delta as int,
                visible@,
                has_parent,
            ),
            final(self).same_but_selection(*old(self)),
    {
        let offset: i64 = if has_parent {
            1
        } else {
            0
        };
        let total: i64 = visible.len() as i64 + offset;
        if total == 0 {
            return;
        }
        let current: Option<i64> = if self.parent_selected {
            Some(0)
        } else {
            match self.selected {
                Some(s) => match find_index(visible, s) {
                    Some(p) => Some(p as i64 + offset),
                    None => None,
                },
                None => None,
            }
        };
        let mut new_pos: i64 = match current {
            Some(p) => p + delta as i64,
            None => if delta >= 0 {
                0
            } else {
                total - 1
            },
        };
        if new_pos < 0 {
            new_pos = 0;
        }
        if new_pos > total - 1 {
            new_pos = total - 1;
        }
        if has_parent && new_pos == 0 {
            self.parent_selected = true;
            self.selected = None;
            return;
        }
        let entry_index = (new_pos - offset) as usize;
        self.selected = Some(visible[entry_index]);
        self.parent_selected = false;
    }

    /// Moves the cursor by `delta` rows over what the panel shows: a parent
    /// row when the directory has one, then the visible entries.
    pub fn move_selection(&mut self, delta: i32)
        requires
            old(self).entries@.len() < i32::MAX,
        ensures
            exists|visible: Seq<usize>, has_parent: bool|
                #![trigger is_stable_sort(old(self), old(self).filtered(), visible), moved_selection(old(self).selected, old(self).parent_selected, delta as int, visible, has_parent)]
                is_stable_sort(old(self), old(self).filtered(), visible) && row_above(
                    old(self).path@,
                    has_parent,
                ) && (final(self).selected, final(self).parent_selected)
                    == moved_selection(
                    old(self).selected,
                    old(self).parent_selected,
                    delta as int,
                    visible,
                    has_parent,
                ),
            final(self).same_but_selection(*old(self)),
    {
        let visible = self.visible_indexes();
        let has_parent = self.can_go_up();
        proof {
            self.lemma_filtered();
            lemma_sorted_distinct(self, self.filtered(), visible@);
        }
        let ghost old_self = *self;
        self.move_selection_among(delta, &visible, has_parent);
        assert(is_stable_sort(&old_self, old_self.filtered(), visible@));
    }

    /// The status line: the item count and selection when ready, otherwise
    /// the loading, busy or error text.
    pub fn status_message(&self, strings: &Strings) -> (r: String)
        ensures
            r@ == status_text(*self, *strings),
    {
        match &self.status {
            PanelStatus::Ready => {
                let total = self.filtered_indexes().len();
                let total_str = decimal_chars(total as u128);
                let key_total = chars_of("{total}");
                proof {
                    reveal_strlit("{total}");
                }
                match self.selected_entry() {
                    Some(entry) => {
                        let key_name = chars_of("{name}");
                        proof {
                            reveal_strlit("{name}");
                        }
                        let template = chars_of(strings.status_selected.as_str());
                        let step = replace(&template, &key_total, &total_str);
                        let name = chars_of(entry.name.as_str());
                        let text = replace(&step, &key_name, &name);
                        string_from_chars(&text)
                    },
                    None => {
                        let template = chars_of(strings.status_items.as_str());
                        let text = replace(&template, &key_total, &total_str);
                        string_from_chars(&text)
                    },
                }
            },
            PanelStatus::Loading => string_from_str(strings.status_loading.as_str()),
            PanelStatus::Busy(text) => string_from_str(text.as_str()),
            PanelStatus::Error(text) => {
                let mut s = string_from_str(strings.status_error_prefix.as_str());
                push_char(&mut s, ':');
                push_char(&mut s, ' ');
                push_str(&mut s, text.as_str());
                s
            },
        }
    }

    /// Some entry is named exactly `name`.
    fn has_entry_named(&self, name: &Vec<char>) -> (r: bool)
        ensures
            r == self.name_taken(name@),
    {
        let n = self.entries.len();
        for i in 0..n
            invariant
                n == self.entries@.len(),
                forall|j: int| 0 <= j < i ==> self.entries@[j].name_text() != name@,
        {
            let candidate = chars_of(self.entries[i].name.as_str());
            if chars_equal(&candidate, name) {
                assert(self.entries@[i as int].name_text() == name@);
                return true;
            }
        }
        false
    }

    /// A name for a new folder that no entry has: `base`, else the first of
    /// `base (2)` ... `base (999)` that is free, else `base (n + 1)` for `n`
    /// entries.
    pub fn suggest_new_folder_name(&self, base: &str) -> (r: String)
        ensures
            r@ == self.suggested_name(base@),
    {
        let base_chars = chars_of(base);
        if !self.has_entry_named(&base_chars) {
            return string_from_chars(&base_chars);
        }
        let mut idx: u128 = 2;
        while idx < 1000
            invariant
                2 <= idx <= 1000,
                base_chars@ == base@,
                self.name_taken(base@),
                self.suggested_name(base@) == self.first_free_from(base@, idx as nat),
            decreases 1000 - idx,
        {
            let candidate = numbered(&base_chars, idx);
            if !self.has_entry_named(&candidate) {
                return string_from_chars(&candidate);
            }
            idx = idx + 1;
        }
        let count = self.entries.len() as u128 + 1;
        let candidate = numbered(&base_chars, count);
        string_from_chars(&candidate)
    }
}

/// `base (n)`
fn numbered(base: &Vec<char>, n: u128) -> (r: Vec<char>)
    ensures
        r@ == numbered_name(base@, n as nat),
{
    let mut r: Vec<char> = Vec::new();
    let len = base.len();
    for i in 0..len
        invariant
            len == base@.len(),
            r@ == base@.take(i as int),
    {
        r.push(base[i]);
        assert(base@.take(i + 1) == base@.take(i as int).push(base@[i as int]));
    }
    assert(base@.take(len as int) == base@);
    r.push(' ');
    r.push('(');
    let digits = decimal_chars(n);
    let dl = digits.len();
    let ghost start = r@;
    for i in 0..dl
        invariant
            dl == digits@.len(),
            r@ == start + digits@.take(i as int),
    {
        r.push(digits[i]);
        assert(digits@.take(i + 1) == digits@.take(i as int).push(digits@[i as int]));
    }
    assert(digits@.take(dl as int) == digits@);
    r.push(')');
    r
}

/// The first index of `x` in `v`.
fn find_index(v: &Vec<usize>, x: usize) -> (r: Option<usize>)
    ensures
        match r {
            Some(i) => i < v@.len() && v@[i as int] == x,
            None => forall|j: int| 0 <= j < v@.len() ==> v@[j] != x,
        },
{
    let n = v.len();
    for i in 0..n
        invariant
            n == v@.len(),
            forall|j: int| 0 <= j < i ==> v@[j] != x,
    {
        if v[i] == x {
            return Some(i);
        }
    }
    None
}

/// A stable sort of distinct indexes has distinct indexes.
proof fn lemma_sorted_distinct(o: &PanelState, input: Seq<usize>, output: Seq<usize>)
    requires
        is_stable_sort(o, input, output),
        all_distinct(input),
    ensures
        all_distinct(output),
        output.len() == input.len(),
{
    let p = choose|p: Seq<int>| #![trigger arranges(input, output, p)] arranges(input, output, p) && sorted_by(o, output) && stable_by(o, output, p);
    assert forall|i: int, j: int| 0 <= i < j < output.len() implies output[i] != output[j] by {
        assert(output[i] == input[p[i]]);
        assert(output[j] == input[p[j]]);
        assert(p[i] != p[j]);
        if p[i] < p[j] {
            assert(input[p[i]] != input[p[j]]);
        } else {
            assert(input[p[j]] != input[p[i]]);
        }
    }
}

// ---------------------------------------------------------------------------
// Laws
// ---------------------------------------------------------------------------

/// Switching to the other side twice comes back to the same side.
pub proof fn lemma_side_opposite_twice(side: Side)
    ensures
        side.opposite().opposite() == side,
{
}

/// Toggling the sort order twice restores it.
pub proof fn lemma_sort_order_toggled_twice(order: SortOrder)
    ensures
        order.flipped().flipped() == order,
{
}

/// Toggling the theme twice restores it.
pub proof fn lemma_theme_toggled_twice(theme: ThemeMode)
    ensures
        theme.switched().switched() == theme,
{
}

/// Clicking the same column header twice: on the sorted column the order
/// comes back to what it was; on another column that column ends up
/// sorted in descending order. Nothing else changes.
pub proof fn lemma_toggle_sort_twice(p: PanelState, column: SortColumn)
    ensures
        p.sorted_on(column).sorted_on(column).sort_column == column,
        p.sorted_on(column).sorted_on(column).sort_order == (if p.sort_column == column {
            p.sort_order
        } else {
            SortOrder::Descending
        }),
        p.sorted_on(column).sorted_on(column).same_but_sort(p),
{
}

/// Whether a parent row is shown above the entries of the directory
/// `path` is `has_parent`: never for the empty path and the root, always
/// for a tidy path.
pub open spec fn row_above(path: Seq<char>, has_parent: bool) -> bool {
    &&& path.len() == 0 || path == seq!['/'] ==> !has_parent
    &&& is_tidy_path(path) ==> has_parent
}

/// `row` is a shown row: the parent row (when the directory has one), or a
/// visible entry.
pub open spec fn shown_row(row: (Option<usize>, bool), visible: Seq<usize>, has_parent: bool) -> bool {
    ||| has_parent && row.1 && row.0 is None
    ||| !row.1 && (row.0 matches Some(i) && visible.contains(i))
}

/// Moving the cursor always lands on a row that is shown: the parent row
/// (only when there is one) or one of the visible entries; with no row
/// shown the selection stays as it was.
pub proof fn lemma_moved_selection_shown(
    selected: Option<usize>,
    parent_selected: bool,
    delta: int,
    visible: Seq<usize>,
    has_parent: bool,
)
    ensures
        visible.len() == 0 && !has_parent ==> moved_selection(
            selected,
            parent_selected,
            delta,
            visible,
            has_parent,
        ) == (selected, parent_selected),
        visible.len() > 0 || has_parent ==> shown_row(
            moved_selection(selected, parent_selected, delta, visible, has_parent),
            visible,
            has_parent,
        ),
{
    let offset: int = if has_parent {
        1
    } else {
        0
    };
    let total = visible.len() + offset;
    if total > 0 {
        let current: Option<int> = if parent_selected {
            Some(0)
        } else {
            match selected {
                Some(s) => match position_in(visible, s) {
                    Some(p) => Some(p + offset),
                    None => None,
                },
                None => None,
            }
        };
        let raw = match current {
            Some(p) => p + delta,
            None => if delta >= 0 {
                0
            } else {
                total - 1
            },
        };
        let new_pos = clamp(raw, 0, total - 1);
        if !(has_parent && new_pos == 0) {
            assert(visible.contains(visible[new_pos - offset]));
        }
    }
}

/// A cursor moved over the shown rows of a panel whose selection names one
/// of its entries still names one of them.
pub proof fn lemma_moved_selection_in_range(p: PanelState, delta: int, visible: Seq<usize>, has_parent: bool)
    requires
        p.selection_in_range(),
        is_stable_sort(&p, p.filtered(), visible),
    ensures
        moved_selection(p.selected, p.parent_selected, delta, visible, has_parent).0 matches Some(i)
            ==> i < p.entries@.len(),
{
    lemma_moved_selection_shown(p.selected, p.parent_selected, delta, visible, has_parent);
    p.lemma_filtered();
    let r = moved_selection(p.selected, p.parent_selected, delta, visible, has_parent);
    if visible.len() > 0 || has_parent {
        if let Some(i) = r.0 {
            let k = choose|k: int| 0 <= k < visible.len() && visible[k] == i;
            let q = choose|q: Seq<int>|
                #![trigger arranges(p.filtered(), visible, q)]
                arranges(p.filtered(), visible, q) && sorted_by(&p, visible) && stable_by(&p, visible, q);
            assert(visible[k] == p.filtered()[q[k]]);
        }
    }
}

/// The suggested folder name is free, unless the base name and all of its
/// numbered variants from `base (2)` to `base (999)` are taken.
pub proof fn lemma_suggested_name_free(p: PanelState, base: Seq<char>)
    ensures
        !p.name_taken(p.suggested_name(base)) || (p.name_taken(base) && forall|n: nat|
            2 <= n < 1000 ==> p.name_taken(#[trigger] numbered_name(base, n))),
{
    if p.name_taken(base) {
        lemma_first_free_from(p, base, 2);
    }
}

/// The `k`-th name tried for a new folder: the base name (`k` = 1), then
/// `base (k)`.
pub open spec fn candidate_name(base: Seq<char>, k: int) -> Seq<char> {
    if k <= 1 {
        base
    } else {
        numbered_name(base, k as nat)
    }
}

proof fn lemma_decimal_len(n: nat)
    ensures
        decimal(n).len() >= 1,
        n >= 10 ==> decimal(n).len() >= 2,
    decreases n,
{
    if n >= 10 {
        lemma_decimal_len(n / 10);
    }
}

/// Different digits are different characters.
proof fn lemma_digit_char_injective(x: nat, y: nat)
    requires
        x < 10,
        y < 10,
        digit_char(x) == digit_char(y),
    ensures
        x == y,
{
    assert(digit_char(x) as u32 == 48 + x);
    assert(digit_char(y) as u32 == 48 + y);
}

/// Different numbers are written differently.
proof fn lemma_decimal_injective(a: nat, b: nat)
    requires
        decimal(a) == decimal(b),
    ensures
        a == b,
    decreases a,
{
    lemma_decimal_len(a);
    lemma_decimal_len(b);
    if a >= 10 && b >= 10 {
        assert(decimal(a).drop_last() == decimal(a / 10));
        assert(decimal(b).drop_last() == decimal(b / 10));
        assert(decimal(a) == decimal(a / 10).push(digit_char(a % 10)));
        assert(decimal(b) == decimal(b / 10).push(digit_char(b % 10)));
        assert(decimal(a).last() == digit_char(a % 10));
        assert(decimal(b).last() == digit_char(b % 10));
        assert(digit_char(a % 10) == digit_char(b % 10));
        lemma_digit_char_injective(a % 10, b % 10);
        lemma_decimal_injective(a / 10, b / 10);
    } else if a < 10 && b < 10 {
        assert(decimal(a) == seq![digit_char(a)]);
        assert(decimal(b) == seq![digit_char(b)]);
        assert(decimal(a)[0] == digit_char(a));
        assert(decimal(b)[0] == digit_char(b));
        assert(digit_char(a) == digit_char(b));
        lemma_digit_char_injective(a, b);
    }
}

/// The names tried for a new folder are all different.
proof fn lemma_candidates_distinct(base: Seq<char>, j: int, k: int)
    requires
        1 <= j < k,
    ensures
        candidate_name(base, j) != candidate_name(base, k),
{
    let nk = candidate_name(base, k);
    lemma_decimal_len(k as nat);
    if j == 1 {
        assert(nk.len() > base.len());
    } else {
        let nj = candidate_name(base, j);
        lemma_decimal_len(j as nat);
        if nj == nk {
            let start = base.len() as int + 2;
            assert(nj.subrange(start, nj.len() - 1) == decimal(j as nat));
            assert(nk.subrange(start, nk.len() - 1) == decimal(k as nat));
            lemma_decimal_injective(j as nat, k as nat);
        }
    }
}

/// With fewer than 999 entries in the directory, the suggested folder name
/// is always one that no entry has.
pub proof fn lemma_suggested_name_new(p: PanelState, base: Seq<char>)
    requires
        p.entries@.len() < 999,
    ensures
        !p.name_taken(p.suggested_name(base)),
{
    lemma_suggested_name_free(p, base);
    if p.name_taken(p.suggested_name(base)) {
        let n = p.entries@.len() as int;
        let names = set_int_range(1, 1000);
        assert forall|k: int| names.contains(k) implies p.name_taken(#[trigger] candidate_name(base, k)) by {
            if k >= 2 {
                assert(p.name_taken(numbered_name(base, k as nat)));
            }
        }
        let owner = |k: int|
            choose|i: int| 0 <= i < n && #[trigger] p.entries@[i].name_text() == candidate_name(base, k);
        assert forall|k: int| names.contains(k) implies 0 <= #[trigger] owner(k) < n
            && p.entries@[owner(k)].name_text() == candidate_name(base, k) by {
            assert(p.name_taken(candidate_name(base, k)));
        }
        assert forall|j: int, k: int|
            names.contains(j) && names.contains(k) && #[trigger] owner(j) == #[trigger] owner(k) implies j == k by {
            if j < k {
                lemma_candidates_distinct(base, j, k);
            } else if k < j {
                lemma_candidates_distinct(base, k, j);
            }
        }
        lemma_int_range(1, 1000);
        let owners = names.map(owner);
        lemma_map_size(names, owners, owner);
        lemma_int_range(0, n);
        assert(owners.subset_of(set_int_range(0, n)));
        lemma_len_subset(owners, set_int_range(0, n));
    }
}

proof fn lemma_first_free_from(p: PanelState, base: Seq<char>, idx: nat)
    requires
        idx <= 1000,
    ensures
        !p.name_taken(p.first_free_from(base, idx)) || forall|n: nat|
            idx <= n < 1000 ==> p.name_taken(#[trigger] numbered_name(base, n)),
    decreases 1000 - idx,
{
    if idx < 1000 && p.name_taken(numbered_name(base, idx)) {
        lemma_first_free_from(p, base, idx + 1);
    }
}

// ---------------------------------------------------------------------------
// What the shown rows and the status line are
// ---------------------------------------------------------------------------

/// The size shown for an entry in the Size column's order: its size, or 0
/// when unknown.
pub open spec fn shown_size(e: DirEntryView) -> int {
    match e.size_bytes() {
        Some(s) => s as int,
        None => 0,
    }
}

/// The time used by the Date column's order: nanoseconds since the epoch,
/// or 0 when unknown or earlier.
pub open spec fn shown_time(e: DirEntryView) -> int {
    match e.modified_nanos() {
        Some(n) => if n >= 0 {
            n as int
        } else {
            0
        },
        None => 0,
    }
}

/// Of two files shown in the order `a` then `b`, `b` does not come first in
/// the sorted column: ascending, `b`'s key (lowercase stem, lowercase
/// extension, size, time or lowercase attributes) is not smaller than
/// `a`'s; descending, it is not larger.
pub open spec fn column_keys_in_order(col: SortColumn, ord: SortOrder, a: DirEntryView, b: DirEntryView) -> bool {
    let up = ord == SortOrder::Ascending;
    match col {
        SortColumn::Name => {
            let (x, y) = (ascii_lowercase(a.stem_text()), ascii_lowercase(b.stem_text()));
            if up { !lex_lt(y, x) } else { lex_lt(y, x) || x == y }
        },
        SortColumn::Extension => {
            let (x, y) = (ascii_lowercase(a.extension_text()), ascii_lowercase(b.extension_text()));
            if up { !lex_lt(y, x) } else { lex_lt(y, x) || x == y }
        },
        SortColumn::Size => if up { shown_size(a) <= shown_size(b) } else { shown_size(b) <= shown_size(a) },
        SortColumn::Date => if up { shown_time(a) <= shown_time(b) } else { shown_time(b) <= shown_time(a) },
        SortColumn::Attributes => {
            let (x, y) = (ascii_lowercase(a.attribute_text()), ascii_lowercase(b.attribute_text()));
            if up { !lex_lt(y, x) } else { lex_lt(y, x) || x == y }
        },
    }
}

/// `a` and `b` have the same key in the column (compared as `column_keys_in_order` does).
pub open spec fn same_column_key(col: SortColumn, a: DirEntryView, b: DirEntryView) -> bool {
    match col {
        SortColumn::Name => ascii_lowercase(a.stem_text()) == ascii_lowercase(b.stem_text()),
        SortColumn::Extension => ascii_lowercase(a.extension_text()) == ascii_lowercase(b.extension_text()),
        SortColumn::Size => shown_size(a) == shown_size(b),
        SortColumn::Date => shown_time(a) == shown_time(b),
        SortColumn::Attributes => ascii_lowercase(a.attribute_text()) == ascii_lowercase(b.attribute_text()),
    }
}

/// The shown rows are sorted by the chosen column: directories come before
/// files, and of two files the one shown later never has a key that sorts
/// before the earlier one's in the chosen direction, files with the same
/// key following their names in that direction. Directories follow their
/// names ascending. Sorting by Extension ascending thus puts the file with
/// the smaller lowercase extension first, whatever the sizes.
pub proof fn lemma_rows_follow_sorted_column(p: PanelState, rows: Seq<usize>, i: int, j: int)
    requires
        is_stable_sort(&p, p.filtered(), rows),
        0 <= i < j < rows.len(),
    ensures
        p.entry_at(rows[j]).is_directory() ==> p.entry_at(rows[i]).is_directory(),
        !p.entry_at(rows[i]).is_directory() && !p.entry_at(rows[j]).is_directory()
            ==> column_keys_in_order(p.sort_column, p.sort_order, p.entry_at(rows[i]), p.entry_at(rows[j])),
        p.entry_at(rows[i]).is_directory() && p.entry_at(rows[j]).is_directory() ==> !lex_lt(
            ascii_lowercase(p.entry_at(rows[j]).stem_text()),
            ascii_lowercase(p.entry_at(rows[i]).stem_text()),
        ),
        !p.entry_at(rows[i]).is_directory() && !p.entry_at(rows[j]).is_directory() && same_column_key(
            p.sort_column,
            p.entry_at(rows[i]),
            p.entry_at(rows[j]),
        ) ==> column_keys_in_order(SortColumn::Name, p.sort_order, p.entry_at(rows[i]), p.entry_at(rows[j])),
{
    let perm = choose|q: Seq<int>|
        arranges(p.filtered(), rows, q) && sorted_by(&p, rows) && stable_by(&p, rows, q);
    assert(sorted_by(&p, rows));
    assert(!p.before(rows[j], rows[i]));
    let a = p.entry_at(rows[i]);
    let b = p.entry_at(rows[j]);
    assert(view_order(p.sort_column, p.sort_order, b, a) != Ordering::Less);
    lemma_lex_lt_irreflexive(ascii_lowercase(a.stem_text()));
    lemma_lex_lt_irreflexive(ascii_lowercase(a.extension_text()));
    lemma_lex_lt_irreflexive(ascii_lowercase(a.attribute_text()));
}

/// The indexes of the entries below `k` that match the search text are
/// exactly those that `matching_upto(k)` holds.
proof fn lemma_matching_upto_holds(p: PanelState, k: int, i: int)
    requires
        0 <= k <= p.entries@.len(),
        0 <= i < p.entries@.len(),
    ensures
        p.matching_upto(k).contains(i as usize) <==> (i < k && p.matches_search(i)),
    decreases k,
{
    if k > 0 {
        lemma_matching_upto_holds(p, k - 1, i);
        p.lemma_matching_upto(k - 1);
        let prev = p.matching_upto(k - 1);
        if p.matches_search(k - 1) {
            let cur = prev.push((k - 1) as usize);
            if cur.contains(i as usize) && i != k - 1 {
                let w = choose|x: int| 0 <= x < cur.len() && cur[x] == i as usize;
                assert(p.entries.len() == p.entries@.len());
                if w == prev.len() {
                    assert(cur[w] == (k - 1) as usize);
                }
                assert(w < prev.len());
                assert(prev[w] == i as usize);
            }
            if prev.contains(i as usize) {
                let w = choose|x: int| 0 <= x < prev.len() && prev[x] == i as usize;
                assert(cur[w] == i as usize);
            }
            if i == k - 1 {
                assert(cur[prev.len() as int] == i as usize);
            }
        }
    }
}

/// The search keeps an entry exactly when its lowercase name holds the
/// lowercase search text somewhere (not only at its start); a blank search
/// keeps every entry.
pub proof fn lemma_search_finds_contained_names(p: PanelState, i: int)
    requires
        0 <= i < p.entries@.len(),
    ensures
        trim(p.search@).len() == 0 ==> p.filtered().contains(i as usize),
        trim(p.search@).len() > 0 ==> (p.filtered().contains(i as usize) <==> exists|k: int|
            0 <= k && k + unicode_lowercase(p.search@).len() <= unicode_lowercase(
                p.entries@[i].name_text(),
            ).len() && #[trigger] unicode_lowercase(p.entries@[i].name_text()).subrange(
                k,
                k + unicode_lowercase(p.search@).len(),
            ) == unicode_lowercase(p.search@)),
{
    if trim(p.search@).len() == 0 {
        assert(p.filtered()[i] == i as usize);
    } else {
        lemma_matching_upto_holds(p, p.entries@.len() as int, i);
        let hay = unicode_lowercase(p.entries@[i].name_text());
        let needle = unicode_lowercase(p.search@);
        if p.matches_search(i) {
            let w = choose|x: int| occurs_at(hay, needle, x);
            assert(hay.subrange(w, w + needle.len()) == needle);
        }
        if exists|k: int|
            0 <= k && k + needle.len() <= hay.len() && #[trigger] hay.subrange(k, k + needle.len())
                == needle {
            let w = choose|k: int|
                0 <= k && k + needle.len() <= hay.len() && #[trigger] hay.subrange(k, k + needle.len())
                    == needle;
            assert(occurs_at(hay, needle, w));
        }
    }
}

/// The status line of a panel that is not ready: the loading text, the
/// busy text itself, or the error prefix, `: ` and the error.
pub proof fn lemma_status_when_not_ready(p: PanelState, strings: Strings)
    ensures
        p.status is Loading ==> status_text(p, strings) == strings.status_loading@,
        p.status matches PanelStatus::Busy(t) ==> status_text(p, strings) == t@,
        p.status matches PanelStatus::Error(t) ==> status_text(p, strings)
            == strings.status_error_prefix@ + seq![':', ' '] + t@,
{
}

/// The status line of a ready panel counts the rows it shows: its
/// `{total}` is the number of shown rows (the entries the search lets
/// through, not all entries).
pub proof fn lemma_status_counts_shown_rows(p: PanelState, strings: Strings, rows: Seq<usize>)
    requires
        is_stable_sort(&p, p.filtered(), rows),
        p.status is Ready,
    ensures
        p.selected_view() is None ==> status_text(p, strings) == replace_all(
            strings.status_items@,
            "{total}"@,
            decimal(rows.len()),
        ),
        p.selected_view() matches Some(e) ==> status_text(p, strings) == replace_all(
            replace_all(strings.status_selected@, "{total}"@, decimal(rows.len())),
            "{name}"@,
            e.name_text(),
        ),
{
    let perm = choose|q: Seq<int>|
        arranges(p.filtered(), rows, q) && sorted_by(&p, rows) && stable_by(&p, rows, q);
    assert(rows.len() == p.filtered().len());
}

} // verus!
