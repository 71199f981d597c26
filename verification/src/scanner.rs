//! Size formatting and parsing, warning trimming, and the ranking of a
//! scanned tree into a report.

use vstd::prelude::*;
use crate::text::{decimal, digit_char, write_decimal, push_char, char_from_ascii};
use crate::model::{DirEntry, ScanOptions, ScanReport, SCHEMA_VERSION};

verus! {

/// Spacing of the double-precision values around `b`: 1 below 2^53, then
/// doubling with every binary digit beyond 53.
pub open spec fn f64_granule(b: nat) -> nat
    decreases b,
{
    if b < 0x20_0000_0000_0000 {
        1
    } else {
        2 * f64_granule(b / 2)
    }
}

/// `x / d` rounded to the nearest integer, ties to even.
pub open spec fn round_half_even(x: nat, d: nat) -> nat {
    let q = x / d;
    let r = x % d;
    if 2 * r > d || (2 * r == d && q % 2 == 1) {
        q + 1
    } else {
        q
    }
}

/// `b` converted to a double: the nearest multiple of its granule, ties
/// to even.
pub open spec fn as_f64(b: nat) -> nat {
    round_half_even(b, f64_granule(b)) * f64_granule(b)
}

/// The largest 1024-based unit not above `v` (B, KiB, MiB, GiB, TiB).
pub open spec fn unit_index(v: nat) -> nat {
    if v >= 0x100_0000_0000 {
        4
    } else if v >= 0x4000_0000 {
        3
    } else if v >= 0x10_0000 {
        2
    } else if v >= 0x400 {
        1
    } else {
        0
    }
}

/// 1024 to the power `u`.
pub open spec fn unit_scale(u: nat) -> nat {
    if u == 0 {
        1
    } else if u == 1 {
        0x400
    } else if u == 2 {
        0x10_0000
    } else if u == 3 {
        0x4000_0000
    } else {
        0x100_0000_0000
    }
}

/// The name of unit `u`.
pub open spec fn unit_name(u: nat) -> Seq<char> {
    if u == 0 {
        seq!['B']
    } else if u == 1 {
        seq!['K', 'i', 'B']
    } else if u == 2 {
        seq!['M', 'i', 'B']
    } else if u == 3 {
        seq!['G', 'i', 'B']
    } else {
        seq!['T', 'i', 'B']
    }
}

/// `1.4 GiB` style: bytes below 1 KiB as an integer, larger sizes in the
/// largest fitting 1024-based unit with one decimal, rounded half to even
/// from the size as a double.
pub open spec fn spec_format_bytes(b: nat) -> Seq<char> {
    let v = as_f64(b);
    let u = unit_index(v);
    if u == 0 {
        decimal(b) + seq![' ', 'B']
    } else {
        let t = round_half_even(10 * v, unit_scale(u));
        decimal(t / 10) + seq!['.', digit_char(t % 10), ' '] + unit_name(u)
    }
}

/// The double nearest to `b`, as an exact integer.
fn nearest_f64(b: u64) -> (r: u128)
    ensures
        r == as_f64(b as nat),
        r <= 0x1_0000_0000_0000_0000 * 0x1000,
{
    let mut t: u64 = b;
    let mut g: u64 = 1;
    while t >= 0x20_0000_0000_0000
        invariant
            1 <= g < 0x1000,
            t * g <= b,
            t as nat == (b as nat) / (g as nat),
            f64_granule(b as nat) == g * f64_granule(t as nat),
        decreases t,
    {
        proof {
            vstd::arithmetic::div_mod::lemma_div_denominator(b as int, g as int, 2);
            assert(g < 0x800) by (nonlinear_arith)
                requires
                    t * g <= b,
                    b < 0x1_0000_0000_0000_0000,
                    t >= 0x20_0000_0000_0000,
                    g >= 1,
            ;
            assert((t / 2) * (2 * g) <= t * g) by (nonlinear_arith)
                requires
                    t >= 0,
                    g >= 1,
            ;
            let x = f64_granule((t / 2) as nat);
            assert(f64_granule(t as nat) == 2 * x);
            assert(g * (2 * x) == (2 * g) * x) by (nonlinear_arith);
        }
        t = t / 2;
        g = g * 2;
    }
    let q: u128 = (b / g) as u128;
    let rem: u128 = (b % g) as u128;
    let gg: u128 = g as u128;
    let up = 2 * rem > gg || (2 * rem == gg && q % 2 == 1);
    let k: u128 = if up { q + 1 } else { q };
    proof {
        assert(f64_granule(t as nat) == 1);
        let gt = f64_granule(t as nat);
        assert(f64_granule(b as nat) == g as nat) by (nonlinear_arith)
            requires
                f64_granule(b as nat) == g * gt,
                gt == 1,
        ;
        assert(q as nat == (b as nat) / (g as nat));
        assert(rem as nat == (b as nat) % (g as nat));
        assert(k as nat == round_half_even(b as nat, g as nat));
        assert(q <= b) by (nonlinear_arith)
            requires
                q == (b as nat) / (g as nat),
                g >= 1,
        ;
        assert(k * gg <= 0x1_0000_0000_0000_0000 * 0x1000) by (nonlinear_arith)
            requires
                k <= 0x1_0000_0000_0000_0000,
                gg <= 0x1000,
        ;
    }
    k * gg
}

/// The name of unit `u` as text.
fn unit_text(u: u8) -> (r: &'static str)
    requires
        u <= 4,
    ensures
        r@ == unit_name(u as nat),
{
    proof {
        reveal_strlit("B");
        reveal_strlit("KiB");
        reveal_strlit("MiB");
        reveal_strlit("GiB");
        reveal_strlit("TiB");
    }
    if u == 0 {
        "B"
    } else if u == 1 {
        "KiB"
    } else if u == 2 {
        "MiB"
    } else if u == 3 {
        "GiB"
    } else {
        "TiB"
    }
}

/// Formats a byte count as `1.4 GiB` (1024-based, one decimal).
pub fn format_bytes(bytes: u64) -> (r: String)
    ensures
        r@ == spec_format_bytes(bytes as nat),
{
    let v = nearest_f64(bytes);
    let u: u8 = if v >= 0x100_0000_0000 {
        4
    } else if v >= 0x4000_0000 {
        3
    } else if v >= 0x10_0000 {
        2
    } else if v >= 0x400 {
        1
    } else {
        0
    };
    assert(u == unit_index(v as nat));
    let mut s = String::new();
    if u == 0 {
        write_decimal(&mut s, bytes as u128);
        push_char(&mut s, ' ');
        push_char(&mut s, 'B');
        assert(s@ =~= spec_format_bytes(bytes as nat));
        return s;
    }
    let scale: u128 = if u == 1 {
        0x400
    } else if u == 2 {
        0x10_0000
    } else if u == 3 {
        0x4000_0000
    } else {
        0x100_0000_0000
    };
    let x: u128 = 10 * v;
    let q = x / scale;
    let rem = x % scale;
    let t: u128 = if 2 * rem > scale || (2 * rem == scale && q % 2 == 1) {
        q + 1
    } else {
        q
    };
    assert(t == round_half_even(10 * v as nat, unit_scale(u as nat)));
    write_decimal(&mut s, t / 10);
    push_char(&mut s, '.');
    push_char(&mut s, char_from_ascii((48 + t % 10) as u8));
    push_char(&mut s, ' ');
    s.append(unit_text(u));
    assert(s@ =~= spec_format_bytes(bytes as nat));
    s
}

} // verus!

verus! {

/// UTF-8 length of one character.
pub open spec fn char_utf8_len(c: char) -> nat {
    if (c as u32) < 0x80 {
        1
    } else if (c as u32) < 0x800 {
        2
    } else if (c as u32) < 0x10000 {
        3
    } else {
        4
    }
}

/// How many leading characters of `s` fit in `budget` UTF-8 bytes.
pub open spec fn prefix_fitting(s: Seq<char>, budget: int) -> nat
    decreases s.len(),
{
    if s.len() == 0 || char_utf8_len(s[0]) > budget {
        0
    } else {
        1 + prefix_fitting(s.drop_first(), budget - char_utf8_len(s[0]))
    }
}

/// A warning cut to at most 300 UTF-8 bytes on a character boundary, with
/// `…` appended when something was cut.
pub open spec fn spec_trim_warning(s: Seq<char>) -> Seq<char> {
    let k = prefix_fitting(s, 300);
    if k == s.len() {
        s
    } else {
        s.take(k as int).push('…')
    }
}

/// UTF-8 length of one character.
fn utf8_len_of(c: char) -> (r: u32)
    ensures
        r == char_utf8_len(c),
{
    let code = c as u32;
    if code < 0x80 {
        1
    } else if code < 0x800 {
        2
    } else if code < 0x10000 {
        3
    } else {
        4
    }
}

/// Cuts an overlong warning without splitting a character.
pub fn trim_warning(s: &str) -> (r: String)
    ensures
        r@ == spec_trim_warning(s@),
{
    let n = s.unicode_len();
    let mut i: usize = 0;
    let mut budget: u32 = 300;
    assert(s@.skip(0) =~= s@);
    while i < n
        invariant
            n == s@.len(),
            i <= n,
            budget <= 300,
            prefix_fitting(s@, 300) == i + prefix_fitting(s@.skip(i as int), budget as int),
        ensures
            i <= n,
            prefix_fitting(s@, 300) == i + prefix_fitting(s@.skip(i as int), budget as int),
            i == n || char_utf8_len(s@[i as int]) > budget,
        decreases n - i,
    {
        let len = utf8_len_of(s.get_char(i));
        assert(s@.skip(i as int)[0] == s@[i as int]);
        if len > budget {
            break;
        }
        assert(s@.skip(i as int).drop_first() =~= s@.skip(i + 1));
        budget = budget - len;
        i = i + 1;
    }
    if i == n {
        assert(s@.skip(n as int).len() == 0);
        return s.to_owned();
    }
    assert(s@.skip(i as int)[0] == s@[i as int]);
    assert(prefix_fitting(s@.skip(i as int), budget as int) == 0);
    let kept = s.substring_char(0, i);
    let mut r = kept.to_owned();
    push_char(&mut r, '…');
    assert(s@.subrange(0, i as int) =~= s@.take(i as int));
    r
}

/// Strips the `\\?\` verbatim prefix that Windows canonicalization adds
/// (`\\?\UNC\server` becomes `\\server`); other paths, and every path when
/// `windows` is false, are kept.
pub open spec fn spec_display_path(p: Seq<char>, windows: bool) -> Seq<char> {
    let unc = seq!['\\', '\\', '?', '\\', 'U', 'N', 'C', '\\'];
    let verbatim = seq!['\\', '\\', '?', '\\'];
    if !windows {
        p
    } else if crate::text::has_prefix(p, unc) {
        seq!['\\', '\\'] + p.skip(8)
    } else if crate::text::has_prefix(p, verbatim) {
        p.skip(4)
    } else {
        p
    }
}

/// The path as shown to users.
pub fn display_path(p: &str, windows: bool) -> (r: String)
    ensures
        r@ == spec_display_path(p@, windows),
{
    if !windows {
        return p.to_owned();
    }
    proof {
        reveal_strlit("\\\\?\\UNC\\");
        reveal_strlit("\\\\?\\");
        reveal_strlit("\\\\");
        assert("\\\\?\\UNC\\"@ =~= seq!['\\', '\\', '?', '\\', 'U', 'N', 'C', '\\']);
        assert("\\\\?\\"@ =~= seq!['\\', '\\', '?', '\\']);
        assert("\\\\"@ =~= seq!['\\', '\\']);
    }
    let n = p.unicode_len();
    if crate::text::str_starts_with(p, "\\\\?\\UNC\\") {
        let rest = p.substring_char(8, n);
        let mut r = "\\\\".to_owned();
        r.append(rest);
        assert(rest@ =~= p@.skip(8));
        return r;
    }
    if crate::text::str_starts_with(p, "\\\\?\\") {
        let rest = p.substring_char(4, n);
        assert(rest@ =~= p@.skip(4));
        return rest.to_owned();
    }
    p.to_owned()
}

} // verus!

verus! {

/// What `char::is_alphabetic` answers (the Unicode `Alphabetic` property).
pub uninterp spec fn alphabetic(c: char) -> bool;

/// `char::is_alphabetic`. Claimed: the answer is a function of the
/// character, and among ASCII characters exactly the letters are
/// alphabetic; the table for the rest of Unicode is not restated.
#[verifier::external_body]
fn is_alphabetic(c: char) -> (r: bool)
    ensures
        r == alphabetic(c),
        (c as u32) < 0x80 ==> (r <==> (('a' <= c && c <= 'z') || ('A' <= c && c <= 'Z'))),
{
    c.is_alphabetic()
}

/// Index of the first alphabetic character, or the length.
pub open spec fn first_alphabetic(s: Seq<char>) -> nat
    decreases s.len(),
{
    if s.len() == 0 {
        0
    } else if alphabetic(s[0]) {
        0
    } else {
        1 + first_alphabetic(s.drop_first())
    }
}

/// A size text split into its number and its unit: trimmed, then cut
/// before the first alphabetic character. The empty text is refused.
pub open spec fn spec_size_parts(s: Seq<char>) -> Result<(Seq<char>, Seq<char>), Seq<char>> {
    let t = crate::text::trim_ws(s);
    if t.len() == 0 {
        Err("empty size"@)
    } else {
        let k = first_alphabetic(t) as int;
        Ok((t.take(k), t.skip(k)))
    }
}

/// Splits `512`, `10KB`, `1.5 MB` into number and unit text.
pub fn size_parts(s: &str) -> (r: Result<(String, String), String>)
    ensures
        match (r, spec_size_parts(s@)) {
            (Ok((num, unit)), Ok((n2, u2))) => num@ == n2 && unit@ == u2,
            (Err(e), Err(e2)) => e@ == e2,
            _ => false,
        },
{
    let t = crate::text::trim(s);
    let n = t.unicode_len();
    if n == 0 {
        return Err("empty size".to_owned());
    }
    let ts = t.as_str();
    let mut k: usize = 0;
    assert(ts@.skip(0) =~= ts@);
    while k < n && !is_alphabetic(ts.get_char(k))
        invariant
            n == ts@.len(),
            k <= n,
            first_alphabetic(ts@) == k + first_alphabetic(ts@.skip(k as int)),
        decreases n - k,
    {
        assert(ts@.skip(k as int).drop_first() =~= ts@.skip(k + 1));
        assert(ts@.skip(k as int)[0] == ts@[k as int]);
        k = k + 1;
    }
    proof {
        if k < n {
            assert(ts@.skip(k as int)[0] == ts@[k as int]);
        }
    }
    let num = ts.substring_char(0, k);
    let unit = ts.substring_char(k, n);
    assert(num@ =~= ts@.take(k as int));
    assert(unit@ =~= ts@.skip(k as int));
    Ok((num.to_owned(), unit.to_owned()))
}

/// The power of 1024 a unit names, after trimming and ASCII lower-casing:
/// none or `b` 0, `k`/`kb`/`kib` 1, `m`/`mb`/`mib` 2, `g`/`gb`/`gib` 3,
/// `t`/`tb`/`tib` 4.
pub open spec fn spec_unit_power(u: Seq<char>) -> Option<u32> {
    let x = crate::text::lower_text(crate::text::trim_ws(u));
    if x == Seq::<char>::empty() || x == seq!['b'] {
        Some(0)
    } else if x == seq!['k'] || x == seq!['k', 'b'] || x == seq!['k', 'i', 'b'] {
        Some(1)
    } else if x == seq!['m'] || x == seq!['m', 'b'] || x == seq!['m', 'i', 'b'] {
        Some(2)
    } else if x == seq!['g'] || x == seq!['g', 'b'] || x == seq!['g', 'i', 'b'] {
        Some(3)
    } else if x == seq!['t'] || x == seq!['t', 'b'] || x == seq!['t', 'i', 'b'] {
        Some(4)
    } else {
        None
    }
}

/// The unit `x` with one leading letter and an optional `b`/`ib` tail.
fn unit_word(x: &Vec<char>, letter: char) -> (r: bool)
    ensures
        r == (x@ == seq![letter] || x@ == seq![letter, 'b'] || x@ == seq![letter, 'i', 'b']),
{
    let n = x.len();
    let r = if n == 1 {
        x[0] == letter
    } else if n == 2 {
        x[0] == letter && x[1] == 'b'
    } else if n == 3 {
        x[0] == letter && x[1] == 'i' && x[2] == 'b'
    } else {
        false
    };
    proof {
        if n == 1 && r {
            assert(x@ =~= seq![letter]);
        }
        if n == 2 && r {
            assert(x@ =~= seq![letter, 'b']);
        }
        if n == 3 && r {
            assert(x@ =~= seq![letter, 'i', 'b']);
        }
    }
    r
}

/// The characters of a text.
fn chars_of(s: &str) -> (r: Vec<char>)
    ensures
        r@ == s@,
{
    let n = s.unicode_len();
    let mut v: Vec<char> = Vec::new();
    let mut i: usize = 0;
    while i < n
        invariant
            n == s@.len(),
            i <= n,
            v@ == s@.take(i as int),
        decreases n - i,
    {
        v.push(s.get_char(i));
        assert(s@.take(i + 1) =~= s@.take(i as int).push(s@[i as int]));
        i = i + 1;
    }
    assert(s@.take(n as int) =~= s@);
    v
}

/// The power of 1024 a size unit names, or the error text.
pub fn size_unit_power(unit: &str) -> (r: Result<u32, String>)
    ensures
        match r {
            Ok(p) => spec_unit_power(unit@) == Some(p),
            Err(e) => spec_unit_power(unit@) is None && e@ == "unknown size unit: "@
                + crate::text::lower_text(crate::text::trim_ws(unit@)),
        },
{
    let trimmed = crate::text::trim(unit);
    let lowered = crate::text::lower(trimmed.as_str());
    let x = chars_of(lowered.as_str());
    if x.len() == 0 || (x.len() == 1 && x[0] == 'b') {
        proof {
            if x.len() == 1 {
                assert(x@ =~= seq!['b']);
            } else {
                assert(x@ =~= Seq::<char>::empty());
            }
        }
        Ok(0)
    } else if unit_word(&x, 'k') {
        Ok(1)
    } else if unit_word(&x, 'm') {
        Ok(2)
    } else if unit_word(&x, 'g') {
        Ok(3)
    } else if unit_word(&x, 't') {
        Ok(4)
    } else {
        proof {
            if x@ == seq!['b'] {
                assert(x@[0] == 'b');
            }
        }
        Err(crate::text::concat("unknown size unit: ", lowered.as_str()))
    }
}

} // verus!

verus! {

/// Why a scan cannot start.
pub enum ScanError {
    /// The root cannot be resolved: the root as given, and the reason.
    RootUnreadable(String, String),
    /// The root is not a directory.
    NotADirectory(String),
}

impl ScanError {
    /// The message shown for the error.
    pub fn message(&self) -> (r: String)
        ensures
            r@ == match self {
                ScanError::RootUnreadable(root, why) => "scan root is not accessible ("@ + root@ + "): "@ + why@,
                ScanError::NotADirectory(root) => "scan root is not a directory: "@ + root@,
            },
    {
        match self {
            ScanError::RootUnreadable(root, why) => {
                let head = crate::text::concat3("scan root is not accessible (", root.as_str(), "): ");
                crate::text::concat(head.as_str(), why.as_str())
            },
            ScanError::NotADirectory(root) => crate::text::concat("scan root is not a directory: ", root.as_str()),
        }
    }
}

/// Live progress snapshot streamed to user interfaces.
#[derive(Debug, Clone, Copy)]
pub struct LiveProgress {
    pub files_seen: u64,
    pub bytes_seen: u64,
}

/// The root a scan walks: its canonical form when resolution succeeded
/// and it is a directory.
pub fn scan_root(root: &str, canonical: Result<String, String>, is_dir: bool) -> (r: Result<String, ScanError>)
    ensures
        match canonical {
            Err(why) => r matches Err(ScanError::RootUnreadable(x, y)) && x@ == root@ && y@ == why@,
            Ok(c) => if is_dir {
                r matches Ok(s) && s@ == c@
            } else {
                r matches Err(ScanError::NotADirectory(x)) && x@ == root@
            },
        },
{
    match canonical {
        Err(why) => Err(ScanError::RootUnreadable(root.to_owned(), why)),
        Ok(c) => if is_dir {
            Ok(c)
        } else {
            Err(ScanError::NotADirectory(root.to_owned()))
        },
    }
}

/// Totals of one directory of a walk.
pub struct DirTotal {
    pub path: String,
    pub bytes: u64,
    pub files: u64,
}

/// A file at or above the individual-listing size.
pub struct BigFile {
    pub path: String,
    pub bytes: u64,
}

/// What a walk of the root gathered: every directory with the bytes and
/// files below it, the big files, the files the workers counted, and the
/// warnings kept and dropped.
pub struct WalkTotals {
    pub dirs: Vec<DirTotal>,
    pub big_files: Vec<BigFile>,
    pub worker_files: u64,
    pub warnings: Vec<String>,
    pub suppressed: usize,
}

/// An entry as compared and shown: path, bytes, files, depth, directory.
pub type EntryView = (Seq<char>, u64, u64, nat, bool);

/// The view of a report entry.
pub open spec fn entry_view(e: DirEntry) -> EntryView {
    (e.path@, e.bytes, e.files, e.depth as nat, e.is_dir)
}

/// Depth of `path` below `root`: the number of components past the
/// root's, 0 for a path outside the root.
pub open spec fn depth_of(path: Seq<char>, root: Seq<char>) -> nat {
    if crate::paths::path_within(path, root) {
        (crate::paths::components(path).len() - crate::paths::components(root).len()) as nat
    } else {
        0
    }
}

/// The directory entries that pass the size filter, in walk order.
pub open spec fn dir_views(ds: Seq<DirTotal>, root: Seq<char>, min_bytes: u64, windows: bool) -> Seq<EntryView>
    decreases ds.len(),
{
    if ds.len() == 0 {
        Seq::empty()
    } else {
        let d = ds.last();
        dir_views(ds.drop_last(), root, min_bytes, windows) + if d.bytes >= min_bytes {
            seq![(spec_display_path(d.path@, windows), d.bytes, d.files, depth_of(d.path@, root), true)]
        } else {
            Seq::empty()
        }
    }
}

/// The big-file entries that pass both size floors, in walk order.
pub open spec fn file_views(fs: Seq<BigFile>, root: Seq<char>, min_bytes: u64, min_file_bytes: u64, windows: bool) -> Seq<EntryView>
    decreases fs.len(),
{
    if fs.len() == 0 {
        Seq::empty()
    } else {
        let f = fs.last();
        file_views(fs.drop_last(), root, min_bytes, min_file_bytes, windows) + if f.bytes >= min_bytes && f.bytes >= min_file_bytes {
            seq![(spec_display_path(f.path@, windows), f.bytes, 1u64, depth_of(f.path@, root), false)]
        } else {
            Seq::empty()
        }
    }
}

/// `a` ranks strictly before `b`: larger first, then by path.
pub open spec fn view_before(a: EntryView, b: EntryView) -> bool {
    a.1 > b.1 || (a.1 == b.1 && crate::paths::path_lt(a.0, b.0))
}

/// Where `x` goes in a ranked list: before the first entry it ranks
/// before.
pub open spec fn insert_pos(s: Seq<EntryView>, x: EntryView) -> nat
    decreases s.len(),
{
    if s.len() == 0 || view_before(x, s[0]) {
        0
    } else {
        1 + insert_pos(s.drop_first(), x)
    }
}

/// The entries ranked largest first, then by path; equal entries keep
/// their order.
pub open spec fn rank_views(s: Seq<EntryView>) -> Seq<EntryView>
    decreases s.len(),
{
    if s.len() == 0 {
        Seq::empty()
    } else {
        let t = rank_views(s.drop_last());
        t.insert(insert_pos(t, s.last()) as int, s.last())
    }
}

/// The report's entries: the filtered directories and big files,
/// ranked, cut to `top`.
pub open spec fn report_views(w: WalkTotals, root: Seq<char>, opts: ScanOptions, windows: bool) -> Seq<EntryView> {
    let ranked = rank_views(
        dir_views(w.dirs@, root, opts.min_bytes, windows) + file_views(w.big_files@, root, opts.min_bytes, opts.min_file_bytes, windows),
    );
    if ranked.len() > opts.top {
        ranked.take(opts.top as int)
    } else {
        ranked
    }
}

/// Bytes and files recorded for the root: those of the first directory
/// that is the root, else nothing.
pub open spec fn root_totals(ds: Seq<DirTotal>, root: Seq<char>) -> (u64, u64)
    decreases ds.len(),
{
    if ds.len() == 0 {
        (0, 0)
    } else if crate::paths::same_path(ds[0].path@, root) {
        (ds[0].bytes, ds[0].files)
    } else {
        root_totals(ds.drop_first(), root)
    }
}

/// The warning raised when the workers' file count disagrees with the
/// root's.
pub open spec fn mismatch_warning(workers: u64, root_files: u64) -> Seq<char> {
    "internal count mismatch: workers saw "@ + decimal(workers as nat) + " files, root aggregate has "@
        + decimal(root_files as nat)
}

/// The root's recorded bytes and files.
fn find_root_totals(ds: &Vec<DirTotal>, root: &crate::paths::PathKey, Ghost(r): Ghost<Seq<char>>) -> (t: (u64, u64))
    requires
        root.describes(r),
    ensures
        t == root_totals(ds@, r),
{
    let mut i: usize = 0;
    assert(ds@.skip(0) =~= ds@);
    while i < ds.len()
        invariant
            root.describes(r),
            i <= ds@.len(),
            root_totals(ds@, r) == root_totals(ds@.skip(i as int), r),
        decreases ds@.len() - i,
    {
        assert(ds@.skip(i as int)[0] == ds@[i as int]);
        assert(ds@.skip(i as int).drop_first() =~= ds@.skip(i + 1));
        let k = crate::paths::path_key(ds[i].path.as_str());
        if crate::paths::key_eq(&k, root) {
            return (ds[i].bytes, ds[i].files);
        }
        i = i + 1;
    }
    (0, 0)
}

/// Depth of a path below the root.
fn depth_below(path: &str, root: &crate::paths::PathKey, Ghost(r): Ghost<Seq<char>>) -> (d: usize)
    requires
        root.describes(r),
    ensures
        d as nat == depth_of(path@, r),
{
    let k = crate::paths::path_key(path);
    if crate::paths::key_within(&k, root) {
        assert(crate::paths::path_within(path@, r));
        k.parts.len() - root.parts.len()
    } else {
        0
    }
}

/// Where an entry goes in a ranked list.
fn position_in(out: &Vec<DirEntry>, x: &DirEntry) -> (p: usize)
    ensures
        p == insert_pos(out@.map_values(|e: DirEntry| entry_view(e)), entry_view(*x)),
        p <= out@.len(),
{
    let ghost s = out@.map_values(|e: DirEntry| entry_view(e));
    let mut p: usize = 0;
    assert(s.skip(0) =~= s);
    while p < out.len()
        invariant
            s == out@.map_values(|e: DirEntry| entry_view(e)),
            p <= out@.len(),
            insert_pos(s, entry_view(*x)) == p + insert_pos(s.skip(p as int), entry_view(*x)),
        decreases out@.len() - p,
    {
        let e = &out[p];
        assert(s.skip(p as int)[0] == entry_view(*e));
        let before = x.bytes > e.bytes || (x.bytes == e.bytes && crate::paths::path_less(x.path.as_str(), e.path.as_str()));
        if before {
            return p;
        }
        assert(s.skip(p as int).drop_first() =~= s.skip(p + 1));
        p = p + 1;
    }
    p
}

/// Inserts an entry where the ranking puts it.
fn insert_ranked(out: &mut Vec<DirEntry>, x: DirEntry)
    ensures
        final(out)@.map_values(|e: DirEntry| entry_view(e)) == ({
            let s = old(out)@.map_values(|e: DirEntry| entry_view(e));
            s.insert(insert_pos(s, entry_view(x)) as int, entry_view(x))
        }),
{
    let p = position_in(out, &x);
    let ghost before = out@;
    let ghost v = entry_view(x);
    out.insert(p, x);
    assert(out@.map_values(|e: DirEntry| entry_view(e)) =~= before.map_values(|e: DirEntry| entry_view(e)).insert(
        p as int,
        v,
    ));
}

/// Builds the report of a walk of `root` (its canonical path): the
/// root's totals, the number of directories, the warnings (plus one when
/// the two file counts disagree), and the ranked entries.
#[verifier::rlimit(30)]
pub fn build_report(root: &str, walk: WalkTotals, opts: &ScanOptions, windows: bool) -> (r: ScanReport)
    ensures
        r.schema_version == SCHEMA_VERSION,
        r.root@ == spec_display_path(root@, windows),
        (r.total_bytes, r.total_files) == root_totals(walk.dirs@, root@),
        r.total_dirs == walk.dirs@.len(),
        r.warnings_suppressed == walk.suppressed,
        r.warnings@.map_values(|s: String| s@) == walk.warnings@.map_values(|s: String| s@) + if walk.worker_files
            != root_totals(walk.dirs@, root@).1 {
            seq![mismatch_warning(walk.worker_files, root_totals(walk.dirs@, root@).1)]
        } else {
            Seq::empty()
        },
        r.entries@.map_values(|e: DirEntry| entry_view(e)) == report_views(walk, root@, *opts, windows),
{
    let ghost w = walk;
    let rk = crate::paths::path_key(root);
    let (root_bytes, root_files) = find_root_totals(&walk.dirs, &rk, Ghost(root@));
    let total_dirs = walk.dirs.len() as u64;
    let WalkTotals { dirs, big_files, worker_files, warnings, suppressed } = walk;
    let mut ranked: Vec<DirEntry> = Vec::new();
    let ghost mut all: Seq<EntryView> = Seq::empty();
    let mut i: usize = 0;
    while i < dirs.len()
        invariant
            rk.describes(root@),
            dirs@ == w.dirs@,
            i <= dirs@.len(),
            all == dir_views(dirs@.take(i as int), root@, opts.min_bytes, windows),
            ranked@.map_values(|e: DirEntry| entry_view(e)) == rank_views(all),
        decreases dirs@.len() - i,
    {
        let d = &dirs[i];
        assert(dirs@.take(i + 1int).drop_last() =~= dirs@.take(i as int));
        assert(dirs@.take(i + 1int).last() == dirs@[i as int]);
        if d.bytes >= opts.min_bytes {
            let e = DirEntry {
                path: display_path(d.path.as_str(), windows),
                bytes: d.bytes,
                files: d.files,
                depth: depth_below(d.path.as_str(), &rk, Ghost(root@)),
                is_dir: true,
            };
            proof {
                let v = entry_view(e);
                assert((all + seq![v]).drop_last() =~= all);
                all = all + seq![v];
            }
            insert_ranked(&mut ranked, e);
        }
        i = i + 1;
    }
    assert(dirs@.take(dirs@.len() as int) =~= dirs@);
    let ghost dv = all;
    let mut j: usize = 0;
    while j < big_files.len()
        invariant
            rk.describes(root@),
            big_files@ == w.big_files@,
            dv == dir_views(w.dirs@, root@, opts.min_bytes, windows),
            j <= big_files@.len(),
            all == dv + file_views(big_files@.take(j as int), root@, opts.min_bytes, opts.min_file_bytes, windows),
            ranked@.map_values(|e: DirEntry| entry_view(e)) == rank_views(all),
        decreases big_files@.len() - j,
    {
        let f = &big_files[j];
        assert(big_files@.take(j + 1int).drop_last() =~= big_files@.take(j as int));
        assert(big_files@.take(j + 1int).last() == big_files@[j as int]);
        if f.bytes >= opts.min_bytes && f.bytes >= opts.min_file_bytes {
            let e = DirEntry {
                path: display_path(f.path.as_str(), windows),
                bytes: f.bytes,
                files: 1,
                depth: depth_below(f.path.as_str(), &rk, Ghost(root@)),
                is_dir: false,
            };
            proof {
                let v = entry_view(e);
                let fv = file_views(big_files@.take(j as int), root@, opts.min_bytes, opts.min_file_bytes, windows);
                assert(file_views(big_files@.take(j + 1int), root@, opts.min_bytes, opts.min_file_bytes, windows) =~= fv + seq![v]);
                assert((all + seq![v]).drop_last() =~= all);
                assert(dv + (fv + seq![v]) =~= all + seq![v]);
                all = all + seq![v];
            }
            insert_ranked(&mut ranked, e);
        } else {
            proof {
                let fv = file_views(big_files@.take(j as int), root@, opts.min_bytes, opts.min_file_bytes, windows);
                assert(file_views(big_files@.take(j + 1int), root@, opts.min_bytes, opts.min_file_bytes, windows) =~= fv);
            }
        }
        j = j + 1;
    }
    assert(big_files@.take(big_files@.len() as int) =~= big_files@);
    ranked.truncate(opts.top);
    let mut warnings = warnings;
    let ghost before = warnings@.map_values(|s: String| s@);
    if worker_files != root_files {
        let mut msg = "internal count mismatch: workers saw ".to_owned();
        write_decimal(&mut msg, worker_files as u128);
        msg.append(" files, root aggregate has ");
        write_decimal(&mut msg, root_files as u128);
        warnings.push(msg);
        assert(warnings@.map_values(|s: String| s@) =~= before.push(mismatch_warning(worker_files, root_files)));
    } else {
        assert(warnings@.map_values(|s: String| s@) =~= before + Seq::<Seq<char>>::empty());
    }
    ScanReport {
        schema_version: SCHEMA_VERSION,
        root: display_path(root, windows),
        total_bytes: root_bytes,
        total_files: root_files,
        total_dirs,
        warnings,
        warnings_suppressed: suppressed,
        entries: ranked,
    }
}

} // verus!

verus! {

/// The directories a file's bytes count toward: its ancestors from its
/// parent up to and including `root`, when the file lies below `root`.
pub open spec fn spec_ancestors_within(file: Seq<char>, root: Seq<char>) -> Seq<Seq<char>> {
    let c = crate::paths::components(file);
    let n = c.len();
    let m = crate::paths::components(root).len();
    if crate::paths::path_within(file, root) && n > m {
        Seq::new((n - m) as nat, |k: int| crate::paths::rebuilt(file, c.take(n - 1 - k)))
    } else {
        Seq::empty()
    }
}

/// The ancestors of a file, from its parent up to the root of a walk.
pub fn ancestors_within(file: &str, root: &str) -> (r: Vec<String>)
    ensures
        r@.map_values(|s: String| s@) == spec_ancestors_within(file@, root@),
{
    let fk = crate::paths::path_key(file);
    let rk = crate::paths::path_key(root);
    let ghost c = crate::paths::components(file@);
    let n = fk.parts.len();
    let m = rk.parts.len();
    if !crate::paths::key_within(&fk, &rk) || n <= m {
        let out: Vec<String> = Vec::new();
        assert(out@.map_values(|s: String| s@) =~= spec_ancestors_within(file@, root@));
        return out;
    }
    let sep = if fk.windows { '\\' } else { '/' };
    // Texts of the first j components (without a root after a bare
    // prefix), for j = 0 .. n - 1.
    let mut prefixes: Vec<String> = Vec::new();
    let mut t = crate::paths::head_text(file, fk.windows);
    prefixes.push(t.clone());
    let mut j: usize = 0;
    assert(c.take(0) =~= Seq::<Seq<char>>::empty());
    while j + 1 < n
        invariant
            fk.describes(file@),
            c == crate::paths::components(file@),
            sep == crate::paths::sep_of(file@),
            n == c.len(),
            n >= 1,
            j < n,
            t@ == crate::paths::head(file@) + crate::paths::joined(c.take(j as int), sep),
            prefixes@.len() == j + 1,
            forall|k: int| 0 <= k <= j ==> (#[trigger] prefixes@[k])@ == crate::paths::head(file@) + crate::paths::joined(c.take(k), sep),
        decreases n - j,
    {
        if j > 0 {
            push_char(&mut t, sep);
        }
        let part = crate::text::text_of(&fk.parts[j]);
        assert(part@ == c[j as int]);
        t.append(part.as_str());
        proof {
            crate::paths::lemma_joined_step(c, sep, j as int);
            assert(t@ =~= crate::paths::head(file@) + crate::paths::joined(c.take(j + 1int), sep));
        }
        j = j + 1;
        prefixes.push(t.clone());
    }
    let mut out: Vec<String> = Vec::new();
    let mut k: usize = 0;
    while k < n - m
        invariant
            fk.describes(file@),
            c == crate::paths::components(file@),
            sep == crate::paths::sep_of(file@),
            n == c.len(),
            n > m,
            prefixes@.len() == n,
            forall|q: int| 0 <= q < n ==> (#[trigger] prefixes@[q])@ == crate::paths::head(file@) + crate::paths::joined(c.take(q), sep),
            k <= n - m,
            out@.len() == k,
            forall|q: int| 0 <= q < k ==> (#[trigger] out@[q])@ == crate::paths::rebuilt(file@, c.take(n - 1 - q)),
        decreases n - m - k,
    {
        let mut a = prefixes[n - 1 - k].clone();
        crate::paths::push_root_after(&mut a, &fk, n - 1 - k, Ghost(file@));
        proof {
            assert(c.take(n - 1 - k).len() == n - 1 - k);
        }
        out.push(a);
        k = k + 1;
    }
    proof {
        assert(crate::paths::path_within(file@, root@));
        assert(out@.map_values(|s: String| s@) =~= spec_ancestors_within(file@, root@));
    }
    out
}

/// Warnings kept in a report; the rest are only counted.
pub const MAX_WARNINGS: usize = 25;

/// Whether a warning is kept when `kept` are already kept.
pub fn keeps_warning(kept: usize) -> (r: bool)
    ensures
        r == (kept < MAX_WARNINGS),
{
    kept < MAX_WARNINGS
}

/// A file is listed on its own at or above `min_file_bytes`.
pub fn is_big_file(len: u64, opts: &ScanOptions) -> (r: bool)
    ensures
        r == (len >= opts.min_file_bytes),
{
    len >= opts.min_file_bytes
}

} // verus!

verus! {

/// A directory's totals in a tally, or nothing yet.
pub open spec fn get0(m: Map<Seq<char>, (u64, u64)>, k: Seq<char>) -> (u64, u64) {
    if m.contains_key(k) {
        m[k]
    } else {
        (0u64, 0u64)
    }
}

/// A file of `len` bytes counted toward directory `a`.
pub open spec fn bump(m: Map<Seq<char>, (u64, u64)>, a: Seq<char>, len: u64) -> Map<Seq<char>, (u64, u64)> {
    m.insert(a, ((get0(m, a).0 + len) as u64, (get0(m, a).1 + 1) as u64))
}

/// A file of `len` bytes counted toward each directory of `anc`, in turn.
pub open spec fn tallied(m: Map<Seq<char>, (u64, u64)>, anc: Seq<Seq<char>>, len: u64) -> Map<Seq<char>, (u64, u64)>
    decreases anc.len(),
{
    if anc.len() == 0 {
        m
    } else {
        bump(tallied(m, anc.drop_last(), len), anc.last(), len)
    }
}

/// Counting the file toward each of `anc` keeps every total within `u64`.
pub open spec fn tally_fits(m: Map<Seq<char>, (u64, u64)>, anc: Seq<Seq<char>>, len: u64) -> bool
    decreases anc.len(),
{
    if anc.len() == 0 {
        true
    } else {
        let m0 = tallied(m, anc.drop_last(), len);
        tally_fits(m, anc.drop_last(), len) && get0(m0, anc.last()).0 + len <= u64::MAX && get0(m0, anc.last()).1 + 1
            <= u64::MAX
    }
}

/// Two tallies added directory by directory.
pub open spec fn merged(a: Map<Seq<char>, (u64, u64)>, b: Map<Seq<char>, (u64, u64)>) -> Map<Seq<char>, (u64, u64)> {
    Map::new(
        |k: Seq<char>| a.contains_key(k) || b.contains_key(k),
        |k: Seq<char>| ((get0(a, k).0 + get0(b, k).0) as u64, (get0(a, k).1 + get0(b, k).1) as u64),
    )
}

/// Adding two tallies keeps every total within `u64`.
pub open spec fn merge_fits(a: Map<Seq<char>, (u64, u64)>, b: Map<Seq<char>, (u64, u64)>) -> bool {
    forall|k: Seq<char>|
        #[trigger] b.contains_key(k) ==> get0(a, k).0 + get0(b, k).0 <= u64::MAX && get0(a, k).1 + get0(b, k).1 <= u64::MAX
}

/// The bytes and files below each directory met by one walker, and the
/// order in which it met them. `new` makes a well-formed tally and every
/// method keeps it so.
pub struct DirTally {
    totals: vstd::hash_map::StringHashMap<(u64, u64)>,
    order: Vec<String>,
}

impl DirTally {
    /// The totals, by directory path.
    pub closed spec fn totals_map(&self) -> Map<Seq<char>, (u64, u64)> {
        self.totals@
    }

    /// The directories in the order they were first met.
    pub closed spec fn met(&self) -> Seq<Seq<char>> {
        self.order@.map_values(|s: String| s@)
    }

    /// Every directory is listed once, and exactly the listed ones have
    /// totals.
    pub closed spec fn wf(&self) -> bool {
        &&& forall|i: int, j: int| 0 <= i < j < self.met().len() ==> self.met()[i] != self.met()[j]
        &&& forall|s: Seq<char>| #[trigger] self.totals@.contains_key(s) <==> self.met().contains(s)
    }

    /// An empty tally.
    pub fn new() -> (r: DirTally)
        ensures
            r.wf(),
            r.totals_map() == Map::<Seq<char>, (u64, u64)>::empty(),
            r.met() == Seq::<Seq<char>>::empty(),
    {
        let r = DirTally { totals: vstd::hash_map::StringHashMap::new(), order: Vec::new() };
        assert(r.met() =~= Seq::<Seq<char>>::empty());
        r
    }

    /// Records `dir` with its current totals, or with none yet.
    fn insert_total(&mut self, dir: String, v: (u64, u64))
        requires
            old(self).wf(),
        ensures
            final(self).wf(),
            final(self).totals_map() == old(self).totals_map().insert(dir@, v),
            final(self).met() == if old(self).totals_map().contains_key(dir@) {
                old(self).met()
            } else {
                old(self).met().push(dir@)
            },
    {
        let known = self.totals.contains_key(dir.as_str());
        let ghost before = self.met();
        if !known {
            let copy = dir.clone();
            self.order.push(copy);
            assert(self.met() =~= before.push(dir@));
        }
        self.totals.insert(dir, v);
        proof {
            assert forall|s: Seq<char>| #[trigger] self.totals@.contains_key(s) <==> self.met().contains(s) by {
                if s == dir@ {
                    if !known {
                        assert(self.met()[self.met().len() - 1] == s);
                    }
                } else if before.contains(s) {
                    let i = choose|i: int| 0 <= i < before.len() && #[trigger] before[i] == s;
                    assert(self.met()[i] == s);
                } else if self.met().contains(s) {
                    let i = choose|i: int| 0 <= i < self.met().len() && #[trigger] self.met()[i] == s;
                    if i < before.len() {
                        assert(before[i] == s);
                    }
                }
            }
        }
    }

    /// The totals of `dir` so far.
    fn total_of(&self, dir: &str) -> (r: (u64, u64))
        ensures
            r == get0(self.totals_map(), dir@),
    {
        match self.totals.get(dir) {
            Some(v) => *v,
            None => (0, 0),
        }
    }

    /// Notes a directory the walk entered, with no files yet.
    pub fn touch(&mut self, dir: String)
        requires
            old(self).wf(),
        ensures
            final(self).wf(),
            final(self).totals_map() == if old(self).totals_map().contains_key(dir@) {
                old(self).totals_map()
            } else {
                old(self).totals_map().insert(dir@, (0u64, 0u64))
            },
    {
        let v = self.total_of(dir.as_str());
        self.insert_total(dir, v);
        assert(self.totals_map() =~= if old(self).totals_map().contains_key(dir@) {
            old(self).totals_map()
        } else {
            old(self).totals_map().insert(dir@, (0u64, 0u64))
        });
    }

    /// Counts a file of `len` bytes toward each of its `ancestors`: each
    /// gains `len` bytes and one file, and nothing else changes. `false`,
    /// with the tally left in an unspecified state, when a total would not
    /// fit in `u64`.
    pub fn add_file(&mut self, ancestors: &[String], len: u64) -> (r: bool)
        requires
            old(self).wf(),
        ensures
            final(self).wf(),
            r == tally_fits(old(self).totals_map(), ancestors@.map_values(|s: String| s@), len),
            r ==> final(self).totals_map() == tallied(old(self).totals_map(), ancestors@.map_values(|s: String| s@), len),
    {
        let ghost m = self.totals_map();
        let ghost anc = ancestors@.map_values(|s: String| s@);
        assert(m == old(self).totals_map());
        let mut i: usize = 0;
        assert(anc.take(0) =~= Seq::<Seq<char>>::empty());
        while i < ancestors.len()
            invariant
                self.wf(),
                m == old(self).totals_map(),
                anc == ancestors@.map_values(|s: String| s@),
                i <= ancestors@.len(),
                tally_fits(m, anc.take(i as int), len),
                self.totals_map() == tallied(m, anc.take(i as int), len),
            decreases ancestors@.len() - i,
        {
            let ghost t = anc.take(i + 1);
            assert(t.drop_last() =~= anc.take(i as int));
            assert(t.last() == ancestors@[i as int]@);
            let a = &ancestors[i];
            let (b, f) = self.total_of(a.as_str());
            if b > u64::MAX - len || f == u64::MAX {
                proof {
                    assert(get0(tallied(m, t.drop_last(), len), t.last()) == (b, f));
                    assert(!tally_fits(m, t, len));
                    lemma_tally_fits_prefix(m, anc, len, i + 1);
                    assert(t == anc.take(i + 1));
                    assert(!tally_fits(m, anc, len));
                }
                return false;
            }
            self.insert_total(a.clone(), (b + len, f + 1));
            i = i + 1;
        }
        assert(anc.take(ancestors@.len() as int) =~= anc);
        true
    }

    /// Adds another walker's tally into this one, directory by directory.
    /// `false`, with this tally left in an unspecified state, when a total
    /// would not fit in `u64`.
    pub fn absorb(&mut self, other: &DirTally) -> (r: bool)
        requires
            old(self).wf(),
            other.wf(),
        ensures
            final(self).wf(),
            r == merge_fits(old(self).totals_map(), other.totals_map()),
            r ==> final(self).totals_map() == merged(old(self).totals_map(), other.totals_map()),
    {
        let ghost a = self.totals_map();
        let ghost b = other.totals_map();
        let ghost keys = other.met();
        let mut i: usize = 0;
        assert(merged(a, b.restrict(Set::new(|s: Seq<char>| keys.take(0).contains(s)))) =~= a);
        while i < other.order.len()
            invariant
                self.wf(),
                other.wf(),
                a == old(self).totals_map(),
                b == other.totals_map(),
                keys == other.met(),
                i <= keys.len(),
                self.totals_map() == merged(a, b.restrict(Set::new(|s: Seq<char>| keys.take(i as int).contains(s)))),
                forall|j: int| 0 <= j < i ==> get0(a, keys[j]).0 + get0(b, keys[j]).0 <= u64::MAX && get0(a, keys[j]).1 + get0(
                    b,
                    keys[j],
                ).1 <= u64::MAX,
            decreases keys.len() - i,
        {
            let k = &other.order[i];
            assert(k@ == keys[i as int]);
            assert(b.contains_key(k@));
            assert(!keys.take(i as int).contains(k@)) by {
                if keys.take(i as int).contains(k@) {
                    let j = choose|j: int| 0 <= j < i && #[trigger] keys.take(i as int)[j] == k@;
                    assert(keys[j] == keys[i as int]);
                }
            }
            let (x, y) = self.total_of(k.as_str());
            let (p, q) = other.total_of(k.as_str());
            assert(x == get0(a, k@).0 && y == get0(a, k@).1);
            if x > u64::MAX - p || y > u64::MAX - q {
                return false;
            }
            self.insert_total(k.clone(), (x + p, y + q));
            proof {
                let before = Set::new(|s: Seq<char>| keys.take(i as int).contains(s));
                let after = Set::new(|s: Seq<char>| keys.take(i + 1).contains(s));
                assert forall|s: Seq<char>| after.contains(s) <==> before.contains(s) || s == k@ by {
                    if keys.take(i + 1).contains(s) {
                        let j = choose|j: int| 0 <= j < i + 1 && #[trigger] keys.take(i + 1)[j] == s;
                        if j < i {
                            assert(keys.take(i as int)[j] == s);
                        }
                    }
                    if keys.take(i as int).contains(s) {
                        let j = choose|j: int| 0 <= j < i && #[trigger] keys.take(i as int)[j] == s;
                        assert(keys.take(i + 1)[j] == s);
                    }
                    if s == k@ {
                        assert(keys.take(i + 1)[i as int] == s);
                    }
                }
                assert(self.totals_map() =~= merged(a, b.restrict(after)));
            }
            i = i + 1;
        }
        proof {
            assert forall|s: Seq<char>| #[trigger] b.contains_key(s) implies keys.take(keys.len() as int).contains(s) by {
                assert(keys.take(keys.len() as int) =~= keys);
            }
            assert(b.restrict(Set::new(|s: Seq<char>| keys.take(keys.len() as int).contains(s))) =~= b);
            assert forall|s: Seq<char>| #[trigger] b.contains_key(s) implies get0(a, s).0 + get0(b, s).0 <= u64::MAX && get0(a, s).1
                + get0(b, s).1 <= u64::MAX by {
                let j = choose|j: int| 0 <= j < keys.len() && #[trigger] keys[j] == s;
            }
        }
        true
    }

    /// The totals as a list, in the order the directories were first met.
    pub fn entries(&self) -> (r: Vec<DirTotal>)
        ensures
            r@.len() == self.met().len(),
            forall|i: int|
                0 <= i < r@.len() ==> {
                    &&& (#[trigger] r@[i]).path@ == self.met()[i]
                    &&& (r@[i].bytes, r@[i].files) == get0(self.totals_map(), self.met()[i])
                },
    {
        let mut out: Vec<DirTotal> = Vec::new();
        let mut i: usize = 0;
        while i < self.order.len()
            invariant
                i <= self.order@.len(),
                out@.len() == i,
                forall|j: int|
                    0 <= j < i ==> {
                        &&& (#[trigger] out@[j]).path@ == self.met()[j]
                        &&& (out@[j].bytes, out@[j].files) == get0(self.totals_map(), self.met()[j])
                    },
            decreases self.order@.len() - i,
        {
            let p = &self.order[i];
            assert(self.met()[i as int] == p@);
            let (b, f) = self.total_of(p.as_str());
            out.push(DirTotal { path: p.clone(), bytes: b, files: f });
            i = i + 1;
        }
        out
    }
}

/// A tally that fits for all ancestors fits for the first of them.
proof fn lemma_tally_fits_prefix(m: Map<Seq<char>, (u64, u64)>, anc: Seq<Seq<char>>, len: u64, i: int)
    requires
        0 <= i <= anc.len(),
    ensures
        tally_fits(m, anc, len) ==> tally_fits(m, anc.take(i), len),
    decreases anc.len() - i,
{
    if i < anc.len() {
        lemma_tally_fits_prefix(m, anc, len, i + 1);
        assert(anc.take(i + 1).drop_last() =~= anc.take(i));
    } else {
        assert(anc.take(i) =~= anc);
    }
}

} // verus!
