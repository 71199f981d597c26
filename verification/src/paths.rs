//! The path model. A path text is split into components at separators:
//! `/`, and also `\` in a Windows path text, one that starts with `\` or
//! with a drive letter, `:` and a separator. Empty and `.` segments are
//! left out. The first components of a Windows path may form its prefix,
//! which names no file: a drive (`C:`), a share (`\\server\share`), or a
//! verbatim or device prefix (`\\?\C:`, `\\?\UNC\server\share`,
//! `\\.\name`). Two paths are the same when they agree on being rooted and
//! on their components; `base` contains `p` when `base`'s components start
//! `p`'s.

use vstd::prelude::*;
use crate::text::push_char;

verus! {

/// An ASCII letter, as a drive letter is.
pub open spec fn is_drive_letter(c: char) -> bool {
    ('a' <= c && c <= 'z') || ('A' <= c && c <= 'Z')
}

/// A Windows path text: it starts with `\`, or with a drive letter, `:`
/// and a separator.
pub open spec fn windows_style(s: Seq<char>) -> bool {
    ||| s.len() >= 1 && s[0] == '\\'
    ||| s.len() >= 3 && is_drive_letter(s[0]) && s[1] == ':' && (s[2] == '\\' || s[2] == '/')
}

/// A separator of a path text of the given style.
pub open spec fn is_sep(windows: bool, c: char) -> bool {
    c == '/' || (windows && c == '\\')
}

/// Whether a path text is a Windows one.
pub fn is_windows_text(s: &str) -> (r: bool)
    ensures
        r == windows_style(s@),
{
    let n = s.unicode_len();
    if n >= 1 && s.get_char(0) == '\\' {
        return true;
    }
    if n < 3 {
        return false;
    }
    let c = s.get_char(0);
    let letter = ('a' <= c && c <= 'z') || ('A' <= c && c <= 'Z');
    let sep = s.get_char(2);
    letter && s.get_char(1) == ':' && (sep == '\\' || sep == '/')
}

/// Appends the pending segment unless it is empty or `.`.
pub open spec fn flush(done: Seq<Seq<char>>, cur: Seq<char>) -> Seq<Seq<char>> {
    if cur.len() == 0 || cur == seq!['.'] {
        done
    } else {
        done.push(cur)
    }
}

/// Components found in the first `i` characters, and the pending segment.
pub open spec fn split_state(s: Seq<char>, i: nat) -> (Seq<Seq<char>>, Seq<char>)
    decreases i,
{
    if i == 0 || i > s.len() {
        (Seq::empty(), Seq::empty())
    } else {
        let (done, cur) = split_state(s, (i - 1) as nat);
        if is_sep(windows_style(s), s[i - 1]) {
            (flush(done, cur), Seq::empty())
        } else {
            (done, cur.push(s[i - 1]))
        }
    }
}

/// The components of a path text.
pub open spec fn components(s: Seq<char>) -> Seq<Seq<char>> {
    let (done, cur) = split_state(s, s.len());
    flush(done, cur)
}

/// The path starts at a root: its first character is a separator.
pub open spec fn is_rooted(s: Seq<char>) -> bool {
    s.len() > 0 && is_sep(windows_style(s), s[0])
}

/// How many leading components of a Windows path form its prefix: a
/// drive (1), a verbatim UNC prefix `\\?\UNC\server\share` (4), another
/// verbatim or device prefix or a share (2); none for other paths.
pub open spec fn prefix_count(s: Seq<char>) -> nat {
    let c = components(s);
    let n: nat = if !windows_style(s) {
        0
    } else if !is_rooted(s) {
        1
    } else if s.len() >= 2 && is_sep(true, s[1]) {
        if c.len() >= 2 && c[0] == seq!['?'] && c[1] == seq!['U', 'N', 'C'] {
            4
        } else {
            2
        }
    } else {
        0
    };
    if n <= c.len() { n } else { c.len() }
}

/// `s` is the component `..`.
pub open spec fn is_parent_dir(s: Seq<char>) -> bool {
    s == seq!['.', '.']
}

/// Same path: same rootedness and the same components.
pub open spec fn same_path(a: Seq<char>, b: Seq<char>) -> bool {
    is_rooted(a) == is_rooted(b) && components(a) == components(b)
}

/// `base` is `p` or one of its ancestors (as `Path::starts_with`).
pub open spec fn path_within(p: Seq<char>, base: Seq<char>) -> bool {
    let pc = components(p);
    let bc = components(base);
    &&& is_rooted(p) == is_rooted(base)
    &&& bc.len() <= pc.len()
    &&& forall|j: int| 0 <= j < bc.len() ==> #[trigger] bc[j] == pc[j]
}

/// Why a path is never a deletion target, if it is one of: the empty path,
/// a path through `..`, or a path without any named component (a root,
/// with or without a prefix).
pub open spec fn spec_refusal(p: Seq<char>) -> Option<Seq<char>> {
    if p.len() == 0 {
        Some("refused: empty path"@)
    } else if exists|j: int| 0 <= j < components(p).len() && is_parent_dir(#[trigger] components(p)[j]) {
        Some("refused: `..` in path"@)
    } else if components(p).len() <= prefix_count(p) {
        Some("refused: filesystem root"@)
    } else {
        None
    }
}

/// A path split into components, kept for repeated comparisons.
pub struct PathKey {
    pub windows: bool,
    pub rooted: bool,
    pub prefix: usize,
    pub parts: Vec<Vec<char>>,
}

impl PathKey {
    /// The key describes the path text `s`.
    pub open spec fn describes(&self, s: Seq<char>) -> bool {
        &&& self.windows == windows_style(s)
        &&& self.rooted == is_rooted(s)
        &&& self.prefix == prefix_count(s)
        &&& self.parts@.len() == components(s).len()
        &&& forall|j: int| 0 <= j < self.parts@.len() ==> #[trigger] self.parts@[j]@ == components(s)[j]
    }
}

/// Character vectors with equal contents.
pub fn chars_eq(a: &Vec<char>, b: &Vec<char>) -> (r: bool)
    ensures
        r == (a@ == b@),
{
    if a.len() != b.len() {
        return false;
    }
    let mut i: usize = 0;
    while i < a.len()
        invariant
            a.len() == b.len(),
            i <= a.len(),
            forall|j: int| 0 <= j < i ==> a@[j] == b@[j],
        decreases a.len() - i,
    {
        if a[i] != b[i] {
            return false;
        }
        i = i + 1;
    }
    assert(a@ =~= b@);
    true
}

/// Pushes the pending segment when it is a component.
fn flush_exec(done: &mut Vec<Vec<char>>, cur: Vec<char>)
    ensures
        final(done)@.len() == flush(old(done)@.map_values(|v: Vec<char>| v@), cur@).len(),
        forall|j: int| 0 <= j < final(done)@.len() ==>
            #[trigger] final(done)@[j]@ == flush(old(done)@.map_values(|v: Vec<char>| v@), cur@)[j],
{
    let is_dot = cur.len() == 1 && cur[0] == '.';
    if cur.len() == 0 || is_dot {
        proof {
            if cur@.len() != 0 {
                assert(cur@ =~= seq!['.']);
            }
        }
    } else {
        proof {
            if cur@ == seq!['.'] {
                assert(cur@[0] == '.');
            }
        }
        done.push(cur);
    }
}

/// Whether a component is exactly `text`.
fn part_is(part: &Vec<char>, text: &str) -> (r: bool)
    ensures
        r == (part@ == text@),
{
    let n = text.unicode_len();
    if part.len() != n {
        return false;
    }
    let mut i: usize = 0;
    while i < n
        invariant
            n == text@.len(),
            part@.len() == n,
            i <= n,
            forall|j: int| 0 <= j < i ==> part@[j] == text@[j],
        decreases n - i,
    {
        if part[i] != text.get_char(i) {
            return false;
        }
        i = i + 1;
    }
    assert(part@ =~= text@);
    true
}

/// Splits a path text into its components.
pub fn path_key(s: &str) -> (r: PathKey)
    ensures
        r.describes(s@),
{
    let w = is_windows_text(s);
    let n = s.unicode_len();
    let mut done: Vec<Vec<char>> = Vec::new();
    let mut cur: Vec<char> = Vec::new();
    let mut i: usize = 0;
    while i < n
        invariant
            n == s@.len(),
            w == windows_style(s@),
            i <= n,
            done@.map_values(|v: Vec<char>| v@) == split_state(s@, i as nat).0,
            cur@ == split_state(s@, i as nat).1,
        decreases n - i,
    {
        let c = s.get_char(i);
        if c == '/' || (w && c == '\\') {
            let pending = cur;
            cur = Vec::new();
            flush_exec(&mut done, pending);
            assert(done@.map_values(|v: Vec<char>| v@) =~= split_state(s@, (i + 1) as nat).0);
        } else {
            cur.push(c);
        }
        i = i + 1;
    }
    let rooted = n > 0 && (s.get_char(0) == '/' || (w && s.get_char(0) == '\\'));
    flush_exec(&mut done, cur);
    let ghost c = components(s@);
    proof {
        assert forall|j: int| 0 <= j < done@.len() implies #[trigger] done@[j]@ == c[j] by {}
        reveal_strlit("?");
        reveal_strlit("UNC");
    }
    let count: usize = if !w {
        0
    } else if !rooted {
        1
    } else if n >= 2 && (s.get_char(1) == '/' || s.get_char(1) == '\\') {
        if done.len() >= 2 && part_is(&done[0], "?") && part_is(&done[1], "UNC") {
            proof {
                assert("?"@ =~= seq!['?']);
                assert("UNC"@ =~= seq!['U', 'N', 'C']);
            }
            4
        } else {
            proof {
                assert("?"@ =~= seq!['?']);
                assert("UNC"@ =~= seq!['U', 'N', 'C']);
            }
            2
        }
    } else {
        0
    };
    let prefix = if count <= done.len() { count } else { done.len() };
    PathKey { windows: w, rooted, prefix, parts: done }
}

/// Same path (rootedness and components).
pub fn key_eq(a: &PathKey, b: &PathKey) -> (r: bool)
    ensures
        forall|x: Seq<char>, y: Seq<char>| a.describes(x) && b.describes(y) ==> (r == same_path(x, y)),
{
    if a.rooted != b.rooted || a.parts.len() != b.parts.len() {
        return false;
    }
    let mut i: usize = 0;
    while i < a.parts.len()
        invariant
            a.parts.len() == b.parts.len(),
            a.rooted == b.rooted,
            i <= a.parts.len(),
            forall|j: int| 0 <= j < i ==> a.parts@[j]@ == b.parts@[j]@,
        decreases a.parts.len() - i,
    {
        if !chars_eq(&a.parts[i], &b.parts[i]) {
            return false;
        }
        i = i + 1;
    }
    proof {
        assert forall|x: Seq<char>, y: Seq<char>| a.describes(x) && b.describes(y) implies same_path(x, y) by {
            assert forall|j: int| 0 <= j < components(x).len() implies components(x)[j] == components(y)[j] by {
                assert(a.parts@[j]@ == b.parts@[j]@);
            }
            assert(components(x) =~= components(y));
        }
    }
    true
}

/// `base` is `p` or an ancestor of `p`.
pub fn key_within(p: &PathKey, base: &PathKey) -> (r: bool)
    ensures
        forall|x: Seq<char>, y: Seq<char>| p.describes(x) && base.describes(y) ==> (r == path_within(x, y)),
{
    if p.rooted != base.rooted || base.parts.len() > p.parts.len() {
        return false;
    }
    let mut i: usize = 0;
    while i < base.parts.len()
        invariant
            base.parts.len() <= p.parts.len(),
            p.rooted == base.rooted,
            i <= base.parts.len(),
            forall|j: int| 0 <= j < i ==> base.parts@[j]@ == p.parts@[j]@,
        decreases base.parts.len() - i,
    {
        if !chars_eq(&p.parts[i], &base.parts[i]) {
            proof {
                assert forall|x: Seq<char>, y: Seq<char>| p.describes(x) && base.describes(y) implies !path_within(x, y) by {
                    assert(components(y)[i as int] != components(x)[i as int]);
                }
            }
            return false;
        }
        i = i + 1;
    }
    proof {
        assert forall|x: Seq<char>, y: Seq<char>| p.describes(x) && base.describes(y) implies path_within(x, y) by {
            assert forall|j: int| 0 <= j < components(y).len() implies #[trigger] components(y)[j] == components(x)[j] by {
                assert(base.parts@[j]@ == p.parts@[j]@);
            }
        }
    }
    true
}

/// The structural refusal of a deletion target, if any.
pub fn refusal_reason(path: &str) -> (r: Option<String>)
    ensures
        r matches Some(m) ==> spec_refusal(path@) == Some(m@),
        r is None ==> spec_refusal(path@) is None,
{
    if path.unicode_len() == 0 {
        return Some("refused: empty path".to_owned());
    }
    let key = path_key(path);
    let mut i: usize = 0;
    while i < key.parts.len()
        invariant
            key.describes(path@),
            i <= key.parts.len(),
            forall|j: int| 0 <= j < i ==> !is_parent_dir(#[trigger] components(path@)[j]),
        decreases key.parts.len() - i,
    {
        let part = &key.parts[i];
        if part.len() == 2 && part[0] == '.' && part[1] == '.' {
            assert(part@ =~= seq!['.', '.']);
            assert(is_parent_dir(components(path@)[i as int]));
            return Some("refused: `..` in path".to_owned());
        }
        proof {
            if is_parent_dir(components(path@)[i as int]) {
                assert(part@[0] == '.' && part@[1] == '.');
            }
        }
        i = i + 1;
    }
    if key.parts.len() <= key.prefix {
        return Some("refused: filesystem root".to_owned());
    }
    None
}

/// The separator a path text is written with: `\` in a Windows path,
/// else `/`.
pub open spec fn sep_of(p: Seq<char>) -> char {
    if windows_style(p) { '\\' } else { '/' }
}

/// `PathBuf::join` for a relative `name`: one separator between the
/// parts, the base's own.
pub open spec fn spec_join(base: Seq<char>, name: Seq<char>) -> Seq<char> {
    if is_rooted(name) || base.len() == 0 {
        name
    } else if is_sep(windows_style(base), base[base.len() - 1]) {
        base + name
    } else {
        base + seq![sep_of(base)] + name
    }
}

/// Joins a component (or a relative path) onto a base path.
pub fn join(base: &str, name: &str) -> (r: String)
    ensures
        r@ == spec_join(base@, name@),
{
    let n = base.unicode_len();
    let wn = is_windows_text(name);
    let name_rooted = name.unicode_len() > 0 && (name.get_char(0) == '/' || (wn && name.get_char(0) == '\\'));
    if name_rooted || n == 0 {
        return name.to_owned();
    }
    let w = is_windows_text(base);
    let mut s = base.to_owned();
    let last = base.get_char(n - 1);
    if !(last == '/' || (w && last == '\\')) {
        push_char(&mut s, if w { '\\' } else { '/' });
    }
    s.append(name);
    s
}

} // verus!

verus! {

/// `Path::file_name`: the last component, unless there is none past the
/// prefix or it is `..`.
pub open spec fn spec_file_name(p: Seq<char>) -> Option<Seq<char>> {
    let c = components(p);
    if c.len() <= prefix_count(p) || is_parent_dir(c.last()) {
        None
    } else {
        Some(c.last())
    }
}

/// The last component of a path.
pub fn file_name(p: &str) -> (r: Option<String>)
    ensures
        match r {
            Some(s) => spec_file_name(p@) == Some(s@),
            None => spec_file_name(p@) is None,
        },
{
    let key = path_key(p);
    let n = key.parts.len();
    if n <= key.prefix {
        return None;
    }
    let last = &key.parts[n - 1];
    assert(last@ == components(p@).last());
    if last.len() == 2 && last[0] == '.' && last[1] == '.' {
        assert(last@ =~= seq!['.', '.']);
        return None;
    }
    proof {
        if is_parent_dir(last@) {
            assert(last@[0] == '.' && last@[1] == '.');
        }
    }
    Some(crate::text::text_of(last))
}

/// The last component of a path, or `?` when there is none.
pub open spec fn spec_short_name(p: Seq<char>) -> Seq<char> {
    match spec_file_name(p) {
        Some(n) => n,
        None => "?"@,
    }
}

/// The name a path is shown by: its last component, or `?`.
pub fn short_name(p: &str) -> (r: String)
    ensures
        r@ == spec_short_name(p@),
{
    proof {
        reveal_strlit("?");
    }
    match file_name(p) {
        Some(n) => n,
        None => "?".to_owned(),
    }
}

} // verus!

verus! {

/// `Path::file_stem` and `Path::extension` of a file name: split at the
/// last `.`, unless the name has no `.`, starts with its only `.`, or is
/// `..`.
pub open spec fn stem_and_extension(name: Seq<char>) -> (Seq<char>, Option<Seq<char>>) {
    if name == seq!['.', '.'] {
        (name, None)
    } else {
        match last_dot(name) {
            None => (name, None),
            Some(i) => if i == 0 { (name, None) } else { (name.take(i), Some(name.skip(i + 1))) },
        }
    }
}

/// The position of the last `.` in a text.
pub open spec fn last_dot(s: Seq<char>) -> Option<int>
    decreases s.len(),
{
    if s.len() == 0 {
        None
    } else if s.last() == '.' {
        Some(s.len() - 1)
    } else {
        last_dot(s.drop_last())
    }
}

/// The position of the last `.` in a text.
pub fn find_last_dot(s: &str) -> (r: Option<usize>)
    ensures
        match r {
            Some(i) => last_dot(s@) == Some(i as int) && i < s@.len(),
            None => last_dot(s@) is None,
        },
{
    let n = s.unicode_len();
    let mut i: usize = n;
    assert(s@.take(n as int) =~= s@);
    while i > 0
        invariant
            i <= n == s@.len(),
            last_dot(s@) == last_dot(s@.take(i as int)),
        decreases i,
    {
        assert(s@.take(i as int).last() == s@[i - 1]);
        assert(s@.take(i as int).drop_last() =~= s@.take(i - 1));
        if s.get_char(i - 1) == '.' {
            return Some(i - 1);
        }
        i = i - 1;
    }
    None
}

/// The name of the directory holding `p`: the last component of its
/// parent, if it has one.
pub open spec fn parent_name(p: Seq<char>) -> Option<Seq<char>> {
    let c = components(p);
    if c.len() >= prefix_count(p) + 2 && !is_parent_dir(c[c.len() - 2]) {
        Some(c[c.len() - 2])
    } else {
        None
    }
}

/// The name of the directory holding a path, or `?`.
pub open spec fn spec_short_parent(p: Seq<char>) -> Seq<char> {
    match parent_name(p) {
        Some(n) => n,
        None => "?"@,
    }
}

/// The name of the directory holding a path, or `?` when there is none.
pub fn short_parent(p: &str) -> (r: String)
    ensures
        r@ == spec_short_parent(p@),
{
    proof {
        reveal_strlit("?");
    }
    let key = path_key(p);
    let n = key.parts.len();
    if n < 2 || n - 2 < key.prefix {
        return "?".to_owned();
    }
    let name = &key.parts[n - 2];
    assert(name@ == components(p@)[n - 2]);
    if name.len() == 2 && name[0] == '.' && name[1] == '.' {
        assert(name@ =~= seq!['.', '.']);
        return "?".to_owned();
    }
    proof {
        if is_parent_dir(name@) {
            assert(name@[0] == '.' && name@[1] == '.');
        }
    }
    crate::text::text_of(name)
}

} // verus!

verus! {

/// The separators a text starts with, for a text of the given style.
pub open spec fn lead_of(t: Seq<char>, w: bool) -> Seq<char>
    decreases t.len(),
{
    if t.len() > 0 && is_sep(w, t[0]) {
        seq![t[0]] + lead_of(t.drop_first(), w)
    } else {
        Seq::empty()
    }
}

/// The separators a path text starts with: its root as written.
pub open spec fn head(p: Seq<char>) -> Seq<char> {
    lead_of(p, windows_style(p))
}

/// Parts joined by a separator.
pub open spec fn joined(parts: Seq<Seq<char>>, sep: char) -> Seq<char>
    decreases parts.len(),
{
    if parts.len() == 0 {
        Seq::empty()
    } else if parts.len() == 1 {
        parts[0]
    } else {
        joined(parts.drop_last(), sep) + seq![sep] + parts.last()
    }
}

/// The root separator that follows the prefix of a Windows path cut to
/// its first `count` components, when the cut keeps just the prefix.
pub open spec fn root_after(p: Seq<char>, count: nat) -> Seq<char> {
    if windows_style(p) && prefix_count(p) > 0 && count == prefix_count(p) {
        seq![sep_of(p)]
    } else {
        Seq::empty()
    }
}

/// The text of path `p` cut to `parts` (its first components): its
/// leading separators, then the parts joined by its separator, then the
/// root after a bare prefix.
pub open spec fn rebuilt(p: Seq<char>, parts: Seq<Seq<char>>) -> Seq<char> {
    head(p) + joined(parts, sep_of(p)) + root_after(p, parts.len())
}

/// `Path::parent`: the path without its last component; `None` when no
/// component follows the prefix.
pub open spec fn spec_parent(p: Seq<char>) -> Option<Seq<char>> {
    let c = components(p);
    if c.len() <= prefix_count(p) {
        None
    } else {
        Some(rebuilt(p, c.drop_last()))
    }
}

/// Joining one more part.
pub proof fn lemma_joined_step(parts: Seq<Seq<char>>, sep: char, i: int)
    requires
        0 <= i < parts.len(),
    ensures
        joined(parts.take(i + 1), sep) == if i == 0 {
            parts[0]
        } else {
            joined(parts.take(i), sep) + seq![sep] + parts[i]
        },
{
    let t = parts.take(i + 1);
    assert(t.drop_last() =~= parts.take(i));
    assert(t.last() == parts[i]);
    if i == 0 {
        assert(t.len() == 1);
    }
}

/// The separators a path text starts with.
pub fn head_text(p: &str, w: bool) -> (r: String)
    requires
        w == windows_style(p@),
    ensures
        r@ == head(p@),
{
    let n = p.unicode_len();
    let mut s = String::new();
    let mut i: usize = 0;
    assert(p@.skip(0) =~= p@);
    while i < n && (p.get_char(i) == '/' || (w && p.get_char(i) == '\\'))
        invariant
            n == p@.len(),
            i <= n,
            s@ + lead_of(p@.skip(i as int), w) == lead_of(p@, w),
        decreases n - i,
    {
        let c = p.get_char(i);
        assert(p@.skip(i as int)[0] == c);
        assert(p@.skip(i as int).drop_first() =~= p@.skip(i + 1));
        push_char(&mut s, c);
        proof {
            assert(lead_of(p@.skip(i as int), w) == seq![c] + lead_of(p@.skip(i + 1), w));
            assert(s@ + lead_of(p@.skip(i + 1), w) =~= lead_of(p@, w));
        }
        i = i + 1;
    }
    proof {
        if i < n {
            assert(p@.skip(i as int)[0] == p@[i as int]);
        }
        assert(lead_of(p@.skip(i as int), w) =~= Seq::<char>::empty());
        assert(s@ =~= lead_of(p@, w));
    }
    s
}

/// Appends the root after a bare prefix.
pub fn push_root_after(s: &mut String, key: &PathKey, count: usize, Ghost(p): Ghost<Seq<char>>)
    requires
        key.describes(p),
    ensures
        final(s)@ == old(s)@ + root_after(p, count as nat),
{
    if key.windows && key.prefix > 0 && count == key.prefix {
        push_char(s, '\\');
    } else {
        assert(old(s)@ + Seq::<char>::empty() =~= old(s)@);
    }
}

/// The text of path `p` cut to its first `count` components.
pub fn rebuild(p: &str, key: &PathKey, count: usize) -> (r: String)
    requires
        key.describes(p@),
        count <= key.parts@.len(),
    ensures
        r@ == rebuilt(p@, components(p@).take(count as int)),
{
    let ghost c = components(p@);
    let sep = if key.windows { '\\' } else { '/' };
    let mut s = head_text(p, key.windows);
    let mut i: usize = 0;
    assert(c.take(0) =~= Seq::<Seq<char>>::empty());
    while i < count
        invariant
            key.describes(p@),
            c == components(p@),
            count <= key.parts@.len(),
            sep == sep_of(p@),
            i <= count,
            s@ == head(p@) + joined(c.take(i as int), sep),
        decreases count - i,
    {
        if i > 0 {
            push_char(&mut s, sep);
        }
        let part = crate::text::text_of(&key.parts[i]);
        assert(part@ == c[i as int]);
        s.append(part.as_str());
        proof {
            lemma_joined_step(c, sep, i as int);
            if i == 0 {
                assert(s@ =~= head(p@) + joined(c.take(1), sep));
            } else {
                assert(s@ =~= head(p@) + joined(c.take(i + 1), sep));
            }
        }
        i = i + 1;
    }
    push_root_after(&mut s, key, count, Ghost(p@));
    assert(c.take(count as int).len() == count);
    s
}

/// The parent of a path.
pub fn parent_path(p: &str) -> (r: Option<String>)
    ensures
        match r {
            Some(s) => spec_parent(p@) == Some(s@),
            None => spec_parent(p@) is None,
        },
{
    let key = path_key(p);
    let n = key.parts.len();
    if n <= key.prefix {
        return None;
    }
    let s = rebuild(p, &key, n - 1);
    assert(components(p@).take(n - 1) =~= components(p@).drop_last());
    Some(s)
}

} // verus!

verus! {

/// The component sequence `Path`'s order compares: a root marker `/`
/// for rooted paths, then the components.
pub open spec fn order_parts(p: Seq<char>) -> Seq<Seq<char>> {
    if is_rooted(p) {
        seq![seq!['/']] + components(p)
    } else {
        components(p)
    }
}

/// The rank of a compared part: the root first, then `..`, then names.
pub open spec fn part_rank(x: Seq<char>) -> int {
    if x == seq!['/'] {
        0
    } else if x == seq!['.', '.'] {
        1
    } else {
        2
    }
}

/// One compared part sorts before another: by rank, names by text.
pub open spec fn part_lt(x: Seq<char>, y: Seq<char>) -> bool {
    part_rank(x) < part_rank(y) || (part_rank(x) == 2 && part_rank(y) == 2 && crate::text::text_lt(x, y))
}

/// Lexicographic order of part sequences.
pub open spec fn parts_lt(a: Seq<Seq<char>>, b: Seq<Seq<char>>) -> bool
    decreases a.len(),
{
    if b.len() == 0 {
        false
    } else if a.len() == 0 {
        true
    } else if a[0] != b[0] {
        part_lt(a[0], b[0])
    } else {
        parts_lt(a.drop_first(), b.drop_first())
    }
}

/// `Path`'s order: component by component.
pub open spec fn path_lt(a: Seq<char>, b: Seq<char>) -> bool {
    parts_lt(order_parts(a), order_parts(b))
}

/// Part order is transitive.
pub proof fn lemma_part_lt_transitive(x: Seq<char>, y: Seq<char>, z: Seq<char>)
    requires
        part_lt(x, y),
        part_lt(y, z),
    ensures
        part_lt(x, z),
{
    if part_rank(x) == 2 && part_rank(y) == 2 && part_rank(z) == 2 {
        crate::text::lemma_text_lt_transitive(x, y, z);
    }
}

/// Part order is irreflexive.
pub proof fn lemma_part_lt_irreflexive(x: Seq<char>)
    ensures
        !part_lt(x, x),
{
    crate::text::lemma_text_lt_irreflexive(x);
}

/// Lexicographic part order is transitive.
pub proof fn lemma_parts_lt_transitive(a: Seq<Seq<char>>, b: Seq<Seq<char>>, c: Seq<Seq<char>>)
    requires
        parts_lt(a, b),
        parts_lt(b, c),
    ensures
        parts_lt(a, c),
    decreases a.len(),
{
    if a.len() > 0 && b.len() > 0 && c.len() > 0 {
        if a[0] == b[0] && b[0] == c[0] {
            lemma_parts_lt_transitive(a.drop_first(), b.drop_first(), c.drop_first());
        } else if a[0] != b[0] && b[0] != c[0] {
            lemma_part_lt_transitive(a[0], b[0], c[0]);
            if a[0] == c[0] {
                lemma_part_lt_irreflexive(a[0]);
            }
        }
    }
}

/// Lexicographic part order is irreflexive.
pub proof fn lemma_parts_lt_irreflexive(a: Seq<Seq<char>>)
    ensures
        !parts_lt(a, a),
    decreases a.len(),
{
    if a.len() > 0 {
        lemma_parts_lt_irreflexive(a.drop_first());
    }
}

/// Whether one part sorts before another.
fn part_less(x: &Vec<char>, y: &Vec<char>) -> (r: bool)
    ensures
        r == part_lt(x@, y@),
{
    let rx: u8 = if x.len() == 1 && x[0] == '/' { 0 } else if x.len() == 2 && x[0] == '.' && x[1] == '.' { 1 } else { 2 };
    let ry: u8 = if y.len() == 1 && y[0] == '/' { 0 } else if y.len() == 2 && y[0] == '.' && y[1] == '.' { 1 } else { 2 };
    proof {
        if x@ == seq!['/'] {
            assert(x@[0] == '/');
        }
        if x@ == seq!['.', '.'] {
            assert(x@[0] == '.' && x@[1] == '.');
        }
        if y@ == seq!['/'] {
            assert(y@[0] == '/');
        }
        if y@ == seq!['.', '.'] {
            assert(y@[0] == '.' && y@[1] == '.');
        }
        if rx == 0 {
            assert(x@ =~= seq!['/']);
        }
        if rx == 1 {
            assert(x@ =~= seq!['.', '.']);
        }
        if ry == 0 {
            assert(y@ =~= seq!['/']);
        }
        if ry == 1 {
            assert(y@ =~= seq!['.', '.']);
        }
    }
    if rx != ry {
        return rx < ry;
    }
    if rx != 2 {
        return false;
    }
    let a = crate::text::text_of(x);
    let b = crate::text::text_of(y);
    crate::text::text_less(a.as_str(), b.as_str())
}

/// The parts `Path`'s order compares, from a key.
fn key_order_parts(k: &PathKey) -> (r: Vec<Vec<char>>)
    ensures
        forall|s: Seq<char>| k.describes(s) ==> r@.map_values(|v: Vec<char>| v@) == order_parts(s),
{
    let mut out: Vec<Vec<char>> = Vec::new();
    if k.rooted {
        out.push(vec!['/']);
    }
    let ghost start = out@.len();
    let mut i: usize = 0;
    while i < k.parts.len()
        invariant
            start == (if k.rooted { 1int } else { 0int }),
            out@.len() == start + i,
            k.rooted ==> out@[0]@ == seq!['/'],
            i <= k.parts@.len(),
            forall|j: int| 0 <= j < i ==> #[trigger] out@[start + j]@ == k.parts@[j]@,
        decreases k.parts@.len() - i,
    {
        out.push(clone_chars(&k.parts[i]));
        i = i + 1;
    }
    proof {
        assert forall|s: Seq<char>| k.describes(s) implies out@.map_values(|v: Vec<char>| v@) == order_parts(s) by {
            let m = out@.map_values(|v: Vec<char>| v@);
            if k.rooted {
                let t = seq![seq!['/']] + components(s);
                assert forall|j: int| 0 <= j < t.len() implies m[j] == t[j] by {
                    if j > 0 {
                        assert(out@[1 + (j - 1)]@ == k.parts@[j - 1]@);
                    }
                }
                assert(m =~= t);
            } else {
                let t = components(s);
                assert forall|j: int| 0 <= j < t.len() implies m[j] == t[j] by {
                    assert(out@[0 + j]@ == k.parts@[j]@);
                }
                assert(m =~= t);
            }
        }
    }
    out
}

/// A copy of a character vector.
fn clone_chars(v: &Vec<char>) -> (r: Vec<char>)
    ensures
        r@ == v@,
{
    let mut out: Vec<char> = Vec::new();
    let mut i: usize = 0;
    while i < v.len()
        invariant
            i <= v@.len(),
            out@ == v@.take(i as int),
        decreases v@.len() - i,
    {
        out.push(v[i]);
        assert(v@.take(i + 1) =~= v@.take(i as int).push(v@[i as int]));
        i = i + 1;
    }
    assert(v@.take(v@.len() as int) =~= v@);
    out
}

/// Whether path `a` sorts before path `b` in `Path`'s order.
pub fn path_less(a: &str, b: &str) -> (r: bool)
    ensures
        r == path_lt(a@, b@),
{
    let ka = key_order_parts(&path_key(a));
    let kb = key_order_parts(&path_key(b));
    let ghost pa = order_parts(a@);
    let ghost pb = order_parts(b@);
    assert(ka@.map_values(|v: Vec<char>| v@) == pa);
    assert(kb@.map_values(|v: Vec<char>| v@) == pb);
    let mut i: usize = 0;
    assert(pa.skip(0) =~= pa);
    assert(pb.skip(0) =~= pb);
    while i < ka.len() && i < kb.len() && chars_eq(&ka[i], &kb[i])
        invariant
            ka@.map_values(|v: Vec<char>| v@) == pa,
            kb@.map_values(|v: Vec<char>| v@) == pb,
            i <= ka@.len(),
            i <= kb@.len(),
            parts_lt(pa, pb) == parts_lt(pa.skip(i as int), pb.skip(i as int)),
        decreases ka@.len() - i,
    {
        assert(pa.skip(i as int).drop_first() =~= pa.skip(i + 1));
        assert(pb.skip(i as int).drop_first() =~= pb.skip(i + 1));
        assert(pa.skip(i as int)[0] == pa[i as int]);
        assert(pb.skip(i as int)[0] == pb[i as int]);
        assert(ka@[i as int]@ == pa[i as int]);
        i = i + 1;
    }
    if i == kb.len() {
        return false;
    }
    if i == ka.len() {
        return true;
    }
    assert(pa.skip(i as int)[0] == pa[i as int]);
    assert(pb.skip(i as int)[0] == pb[i as int]);
    assert(ka@[i as int]@ == pa[i as int]);
    assert(kb@[i as int]@ == pb[i as int]);
    part_less(&ka[i], &kb[i])
}

} // verus!

verus! {

/// A text with no separator of the given style.
pub open spec fn no_sep(name: Seq<char>, w: bool) -> bool {
    forall|i: int| 0 <= i < name.len() ==> !is_sep(w, #[trigger] name[i])
}

/// A single named component: not empty, not `.`, without `/` or `\`.
pub open spec fn is_single_name(name: Seq<char>) -> bool {
    name.len() > 0 && name != seq!['.'] && no_sep(name, true)
}

/// Splitting agrees on a shared prefix of two texts of the same style.
proof fn lemma_split_prefix(s: Seq<char>, t: Seq<char>, i: nat)
    requires
        i <= s.len(),
        i <= t.len(),
        windows_style(s) == windows_style(t),
        s.take(i as int) == t.take(i as int),
    ensures
        split_state(s, i) == split_state(t, i),
    decreases i,
{
    if i > 0 {
        assert(s.take(i - 1) =~= s.take(i as int).take(i - 1));
        assert(t.take(i - 1) =~= t.take(i as int).take(i - 1));
        lemma_split_prefix(s, t, (i - 1) as nat);
        assert(s[i - 1] == s.take(i as int)[i - 1]);
        assert(t[i - 1] == t.take(i as int)[i - 1]);
    }
}

/// Characters without separators extend the pending segment.
proof fn lemma_split_name(s: Seq<char>, p: nat, j: nat)
    requires
        p + j <= s.len(),
        no_sep(s.subrange(p as int, s.len() as int), windows_style(s)),
    ensures
        split_state(s, p + j) == (split_state(s, p).0, split_state(s, p).1 + s.subrange(p as int, (p + j) as int)),
    decreases j,
{
    if j == 0 {
        assert(split_state(s, p).1 + s.subrange(p as int, p as int) =~= split_state(s, p).1);
    } else {
        lemma_split_name(s, p, (j - 1) as nat);
        assert(s.subrange(p as int, s.len() as int)[j - 1] == s[p + j - 1]);
        assert(s.subrange(p as int, (p + j) as int) =~= s.subrange(p as int, (p + j - 1) as int).push(s[p + j - 1]));
        assert((split_state(s, p).1 + s.subrange(p as int, (p + j - 1) as int)).push(s[p + j - 1]) =~= split_state(s, p).1
            + s.subrange(p as int, (p + j) as int));
    }
}

/// Joining a single name onto a path of at least three characters adds
/// one component and keeps the path's root.
pub proof fn lemma_join_adds_component(base: Seq<char>, name: Seq<char>)
    requires
        base.len() >= 3,
        is_single_name(name),
    ensures
        components(spec_join(base, name)) == components(base).push(name),
        is_rooted(spec_join(base, name)) == is_rooted(base),
        windows_style(spec_join(base, name)) == windows_style(base),
{
    let w = windows_style(base);
    let s = spec_join(base, name);
    assert(!is_rooted(name)) by {
        assert(!is_sep(true, name[0]));
    }
    assert(no_sep(name, w)) by {
        assert forall|i: int| 0 <= i < name.len() implies !is_sep(w, #[trigger] name[i]) by {
            assert(!is_sep(true, name[i]));
        }
    }
    let n = base.len();
    assert(s.take(3) =~= base.take(3));
    assert(s[0] == base[0] && s[1] == base[1] && s[2] == base[2]);
    assert(windows_style(s) == w);
    assert(s.take(n as int) =~= base.take(n as int));
    lemma_split_prefix(s, base, n);
    assert(base.take(n as int) =~= base);
    let (d, c) = split_state(base, n);
    if is_sep(w, base[n - 1]) {
        assert(s =~= base + name);
        assert(s.subrange(n as int, s.len() as int) =~= name);
        lemma_split_name(s, n, name.len());
        assert(s.subrange(n as int, (n + name.len()) as int) =~= name);
        // the last character of base is a separator, so nothing is pending
        assert(split_state(base, n).1 =~= Seq::<char>::empty());
        assert(Seq::<char>::empty() + name =~= name);
        assert(flush(d, c) == d);
    } else {
        assert(s =~= base + seq![sep_of(base)] + name);
        assert(is_sep(w, s[n as int]));
        assert(split_state(s, n + 1) == (flush(d, c), Seq::<char>::empty()));
        assert(s.subrange((n + 1) as int, s.len() as int) =~= name);
        lemma_split_name(s, n + 1, name.len());
        assert(s.subrange((n + 1) as int, (n + 1 + name.len()) as int) =~= name);
        assert(Seq::<char>::empty() + name =~= name);
        assert(s.len() == n + 1 + name.len());
    }
    assert(s[0] == base[0]);
}

/// Containment of paths is transitive.
pub proof fn lemma_within_transitive(a: Seq<char>, b: Seq<char>, c: Seq<char>)
    requires
        path_within(a, b),
        path_within(b, c),
    ensures
        path_within(a, c),
{
    assert forall|j: int| 0 <= j < components(c).len() implies #[trigger] components(c)[j] == components(a)[j] by {
        assert(components(c)[j] == components(b)[j]);
    }
}

/// Joining a single name onto a path of at least three characters gives a
/// path inside it.
pub proof fn lemma_join_within(base: Seq<char>, name: Seq<char>)
    requires
        base.len() >= 3,
        is_single_name(name),
    ensures
        path_within(spec_join(base, name), base),
        spec_join(base, name).len() >= 3,
        windows_style(spec_join(base, name)) == windows_style(base),
{
    lemma_join_adds_component(base, name);
    let s = spec_join(base, name);
    assert forall|j: int| 0 <= j < components(base).len() implies #[trigger] components(base)[j] == components(s)[j] by {}
}

} // verus!
