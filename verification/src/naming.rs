//! Target-path construction: the date-derived directory, the timestamp-based
//! filename with its optional collision suffix, extension extraction, and the
//! tag inferred from a file's position under the input root.

use vstd::prelude::*;
use crate::metadata::{valid_timestamp, Timestamp};
use crate::text::{digit_char, digit_str, trim, trim_of};

verus! {

// ---------------------------------------------------------------------------
// Zero-padded decimal fields
// ---------------------------------------------------------------------------

/// A two-digit zero-padded decimal field.
pub open spec fn two_digits(v: int) -> Seq<char> {
    seq![digit_char(v / 10), digit_char(v % 10)]
}

/// A four-digit zero-padded decimal field.
pub open spec fn four_digits(v: int) -> Seq<char> {
    seq![
        digit_char(v / 1000),
        digit_char((v / 100) % 10),
        digit_char((v / 10) % 10),
        digit_char(v % 10),
    ]
}

/// Appends the two-digit form of `v`.
fn push_two_digits(s: &mut String, v: u32)
    requires
        v <= 99,
    ensures
        final(s)@ == old(s)@ + two_digits(v as int),
{
    s.append(digit_str(v / 10));
    s.append(digit_str(v % 10));
    proof {
        assert(s@ =~= old(s)@ + two_digits(v as int));
    }
}

/// Appends the four-digit form of `v`.
fn push_four_digits(s: &mut String, v: u32)
    requires
        v <= 9999,
    ensures
        final(s)@ == old(s)@ + four_digits(v as int),
{
    s.append(digit_str(v / 1000));
    s.append(digit_str((v / 100) % 10));
    s.append(digit_str((v / 10) % 10));
    s.append(digit_str(v % 10));
    proof {
        assert(s@ =~= old(s)@ + four_digits(v as int));
    }
}

// ---------------------------------------------------------------------------
// Filenames
// ---------------------------------------------------------------------------

/// The `YYYY-MM-DD HH.MM.SS` stem of a filename.
pub open spec fn stem_chars(t: Timestamp) -> Seq<char> {
    four_digits(t.year as int) + seq!['-'] + two_digits(t.month as int) + seq!['-'] + two_digits(
        t.day as int,
    ) + seq![' '] + two_digits(t.hour as int) + seq!['.'] + two_digits(t.minute as int)
        + seq!['.'] + two_digits(t.second as int)
}

/// The base filename `YYYY-MM-DD HH.MM.SS.ext`.
pub open spec fn filename_chars(t: Timestamp, ext: Seq<char>) -> Seq<char> {
    stem_chars(t) + seq!['.'] + ext
}

/// The suffixed filename `YYYY-MM-DD HH.MM.SS SUFFIX.ext`, used only under
/// collision.
pub open spec fn suffixed_filename_chars(t: Timestamp, suffix: Seq<char>, ext: Seq<char>) -> Seq<
    char,
> {
    stem_chars(t) + seq![' '] + suffix + seq!['.'] + ext
}

/// Builds the `YYYY-MM-DD HH.MM.SS` stem.
fn push_stem(s: &mut String, dt: &Timestamp)
    requires
        valid_timestamp(*dt),
    ensures
        final(s)@ == old(s)@ + stem_chars(*dt),
{
    proof {
        reveal_strlit("-");
        reveal_strlit(" ");
        reveal_strlit(".");
    }
    push_four_digits(s, dt.year);
    s.append("-");
    push_two_digits(s, dt.month);
    s.append("-");
    push_two_digits(s, dt.day);
    s.append(" ");
    push_two_digits(s, dt.hour);
    s.append(".");
    push_two_digits(s, dt.minute);
    s.append(".");
    push_two_digits(s, dt.second);
    proof {
        assert(s@ =~= old(s)@ + stem_chars(*dt));
    }
}

/// The base filename for a timestamp and extension:
/// `YYYY-MM-DD HH.MM.SS.ext`, every field zero-padded to its fixed width.
pub fn format_filename(dt: &Timestamp, ext: &str) -> (r: String)
    requires
        valid_timestamp(*dt),
    ensures
        r@ == filename_chars(*dt, ext@),
{
    proof {
        reveal_strlit(".");
    }
    let mut s = String::new();
    push_stem(&mut s, dt);
    s.append(".");
    s.append(ext);
    proof {
        assert(s@ =~= filename_chars(*dt, ext@));
    }
    s
}

/// The collision form of the filename, with the disambiguating suffix as a
/// space-separated token immediately before the extension:
/// `YYYY-MM-DD HH.MM.SS SUFFIX.ext`.
pub fn format_filename_with_suffix(dt: &Timestamp, suffix: &str, ext: &str) -> (r: String)
    requires
        valid_timestamp(*dt),
    ensures
        r@ == suffixed_filename_chars(*dt, suffix@, ext@),
{
    proof {
        reveal_strlit(" ");
        reveal_strlit(".");
    }
    let mut s = String::new();
    push_stem(&mut s, dt);
    s.append(" ");
    s.append(suffix);
    s.append(".");
    s.append(ext);
    proof {
        assert(s@ =~= suffixed_filename_chars(*dt, suffix@, ext@));
    }
    s
}

// ---------------------------------------------------------------------------
// The target directory
// ---------------------------------------------------------------------------

/// The target directory for a timestamp and an optional tag:
/// `root/YYYY/MM`, or `root/YYYY/MM tag` when the trimmed tag is non-empty.
pub open spec fn target_dir_chars(root: Seq<char>, t: Timestamp, tag: Option<Seq<char>>) -> Seq<
    char,
> {
    let month_dir = match tag {
        Some(tg) => if trim_of(tg).len() > 0 {
            two_digits(t.month as int) + seq![' '] + trim_of(tg)
        } else {
            two_digits(t.month as int)
        },
        None => two_digits(t.month as int),
    };
    root + seq!['/'] + four_digits(t.year as int) + seq!['/'] + month_dir
}

/// The directory a file belongs in: the four-digit year, then the two-digit
/// month, the latter extended with the trimmed tag when one is present and
/// non-empty.
pub fn build_target_dir(output_root: &str, dt: &Timestamp, tag: Option<&str>) -> (r: String)
    requires
        valid_timestamp(*dt),
    ensures
        r@ == target_dir_chars(
            output_root@,
            *dt,
            match tag {
                Some(t) => Some(t@),
                None => None,
            },
        ),
{
    proof {
        reveal_strlit("/");
        reveal_strlit(" ");
    }
    let mut s = String::from_str(output_root);
    s.append("/");
    push_four_digits(&mut s, dt.year);
    s.append("/");
    push_two_digits(&mut s, dt.month);
    if let Some(t) = tag {
        let tt = trim(t);
        if tt.unicode_len() > 0 {
            s.append(" ");
            s.append(tt.as_str());
        }
    }
    proof {
        assert(s@ =~= target_dir_chars(
            output_root@,
            *dt,
            match tag {
                Some(t) => Some(t@),
                None => None,
            },
        ));
    }
    s
}

// ---------------------------------------------------------------------------
// Paths as character strings
// ---------------------------------------------------------------------------

/// Whether `p` lies strictly below the directory `dir`: it continues `dir`
/// past a separator.
pub open spec fn path_under(dir: Seq<char>, p: Seq<char>) -> bool {
    p.len() > dir.len() && p.take(dir.len() as int) == dir && p[dir.len() as int] == '/'
}

/// Whether `a` is a character-for-character prefix of `b`.
pub fn is_char_prefix(a: &str, b: &str) -> (r: bool)
    ensures
        r == (a@.len() <= b@.len() && b@.take(a@.len() as int) == a@),
{
    let al = a.unicode_len();
    let bl = b.unicode_len();
    if al > bl {
        return false;
    }
    let mut i: usize = 0;
    while i < al
        invariant
            0 <= i <= al,
            al == a@.len() <= b@.len(),
            forall|j: int| 0 <= j < i ==> a@[j] == b@[j],
        decreases al - i,
    {
        if a.get_char(i) != b.get_char(i) {
            assert(b@.take(al as int)[i as int] != a@[i as int]);
            return false;
        }
        i = i + 1;
    }
    proof {
        assert(b@.take(al as int) =~= a@);
    }
    true
}

/// Decides whether `p` lies strictly below the directory `dir`.
pub fn is_path_under(dir: &str, p: &str) -> (r: bool)
    ensures
        r == path_under(dir@, p@),
{
    let dl = dir.unicode_len();
    let pl = p.unicode_len();
    if pl <= dl {
        return false;
    }
    if !is_char_prefix(dir, p) {
        return false;
    }
    p.get_char(dl) == '/'
}

/// Where the file name begins: just past the last separator, or the start of
/// the path when it has none.
pub open spec fn name_start(p: Seq<char>) -> int
    decreases p.len(),
{
    if p.len() == 0 {
        0
    } else if p[p.len() - 1] == '/' {
        p.len() as int
    } else {
        name_start(p.drop_last())
    }
}

proof fn lemma_name_start_at(p: Seq<char>, i: int)
    requires
        0 <= i <= p.len(),
        i == 0 || p[i - 1] == '/',
        forall|j: int| i <= j < p.len() ==> p[j] != '/',
    ensures
        name_start(p) == i,
    decreases p.len(),
{
    if p.len() == 0 {
    } else if p[p.len() - 1] == '/' {
        assert(i == p.len());
    } else {
        assert(i < p.len());
        lemma_name_start_at(p.drop_last(), i);
    }
}

/// The position of the last dot of a name, or -1 when it has none.
pub open spec fn last_dot(s: Seq<char>) -> int
    decreases s.len(),
{
    if s.len() == 0 {
        -1
    } else if s[s.len() - 1] == '.' {
        s.len() - 1
    } else {
        last_dot(s.drop_last())
    }
}

proof fn lemma_last_dot_at(s: Seq<char>, d: int)
    requires
        -1 <= d < s.len(),
        d >= 0 ==> s[d] == '.',
        forall|j: int| d < j < s.len() ==> s[j] != '.',
    ensures
        last_dot(s) == d,
    decreases s.len(),
{
    if s.len() == 0 {
    } else if s[s.len() - 1] == '.' {
        assert(d == s.len() - 1);
    } else {
        assert(d < s.len() - 1);
        lemma_last_dot_at(s.drop_last(), d);
    }
}

/// The extension of a path: what follows the last dot of its file name, when
/// that dot is embedded in the name rather than its first character.
pub open spec fn ext_of(p: Seq<char>) -> Option<Seq<char>> {
    let ns = name_start(p);
    let name = p.subrange(ns, p.len() as int);
    let d = last_dot(name);
    if d <= 0 {
        None
    } else {
        Some(name.subrange(d + 1, name.len() as int))
    }
}

/// Extracts the extension of a path, if its file name has one.
pub fn extension_of(p: &str) -> (r: Option<String>)
    ensures
        match r {
            Some(e) => ext_of(p@) == Some(e@),
            None => ext_of(p@) is None,
        },
{
    let len = p.unicode_len();
    let mut ns: usize = len;
    while ns > 0 && p.get_char(ns - 1) != '/'
        invariant
            0 <= ns <= len,
            len == p@.len(),
            forall|j: int| ns <= j < len ==> p@[j] != '/',
        decreases ns,
    {
        ns = ns - 1;
    }
    proof {
        lemma_name_start_at(p@, ns as int);
    }
    let ghost name = p@.subrange(ns as int, len as int);
    let mut d: usize = len;
    while d > ns && p.get_char(d - 1) != '.'
        invariant
            ns <= d <= len,
            len == p@.len(),
            forall|j: int| d <= j < len ==> p@[j] != '.',
        decreases d,
    {
        d = d - 1;
    }
    if d == ns {
        proof {
            lemma_last_dot_at(name, -1);
        }
        return None;
    }
    proof {
        lemma_last_dot_at(name, d - 1 - ns);
    }
    if d - 1 == ns {
        return None;
    }
    let e = p.substring_char(d, len);
    proof {
        assert(p@.subrange(d as int, len as int) =~= name.subrange(
            d - ns,
            name.len() as int,
        ));
    }
    Some(String::from_str(e))
}

/// A directory path joined with a name inside it.
pub open spec fn path_join(dir: Seq<char>, name: Seq<char>) -> Seq<char> {
    dir + seq!['/'] + name
}

// ---------------------------------------------------------------------------
// The tag of a file under the input root
// ---------------------------------------------------------------------------

/// The number of leading separators of a path.
pub open spec fn first_non_slash(p: Seq<char>) -> int
    decreases p.len(),
{
    if p.len() == 0 {
        0
    } else if p[0] != '/' {
        0
    } else {
        1 + first_non_slash(p.skip(1))
    }
}

/// The length of the leading run of non-separator characters.
pub open spec fn first_slash(p: Seq<char>) -> int
    decreases p.len(),
{
    if p.len() == 0 {
        0
    } else if p[0] == '/' {
        0
    } else {
        1 + first_slash(p.skip(1))
    }
}

proof fn lemma_first_non_slash_at(p: Seq<char>, i: int)
    requires
        0 <= i <= p.len(),
        forall|j: int| 0 <= j < i ==> p[j] == '/',
        i == p.len() || p[i] != '/',
    ensures
        first_non_slash(p) == i,
    decreases p.len(),
{
    if p.len() == 0 {
    } else if p[0] != '/' {
        assert(i == 0);
    } else {
        assert(i >= 1);
        lemma_first_non_slash_at(p.skip(1), i - 1);
    }
}

proof fn lemma_first_slash_at(p: Seq<char>, i: int)
    requires
        0 <= i <= p.len(),
        forall|j: int| 0 <= j < i ==> p[j] != '/',
        i == p.len() || p[i] == '/',
    ensures
        first_slash(p) == i,
    decreases p.len(),
{
    if p.len() == 0 {
    } else if p[0] == '/' {
        assert(i == 0);
    } else {
        assert(i >= 1);
        lemma_first_slash_at(p.skip(1), i - 1);
    }
}

/// The part of `src` below the directory `root`, when `src` lies below it.
pub open spec fn rel_under(root: Seq<char>, src: Seq<char>) -> Option<Seq<char>> {
    if root.len() < src.len() && src.take(root.len() as int) == root && src[root.len() as int]
        == '/' {
        Some(src.skip(root.len() as int + 1))
    } else if root.len() > 0 && root[root.len() - 1] == '/' && root.len() <= src.len()
        && src.take(root.len() as int) == root {
        Some(src.skip(root.len() as int))
    } else {
        None
    }
}

/// The tag spelled by a path relative to the input root: its first segment,
/// provided a further segment follows (the file is nested at least two levels
/// deep) and the segment is a real name rather than `.` or `..`.
pub open spec fn tag_of_rel(rel: Seq<char>) -> Option<Seq<char>> {
    let a = first_non_slash(rel);
    if a == rel.len() {
        None
    } else {
        let b = a + first_slash(rel.skip(a));
        let seg = rel.subrange(a, b);
        let more = exists|j: int| b <= j < rel.len() && rel[j] != '/';
        if more && seg != seq!['.'] && seg != seq!['.', '.'] {
            Some(seg)
        } else {
            None
        }
    }
}

/// The tag of a file: the first path segment between the input root and the
/// file, present only when the file is nested at least two levels deep.
pub open spec fn tag_of(root: Seq<char>, src: Seq<char>) -> Option<Seq<char>> {
    match rel_under(root, src) {
        Some(rel) => tag_of_rel(rel),
        None => None,
    }
}

/// Infers the tag of a source file from its position under the input root:
/// the first directory name below the root, when the file lies at least one
/// directory further down; `None` for a file directly in the root or exactly
/// one level deep.
pub fn infer_tag(input_root: &str, src: &str) -> (r: Option<String>)
    ensures
        match r {
            Some(t) => tag_of(input_root@, src@) == Some(t@),
            None => tag_of(input_root@, src@) is None,
        },
{
    let rl = input_root.unicode_len();
    let sl = src.unicode_len();
    let rs: usize;
    if rl < sl && is_char_prefix(input_root, src) && src.get_char(rl) == '/' {
        rs = rl + 1;
    } else if rl > 0 && rl <= sl && input_root.get_char(rl - 1) == '/' && is_char_prefix(
        input_root,
        src,
    ) {
        rs = rl;
    } else {
        return None;
    }
    let ghost rel = src@.skip(rs as int);
    assert(rel_under(input_root@, src@) == Some(rel));
    let mut a: usize = rs;
    while a < sl && src.get_char(a) == '/'
        invariant
            rs <= a <= sl,
            sl == src@.len(),
            forall|j: int| rs <= j < a ==> src@[j] == '/',
        decreases sl - a,
    {
        a = a + 1;
    }
    proof {
        lemma_first_non_slash_at(rel, a - rs);
    }
    if a == sl {
        return None;
    }
    let mut b: usize = a;
    while b < sl && src.get_char(b) != '/'
        invariant
            a <= b <= sl,
            sl == src@.len(),
            forall|j: int| a <= j < b ==> src@[j] != '/',
        decreases sl - b,
    {
        b = b + 1;
    }
    proof {
        lemma_first_slash_at(rel.skip(a - rs), b - a);
    }
    let ghost seg = rel.subrange(a - rs, b - rs);
    let mut m: usize = b;
    while m < sl && src.get_char(m) == '/'
        invariant
            b <= m <= sl,
            sl == src@.len(),
            forall|j: int| b <= j < m ==> src@[j] == '/',
        decreases sl - m,
    {
        m = m + 1;
    }
    if m == sl {
        proof {
            assert(forall|j: int|
                b - rs <= j < rel.len() ==> #[trigger] rel[j] == src@[j + rs] && rel[j] == '/');
        }
        return None;
    }
    assert(rel[m - rs] != '/');
    if b - a == 1 && src.get_char(a) == '.' {
        proof {
            assert(seg =~= seq!['.']);
        }
        return None;
    }
    if b - a == 2 && src.get_char(a) == '.' && src.get_char(a + 1) == '.' {
        proof {
            assert(seg =~= seq!['.', '.']);
        }
        return None;
    }
    let s = src.substring_char(a, b);
    proof {
        assert(seg.len() == b - a);
        if seg == seq!['.'] {
            assert(seg[0] == '.');
            assert(false);
        }
        if seg == seq!['.', '.'] {
            assert(seg[0] == '.' && seg[1] == '.');
            assert(false);
        }
        assert(s@ =~= seg);
    }
    Some(String::from_str(s))
}

/// Joins a directory path and a name inside it.
pub fn join_path(dir: &str, name: &str) -> (r: String)
    ensures
        r@ == path_join(dir@, name@),
{
    proof {
        reveal_strlit("/");
    }
    let mut s = String::from_str(dir);
    s.append("/");
    s.append(name);
    proof {
        assert(s@ =~= path_join(dir@, name@));
    }
    s
}

} // verus!
