//! Reads a capture date out of a file name stem, by a few fixed layouts.

use vstd::prelude::*;
use crate::timestamp::{Timestamp, make_timestamp, valid_date, valid_time};

verus! {

/// An ASCII decimal digit.
pub open spec fn is_digit(c: char) -> bool {
    '0' <= c <= '9'
}

/// Every character of `s` in `lo..hi` is a decimal digit.
pub open spec fn digits_at(s: Seq<char>, lo: int, hi: int) -> bool {
    0 <= lo <= hi <= s.len() && forall|i: int| lo <= i < hi ==> is_digit(#[trigger] s[i])
}

/// The decimal number written by the characters of `s` in `lo..hi`.
pub open spec fn number_at(s: Seq<char>, lo: int, hi: int) -> int
    decreases hi - lo,
{
    if hi <= lo {
        0
    } else {
        number_at(s, lo, hi - 1) * 10 + (s[hi - 1] as int - '0' as int)
    }
}

/// Ten to the power `n`.
pub open spec fn pow10(n: nat) -> int
    decreases n,
{
    if n == 0 {
        1
    } else {
        10 * pow10((n - 1) as nat)
    }
}

/// A separator that is trimmed from both ends of a stem.
pub open spec fn is_mark(c: char) -> bool {
    c == '_' || c == '-'
}

/// A character with the Unicode White_Space property.
pub open spec fn is_space(c: char) -> bool {
    ('\u{9}' <= c <= '\u{d}') || c == ' ' || c == '\u{85}' || c == '\u{a0}' || c == '\u{1680}'
        || ('\u{2000}' <= c <= '\u{200a}') || c == '\u{2028}' || c == '\u{2029}' || c
        == '\u{202f}' || c == '\u{205f}' || c == '\u{3000}'
}

/// The markers of cameras and screen captures that may open a stem, in the
/// order in which they are tried.
pub open spec fn known_prefixes() -> Seq<Seq<char>> {
    seq![seq!['i', 'm', 'g'], seq!['p', 'h', 'o', 't', 'o'], seq![
        's',
        'c',
        'r',
        'e',
        'e',
        'n',
        's',
        'h',
        'o',
        't',
    ]]
}

pub open spec fn starts_with(s: Seq<char>, p: Seq<char>) -> bool {
    p.len() <= s.len() && s.subrange(0, p.len() as int) == p
}

/// `s` without the first of the known prefixes that opens it.
pub open spec fn strip_known_prefix(s: Seq<char>) -> Seq<char> {
    let p = known_prefixes();
    if starts_with(s, p[0]) {
        s.subrange(p[0].len() as int, s.len() as int)
    } else if starts_with(s, p[1]) {
        s.subrange(p[1].len() as int, s.len() as int)
    } else if starts_with(s, p[2]) {
        s.subrange(p[2].len() as int, s.len() as int)
    } else {
        s
    }
}

/// The first index at or after `i` that does not hold a separator.
pub open spec fn skip_marks(s: Seq<char>, i: int) -> int
    decreases s.len() - i,
{
    if 0 <= i < s.len() && is_mark(s[i]) {
        skip_marks(s, i + 1)
    } else {
        i
    }
}

/// The end of `s[lo..j]` once trailing separators are removed.
pub open spec fn back_off_marks(s: Seq<char>, lo: int, j: int) -> int
    decreases j - lo,
{
    if lo < j && is_mark(s[j - 1]) {
        back_off_marks(s, lo, j - 1)
    } else {
        j
    }
}

/// The end of `s[0..j]` once trailing white space is removed.
pub open spec fn back_off_spaces(s: Seq<char>, j: int) -> int
    decreases j,
{
    if 0 < j && is_space(s[j - 1]) {
        back_off_spaces(s, j - 1)
    } else {
        j
    }
}

/// `s` without separators at either end.
pub open spec fn trim_marks(s: Seq<char>) -> Seq<char> {
    let a = skip_marks(s, 0);
    s.subrange(a, back_off_marks(s, a, s.len() as int))
}

/// `s` without trailing white space.
pub open spec fn trim_end_spaces(s: Seq<char>) -> Seq<char> {
    s.subrange(0, back_off_spaces(s, s.len() as int))
}

/// The last index below `j` that holds `c`, or -1.
pub open spec fn last_index_of(s: Seq<char>, c: char, j: int) -> int
    decreases j,
{
    if j <= 0 {
        -1
    } else if s[j - 1] == c {
        j - 1
    } else {
        last_index_of(s, c, j - 1)
    }
}

/// `s` without a closing parenthesised group, the mark of a duplicated file.
pub open spec fn drop_copy_suffix(s: Seq<char>) -> Seq<char> {
    if s.len() > 0 && s.last() == ')' && last_index_of(s, '(', s.len() as int) >= 0 {
        trim_end_spaces(s.subrange(0, last_index_of(s, '(', s.len() as int)))
    } else {
        s
    }
}

/// A stem after its prefix, separators and duplicate marker are removed.
pub open spec fn normalize_stem(s: Seq<char>) -> Seq<char> {
    drop_copy_suffix(trim_marks(strip_known_prefix(s)))
}

/// The timestamp written with a four-digit year at `y` and two-digit fields
/// at `mo`, `d`, `h`, `mi`, `se`; without `timed`, the time is midnight.
pub open spec fn stamp_at(
    s: Seq<char>,
    y: int,
    mo: int,
    d: int,
    h: int,
    mi: int,
    se: int,
    timed: bool,
) -> Option<Timestamp> {
    let (hour, minute, second) = if timed {
        (number_at(s, h, h + 2), number_at(s, mi, mi + 2), number_at(s, se, se + 2))
    } else {
        (0, 0, 0)
    };
    if digits_at(s, y, y + 4) && digits_at(s, mo, mo + 2) && digits_at(s, d, d + 2) && (timed
        ==> digits_at(s, h, h + 2) && digits_at(s, mi, mi + 2) && digits_at(s, se, se + 2))
        && valid_date(number_at(s, y, y + 4), number_at(s, mo, mo + 2), number_at(s, d, d + 2))
        && valid_time(hour, minute, second) {
        Some(
            Timestamp {
                year: number_at(s, y, y + 4) as i32,
                month: number_at(s, mo, mo + 2) as u32,
                day: number_at(s, d, d + 2) as u32,
                hour: hour as u32,
                minute: minute as u32,
                second: second as u32,
            },
        )
    } else {
        None
    }
}

/// The capture time that a normalised stem gives, by the first layout whose
/// length and fixed characters it has:
/// `yyyymmdd_hhmmss`; `yyyymmdd-hhmmss_` followed by more text (a screen
/// capture with the application's name); `yyyy-mm-dd_hh-mm-ss`; and
/// `yyyymmdd-waNNNN`, a messaging-app export, which gives midnight.
pub open spec fn layout_date(n: Seq<char>) -> Option<Timestamp> {
    if n.len() == 15 && n[8] == '_' {
        stamp_at(n, 0, 4, 6, 9, 11, 13, true)
    } else if n.len() >= 16 && n[8] == '-' && n[15] == '_' {
        stamp_at(n, 0, 4, 6, 9, 11, 13, true)
    } else if n.len() == 19 && n[10] == '_' {
        if n[4] == '-' && n[7] == '-' && n[13] == '-' && n[16] == '-' {
            stamp_at(n, 0, 5, 8, 11, 14, 17, true)
        } else {
            None
        }
    } else if n.len() == 15 && n[8] == '-' && n[9] == 'w' && n[10] == 'a' {
        stamp_at(n, 0, 4, 6, 0, 0, 0, false)
    } else {
        None
    }
}

/// The capture time that a lower-case stem gives, if any.
pub open spec fn stem_date(stem: Seq<char>) -> Option<Timestamp> {
    layout_date(normalize_stem(stem))
}


/// Reads the decimal number written by `s[lo..hi]`, when every character
/// there is a digit.
pub fn read_number(s: &str, lo: usize, hi: usize) -> (r: Option<u32>)
    requires
        lo <= hi <= s@.len(),
        hi - lo <= 4,
    ensures
        r.is_some() == digits_at(s@, lo as int, hi as int),
        r.is_some() ==> r.unwrap() as int == number_at(s@, lo as int, hi as int),
        r.is_some() ==> r.unwrap() < 10000,
{
    let mut v: u32 = 0;
    let mut i: usize = lo;
    proof {
        reveal_with_fuel(pow10, 5);
    }
    while i < hi
        invariant
            lo <= i <= hi <= s@.len(),
            hi - lo <= 4,
            digits_at(s@, lo as int, i as int),
            v as int == number_at(s@, lo as int, i as int),
            v < pow10((i - lo) as nat),
            pow10((hi - lo) as nat) <= 10000,
        decreases hi - i,
    {
        let c = s.get_char(i);
        if !('0' <= c && c <= '9') {
            return None;
        }
        let d = (c as u32) - ('0' as u32);
        proof {
            lemma_pow10_grows((i - lo) as nat, (hi - lo) as nat);
            assert(v * 10 + d < 10 * pow10((i - lo) as nat)) by (nonlinear_arith)
                requires
                    v < pow10((i - lo) as nat),
                    d <= 9,
            ;
            assert(pow10((i + 1 - lo) as nat) == 10 * pow10((i - lo) as nat));
        }
        v = v * 10 + d;
        i = i + 1;
    }
    Some(v)
}

proof fn lemma_pow10_grows(a: nat, b: nat)
    requires
        a < b,
    ensures
        10 * pow10(a) <= pow10(b),
    decreases b - a,
{
    if a + 1 < b {
        lemma_pow10_grows(a + 1, b);
        lemma_pow10_positive(a);
    }
}

proof fn lemma_pow10_positive(a: nat)
    ensures
        pow10(a) >= 1,
    decreases a,
{
    if a > 0 {
        lemma_pow10_positive((a - 1) as nat);
    }
}

/// Reads the timestamp laid out as `stamp_at` describes.
pub fn read_stamp(
    s: &str,
    y: usize,
    mo: usize,
    d: usize,
    h: usize,
    mi: usize,
    se: usize,
    timed: bool,
) -> (r: Option<Timestamp>)
    requires
        y + 4 <= s@.len(),
        mo + 2 <= s@.len(),
        d + 2 <= s@.len(),
        h + 2 <= s@.len(),
        mi + 2 <= s@.len(),
        se + 2 <= s@.len(),
        y <= 32 && mo <= 32 && d <= 32 && h <= 32 && mi <= 32 && se <= 32,
    ensures
        r == stamp_at(s@, y as int, mo as int, d as int, h as int, mi as int, se as int, timed),
        r is Some ==> r.unwrap().wf(),
{
    let year = read_number(s, y, y + 4);
    let month = read_number(s, mo, mo + 2);
    let day = read_number(s, d, d + 2);
    if year.is_none() || month.is_none() || day.is_none() {
        return None;
    }
    let (hour, minute, second) = if timed {
        let hour = read_number(s, h, h + 2);
        let minute = read_number(s, mi, mi + 2);
        let second = read_number(s, se, se + 2);
        if hour.is_none() || minute.is_none() || second.is_none() {
            return None;
        }
        (hour.unwrap(), minute.unwrap(), second.unwrap())
    } else {
        (0, 0, 0)
    };
    make_timestamp(year.unwrap() as i32, month.unwrap(), day.unwrap(), hour, minute, second)
}


/// Whether `s` opens with `p`.
pub fn has_prefix(s: &str, p: &str) -> (r: bool)
    ensures
        r == starts_with(s@, p@),
{
    let n = p.unicode_len();
    if n > s.unicode_len() {
        return false;
    }
    let mut i: usize = 0;
    while i < n
        invariant
            n == p@.len(),
            n <= s@.len(),
            i <= n,
            forall|k: int| 0 <= k < i ==> s@[k] == p@[k],
        decreases n - i,
    {
        if s.get_char(i) != p.get_char(i) {
            assert(s@.subrange(0, n as int)[i as int] != p@[i as int]);
            return false;
        }
        i = i + 1;
    }
    assert(s@.subrange(0, n as int) =~= p@);
    true
}

/// `s` without the first known camera or capture prefix that opens it.
pub fn strip_prefix_marker(s: &str) -> (r: &str)
    ensures
        r@ == strip_known_prefix(s@),
{
    proof {
        reveal_strlit("img");
        reveal_strlit("photo");
        reveal_strlit("screenshot");
        assert("img"@ =~= known_prefixes()[0]);
        assert("photo"@ =~= known_prefixes()[1]);
        assert("screenshot"@ =~= known_prefixes()[2]);
    }
    let n = s.unicode_len();
    if has_prefix(s, "img") {
        s.substring_char(3, n)
    } else if has_prefix(s, "photo") {
        s.substring_char(5, n)
    } else if has_prefix(s, "screenshot") {
        s.substring_char(10, n)
    } else {
        s
    }
}

proof fn lemma_skip_marks_bounds(s: Seq<char>, i: int)
    requires
        0 <= i <= s.len(),
    ensures
        i <= skip_marks(s, i) <= s.len(),
    decreases s.len() - i,
{
    if i < s.len() && is_mark(s[i]) {
        lemma_skip_marks_bounds(s, i + 1);
    }
}

proof fn lemma_back_off_marks_bounds(s: Seq<char>, lo: int, j: int)
    requires
        lo <= j,
    ensures
        lo <= back_off_marks(s, lo, j) <= j,
    decreases j - lo,
{
    if lo < j && is_mark(s[j - 1]) {
        lemma_back_off_marks_bounds(s, lo, j - 1);
    }
}

proof fn lemma_back_off_spaces_bounds(s: Seq<char>, j: int)
    requires
        0 <= j,
    ensures
        0 <= back_off_spaces(s, j) <= j,
    decreases j,
{
    if 0 < j && is_space(s[j - 1]) {
        lemma_back_off_spaces_bounds(s, j - 1);
    }
}

/// `s` without separators at either end.
pub fn trim_separators(s: &str) -> (r: &str)
    ensures
        r@ == trim_marks(s@),
{
    let n = s.unicode_len();
    let mut a: usize = 0;
    while a < n && (s.get_char(a) == '_' || s.get_char(a) == '-')
        invariant
            a <= n == s@.len(),
            skip_marks(s@, a as int) == skip_marks(s@, 0),
        decreases n - a,
    {
        a = a + 1;
    }
    let mut b: usize = n;
    while a < b && (s.get_char(b - 1) == '_' || s.get_char(b - 1) == '-')
        invariant
            a <= b <= n == s@.len(),
            a == skip_marks(s@, 0),
            back_off_marks(s@, a as int, b as int) == back_off_marks(s@, a as int, n as int),
        decreases b - a,
    {
        b = b - 1;
    }
    s.substring_char(a, b)
}

/// `s` without trailing white space.
pub fn trim_end_white(s: &str) -> (r: &str)
    ensures
        r@ == trim_end_spaces(s@),
{
    let n = s.unicode_len();
    let mut b: usize = n;
    while 0 < b && is_white(s.get_char(b - 1))
        invariant
            b <= n == s@.len(),
            back_off_spaces(s@, b as int) == back_off_spaces(s@, n as int),
        decreases b,
    {
        b = b - 1;
    }
    s.substring_char(0, b)
}

/// Whether `c` is white space in Unicode's sense.
pub fn is_white(c: char) -> (r: bool)
    ensures
        r == is_space(c),
{
    ('\u{9}' <= c && c <= '\u{d}') || c == ' ' || c == '\u{85}' || c == '\u{a0}' || c
        == '\u{1680}' || ('\u{2000}' <= c && c <= '\u{200a}') || c == '\u{2028}' || c
        == '\u{2029}' || c == '\u{202f}' || c == '\u{205f}' || c == '\u{3000}'
}

/// `s` without a closing parenthesised group and the white space before it.
pub fn drop_duplicate_marker(s: &str) -> (r: &str)
    ensures
        r@ == drop_copy_suffix(s@),
{
    let n = s.unicode_len();
    if n == 0 || s.get_char(n - 1) != ')' {
        return s;
    }
    let mut j: usize = n;
    while j > 0 && s.get_char(j - 1) != '('
        invariant
            j <= n == s@.len(),
            last_index_of(s@, '(', j as int) == last_index_of(s@, '(', n as int),
        decreases j,
    {
        j = j - 1;
    }
    if j == 0 {
        return s;
    }
    trim_end_white(s.substring_char(0, j - 1))
}

/// The capture time that a lower-case file name stem gives: a known prefix,
/// separators at either end and a duplicate marker are removed, then the
/// first fitting layout is read. `None` where no layout fits or its fields
/// name no real day and time.
pub fn date_from_stem(stem: &str) -> (r: Option<Timestamp>)
    ensures
        r == stem_date(stem@),
        r is Some ==> r.unwrap().wf(),
{
    let n = drop_duplicate_marker(trim_separators(strip_prefix_marker(stem)));
    let len = n.unicode_len();
    if len == 15 && n.get_char(8) == '_' {
        read_stamp(n, 0, 4, 6, 9, 11, 13, true)
    } else if len >= 16 && n.get_char(8) == '-' && n.get_char(15) == '_' {
        read_stamp(n, 0, 4, 6, 9, 11, 13, true)
    } else if len == 19 && n.get_char(10) == '_' {
        if n.get_char(4) == '-' && n.get_char(7) == '-' && n.get_char(13) == '-' && n.get_char(16)
            == '-' {
            read_stamp(n, 0, 5, 8, 11, 14, 17, true)
        } else {
            None
        }
    } else if len == 15 && n.get_char(8) == '-' && n.get_char(9) == 'w' && n.get_char(10) == 'a' {
        read_stamp(n, 0, 4, 6, 0, 0, 0, false)
    } else {
        None
    }
}


pub proof fn lemma_last_index_bounds(s: Seq<char>, c: char, j: int)
    requires
        j <= s.len(),
    ensures
        -1 <= last_index_of(s, c, j) < j || (j <= 0 && last_index_of(s, c, j) == -1),
    decreases j,
{
    if j > 0 && s[j - 1] != c {
        lemma_last_index_bounds(s, c, j - 1);
    }
}

/// Normalising a stem never lengthens it, and keeps it as it is when its
/// length is kept.
proof fn lemma_normalize_shortens(s: Seq<char>)
    ensures
        normalize_stem(s).len() <= s.len(),
        normalize_stem(s).len() == s.len() ==> normalize_stem(s) == s,
{
    let p = strip_known_prefix(s);
    assert(p.len() <= s.len() && (p.len() == s.len() ==> p == s)) by {
        reveal_with_fuel(known_prefixes, 1);
    }
    let a = skip_marks(p, 0);
    lemma_skip_marks_bounds(p, 0);
    lemma_back_off_marks_bounds(p, a, p.len() as int);
    let t = trim_marks(p);
    assert(t.len() == p.len() ==> t =~= p);
    if t.len() > 0 && t.last() == ')' && last_index_of(t, '(', t.len() as int) >= 0 {
        let k = last_index_of(t, '(', t.len() as int);
        lemma_last_index_bounds(t, '(', t.len() as int);
        lemma_back_off_spaces_bounds(t.subrange(0, k), k);
    }
}

/// A stem of fifteen characters with `_` at offset 8 gives exactly the
/// date and time that it writes as `yyyymmdd_hhmmss`, and no date when
/// those digits are malformed or name no real day and time.
pub proof fn lemma_compact_layout(s: Seq<char>)
    requires
        s.len() == 15,
        s[8] == '_',
    ensures
        stem_date(s) == stamp_at(s, 0, 4, 6, 9, 11, 13, true),
{
    lemma_normalize_shortens(s);
    if is_digit(s[0]) && is_digit(s[14]) {
        reveal_with_fuel(known_prefixes, 1);
        assert(!starts_with(s, known_prefixes()[0])) by {
            assert(s.subrange(0, 3)[0] == s[0]);
        }
        assert(!starts_with(s, known_prefixes()[1])) by {
            assert(s.subrange(0, 5)[0] == s[0]);
        }
        assert(!starts_with(s, known_prefixes()[2])) by {
            assert(s.subrange(0, 10)[0] == s[0]);
        }
        assert(strip_known_prefix(s) == s);
        assert(skip_marks(s, 0) == 0);
        assert(back_off_marks(s, 0, 15) == 15);
        assert(trim_marks(s) =~= s);
        assert(normalize_stem(s) == s);
    } else {
        assert(!digits_at(s, 0, 4) || !digits_at(s, 13, 15));
    }
}

} // verus!
