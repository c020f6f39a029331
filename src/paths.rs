//! Paths as `/`-separated text: file names, stems, extensions, and the files
//! that the program keeps under its data directory.

use vstd::prelude::*;
use crate::filename_date::{has_prefix, last_index_of, starts_with};
use crate::text::{digit_char, push_signed_decimal, push_text, signed_decimal, string_from_chars};
use crate::timestamp::Timestamp;

verus! {

/// The part of `p` after its last `/`.
pub open spec fn file_name(p: Seq<char>) -> Seq<char> {
    p.subrange(last_index_of(p, '/', p.len() as int) + 1, p.len() as int)
}

/// The index of the dot that opens the extension of file name `n`, or a
/// value of at most 0 when it has none (a leading dot opens no extension).
pub open spec fn extension_dot(n: Seq<char>) -> int {
    last_index_of(n, '.', n.len() as int)
}

/// File name `n` without its extension.
pub open spec fn stem(n: Seq<char>) -> Seq<char> {
    if extension_dot(n) > 0 {
        n.subrange(0, extension_dot(n))
    } else {
        n
    }
}

/// The extension of file name `n`, without its dot.
pub open spec fn extension(n: Seq<char>) -> Option<Seq<char>> {
    if extension_dot(n) > 0 {
        Some(n.subrange(extension_dot(n) + 1, n.len() as int))
    } else {
        None
    }
}

/// The extensions of the image files that are recognised, as written.
pub open spec fn is_image_extension(e: Seq<char>) -> bool {
    e == "jpg"@ || e == "jpeg"@ || e == "png"@ || e == "gif"@ || e == "bmp"@ || e == "tiff"@ || e
        == "webp"@
}

/// Whether the file at `p` has a recognised image extension.
pub open spec fn is_image_path(p: Seq<char>) -> bool {
    match extension(file_name(p)) {
        Some(e) => is_image_extension(e),
        None => false,
    }
}

/// `a` followed by `b`, with one `/` between them.
pub open spec fn join(a: Seq<char>, b: Seq<char>) -> Seq<char> {
    if a.len() > 0 && a.last() == '/' {
        a + b
    } else {
        a + seq!['/'] + b
    }
}

/// A path written as one file name: each `/` and `\` becomes `_`.
pub open spec fn flatten_path(p: Seq<char>) -> Seq<char> {
    p.map_values(|c: char| if c == '/' || c == '\\' { '_' } else { c })
}

/// The directory part of `p` that has to exist before `p` is written: the
/// text before its last `/`, unless that is empty.
pub open spec fn parent_to_create(p: Seq<char>) -> Option<Seq<char>> {
    if last_index_of(p, '/', p.len() as int) > 0 {
        Some(p.subrange(0, last_index_of(p, '/', p.len() as int)))
    } else {
        None
    }
}

/// The two digits of `n` (below 100), with a leading zero under 10.
pub open spec fn two_digits(n: int) -> Seq<char> {
    seq![digit_char(n / 10), digit_char(n % 10)]
}

/// The name of the background composited at `t`:
/// `background_<year>-<mm>-<dd>_<hh>-<mm>-<ss>.png`.
pub open spec fn background_name(t: Timestamp) -> Seq<char> {
    "background_"@ + signed_decimal(t.year as int) + seq!['-'] + two_digits(t.month as int) + seq![
        '-',
    ] + two_digits(t.day as int) + seq!['_'] + two_digits(t.hour as int) + seq!['-'] + two_digits(
        t.minute as int,
    ) + seq!['-'] + two_digits(t.second as int) + ".png"@
}

/// Appends the two digits of `n`.
fn push_two_digits(v: &mut Vec<char>, n: u32)
    requires
        n < 100,
    ensures
        final(v)@ == old(v)@ + two_digits(n as int),
{
    v.push(((n / 10) as u8 + 48u8) as char);
    v.push(((n % 10) as u8 + 48u8) as char);
    assert(v@ =~= old(v)@ + two_digits(n as int));
}

/// Whether `a` and `b` hold the same characters.
pub fn same_text(a: &str, b: &str) -> (r: bool)
    ensures
        r == (a@ == b@),
{
    if a.unicode_len() != b.unicode_len() {
        return false;
    }
    let r = has_prefix(a, b);
    proof {
        assert(a@ =~= a@.subrange(0, b@.len() as int));
    }
    r
}

/// The index of the last `c` in `s[..j]`, or `None`.
pub fn find_last(s: &str, c: char) -> (r: Option<usize>)
    ensures
        r is None <==> last_index_of(s@, c, s@.len() as int) == -1,
        r is Some ==> r.unwrap() as int == last_index_of(s@, c, s@.len() as int),
{
    let n = s.unicode_len();
    let mut j: usize = n;
    while j > 0 && s.get_char(j - 1) != c
        invariant
            j <= n == s@.len(),
            last_index_of(s@, c, j as int) == last_index_of(s@, c, n as int),
        decreases j,
    {
        j = j - 1;
    }
    if j == 0 {
        None
    } else {
        Some(j - 1)
    }
}

/// The part of `path` after its last `/`.
pub fn file_name_of(path: &str) -> (r: &str)
    ensures
        r@ == file_name(path@),
{
    let n = path.unicode_len();
    match find_last(path, '/') {
        Some(k) => {
            proof {
                crate::filename_date::lemma_last_index_bounds(path@, '/', n as int);
            }
            path.substring_char(k + 1, n)
        },
        None => {
            assert(path@.subrange(0, n as int) =~= path@);
            path.substring_char(0, n)
        },
    }
}

/// File name `name` without its extension.
pub fn stem_of(name: &str) -> (r: &str)
    ensures
        r@ == stem(name@),
{
    match find_last(name, '.') {
        Some(k) => {
            if k > 0 {
                proof {
                    crate::filename_date::lemma_last_index_bounds(name@, '.', name@.len() as int);
                }
                name.substring_char(0, k)
            } else {
                name
            }
        },
        None => name,
    }
}

/// The extension of file name `name`, without its dot.
pub fn extension_of(name: &str) -> (r: Option<&str>)
    ensures
        r is Some <==> extension(name@) is Some,
        r is Some ==> r.unwrap()@ == extension(name@).unwrap(),
{
    let n = name.unicode_len();
    match find_last(name, '.') {
        Some(k) => {
            if k > 0 {
                proof {
                    crate::filename_date::lemma_last_index_bounds(name@, '.', n as int);
                }
                Some(name.substring_char(k + 1, n))
            } else {
                None
            }
        },
        None => None,
    }
}

/// Whether the file at `path` is an image: its extension is one of jpg,
/// jpeg, png, gif, bmp, tiff and webp, compared as written.
pub fn is_image(path: &str) -> (r: bool)
    ensures
        r == is_image_path(path@),
{
    match extension_of(file_name_of(path)) {
        Some(e) => same_text(e, "jpg") || same_text(e, "jpeg") || same_text(e, "png") || same_text(
            e,
            "gif",
        ) || same_text(e, "bmp") || same_text(e, "tiff") || same_text(e, "webp"),
        None => false,
    }
}

/// `a` followed by `b`, with one `/` between them.
pub fn join_path(a: &str, b: &str) -> (r: String)
    ensures
        r@ == join(a@, b@),
{
    let mut v: Vec<char> = Vec::new();
    push_text(&mut v, a);
    let n = a.unicode_len();
    if !(n > 0 && a.get_char(n - 1) == '/') {
        v.push('/');
    }
    push_text(&mut v, b);
    assert(v@ =~= join(a@, b@));
    string_from_chars(&v)
}

/// The files and directories of the program, under one data directory.
pub struct Paths {
    pub base_dir: String,
}

impl Paths {
    /// The paths under `base_dir`.
    pub fn new(base_dir: String) -> (r: Paths)
        ensures
            r.base_dir@ == base_dir@,
    {
        Paths { base_dir }
    }

    /// The paths of the program under the user's data directory `data_dir`.
    pub fn in_data_dir(data_dir: &str) -> (r: Paths)
        ensures
            r.base_dir@ == join(data_dir@, "wallpaper-changer-rs"@),
    {
        Paths { base_dir: join_path(data_dir, "wallpaper-changer-rs") }
    }

    /// The file of the background composited at `now`, in the directory of
    /// composited backgrounds.
    pub fn background_path(&self, now: Timestamp) -> (r: String)
        requires
            now.wf(),
        ensures
            r@ == join(join(self.base_dir@, "tmp"@), background_name(now)),
    {
        let dir = self.temp_dir();
        let mut v: Vec<char> = Vec::new();
        push_text(&mut v, "background_");
        push_signed_decimal(&mut v, now.year);
        v.push('-');
        push_two_digits(&mut v, now.month);
        v.push('-');
        push_two_digits(&mut v, now.day);
        v.push('_');
        push_two_digits(&mut v, now.hour);
        v.push('-');
        push_two_digits(&mut v, now.minute);
        v.push('-');
        push_two_digits(&mut v, now.second);
        push_text(&mut v, ".png");
        assert(v@ =~= background_name(now));
        let name = string_from_chars(&v);
        join_path(dir.as_str(), name.as_str())
    }

    /// The directory of the log files.
    pub fn logs_dir(&self) -> (r: String)
        ensures
            r@ == join(self.base_dir@, "logs"@),
    {
        join_path(self.base_dir.as_str(), "logs")
    }

    /// The directory of the downloaded remote pictures.
    pub fn downloaded_pictures_dir(&self) -> (r: String)
        ensures
            r@ == join(self.base_dir@, "pictures"@),
    {
        join_path(self.base_dir.as_str(), "pictures")
    }

    /// The directory of the lists of local pictures, one file per scanned folder.
    pub fn path_cache_dir(&self) -> (r: String)
        ensures
            r@ == join(self.base_dir@, "path_cache"@),
    {
        join_path(self.base_dir.as_str(), "path_cache")
    }

    /// The directory of the composited backgrounds.
    pub fn temp_dir(&self) -> (r: String)
        ensures
            r@ == join(self.base_dir@, "tmp"@),
    {
        join_path(self.base_dir.as_str(), "tmp")
    }

    /// The settings file.
    pub fn config_file(&self) -> (r: String)
        ensures
            r@ == join(self.base_dir@, "config.toml"@),
    {
        join_path(self.base_dir.as_str(), "config.toml")
    }

    /// The file of the remote image store.
    pub fn image_data_path(&self) -> (r: String)
        ensures
            r@ == join(self.base_dir@, "image_data.json"@),
    {
        join_path(self.base_dir.as_str(), "image_data.json")
    }

    /// The scratch file of the scheduled-task table.
    pub fn crontab_temp_file(&self) -> (r: String)
        ensures
            r@ == join(join(self.base_dir@, "tmp"@), "crontab"@),
    {
        let t = self.temp_dir();
        join_path(t.as_str(), "crontab")
    }

    /// The file that lists the pictures found under folder `name`: the
    /// folder's path written as one file name, in the path cache directory.
    pub fn get_path_cache_file_path(&self, name: &str) -> (r: String)
        ensures
            r@ == join(join(self.base_dir@, "path_cache"@), flatten_path(name@)),
    {
        let dir = self.path_cache_dir();
        let n = name.unicode_len();
        let mut v: Vec<char> = Vec::new();
        let mut i: usize = 0;
        while i < n
            invariant
                n == name@.len(),
                i <= n,
                v@ == flatten_path(name@.subrange(0, i as int)),
            decreases n - i,
        {
            let c = name.get_char(i);
            v.push(if c == '/' || c == '\\' { '_' } else { c });
            i = i + 1;
            assert(v@ =~= flatten_path(name@.subrange(0, i as int)));
        }
        assert(name@.subrange(0, n as int) =~= name@);
        let key = string_from_chars(&v);
        join_path(dir.as_str(), key.as_str())
    }

    /// The directory that has to exist before `file` is written, if any: the
    /// text before its last `/`, unless that is empty.
    pub fn create_file_parent_if_needed(file: &str) -> (r: Option<&str>)
        ensures
            r is Some <==> parent_to_create(file@) is Some,
            r is Some ==> r.unwrap()@ == parent_to_create(file@).unwrap(),
    {
        match find_last(file, '/') {
            Some(k) => {
                if k > 0 {
                    proof {
                        crate::filename_date::lemma_last_index_bounds(
                            file@,
                            '/',
                            file@.len() as int,
                        );
                    }
                    Some(file.substring_char(0, k))
                } else {
                    None
                }
            },
            None => None,
        }
    }
}

} // verus!
