//! The listing of local pictures and its cache: when the cache may be
//! trusted, and how its entries relate to the pictures' paths.

use vstd::prelude::*;
use crate::filename_date::{has_prefix, starts_with};
use crate::paths::{join, join_path};

verus! {

/// The cached listing of a folder may be used instead of a new scan: both
/// modification times are known and the folder's is not later than the
/// cache file's.
pub open spec fn cache_fresh(folder_modified: Option<u128>, cache_modified: Option<u128>) -> bool {
    folder_modified is Some && cache_modified is Some && folder_modified.unwrap()
        <= cache_modified.unwrap()
}

/// Whether the cached listing of a folder may be used, from the
/// modification times (in nanoseconds) of the folder and of the cache file,
/// where they could be read.
pub fn cache_is_fresh(folder_modified: Option<u128>, cache_modified: Option<u128>) -> (r: bool)
    ensures
        r == cache_fresh(folder_modified, cache_modified),
{
    match (folder_modified, cache_modified) {
        (Some(f), Some(c)) => f <= c,
        _ => false,
    }
}

/// The path of `p` relative to `dir`, when `p` lies under it; else `p`.
pub open spec fn relative_to(dir: Seq<char>, p: Seq<char>) -> Seq<char> {
    let prefix = join(dir, Seq::empty());
    if starts_with(p, prefix) {
        p.subrange(prefix.len() as int, p.len() as int)
    } else {
        p
    }
}

pub open spec fn texts(v: Seq<String>) -> Seq<Seq<char>> {
    v.map_values(|t: String| t@)
}

/// The entries of the cache file of `dir`: each picture's path relative to it.
pub fn relative_paths(dir: &str, images: &Vec<String>) -> (r: Vec<String>)
    ensures
        texts(r@) == texts(images@).map_values(|p: Seq<char>| relative_to(dir@, p)),
{
    proof {
        reveal_strlit("");
        assert(""@ =~= Seq::<char>::empty());
    }
    let prefix = join_path(dir, "");
    let k = prefix.unicode_len();
    let mut r: Vec<String> = Vec::new();
    let mut i: usize = 0;
    while i < images.len()
        invariant
            i <= images@.len(),
            prefix@ == join(dir@, Seq::empty()),
            k == prefix@.len(),
            r@.len() == i,
            forall|j: int| 0 <= j < i ==> #[trigger] r@[j]@ == relative_to(dir@, images@[j]@),
        decreases images@.len() - i,
    {
        let p = images[i].as_str();
        let rel = if has_prefix(p, prefix.as_str()) {
            String::from_str(p.substring_char(k, p.unicode_len()))
        } else {
            String::from_str(p)
        };
        r.push(rel);
        i = i + 1;
    }
    assert(texts(r@) =~= texts(images@).map_values(|p: Seq<char>| relative_to(dir@, p)));
    r
}

/// The pictures that the cache file of `dir` lists: each entry joined to it.
pub fn absolute_paths(dir: &str, entries: &Vec<String>) -> (r: Vec<String>)
    ensures
        texts(r@) == texts(entries@).map_values(|e: Seq<char>| join(dir@, e)),
{
    let mut r: Vec<String> = Vec::new();
    let mut i: usize = 0;
    while i < entries.len()
        invariant
            i <= entries@.len(),
            r@.len() == i,
            forall|j: int| 0 <= j < i ==> #[trigger] r@[j]@ == join(dir@, entries@[j]@),
        decreases entries@.len() - i,
    {
        r.push(join_path(dir, entries[i].as_str()));
        i = i + 1;
    }
    assert(texts(r@) =~= texts(entries@).map_values(|e: Seq<char>| join(dir@, e)));
    r
}

/// An entry joined to `dir` is back to itself once made relative to `dir`.
pub proof fn lemma_relative_of_joined(dir: Seq<char>, e: Seq<char>)
    ensures
        relative_to(dir, join(dir, e)) == e,
{
    let prefix = join(dir, Seq::empty());
    let p = join(dir, e);
    if dir.len() > 0 && dir.last() == '/' {
        assert(prefix =~= dir);
    } else {
        assert(prefix =~= dir + seq!['/']);
    }
    assert(p =~= prefix + e);
    assert(p.subrange(0, prefix.len() as int) =~= prefix);
    assert(p.subrange(prefix.len() as int, p.len() as int) =~= e);
}

/// Listing a folder twice gives the same pictures in the same order when
/// the second listing comes from the cache: the first listing is the
/// folder's entries joined to it, its cache file holds those pictures made
/// relative to the folder, and the second listing joins the cached entries
/// to the folder again.
pub proof fn lemma_cache_round_trip(dir: Seq<char>, entries: Seq<Seq<char>>)
    ensures
        ({
            let first = entries.map_values(|e: Seq<char>| join(dir, e));
            let cached = first.map_values(|p: Seq<char>| relative_to(dir, p));
            cached.map_values(|e: Seq<char>| join(dir, e)) == first
        }),
{
    let first = entries.map_values(|e: Seq<char>| join(dir, e));
    let cached = first.map_values(|p: Seq<char>| relative_to(dir, p));
    assert forall|i: int| 0 <= i < entries.len() implies cached[i] == entries[i] by {
        lemma_relative_of_joined(dir, entries[i]);
    }
    assert(cached =~= entries);
}

/// The files of a directory listing that are not to be kept.
pub fn stale_files(listed: &Vec<String>, keep: &Vec<String>) -> (r: Vec<String>)
    ensures
        texts(r@) == texts(listed@).filter(|p: Seq<char>| !texts(keep@).contains(p)),
{
    let mut r: Vec<String> = Vec::new();
    let mut i: usize = 0;
    while i < listed.len()
        invariant
            i <= listed@.len(),
            texts(r@) == texts(listed@.subrange(0, i as int)).filter(
                |p: Seq<char>| !texts(keep@).contains(p),
            ),
        decreases listed@.len() - i,
    {
        let mut kept = false;
        let mut j: usize = 0;
        while j < keep.len()
            invariant
                i < listed@.len(),
                j <= keep@.len(),
                kept == texts(keep@).subrange(0, j as int).contains(listed@[i as int]@),
            decreases keep@.len() - j,
        {
            if crate::paths::same_text(keep[j].as_str(), listed[i].as_str()) {
                kept = true;
            }
            proof {
                let a = texts(keep@).subrange(0, j as int);
                let b = texts(keep@).subrange(0, j + 1);
                assert(b =~= a.push(keep@[j as int]@));
                if a.contains(listed@[i as int]@) {
                    let w = choose|w: int| 0 <= w < a.len() && a[w] == listed@[i as int]@;
                    assert(b[w] == listed@[i as int]@);
                }
                if b.contains(listed@[i as int]@) && !(keep@[j as int]@ == listed@[i as int]@) {
                    let w = choose|w: int| 0 <= w < b.len() && b[w] == listed@[i as int]@;
                    assert(a[w] == listed@[i as int]@);
                }
                if keep@[j as int]@ == listed@[i as int]@ {
                    assert(b[j as int] == listed@[i as int]@);
                }
            }
            j = j + 1;
        }
        assert(texts(keep@).subrange(0, keep@.len() as int) =~= texts(keep@));
        let ghost before = texts(listed@.subrange(0, i as int));
        let ghost after = texts(listed@.subrange(0, i + 1));
        assert(after =~= before.push(listed@[i as int]@));
        if !kept {
            r.push(listed[i].clone());
        }
        i = i + 1;
        proof {
            before.lemma_filter_push(listed@[i - 1]@, |p: Seq<char>| !texts(keep@).contains(p));
            assert(texts(r@) =~= after.filter(|p: Seq<char>| !texts(keep@).contains(p)));
        }
    }
    assert(listed@.subrange(0, listed@.len() as int) =~= listed@);
    r
}

} // verus!
