//! Picks the image of a run: a coin chooses the local or the remote branch,
//! and the local branch draws pictures until one fits the screen.

use vstd::prelude::*;
use crate::caption::{local_caption, local_caption_text};
use crate::filename_date::{date_from_stem, stem_date};
use crate::paths::{file_name, file_name_of, stem, stem_of};
use crate::timestamp::Timestamp;

verus! {

/// The lower-case form of a text, as Unicode defines it.
pub uninterp spec fn lowercase_of(s: Seq<char>) -> Seq<char>;

/// Relies on str::to_lowercase: the result depends on the characters alone,
/// and an empty text stays empty.
#[verifier::external_body]
fn to_lower(s: &str) -> (r: String)
    ensures
        r@ == lowercase_of(s@),
        s@.len() == 0 ==> r@.len() == 0,
{
    s.to_lowercase()
}

/// The capture date of the file at `path` as its name gives it, else the
/// modification time `modified`.
pub open spec fn local_date(path: Seq<char>, modified: Option<Timestamp>) -> Option<Timestamp> {
    match stem_date(lowercase_of(stem(file_name(path)))) {
        Some(t) => Some(t),
        None => modified,
    }
}

/// A picture on this computer, with its capture date when known.
#[derive(Debug)]
pub struct LocalImage {
    pub path: String,
    pub date: Option<Timestamp>,
}

impl LocalImage {
    /// The picture at `path`: its date is read from its lower-cased file
    /// name stem, and is the file's modification time `modified` when the
    /// name gives none.
    pub fn from(path: String, modified: Option<Timestamp>) -> (r: LocalImage)
        requires
            modified is Some ==> modified.unwrap().wf(),
        ensures
            r.path@ == path@,
            r.date == local_date(path@, modified),
            r.date is Some ==> r.date.unwrap().wf(),
    {
        let lowered = to_lower(stem_of(file_name_of(path.as_str())));
        let date = match date_from_stem(lowered.as_str()) {
            Some(t) => Some(t),
            None => modified,
        };
        LocalImage { path, date }
    }

    /// The path of the picture.
    pub fn get_path(&self) -> (r: String)
        ensures
            r@ == self.path@,
    {
        self.path.clone()
    }

    /// The caption: the file name, a line break, and the date in French.
    pub fn get_description(&self) -> (r: String)
        requires
            self.date is Some ==> self.date.unwrap().wf(),
        ensures
            r@ == local_caption(self.path@, self.date),
    {
        local_caption_text(self.path.as_str(), self.date)
    }
}

/// The two sources of a wallpaper.
#[derive(Clone, Copy, Debug, PartialEq, Eq)]
pub enum Source {
    Local,
    Remote,
}

/// The branch that a coin flip selects: heads for the local pictures.
pub fn branch_for(use_local: bool) -> (r: Source)
    ensures
        r == (if use_local { Source::Local } else { Source::Remote }),
{
    if use_local {
        Source::Local
    } else {
        Source::Remote
    }
}

/// Relies on rand::random::<bool>: a fair coin, drawn anew on each call.
#[verifier::external_body]
fn coin_flip() -> (r: bool) {
    rand::random::<bool>()
}

/// Relies on rand::random_range: a number below `n`, drawn uniformly anew on
/// each call; it panics on an empty range, which `requires` leaves out.
#[verifier::external_body]
pub(crate) fn random_index(n: usize) -> (r: usize)
    requires
        n > 0,
    ensures
        r < n,
{
    rand::random_range(0..n)
}

/// The branch of this run, by a fair coin. It is the only branch tried.
pub fn choose_branch() -> (r: Source) {
    branch_for(coin_flip())
}

/// How many pictures the local branch inspects before it gives up.
pub const LOCAL_ATTEMPTS: u32 = 10000;

/// What the local branch does next.
#[derive(Clone, Copy, Debug, PartialEq, Eq)]
pub enum LocalStep {
    /// Decode picture `i` of the list and tell whether it is too vertical.
    Inspect(usize),
    /// Use picture `i` of the list.
    Accept(usize),
    /// Serve nothing in this run.
    GiveUp,
}

/// The verdict on an inspected picture.
#[derive(Clone, Copy, Debug, PartialEq, Eq)]
pub struct Verdict {
    pub index: usize,
    pub too_vertical: bool,
}

/// Rejection sampling over a list of `count` pictures, with a budget of
/// inspections.
#[derive(Clone, Copy, Debug, PartialEq, Eq)]
pub struct LocalSearch {
    pub count: usize,
    pub attempts: u32,
}

impl LocalSearch {
    /// A search over `count` pictures that has inspected none yet.
    pub fn new(count: usize) -> (r: LocalSearch)
        ensures
            r.count == count,
            r.attempts == 0,
    {
        LocalSearch { count, attempts: 0 }
    }

    /// The step after the verdict on the last inspected picture, with
    /// `drawn` as the next random pick: the first picture that is not too
    /// vertical is taken; an empty list or a spent budget gives up;
    /// otherwise picture `drawn` is inspected and counted.
    pub fn decide(&mut self, verdict: Option<Verdict>, drawn: usize) -> (r: LocalStep)
        requires
            old(self).count > 0 ==> drawn < old(self).count,
        ensures
            verdict is Some && !verdict.unwrap().too_vertical ==> r == LocalStep::Accept(
                verdict.unwrap().index,
            ) && *final(self) == *old(self),
            !(verdict is Some && !verdict.unwrap().too_vertical) && (old(self).count == 0
                || old(self).attempts >= LOCAL_ATTEMPTS) ==> r == LocalStep::GiveUp && *final(self)
                == *old(self),
            !(verdict is Some && !verdict.unwrap().too_vertical) && old(self).count > 0
                && old(self).attempts < LOCAL_ATTEMPTS ==> r == LocalStep::Inspect(drawn)
                && final(self).count == old(self).count && final(self).attempts == old(
                self,
            ).attempts + 1,
    {
        match verdict {
            Some(v) => {
                if !v.too_vertical {
                    return LocalStep::Accept(v.index);
                }
            },
            None => {},
        }
        if self.count == 0 || self.attempts >= LOCAL_ATTEMPTS {
            LocalStep::GiveUp
        } else {
            self.attempts = self.attempts + 1;
            LocalStep::Inspect(drawn)
        }
    }

    /// The step after the verdict on the last inspected picture, drawing
    /// the next pick at random: as `decide` says, for some pick below `count`.
    pub fn step(&mut self, verdict: Option<Verdict>) -> (r: LocalStep)
        ensures
            verdict is Some && !verdict.unwrap().too_vertical ==> r == LocalStep::Accept(
                verdict.unwrap().index,
            ),
            !(verdict is Some && !verdict.unwrap().too_vertical) && (old(self).count == 0
                || old(self).attempts >= LOCAL_ATTEMPTS) ==> r == LocalStep::GiveUp,
            !(verdict is Some && !verdict.unwrap().too_vertical) && old(self).count > 0
                && old(self).attempts < LOCAL_ATTEMPTS ==> (r matches LocalStep::Inspect(i) && i
                < old(self).count) && final(self).attempts == old(self).attempts + 1,
            !(r is Inspect) ==> *final(self) == *old(self),
            final(self).count == old(self).count,
    {
        let drawn = if self.count > 0 {
            random_index(self.count)
        } else {
            0
        };
        self.decide(verdict, drawn)
    }
}

/// The error of a run that found no image to show.
#[derive(Clone, Copy, Debug, PartialEq, Eq)]
pub enum SelectionError {
    NoImages,
}

impl SelectionError {
    /// The message shown for the error.
    pub fn message(&self) -> (r: String)
        ensures
            r@ == "No images available locally or online"@,
    {
        String::from_str("No images available locally or online")
    }
}

} // verus!
