//! Captions: the file name and capture date of a local photo, with the date
//! written out in French.

use vstd::prelude::*;
use crate::paths::{file_name, file_name_of};
use crate::text::{decimal, push_decimal, push_signed_decimal, push_text, signed_decimal, string_from_chars};
use crate::timestamp::{Timestamp, weekday_from_sunday, weekday_of};

verus! {

/// The French name of the day of the week `i`, counted from Sunday.
pub open spec fn day_name(i: int) -> Seq<char> {
    if i == 0 {
        "dimanche"@
    } else if i == 1 {
        "lundi"@
    } else if i == 2 {
        "mardi"@
    } else if i == 3 {
        "mercredi"@
    } else if i == 4 {
        "jeudi"@
    } else if i == 5 {
        "vendredi"@
    } else {
        "samedi"@
    }
}

/// The French name of month `m`, counted from January (1).
pub open spec fn month_name(m: int) -> Seq<char> {
    if m == 1 {
        "janvier"@
    } else if m == 2 {
        "février"@
    } else if m == 3 {
        "mars"@
    } else if m == 4 {
        "avril"@
    } else if m == 5 {
        "mai"@
    } else if m == 6 {
        "juin"@
    } else if m == 7 {
        "juillet"@
    } else if m == 8 {
        "août"@
    } else if m == 9 {
        "septembre"@
    } else if m == 10 {
        "octobre"@
    } else if m == 11 {
        "novembre"@
    } else {
        "décembre"@
    }
}

/// A date written as "weekday day month year" in French.
pub open spec fn french_date(t: Timestamp) -> Seq<char> {
    day_name(weekday_of(t.year, t.month, t.day) as int) + " "@ + decimal(t.day as nat) + " "@
        + month_name(t.month as int) + " "@ + signed_decimal(t.year as int)
}

/// The caption of a local photo: its file name, a line break, then its
/// capture date in French, or nothing when that date is unknown.
pub open spec fn local_caption(path: Seq<char>, date: Option<Timestamp>) -> Seq<char> {
    file_name(path) + "\n"@ + match date {
        Some(t) => french_date(t),
        None => Seq::empty(),
    }
}

fn day_name_text(i: u32) -> (r: &'static str)
    ensures
        r@ == day_name(i as int),
{
    if i == 0 {
        "dimanche"
    } else if i == 1 {
        "lundi"
    } else if i == 2 {
        "mardi"
    } else if i == 3 {
        "mercredi"
    } else if i == 4 {
        "jeudi"
    } else if i == 5 {
        "vendredi"
    } else {
        "samedi"
    }
}

fn month_name_text(m: u32) -> (r: &'static str)
    ensures
        r@ == month_name(m as int),
{
    if m == 1 {
        "janvier"
    } else if m == 2 {
        "février"
    } else if m == 3 {
        "mars"
    } else if m == 4 {
        "avril"
    } else if m == 5 {
        "mai"
    } else if m == 6 {
        "juin"
    } else if m == 7 {
        "juillet"
    } else if m == 8 {
        "août"
    } else if m == 9 {
        "septembre"
    } else if m == 10 {
        "octobre"
    } else if m == 11 {
        "novembre"
    } else {
        "décembre"
    }
}

/// Appends the French writing of date `t`.
fn push_french_date(v: &mut Vec<char>, t: Timestamp)
    requires
        t.wf(),
    ensures
        final(v)@ == old(v)@ + french_date(t),
{
    let w = weekday_from_sunday(t.year, t.month, t.day);
    push_text(v, day_name_text(w));
    push_text(v, " ");
    push_decimal(v, t.day);
    push_text(v, " ");
    push_text(v, month_name_text(t.month));
    push_text(v, " ");
    push_signed_decimal(v, t.year);
    assert(v@ =~= old(v)@ + french_date(t));
}

/// A date written as "weekday day month year" in French, as in
/// "jeudi 1 janvier 1970".
pub fn format_date_in_french(t: Timestamp) -> (r: String)
    requires
        t.wf(),
    ensures
        r@ == french_date(t),
{
    let mut v: Vec<char> = Vec::new();
    push_french_date(&mut v, t);
    assert(v@ =~= french_date(t));
    string_from_chars(&v)
}

/// The caption of a local photo: its file name, a line break, then its
/// capture date in French when it is known.
pub fn local_caption_text(path: &str, date: Option<Timestamp>) -> (r: String)
    requires
        date is Some ==> date.unwrap().wf(),
    ensures
        r@ == local_caption(path@, date),
{
    let mut v: Vec<char> = Vec::new();
    push_text(&mut v, file_name_of(path));
    push_text(&mut v, "\n");
    match date {
        Some(t) => push_french_date(&mut v, t),
        None => {},
    }
    assert(v@ =~= local_caption(path@, date));
    string_from_chars(&v)
}

} // verus!
