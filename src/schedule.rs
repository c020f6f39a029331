//! Edits of the user's crontab that run the program every five minutes, or
//! stop running it.

use vstd::prelude::*;
use crate::filename_date::{has_prefix, starts_with};
use crate::text::{lemma_split_nonempty, push_text, split_on, string_from_chars};

verus! {

/// `t` occurs in `s` at index `i`.
pub open spec fn occurs_at(s: Seq<char>, t: Seq<char>, i: int) -> bool {
    0 <= i && i + t.len() <= s.len() && s.subrange(i, i + t.len()) == t
}

/// `t` occurs somewhere in `s`.
pub open spec fn contains_text(s: Seq<char>, t: Seq<char>) -> bool {
    exists|i: int| occurs_at(s, t, i)
}

/// Whether `t` occurs somewhere in `s`.
pub fn contains(s: &str, t: &str) -> (r: bool)
    ensures
        r == contains_text(s@, t@),
{
    let n = s.unicode_len();
    let m = t.unicode_len();
    if m > n {
        assert(forall|i: int| !occurs_at(s@, t@, i));
        return false;
    }
    if m == 0 {
        assert(s@.subrange(0, 0) =~= t@);
        assert(occurs_at(s@, t@, 0));
        return true;
    }
    let mut i: usize = 0;
    while i <= n - m
        invariant
            n == s@.len(),
            m == t@.len(),
            1 <= m <= n,
            i <= n - m + 1,
            forall|k: int| 0 <= k < i ==> !occurs_at(s@, t@, k),
        decreases n - m + 1 - i,
    {
        let rest = s.substring_char(i, n);
        if has_prefix(rest, t) {
            assert(rest@.subrange(0, m as int) =~= s@.subrange(i as int, i + m));
            assert(occurs_at(s@, t@, i as int));
            return true;
        }
        assert(!occurs_at(s@, t@, i as int)) by {
            if occurs_at(s@, t@, i as int) {
                assert(rest@.subrange(0, m as int) =~= s@.subrange(i as int, i + m));
            }
        }
        i = i + 1;
    }
    assert forall|k: int| !occurs_at(s@, t@, k) by {
        if 0 <= k < i {
        }
    }
    false
}

/// The crontab line that runs `script` every five minutes.
pub open spec fn task_line(script: Seq<char>) -> Seq<char> {
    "*/5 * * * * "@ + script + "\n"@
}

/// The crontab with a line that runs `script` every five minutes appended,
/// or `None` when `script` is already named in it.
pub fn crontab_with_task(content: &str, script: &str) -> (r: Option<String>)
    ensures
        contains_text(content@, script@) ==> r is None,
        !contains_text(content@, script@) ==> r is Some && r.unwrap()@ == content@ + task_line(
            script@,
        ),
{
    if contains(content, script) {
        return None;
    }
    let mut v: Vec<char> = Vec::new();
    push_text(&mut v, content);
    push_text(&mut v, "*/5 * * * * ");
    push_text(&mut v, script);
    push_text(&mut v, "\n");
    assert(v@ =~= content@ + task_line(script@));
    Some(string_from_chars(&v))
}

/// A line without the carriage return that ended it before a line feed.
pub open spec fn strip_cr(l: Seq<char>) -> Seq<char> {
    if l.len() > 0 && l.last() == '\r' {
        l.drop_last()
    } else {
        l
    }
}

/// The lines of `s`: pieces between line feeds, each without a carriage
/// return just before its line feed; a final line feed ends the last line
/// rather than opening an empty one.
pub open spec fn text_lines(s: Seq<char>) -> Seq<Seq<char>> {
    let p = split_on(s, '\n');
    let done = p.drop_last().map_values(|l: Seq<char>| strip_cr(l));
    if p.last().len() == 0 {
        done
    } else {
        done.push(p.last())
    }
}

/// Lines joined with a line feed between two of them.
pub open spec fn join_lines(ls: Seq<Seq<char>>) -> Seq<char>
    decreases ls.len(),
{
    if ls.len() == 0 {
        Seq::empty()
    } else if ls.len() == 1 {
        ls[0]
    } else {
        join_lines(ls.drop_last()) + "\n"@ + ls.last()
    }
}

/// The lines of `content` that do not name `script`, joined by line feeds.
pub open spec fn without_task(content: Seq<char>, script: Seq<char>) -> Seq<char> {
    join_lines(text_lines(content).filter(|l: Seq<char>| !contains_text(l, script)))
}

proof fn lemma_join_push(ls: Seq<Seq<char>>, x: Seq<char>)
    ensures
        join_lines(ls.push(x)) == if ls.len() == 0 {
            x
        } else {
            join_lines(ls) + "\n"@ + x
        },
{
    assert(ls.push(x).drop_last() =~= ls);
}

/// Appends a line to the joined lines `out`, which hold `kept` lines.
fn push_line(out: &mut Vec<char>, kept: bool, line: &Vec<char>)
    ensures
        final(out)@ == if kept {
            old(out)@ + "\n"@ + line@
        } else {
            old(out)@ + line@
        },
{
    if kept {
        push_text(out, "\n");
    }
    let mut i: usize = 0;
    let ghost start = out@;
    while i < line.len()
        invariant
            i <= line@.len(),
            out@ == start + line@.subrange(0, i as int),
        decreases line@.len() - i,
    {
        out.push(line[i]);
        i = i + 1;
        assert(out@ =~= start + line@.subrange(0, i as int));
    }
    assert(line@.subrange(0, line@.len() as int) =~= line@);
}

/// The crontab without the lines that name `script`, or `None` when none
/// does.
pub fn crontab_without_task(content: &str, script: &str) -> (r: Option<String>)
    ensures
        !contains_text(content@, script@) ==> r is None,
        contains_text(content@, script@) ==> r is Some && r.unwrap()@ == without_task(
            content@,
            script@,
        ),
{
    if !contains(content, script) {
        return None;
    }
    let ghost keep = |l: Seq<char>| !contains_text(l, script@);
    let n = content.unicode_len();
    let mut out: Vec<char> = Vec::new();
    let mut cur: Vec<char> = Vec::new();
    let mut kept: bool = false;
    let mut i: usize = 0;
    assert(content@.subrange(0, 0) =~= Seq::<char>::empty());
    assert(split_on(content@.subrange(0, 0), '\n').drop_last().map_values(
        |l: Seq<char>| strip_cr(l),
    ) =~= Seq::<Seq<char>>::empty());
    while i < n
        invariant
            n == content@.len(),
            i <= n,
            keep == (|l: Seq<char>| !contains_text(l, script@)),
            split_on(content@.subrange(0, i as int), '\n').last() == cur@,
            out@ == join_lines(
                split_on(content@.subrange(0, i as int), '\n').drop_last().map_values(
                    |l: Seq<char>| strip_cr(l),
                ).filter(keep),
            ),
            kept == (split_on(content@.subrange(0, i as int), '\n').drop_last().map_values(
                |l: Seq<char>| strip_cr(l),
            ).filter(keep).len() > 0),
        decreases n - i,
    {
        let c = content.get_char(i);
        let ghost before = content@.subrange(0, i as int);
        let ghost after = content@.subrange(0, i + 1);
        let ghost pb = split_on(before, '\n');
        let ghost doneb = pb.drop_last().map_values(|l: Seq<char>| strip_cr(l));
        assert(after.drop_last() =~= before);
        assert(after.last() == c);
        proof {
            lemma_split_nonempty(before, '\n');
        }
        if c == '\n' {
            let k = cur.len();
            let line: Vec<char> = if k > 0 && cur[k - 1] == '\r' {
                let mut l = cur.clone();
                l.pop();
                l
            } else {
                cur.clone()
            };
            assert(line@ == strip_cr(cur@)) by {
                if k > 0 && cur@[k - 1] == '\r' {
                    assert(line@ =~= cur@.drop_last());
                }
            }
            let line_text = string_from_chars(&line);
            let ghost pa = split_on(after, '\n');
            let ghost donea = pa.drop_last().map_values(|l: Seq<char>| strip_cr(l));
            assert(pa =~= pb.push(Seq::empty()));
            assert(donea =~= doneb.push(strip_cr(cur@))) by {
                assert(pa.drop_last() =~= pb);
                assert(pb =~= pb.drop_last().push(cur@));
                assert(pb.map_values(|l: Seq<char>| strip_cr(l)) =~= doneb.push(strip_cr(cur@)));
            }
            proof {
                doneb.lemma_filter_push(strip_cr(cur@), keep);
            }
            if !contains(line_text.as_str(), script) {
                proof {
                    lemma_join_push(doneb.filter(keep), line@);
                }
                push_line(&mut out, kept, &line);
                kept = true;
            }
            cur = Vec::new();
        } else {
            cur.push(c);
            let ghost pa = split_on(after, '\n');
            assert(pa =~= pb.drop_last().push(pb.last().push(c)));
            assert(pa.drop_last() =~= pb.drop_last());
        }
        i = i + 1;
    }
    assert(content@.subrange(0, n as int) =~= content@);
    let ghost p = split_on(content@, '\n');
    let ghost done = p.drop_last().map_values(|l: Seq<char>| strip_cr(l));
    if cur.len() > 0 {
        let last_text = string_from_chars(&cur);
        proof {
            done.lemma_filter_push(cur@, keep);
        }
        if !contains(last_text.as_str(), script) {
            proof {
                lemma_join_push(done.filter(keep), cur@);
            }
            push_line(&mut out, kept, &cur);
        }
    }
    assert(out@ == without_task(content@, script@));
    Some(string_from_chars(&out))
}

} // verus!
