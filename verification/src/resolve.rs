//! Task-reference resolution.
//!
//! A reference is either a 1-based position into the status-scoped task
//! list (when it is all digits and the position exists) or a prefix of a
//! task id. A digit-only reference that names no position still falls
//! through to prefix matching, position first. A prefix matching several
//! tasks is an error naming every matching short id rather than an
//! arbitrary pick.

use vstd::prelude::*;
use vstd::string::*;
use crate::error::TaskError;
use crate::status::{filter_admits, StatusFilter};
use crate::task::Task;

verus! {

pub open spec fn is_digit_char(c: char) -> bool {
    48 <= c as u32 <= 57
}

/// Whether a reference is all ASCII digits (and non-empty).
pub open spec fn is_number_str(s: Seq<char>) -> bool {
    s.len() > 0 && forall|i: int| 0 <= i < s.len() ==> is_digit_char(#[trigger] s[i])
}

/// Numeric value of a digit-only reference.
pub open spec fn digits_val_chars(s: Seq<char>) -> int
    decreases s.len(),
{
    if s.len() == 0 {
        0
    } else {
        digits_val_chars(s.drop_last()) * 10 + ((s.last() as u32) - 48)
    }
}

/// Whether `id` starts with `p`.
pub open spec fn starts_with_chars(id: Seq<char>, p: Seq<char>) -> bool {
    p.len() <= id.len() && id.take(p.len() as int) == p
}

/// The first eight characters of an id (the whole id when shorter).
pub open spec fn short_id_chars(s: Seq<char>) -> Seq<char> {
    if s.len() <= 8 { s } else { s.take(8) }
}

/// The tasks of `tasks` whose id starts with `p`, in order.
pub open spec fn matches_of(tasks: Seq<Task>, p: Seq<char>) -> Seq<Task>
    decreases tasks.len(),
{
    if tasks.len() == 0 {
        Seq::empty()
    } else if starts_with_chars(tasks.last().id@, p) {
        matches_of(tasks.drop_last(), p).push(tasks.last())
    } else {
        matches_of(tasks.drop_last(), p)
    }
}

/// The tasks of `tasks` that a filter admits, in order.
pub open spec fn scoped_tasks(tasks: Seq<Task>, f: StatusFilter) -> Seq<Task>
    decreases tasks.len(),
{
    if tasks.len() == 0 {
        Seq::empty()
    } else if filter_admits(f, tasks.last().status) {
        scoped_tasks(tasks.drop_last(), f).push(tasks.last())
    } else {
        scoped_tasks(tasks.drop_last(), f)
    }
}

/// The short ids of a run of tasks, joined with ", ".
pub open spec fn join_short_ids(ts: Seq<Task>) -> Seq<char>
    decreases ts.len(),
{
    if ts.len() == 0 {
        Seq::empty()
    } else if ts.len() == 1 {
        short_id_chars(ts[0].id@)
    } else {
        join_short_ids(ts.drop_last()) + ", "@ + short_id_chars(ts.last().id@)
    }
}

/// The ambiguity error text for reference `r` matching the tasks `ms`.
pub open spec fn ambiguous_msg(r: Seq<char>, ms: Seq<Task>) -> Seq<char> {
    "Ambiguous ID '"@ + r + "', matches: "@ + join_short_ids(ms)
}

proof fn lemma_scoped_tasks_len(tasks: Seq<Task>, f: StatusFilter)
    ensures
        scoped_tasks(tasks, f).len() <= tasks.len(),
    decreases tasks.len(),
{
    if tasks.len() > 0 {
        lemma_scoped_tasks_len(tasks.drop_last(), f);
    }
}

proof fn lemma_matches_of_push(tasks: Seq<Task>, t: Task, p: Seq<char>)
    ensures
        matches_of(tasks.push(t), p) == if starts_with_chars(t.id@, p) {
            matches_of(tasks, p).push(t)
        } else {
            matches_of(tasks, p)
        },
{
    assert(tasks.push(t).drop_last() =~= tasks);
}

proof fn lemma_scoped_tasks_push(tasks: Seq<Task>, t: Task, f: StatusFilter)
    ensures
        scoped_tasks(tasks.push(t), f) == if filter_admits(f, t.status) {
            scoped_tasks(tasks, f).push(t)
        } else {
            scoped_tasks(tasks, f)
        },
{
    assert(tasks.push(t).drop_last() =~= tasks);
}

/// Whether `reference` is all ASCII digits (and non-empty).
pub fn is_number(reference: &str) -> (r: bool)
    ensures
        r == is_number_str(reference@),
{
    let n = reference.unicode_len();
    if n == 0 {
        return false;
    }
    let mut i: usize = 0;
    while i < n
        invariant
            i <= n == reference@.len(),
            forall|k: int| 0 <= k < i ==> is_digit_char(#[trigger] reference@[k]),
        decreases n - i,
    {
        let c = reference.get_char(i);
        let u = c as u32;
        if u < 48 || u > 57 {
            return false;
        }
        i += 1;
    }
    true
}

/// Reads a digit-only reference as a list position: `Some` exactly when the
/// text is all digits and its value fits a `usize`.
pub fn parse_index(reference: &str) -> (r: Option<usize>)
    ensures
        match r {
            Some(v) => is_number_str(reference@) && digits_val_chars(reference@) <= usize::MAX
                && v == digits_val_chars(reference@),
            None => !(is_number_str(reference@) && digits_val_chars(reference@) <= usize::MAX),
        },
{
    let n = reference.unicode_len();
    if n == 0 {
        return None;
    }
    let mut i: usize = 0;
    let mut acc: u64 = 0;
    let mut big = false;
    while i < n
        invariant
            i <= n == reference@.len(),
            forall|k: int| 0 <= k < i ==> is_digit_char(#[trigger] reference@[k]),
            if big {
                digits_val_chars(reference@.take(i as int)) > u64::MAX
            } else {
                acc == digits_val_chars(reference@.take(i as int))
            },
        decreases n - i,
    {
        let c = reference.get_char(i);
        let u = c as u32;
        if u < 48 || u > 57 {
            return None;
        }
        let d = (u - 48) as u64;
        let ghost pre = reference@.take(i as int);
        proof {
            assert(reference@.take(i as int + 1) =~= pre.push(c));
            assert(pre.push(c).drop_last() =~= pre);
            if big {
                lemma_digits_val_chars_nonneg(pre);
            }
        }
        if !big {
            if acc > (u64::MAX - d) / 10 {
                proof {
                    vstd::arithmetic::div_mod::lemma_fundamental_div_mod(u64::MAX - d, 10);
                }
                big = true;
            } else {
                proof {
                    vstd::arithmetic::div_mod::lemma_fundamental_div_mod(u64::MAX - d, 10);
                }
                acc = acc * 10 + d;
            }
        }
        i += 1;
    }
    proof {
        assert(reference@.take(n as int) =~= reference@);
    }
    if big {
        return None;
    }
    if acc <= usize::MAX as u64 {
        Some(acc as usize)
    } else {
        None
    }
}

proof fn lemma_digits_val_chars_nonneg(s: Seq<char>)
    requires
        forall|i: int| 0 <= i < s.len() ==> is_digit_char(#[trigger] s[i]),
    ensures
        digits_val_chars(s) >= 0,
    decreases s.len(),
{
    if s.len() > 0 {
        assert(forall|i: int| 0 <= i < s.len() - 1 ==> s.drop_last()[i] == s[i]);
        lemma_digits_val_chars_nonneg(s.drop_last());
    }
}

/// Whether `id` starts with `p`.
pub fn str_starts_with(id: &str, p: &str) -> (r: bool)
    ensures
        r == starts_with_chars(id@, p@),
{
    let pn = p.unicode_len();
    let idn = id.unicode_len();
    if pn > idn {
        return false;
    }
    let mut i: usize = 0;
    while i < pn
        invariant
            i <= pn == p@.len() <= idn == id@.len(),
            forall|k: int| 0 <= k < i ==> #[trigger] id@[k] == p@[k],
        decreases pn - i,
    {
        if id.get_char(i) != p.get_char(i) {
            proof {
                assert(id@.take(p@.len() as int)[i as int] == id@[i as int]);
            }
            return false;
        }
        i += 1;
    }
    proof {
        assert(id@.take(p@.len() as int) =~= p@);
    }
    true
}

/// The first eight characters of an id (the whole id when shorter).
pub fn short_id(id: &str) -> (r: String)
    ensures
        r@ == short_id_chars(id@),
{
    let n = id.unicode_len();
    if n <= 8 {
        String::from_str(id)
    } else {
        String::from_str(id.substring_char(0, 8))
    }
}

/// The tasks a filter admits, in order.
pub fn filter_tasks(tasks: &Vec<Task>, filter: &StatusFilter) -> (r: Vec<Task>)
    ensures
        r@ == scoped_tasks(tasks@, *filter),
{
    let n = tasks.len();
    let mut out: Vec<Task> = Vec::new();
    let mut i: usize = 0;
    while i < n
        invariant
            i <= n == tasks@.len(),
            out@ == scoped_tasks(tasks@.take(i as int), *filter),
        decreases n - i,
    {
        proof {
            assert(tasks@.take(i as int + 1) =~= tasks@.take(i as int).push(tasks@[i as int]));
            lemma_scoped_tasks_push(tasks@.take(i as int), tasks@[i as int], *filter);
        }
        if filter.admits(tasks[i].status) {
            out.push(tasks[i].clone());
        }
        i += 1;
    }
    proof {
        assert(tasks@.take(n as int) =~= tasks@);
    }
    out
}

/// Finds the task whose id starts with `short_ref` among `tasks`: none is
/// not-found, one is returned, and several are an error listing the short
/// id of every match.
pub fn find_task_by_id(tasks: &Vec<Task>, short_ref: &str) -> (r: Result<Option<Task>, TaskError>)
    ensures
        ({
            let ms = matches_of(tasks@, short_ref@);
            &&& ms.len() == 0 ==> (r matches Ok(o) && o is None)
            &&& ms.len() == 1 ==> (r matches Ok(o) && o matches Some(t) && t == ms[0])
            &&& ms.len() > 1 ==> (r matches Err(e) && e matches TaskError::InvalidId(m)
                && m@ == ambiguous_msg(short_ref@, ms))
        }),
{
    let n = tasks.len();
    let mut found: Vec<Task> = Vec::new();
    let mut i: usize = 0;
    while i < n
        invariant
            i <= n == tasks@.len(),
            found@ == matches_of(tasks@.take(i as int), short_ref@),
        decreases n - i,
    {
        proof {
            assert(tasks@.take(i as int + 1) =~= tasks@.take(i as int).push(tasks@[i as int]));
            lemma_matches_of_push(tasks@.take(i as int), tasks@[i as int], short_ref@);
        }
        if str_starts_with(tasks[i].id.as_str(), short_ref) {
            found.push(tasks[i].clone());
        }
        i += 1;
    }
    proof {
        assert(tasks@.take(n as int) =~= tasks@);
    }
    let ghost ms = matches_of(tasks@, short_ref@);
    if found.len() == 0 {
        Ok(None)
    } else if found.len() == 1 {
        let t = found[0].clone();
        Ok(Some(t))
    } else {
        let m = found.len();
        let mut joined = short_id(found[0].id.as_str());
        let mut k: usize = 1;
        while k < m
            invariant
                1 <= k <= m == found@.len(),
                found@ == ms,
                joined@ == join_short_ids(ms.take(k as int)),
            decreases m - k,
        {
            proof {
                assert(ms.take(k as int + 1).drop_last() =~= ms.take(k as int));
                assert(ms.take(k as int + 1).last() == ms[k as int]);
            }
            joined.append(", ");
            let sid = short_id(found[k].id.as_str());
            joined.append(sid.as_str());
            proof {
                assert(joined@ =~= join_short_ids(ms.take(k as int + 1)));
            }
            k += 1;
        }
        proof {
            assert(ms.take(m as int) =~= ms);
        }
        let mut msg = String::from_str("Ambiguous ID '");
        msg.append(short_ref);
        msg.append("', matches: ");
        msg.append(joined.as_str());
        proof {
            assert(msg@ =~= ambiguous_msg(short_ref@, ms));
        }
        Err(TaskError::InvalidId(msg))
    }
}

/// Resolves a reference against the task list (newest first). A digit-only
/// reference is tried as a 1-based position into the list scoped to all or
/// only pending tasks; a position that exists wins. Everything else, and a
/// position that does not exist, is tried as an id prefix over the whole
/// list.
pub fn resolve_task(tasks: &Vec<Task>, reference: &str, show_all: bool) -> (r: Result<
    Option<Task>,
    TaskError,
>)
    ensures
        ({
            let scope = if show_all { StatusFilter::All } else { StatusFilter::PendingOnly };
            let scoped = scoped_tasks(tasks@, scope);
            let positional = is_number_str(reference@)
                && 1 <= digits_val_chars(reference@) <= scoped.len();
            let ms = matches_of(tasks@, reference@);
            &&& positional ==> (r matches Ok(o) && o matches Some(t)
                && t == scoped[digits_val_chars(reference@) - 1])
            &&& !positional ==> {
                &&& ms.len() == 0 ==> (r matches Ok(o) && o is None)
                &&& ms.len() == 1 ==> (r matches Ok(o) && o matches Some(t) && t == ms[0])
                &&& ms.len() > 1 ==> (r matches Err(e) && e matches TaskError::InvalidId(m)
                    && m@ == ambiguous_msg(reference@, ms))
            }
        }),
{
    let total = tasks.len();
    proof {
        lemma_scoped_tasks_len(tasks@, if show_all { StatusFilter::All } else {
            StatusFilter::PendingOnly
        });
    }
    if is_number(reference) {
        if let Some(ix) = parse_index(reference) {
            if ix >= 1 {
                let scope = if show_all { StatusFilter::All } else { StatusFilter::PendingOnly };
                let scoped = filter_tasks(tasks, &scope);
                if ix <= scoped.len() {
                    let t = scoped[ix - 1].clone();
                    return Ok(Some(t));
                }
            }
        }
    }
    find_task_by_id(tasks, reference)
}

/// The "not found" text for a reference, with an optional context phrase.
pub fn format_task_not_found_message(id: &str, context: Option<&str>) -> (r: String)
    ensures
        context matches Some(c) ==> r@ == "task '"@ + id@ + "' not found"@ + c@,
        context is None ==> r@ == "task '"@ + id@ + "' not found"@,
{
    let mut s = String::from_str("task '");
    s.append(id);
    s.append("' not found");
    match context {
        Some(c) => {
            s.append(c);
            proof {
                assert(s@ =~= "task '"@ + id@ + "' not found"@ + c@);
            }
            s
        },
        None => {
            proof {
                assert(s@ =~= "task '"@ + id@ + "' not found"@);
            }
            s
        },
    }
}

} // verus!
