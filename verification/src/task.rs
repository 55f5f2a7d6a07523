//! Tasks and the operations that construct and edit them.
//!
//! A task's name is validated on construction and on every rename: after
//! trimming it may be neither empty nor longer than the maximum. Every edit
//! operation reports whether it changed anything, so an edit that leaves
//! the field as it was can be reported as a no-op.

use vstd::prelude::*;
use vstd::string::*;
use vstd::utf8::{encode_utf8, is_ascii_chars};
use crate::civil::{clamp_instant, is_utc_civil, valid_civil, Civil, MIN_INSTANT, MAX_INSTANT};
use crate::error::TaskError;
use crate::render::{ymd_hms_str, ymd_hms_string};
use crate::status::Status;
use crate::text::{is_ws_byte, lemma_ws_prefix_len_at, lemma_ws_suffix_len_at, trim_bytes};
use crate::zone::{now_unix, utc_civil_of};

verus! {

/// The longest accepted task name, in bytes of its trimmed form.
pub const MAX_TASK_NAME_LENGTH: usize = 120;

/// Whether a name is acceptable for a task: non-empty and within the
/// length bound (in bytes) once surrounding whitespace is trimmed.
/// Whitespace here means ASCII whitespace, by design: an exotic Unicode
/// space counts as part of the name.
pub open spec fn valid_task_name(name: Seq<u8>) -> bool {
    0 < trim_bytes(name).len() <= MAX_TASK_NAME_LENGTH
}

fn is_ws(b: u8) -> (r: bool)
    ensures
        r == is_ws_byte(b),
{
    b == 9 || b == 10 || b == 11 || b == 12 || b == 13 || b == 32
}

/// Checks a task name: rejects one that is empty after trimming ASCII
/// whitespace, and one whose trimmed form runs past the maximum length.
pub fn validate_task_name(name: &str) -> (r: Result<(), TaskError>)
    ensures
        valid_task_name(name.spec_bytes()) <==> r is Ok,
        trim_bytes(name.spec_bytes()).len() == 0 ==> (r matches Err(e)
            && e matches TaskError::InvalidInput(m) && m@ == "Task name cannot be empty"@),
        trim_bytes(name.spec_bytes()).len() > MAX_TASK_NAME_LENGTH ==> (r matches Err(e)
            && e matches TaskError::InvalidInput(m)
            && m@ == "Task name too long (max 120 characters). Put additional details in the description."@),
{
    let ghost s = name.spec_bytes();
    let bytes = name.as_bytes();
    let n = bytes.len();
    let mut i: usize = 0;
    while i < n && is_ws(bytes[i])
        invariant
            i <= n == s.len(),
            bytes@ == s,
            forall|k: int| 0 <= k < i ==> is_ws_byte(#[trigger] s[k]),
        decreases n - i,
    {
        i += 1;
    }
    if i == n {
        proof {
            lemma_ws_prefix_len_at(s, n as int);
        }
        return Err(TaskError::InvalidInput(String::from_str("Task name cannot be empty")));
    }
    let mut j: usize = n;
    while j > i && is_ws(bytes[j - 1])
        invariant
            i <= j <= n == s.len(),
            bytes@ == s,
            i < n,
            !is_ws_byte(s[i as int]),
            forall|k: int| j <= k < n ==> is_ws_byte(#[trigger] s[k]),
        decreases j,
    {
        j -= 1;
    }
    proof {
        lemma_ws_prefix_len_at(s, i as int);
        lemma_ws_suffix_len_at(s, j as int);
        assert(trim_bytes(s) =~= s.subrange(i as int, j as int));
    }
    if j - i > MAX_TASK_NAME_LENGTH {
        return Err(TaskError::InvalidInput(String::from_str(
            "Task name too long (max 120 characters). Put additional details in the description.",
        )));
    }
    Ok(())
}

/// A tracked to-do item. `date` is the creation timestamp rendered as
/// `YYYY-MM-DD HH:MM:SS` (UTC); `due_date` is an optional instant.
#[derive(Debug)]
pub struct Task {
    pub id: String,
    pub date: String,
    pub name: String,
    pub description: String,
    pub status: Status,
    pub due_date: Option<i64>,
}

impl Clone for Task {
    fn clone(&self) -> (r: Self)
        ensures
            r == *self,
    {
        Task {
            id: self.id.clone(),
            date: self.date.clone(),
            name: self.name.clone(),
            description: self.description.clone(),
            status: self.status,
            due_date: self.due_date,
        }
    }
}

/// Relies on `uuid::Uuid::new_v4` and its display form: a fresh random
/// version-4 id, rendered as 36 hyphenated lowercase hexadecimal ASCII
/// characters. Nothing beyond its shape can be promised of a random id.
#[verifier::external_body]
fn fresh_task_id() -> (r: String)
    ensures
        r@.len() == 36,
        is_ascii_chars(r@),
{
    uuid::Uuid::new_v4().to_string()
}

/// Whether a `String` is acceptable as a task name.
pub open spec fn valid_name_chars(s: Seq<char>) -> bool {
    valid_task_name(encode_utf8(s))
}

/// `t` after a rename to `n`, every other field kept.
pub open spec fn renamed(t: Task, n: String) -> Task {
    Task { name: n, ..t }
}

/// Whether renaming `t` to `n` changes anything.
pub open spec fn rename_changes(t: Task, n: String) -> bool {
    t.name@ != n@
}

impl Task {
    /// Creates a fresh pending task: validates the name, draws a new id,
    /// and stamps the creation time.
    pub fn new(name: String, description: Option<String>, due_date: Option<i64>) -> (r: Result<
        Task,
        TaskError,
    >)
        ensures
            valid_name_chars(name@) <==> r is Ok,
            !valid_name_chars(name@) ==> (r matches Err(e)
                && e matches TaskError::InvalidInput(m)),
            r matches Ok(t) ==> {
                &&& t.name == name
                &&& t.description@ == (match description {
                    Some(d) => d@,
                    None => Seq::<char>::empty(),
                })
                &&& t.status is Pending
                &&& t.due_date == due_date
                &&& t.id@.len() == 36
                &&& exists|ts: int, c: Civil|
                    MIN_INSTANT <= ts <= MAX_INSTANT && valid_civil(c) && #[trigger] is_utc_civil(
                        ts,
                        c,
                    ) && t.date@ == ymd_hms_str(c)
            },
    {
        match validate_task_name(name.as_str()) {
            Err(e) => Err(e),
            Ok(()) => {
                let now = clamp_instant(now_unix());
                let stamp = utc_civil_of(now);
                let date = ymd_hms_string(&stamp);
                proof {
                    assert(MIN_INSTANT <= now as int <= MAX_INSTANT && valid_civil(stamp)
                        && is_utc_civil(now as int, stamp) && date@ == ymd_hms_str(stamp));
                }
                let desc = match description {
                    Some(d) => d,
                    None => String::new(),
                };
                Ok(Task {
                    id: fresh_task_id(),
                    date,
                    name,
                    description: desc,
                    status: Status::Pending,
                    due_date,
                })
            },
        }
    }

    /// Renames the task after validating the new name, and reports whether
    /// the name actually changed.
    pub fn rename(&mut self, new_name: String) -> (r: Result<bool, TaskError>)
        ensures
            valid_name_chars(new_name@) <==> r is Ok,
            r is Err ==> *final(self) == *old(self) && (r matches Err(e)
                && e matches TaskError::InvalidInput(m)),
            r matches Ok(changed) ==> changed == rename_changes(*old(self), new_name)
                && *final(self) == renamed(*old(self), new_name),
    {
        match validate_task_name(new_name.as_str()) {
            Err(e) => Err(e),
            Ok(()) => {
                let changed = !self.name.eq(&new_name);
                self.name = new_name;
                Ok(changed)
            },
        }
    }

    /// Replaces the description and reports whether it changed.
    pub fn set_description(&mut self, description: String) -> (changed: bool)
        ensures
            changed == (old(self).description@ != description@),
            *final(self) == (Task { description, ..*old(self) }),
    {
        let changed = !self.description.eq(&description);
        self.description = description;
        changed
    }

    /// Replaces the due date and reports whether it changed.
    pub fn set_due(&mut self, due_date: Option<i64>) -> (changed: bool)
        ensures
            changed == (old(self).due_date != due_date),
            *final(self) == (Task { due_date, ..*old(self) }),
    {
        let changed = match (&self.due_date, &due_date) {
            (Some(a), Some(b)) => *a != *b,
            (None, None) => false,
            _ => true,
        };
        self.due_date = due_date;
        changed
    }

    /// Replaces the status and reports whether it changed.
    pub fn set_status(&mut self, status: Status) -> (changed: bool)
        ensures
            changed == (old(self).status != status),
            *final(self) == (Task { status, ..*old(self) }),
    {
        let changed = self.status != status;
        self.status = status;
        changed
    }
}

/// Renaming a task to the name it already carries changes nothing: the
/// same rename applied a second time reports a no-op.
pub proof fn lemma_rename_idempotent(t: Task, n: String)
    ensures
        !rename_changes(renamed(t, n), n),
{
}

} // verus!
