//! The editable, file-friendly form of a task, used for whole-record
//! editing in an external editor. Only the conversion lives here; writing
//! the file and launching the editor are the caller's business.

use vstd::prelude::*;
use vstd::string::*;
use crate::civil::{civil_instant, clamp_instant, valid_civil, Civil, MIN_INSTANT, MAX_INSTANT};
use crate::render::{ymd_hms_str, ymd_hms_string};
use crate::task::Task;
use crate::zone::local_civil_of;

verus! {

/// A task as laid out for editing: name, description, and the due date as
/// text (`None` clears the due date).
#[derive(Debug, Clone)]
pub struct EditableTask {
    pub name: String,
    pub description: String,
    pub due: Option<String>,
}

impl EditableTask {
    /// Converts a task into its editable form. The due date is shown in
    /// local time, as `YYYY-MM-DD HH:MM:SS`, so that what the user typed
    /// is what the editor shows.
    pub fn from_task(task: &Task) -> (r: EditableTask)
        ensures
            r.name@ == task.name@,
            r.description@ == task.description@,
            task.due_date is None ==> r.due is None,
            task.due_date is Some ==> (r.due matches Some(s) && exists|c: Civil|
                valid_civil(c) && s@ == #[trigger] ymd_hms_str(c)),
            task.due_date matches Some(d) ==> (MIN_INSTANT <= d <= MAX_INSTANT ==> (
                r.due matches Some(s) && exists|c: Civil| valid_civil(c)
                    && -86400 < civil_instant(c) - d < 86400 && s@ == #[trigger] ymd_hms_str(c))),
    {
        let due = match task.due_date {
            Some(d) => {
                let c = local_civil_of(clamp_instant(d));
                Some(ymd_hms_string(&c))
            },
            None => None,
        };
        EditableTask { name: task.name.clone(), description: task.description.clone(), due }
    }
}

} // verus!
