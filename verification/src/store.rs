//! The textual side of the task store: where its database file lives and
//! the query text a status filter turns into. Running the queries is the
//! caller's business.

use vstd::prelude::*;
use vstd::string::*;
use crate::status::{placeholder_str, status_label, StatusFilter};

verus! {

/// The columns every task query selects.
pub open spec fn select_clause() -> Seq<char> {
    "SELECT id, date, name, description, status, due_date FROM tasks"@
}

/// Path of the task database under the given home directory.
pub fn get_db_path(home: &str) -> (r: String)
    ensures
        r@ == home@ + "/.tarea/tasks.db"@,
{
    let mut s = String::from_str(home);
    s.append("/.tarea/tasks.db");
    s
}

/// The full listing query for a status filter: the select, the filter's
/// `WHERE` clause if it has one, and newest-first ordering.
pub fn build_task_query(filter: &StatusFilter) -> (r: (String, Vec<String>))
    ensures
        filter is All ==> r.0@ == select_clause() + " ORDER BY date DESC"@
            && r.1@ == Seq::<String>::empty(),
        (match *filter {
            StatusFilter::PendingOnly => true,
            StatusFilter::AnyOf(v) => v@.len() == 0,
            _ => false,
        }) ==> r.0@ == select_clause() + " "@ + "WHERE status = ?1"@ + " ORDER BY date DESC"@
            && r.1@.len() == 1 && r.1@[0]@ == "pending"@,
        (match *filter {
            StatusFilter::AnyOf(v) => v@.len() > 0,
            _ => false,
        }) ==> {
            let v = filter->AnyOf_0;
            &&& r.0@ == select_clause() + " "@ + "WHERE status IN ("@ + placeholder_str(v@.len())
                + ")"@ + " ORDER BY date DESC"@
            &&& r.1@.len() == v@.len()
            &&& forall|i: int| 0 <= i < v@.len() ==> #[trigger] r.1@[i]@ == status_label(v@[i])
        },
{
    let (clause, params) = filter.to_sql();
    proof {
        reveal_strlit("WHERE status = ?1");
        reveal_strlit("WHERE status IN (");
    }
    let mut sql = String::from_str("SELECT id, date, name, description, status, due_date FROM tasks");
    if clause.as_str().unicode_len() > 0 {
        sql.append(" ");
        sql.append(clause.as_str());
    }
    sql.append(" ORDER BY date DESC");
    proof {
        match filter {
            StatusFilter::All => {
                assert(sql@ =~= select_clause() + " ORDER BY date DESC"@);
            },
            StatusFilter::PendingOnly => {
                assert(sql@ =~= select_clause() + " "@ + "WHERE status = ?1"@
                    + " ORDER BY date DESC"@);
            },
            StatusFilter::AnyOf(v) => {
                if v@.len() == 0 {
                    assert(sql@ =~= select_clause() + " "@ + "WHERE status = ?1"@
                        + " ORDER BY date DESC"@);
                } else {
                    assert(sql@ =~= select_clause() + " "@ + "WHERE status IN ("@
                        + placeholder_str(v@.len()) + ")"@ + " ORDER BY date DESC"@);
                }
            },
        }
    }
    (sql, params)
}

} // verus!
