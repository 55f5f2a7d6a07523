//! Task statuses and the status-filter algebra.
//!
//! A `StatusFilter` scopes queries over tasks. It is pure data; `admits`
//! turns it into a predicate on statuses and `to_sql` into an SQL `WHERE`
//! clause with its parameters. An `AnyOf` filter over an empty set falls
//! back to `PendingOnly` rather than matching nothing.

use vstd::prelude::*;
use vstd::string::*;
use crate::text::{lemma_lower_bytes_push, lower_bytes};

verus! {

#[derive(Clone, Copy, Debug, PartialEq, Eq, Structural)]
pub enum Status {
    Pending,
    Done,
    Standby,
}

/// The textual label of a status, as stored and displayed.
pub open spec fn status_label(s: Status) -> Seq<char> {
    match s {
        Status::Pending => "pending"@,
        Status::Done => "done"@,
        Status::Standby => "standby"@,
    }
}

/// The UTF-8 bytes of "pending".
pub open spec fn pending_label_bytes() -> Seq<u8> {
    seq![112u8, 101, 110, 100, 105, 110, 103]
}

/// The UTF-8 bytes of "done".
pub open spec fn done_label_bytes() -> Seq<u8> {
    seq![100u8, 111, 110, 101]
}

/// The UTF-8 bytes of "standby".
pub open spec fn standby_label_bytes() -> Seq<u8> {
    seq![115u8, 116, 97, 110, 100, 98, 121]
}

/// The status whose label matches `s` case-insensitively, if any.
pub open spec fn status_of_bytes(s: Seq<u8>) -> Option<Status> {
    let l = lower_bytes(s);
    if l == pending_label_bytes() {
        Some(Status::Pending)
    } else if l == done_label_bytes() {
        Some(Status::Done)
    } else if l == standby_label_bytes() {
        Some(Status::Standby)
    } else {
        None
    }
}

impl Status {
    /// The textual label of this status.
    pub fn label(&self) -> (r: String)
        ensures
            r@ == status_label(*self),
    {
        match self {
            Status::Pending => String::from_str("pending"),
            Status::Done => String::from_str("done"),
            Status::Standby => String::from_str("standby"),
        }
    }

    /// Reads a status from its label, ignoring ASCII case.
    pub fn from_label(s: &str) -> (r: Option<Status>)
        ensures
            r == status_of_bytes(s.spec_bytes()),
    {
        let bytes = s.as_bytes();
        let n = bytes.len();
        let mut l: Vec<u8> = Vec::new();
        let mut k: usize = 0;
        while k < n
            invariant
                k <= n,
                n == s.spec_bytes().len(),
                bytes@ == s.spec_bytes(),
                l@ == lower_bytes(s.spec_bytes().take(k as int)),
            decreases n - k,
        {
            let b = bytes[k];
            proof {
                assert(s.spec_bytes().take(k as int + 1) =~= s.spec_bytes().take(k as int).push(b));
                lemma_lower_bytes_push(s.spec_bytes().take(k as int), b);
            }
            if b >= 65 && b <= 90 {
                l.push(b + 32);
            } else {
                l.push(b);
            }
            k += 1;
        }
        proof {
            assert(s.spec_bytes().take(n as int) =~= s.spec_bytes());
        }
        if l.len() == 7 && l[0] == 112 && l[1] == 101 && l[2] == 110 && l[3] == 100 && l[4] == 105
            && l[5] == 110 && l[6] == 103 {
            proof {
                assert(l@ =~= pending_label_bytes());
            }
            Some(Status::Pending)
        } else if l.len() == 4 && l[0] == 100 && l[1] == 111 && l[2] == 110 && l[3] == 101 {
            proof {
                assert(l@ =~= done_label_bytes());
            }
            Some(Status::Done)
        } else if l.len() == 7 && l[0] == 115 && l[1] == 116 && l[2] == 97 && l[3] == 110
            && l[4] == 100 && l[5] == 98 && l[6] == 121 {
            proof {
                assert(l@ =~= standby_label_bytes());
            }
            Some(Status::Standby)
        } else {
            proof {
                if l@ == pending_label_bytes() || l@ == done_label_bytes()
                    || l@ == standby_label_bytes() {
                    assert(false);
                }
            }
            None
        }
    }
}

/// A query scope over task statuses.
#[derive(Clone, Debug)]
pub enum StatusFilter {
    All,
    AnyOf(Vec<Status>),
    PendingOnly,
}

/// The predicate a filter imposes on a status. `AnyOf` of an empty set
/// imposes `PendingOnly`'s predicate.
pub open spec fn filter_admits(f: StatusFilter, s: Status) -> bool {
    match f {
        StatusFilter::All => true,
        StatusFilter::PendingOnly => s is Pending,
        StatusFilter::AnyOf(v) => {
            if v@.len() == 0 {
                s is Pending
            } else {
                v@.contains(s)
            }
        },
    }
}

/// The `?`-placeholder list for `n` SQL parameters: "?, ?, ..., ?".
pub open spec fn placeholder_str(n: nat) -> Seq<char>
    decreases n,
{
    if n <= 1 {
        "?"@
    } else {
        placeholder_str((n - 1) as nat) + ", ?"@
    }
}

impl StatusFilter {
    /// Whether this filter admits a task of status `s`.
    pub fn admits(&self, s: Status) -> (r: bool)
        ensures
            r == filter_admits(*self, s),
    {
        match self {
            StatusFilter::All => true,
            StatusFilter::PendingOnly => s == Status::Pending,
            StatusFilter::AnyOf(v) => {
                if v.len() == 0 {
                    s == Status::Pending
                } else {
                    let n = v.len();
                    let mut k: usize = 0;
                    let mut found = false;
                    while k < n
                        invariant
                            k <= n == v@.len(),
                            found == exists|j: int| 0 <= j < k && v@[j] == s,
                        decreases n - k,
                    {
                        if v[k] == s {
                            found = true;
                        }
                        k += 1;
                    }
                    found
                }
            },
        }
    }

    /// The SQL `WHERE` clause this filter stands for, with its parameters.
    /// `All` has no clause; `AnyOf` of an empty set produces `PendingOnly`'s
    /// clause.
    pub fn to_sql(&self) -> (r: (String, Vec<String>))
        ensures
            self is All ==> r.0@ == Seq::<char>::empty() && r.1@ == Seq::<String>::empty(),
            (match *self {
                StatusFilter::PendingOnly => true,
                StatusFilter::AnyOf(v) => v@.len() == 0,
                _ => false,
            }) ==> r.0@ == "WHERE status = ?1"@ && r.1@.len() == 1 && r.1@[0]@ == "pending"@,
            (match *self {
                StatusFilter::AnyOf(v) => v@.len() > 0,
                _ => false,
            }) ==> {
                let v = self->AnyOf_0;
                &&& r.0@ == "WHERE status IN ("@ + placeholder_str(v@.len()) + ")"@
                &&& r.1@.len() == v@.len()
                &&& forall|i: int| 0 <= i < v@.len() ==> #[trigger] r.1@[i]@ == status_label(v@[i])
            },
    {
        match self {
            StatusFilter::All => (String::new(), Vec::new()),
            StatusFilter::PendingOnly => {
                let mut params: Vec<String> = Vec::new();
                params.push(Status::Pending.label());
                (String::from_str("WHERE status = ?1"), params)
            },
            StatusFilter::AnyOf(v) => {
                if v.len() == 0 {
                    let mut params: Vec<String> = Vec::new();
                    params.push(Status::Pending.label());
                    (String::from_str("WHERE status = ?1"), params)
                } else {
                    let n = v.len();
                    let mut clause = String::from_str("WHERE status IN (");
                    let mut holes = String::from_str("?");
                    let mut params: Vec<String> = Vec::new();
                    params.push(v[0].label());
                    let mut k: usize = 1;
                    while k < n
                        invariant
                            1 <= k <= n == v@.len(),
                            holes@ == placeholder_str(k as nat),
                            params@.len() == k,
                            forall|i: int| 0 <= i < k ==> #[trigger] params@[i]@
                                == status_label(v@[i]),
                        decreases n - k,
                    {
                        holes.append(", ?");
                        params.push(v[k].label());
                        k += 1;
                    }
                    clause.append(holes.as_str());
                    clause.append(")");
                    proof {
                        assert(clause@ =~= "WHERE status IN ("@ + placeholder_str(v@.len())
                            + ")"@);
                    }
                    (clause, params)
                }
            },
        }
    }
}

/// The filter a listing command uses: `All` when everything was asked for,
/// the single named status when one was given, and `PendingOnly` otherwise.
pub fn status_filter_from_params(status: Option<Status>, show_all: bool) -> (r: StatusFilter)
    ensures
        show_all ==> r is All,
        !show_all && status is Some ==> r is AnyOf && r->AnyOf_0@ =~= seq![status->0],
        !show_all && status is None ==> r is PendingOnly,
{
    if show_all {
        StatusFilter::All
    } else {
        match status {
            Some(s) => {
                let mut v: Vec<Status> = Vec::new();
                v.push(s);
                StatusFilter::AnyOf(v)
            },
            None => StatusFilter::PendingOnly,
        }
    }
}

/// An `AnyOf` filter over an empty set admits exactly the statuses that
/// `PendingOnly` admits: the two filters are the same predicate.
pub proof fn lemma_any_of_empty_is_pending_only(v: Vec<Status>, s: Status)
    requires
        v@.len() == 0,
    ensures
        filter_admits(StatusFilter::AnyOf(v), s) == filter_admits(StatusFilter::PendingOnly, s),
{
}

} // verus!
