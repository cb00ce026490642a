//! Plane selection: which colour planes of a frame the filter processes.
use vstd::prelude::*;
use vstd::string::StringExecFns;
use crate::text::{decimal, push_decimal, push_decimal_nat};

verus! {

/// Why a plane-selection list was refused.
#[derive(Clone, Copy, Debug, PartialEq, Eq, Structural)]
pub enum PlaneError {
    /// The entry names no plane of the format.
    OutOfRange { index: i32, plane_count: usize },
    /// The entry names a plane that an earlier entry already named.
    Duplicate { index: i32 },
}

impl PlaneError {
    /// The text that the error is reported with.
    pub open spec fn spec_message(self) -> Seq<char> {
        match self {
            PlaneError::OutOfRange { index, plane_count } => "Plane index "@ + decimal(
                index as int,
            ) + " is out of range [0, "@ + decimal(plane_count as int) + ")."@,
            PlaneError::Duplicate { index } => "Plane "@ + decimal(index as int)
                + " is specified more than once."@,
        }
    }

    /// The text that the error is reported with.
    pub fn message(&self) -> (text: String)
        ensures
            text@ == self.spec_message(),
    {
        match *self {
            PlaneError::OutOfRange { index, plane_count } => {
                let mut text = String::from_str("Plane index ");
                push_decimal(&mut text, index as i64);
                text.append(" is out of range [0, ");
                push_decimal_nat(&mut text, plane_count as u64);
                text.append(").");
                text
            },
            PlaneError::Duplicate { index } => {
                let mut text = String::from_str("Plane ");
                push_decimal(&mut text, index as i64);
                text.append(" is specified more than once.");
                text
            },
        }
    }
}

/// Number of `true` entries of `s`.
pub open spec fn count_selected(s: Seq<bool>) -> nat
    decreases s.len(),
{
    if s.len() == 0 {
        0
    } else {
        count_selected(s.drop_last()) + if s.last() {
            1nat
        } else {
            0nat
        }
    }
}

/// What is wrong with entry `i` of `planes`, given the entries before it.
pub open spec fn entry_fault(planes: Seq<i32>, plane_count: int, i: int) -> Option<PlaneError> {
    if !(0 <= planes[i] < plane_count) {
        Some(PlaneError::OutOfRange { index: planes[i], plane_count: plane_count as usize })
    } else if planes.take(i).contains(planes[i]) {
        Some(PlaneError::Duplicate { index: planes[i] })
    } else {
        None
    }
}

/// The fault of the first faulty entry of `planes` from entry `i` on.
pub open spec fn fault_from(planes: Seq<i32>, plane_count: int, i: int) -> Option<PlaneError>
    decreases planes.len() - i,
{
    if i < 0 || i >= planes.len() {
        None
    } else if entry_fault(planes, plane_count, i).is_some() {
        entry_fault(planes, plane_count, i)
    } else {
        fault_from(planes, plane_count, i + 1)
    }
}

/// What a selection list is refused for: the fault of its first faulty
/// entry. `None` for a list that is accepted.
pub open spec fn selection_fault(planes: Seq<i32>, plane_count: int) -> Option<PlaneError> {
    fault_from(planes, plane_count, 0)
}

/// Every entry names a plane of the format, and none is named twice.
pub open spec fn selection_valid(planes: Seq<i32>, plane_count: int) -> bool {
    forall|i: int| 0 <= i < planes.len() ==> entry_fault(planes, plane_count, i).is_none()
}

/// Scanning from entry `i`, with no fault before entry `k`, finds what entry
/// `k` holds, or nothing where `k` is the end of the list.
pub proof fn lemma_fault_from(planes: Seq<i32>, plane_count: int, i: int, k: int)
    requires
        0 <= i <= k <= planes.len(),
        forall|j: int| i <= j < k ==> entry_fault(planes, plane_count, j).is_none(),
        k < planes.len() ==> entry_fault(planes, plane_count, k).is_some(),
    ensures
        fault_from(planes, plane_count, i) == if k < planes.len() {
            entry_fault(planes, plane_count, k)
        } else {
            None
        },
    decreases k - i,
{
    if i < k {
        lemma_fault_from(planes, plane_count, i + 1, k);
    }
}

/// Entry `k` is the first faulty entry of `planes`.
pub open spec fn first_fault_at(planes: Seq<i32>, plane_count: int, k: int) -> bool {
    &&& 0 <= k < planes.len()
    &&& entry_fault(planes, plane_count, k).is_some()
    &&& forall|j: int| 0 <= j < k ==> entry_fault(planes, plane_count, j).is_none()
}

/// Among the first `n` entries, if one is faulty then one is the first such.
proof fn lemma_first_fault(planes: Seq<i32>, plane_count: int, n: int)
    requires
        0 <= n <= planes.len(),
    ensures
        (forall|i: int| 0 <= i < n ==> entry_fault(planes, plane_count, i).is_none())
            || exists|k: int| k < n && first_fault_at(planes, plane_count, k),
    decreases n,
{
    if n > 0 {
        lemma_first_fault(planes, plane_count, n - 1);
        if forall|i: int| 0 <= i < n - 1 ==> entry_fault(planes, plane_count, i).is_none() {
            if entry_fault(planes, plane_count, n - 1).is_some() {
                assert(first_fault_at(planes, plane_count, n - 1));
            }
        } else {
            let k = choose|k: int| k < n - 1 && first_fault_at(planes, plane_count, k);
            assert(k < n && first_fault_at(planes, plane_count, k));
        }
    }
}

/// A list is accepted exactly if it is valid.
pub proof fn lemma_selection_fault(planes: Seq<i32>, plane_count: int)
    ensures
        selection_fault(planes, plane_count).is_none() <==> selection_valid(planes, plane_count),
{
    if selection_valid(planes, plane_count) {
        lemma_fault_from(planes, plane_count, 0, planes.len() as int);
    } else {
        lemma_first_fault(planes, plane_count, planes.len() as int);
        let k = choose|k: int| k < planes.len() && first_fault_at(planes, plane_count, k);
        lemma_fault_from(planes, plane_count, 0, k);
    }
}

/// Whether plane `p` is processed under the selection list `planes`: an empty
/// list selects every plane.
pub open spec fn plane_selected(planes: Seq<i32>, p: int) -> bool {
    planes.len() == 0 || exists|i: int| 0 <= i < planes.len() && planes[i] == p
}

/// Where all entries are alike, all are selected or none.
pub proof fn lemma_count_all(s: Seq<bool>, b: bool)
    requires
        forall|i: int| 0 <= i < s.len() ==> s[i] == b,
    ensures
        count_selected(s) == if b { s.len() } else { 0 },
    decreases s.len(),
{
    if s.len() > 0 {
        lemma_count_all(s.drop_last(), b);
    }
}

/// Selecting an entry that was not selected adds one to the count.
pub proof fn lemma_count_update(s: Seq<bool>, k: int)
    requires
        0 <= k < s.len(),
        !s[k],
    ensures
        count_selected(s.update(k, true)) == count_selected(s) + 1,
    decreases s.len(),
{
    let t = s.update(k, true);
    if k == s.len() - 1 {
        assert(t.drop_last() =~= s.drop_last());
    } else {
        assert(t.drop_last() =~= s.drop_last().update(k, true));
        lemma_count_update(s.drop_last(), k);
    }
}

/// Turns a selection list into one flag per plane.
///
/// An empty list selects all `plane_count` planes. Otherwise exactly the
/// listed planes are selected; the first entry that is out of range or names
/// a plane for the second time is reported.
pub fn get_planes_arg(planes: &[i32], plane_count: usize) -> (result: Result<Vec<bool>, PlaneError>)
    ensures
        match result {
            Ok(process) => {
                &&& selection_fault(planes@, plane_count as int).is_none()
                &&& process@.len() == plane_count
                &&& forall|p: int|
                    0 <= p < plane_count ==> process@[p] == plane_selected(planes@, p)
                &&& count_selected(process@) == if planes@.len() == 0 {
                    plane_count as nat
                } else {
                    planes@.len()
                }
            },
            Err(e) => selection_fault(planes@, plane_count as int) == Some(e),
        },
{
    let m: usize = planes.len();
    let all: bool = m == 0;
    let mut process: Vec<bool> = Vec::new();
    let mut p: usize = 0;
    while p < plane_count
        invariant
            p <= plane_count,
            process@.len() == p,
            forall|q: int| 0 <= q < p ==> process@[q] == all,
        decreases plane_count - p,
    {
        process.push(all);
        p += 1;
    }
    proof {
        lemma_count_all(process@, all);
    }
    let mut i: usize = 0;
    while i < m
        invariant
            m == planes@.len(),
            all == (m == 0),
            i <= m,
            process@.len() == plane_count,
            forall|j: int| 0 <= j < i ==> entry_fault(planes@, plane_count as int, j).is_none(),
            forall|q: int|
                0 <= q < plane_count ==> process@[q] == (all || exists|j: int|
                    0 <= j < i && planes@[j] == q),
            count_selected(process@) == if m == 0 { plane_count as nat } else { i as nat },
        decreases m - i,
    {
        let o: i32 = planes[i];
        if o < 0 || o as usize >= plane_count {
            let e = PlaneError::OutOfRange { index: o, plane_count };
            proof {
                assert(entry_fault(planes@, plane_count as int, i as int) == Some(e));
                lemma_fault_from(planes@, plane_count as int, 0, i as int);
            }
            return Err(e);
        }
        if process[o as usize] {
            let e = PlaneError::Duplicate { index: o };
            proof {
                let j = choose|j: int| 0 <= j < i && planes@[j] == o as int;
                assert(planes@.take(i as int)[j] == o);
                assert(entry_fault(planes@, plane_count as int, i as int) == Some(e));
                lemma_fault_from(planes@, plane_count as int, 0, i as int);
            }
            return Err(e);
        }
        proof {
            lemma_count_update(process@, o as int);
            assert(!planes@.take(i as int).contains(o)) by {
                if planes@.take(i as int).contains(o) {
                    let j = choose|j: int|
                        0 <= j < planes@.take(i as int).len() && planes@.take(i as int)[j] == o;
                    assert(planes@[j] == o as int);
                }
            }
        }
        process[o as usize] = true;
        i += 1;
    }
    proof {
        lemma_fault_from(planes@, plane_count as int, 0, m as int);
    }
    Ok(process)
}

} // verus!
