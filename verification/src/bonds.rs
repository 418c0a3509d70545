//! What the unlock and startup rules read of the bond store.
use vstd::prelude::*;

verus! {

/// One bond record, as the selection rules see it.
#[derive(Debug, Clone)]
pub struct BondSummary {
    /// Stable peer identifier.
    pub peer_id: String,
    /// `true` for a `Bonded` record, `false` for a revoked one.
    pub bonded: bool,
    /// Creation instant, in nanoseconds since the Unix epoch.
    pub created_at_nanos: i128,
}

/// Some record of the store is `Bonded`.
pub open spec fn any_bonded(bonds: Seq<BondSummary>) -> bool {
    exists|k: int| 0 <= k < bonds.len() && #[trigger] bonds[k].bonded
}

/// Record `j` is the newest `Bonded` record: no bonded record is newer, and
/// of equally new ones it is the last (`Iterator::max_by` keeps the last
/// maximum).
pub open spec fn is_newest_bonded(bonds: Seq<BondSummary>, j: int) -> bool {
    &&& 0 <= j < bonds.len()
    &&& bonds[j].bonded
    &&& forall|k: int| 0 <= k < bonds.len() && #[trigger] bonds[k].bonded ==> bonds[k].created_at_nanos <= bonds[j].created_at_nanos
    &&& forall|k: int| j < k < bonds.len() && #[trigger] bonds[k].bonded ==> bonds[k].created_at_nanos < bonds[j].created_at_nanos
}

/// The index of the newest `Bonded` record, if any.
pub fn newest_bonded_index(bonds: &[BondSummary]) -> (r: Option<usize>)
    ensures
        match r {
            Some(j) => is_newest_bonded(bonds@, j as int),
            None => !any_bonded(bonds@),
        },
{
    let mut best: Option<usize> = None;
    let mut i: usize = 0;
    while i < bonds.len()
        invariant
            i <= bonds@.len(),
            match best {
                Some(j) => {
                    &&& j < i
                    &&& bonds@[j as int].bonded
                    &&& forall|k: int| 0 <= k < i && #[trigger] bonds@[k].bonded ==> bonds@[k].created_at_nanos <= bonds@[j as int].created_at_nanos
                    &&& forall|k: int| j < k < i && #[trigger] bonds@[k].bonded ==> bonds@[k].created_at_nanos < bonds@[j as int].created_at_nanos
                },
                None => forall|k: int| 0 <= k < i ==> !(#[trigger] bonds@[k].bonded),
            },
        decreases bonds@.len() - i,
    {
        if bonds[i].bonded {
            match best {
                Some(j) => {
                    if bonds[i].created_at_nanos >= bonds[j].created_at_nanos {
                        best = Some(i);
                    }
                },
                None => {
                    best = Some(i);
                },
            }
        }
        i = i + 1;
    }
    best
}

/// Whether the store holds at least one `Bonded` record.
pub fn has_bonded(bonds: &[BondSummary]) -> (b: bool)
    ensures
        b == any_bonded(bonds@),
{
    let mut i: usize = 0;
    while i < bonds.len()
        invariant
            i <= bonds@.len(),
            forall|k: int| 0 <= k < i ==> !(#[trigger] bonds@[k].bonded),
        decreases bonds@.len() - i,
    {
        if bonds[i].bonded {
            return true;
        }
        i = i + 1;
    }
    false
}

} // verus!
