//! Relationships between fields, inserted and deleted in batches.

use crate::entity::model::{ReferenceModel, ReferenceRow};
use crate::entity::vo::reference_vo::ReferenceVo;
use crate::text::Text;
use vstd::prelude::*;

verus! {

/// The identifiers that relationship rows carry.
pub open spec fn reference_keys(rows: Seq<ReferenceRow>) -> Seq<Text> {
    Seq::new(rows.len(), |i: int| rows[i].id)
}

/// The rows to insert, in one statement, for a batch of relationships: one per
/// view, holding what the view holds.
pub fn add_references(reference_vos: &Vec<ReferenceVo>) -> (rows: Vec<ReferenceModel>)
    ensures
        rows.deep_view() == reference_vos.deep_view(),
{
    let mut rows: Vec<ReferenceModel> = Vec::new();
    let mut i: usize = 0;
    while i < reference_vos.len()
        invariant
            i <= reference_vos.len(),
            rows.len() == i,
            forall|j: int| 0 <= j < i ==> (#[trigger] rows[j])@ == reference_vos[j]@,
        decreases reference_vos.len() - i,
    {
        rows.push(reference_vos[i].convert_to_reference());
        i = i + 1;
    }
    assert(rows.deep_view() =~= reference_vos.deep_view());
    rows
}

/// The identifiers of the rows to delete, in one statement, for a batch of
/// relationships.
pub fn delete_references(reference_vos: &Vec<ReferenceVo>) -> (ids: Vec<String>)
    ensures
        ids.deep_view() == reference_keys(reference_vos.deep_view()),
{
    let mut ids: Vec<String> = Vec::new();
    let mut i: usize = 0;
    while i < reference_vos.len()
        invariant
            i <= reference_vos.len(),
            ids.len() == i,
            forall|j: int| 0 <= j < i ==> (#[trigger] ids[j])@ == reference_vos[j]@.id,
        decreases reference_vos.len() - i,
    {
        ids.push(reference_vos[i].id.clone());
        i = i + 1;
    }
    assert(ids.deep_view() =~= reference_keys(reference_vos.deep_view()));
    ids
}

} // verus!
