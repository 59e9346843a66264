//! Relationships on the wire.

use crate::entity::model::{ReferenceModel, ReferenceRow};
use crate::text::clone_opt_text;
use vstd::prelude::*;

verus! {

/// A relationship as it travels on the wire.
#[derive(Debug, PartialEq, Eq)]
pub struct ReferenceVo {
    pub id: String,
    pub name: Option<String>,
    pub start_table_id: Option<String>,
    pub end_table_id: Option<String>,
    pub cardinality: Option<String>,
    pub delete_constraint: Option<String>,
    pub end_field_id: Option<String>,
    pub start_field_id: Option<String>,
    pub update_constraint: Option<String>,
}

impl View for ReferenceVo {
    type V = ReferenceRow;

    open spec fn view(&self) -> ReferenceRow {
        ReferenceRow {
            id: self.id@,
            name: self.name.deep_view(),
            start_table_id: self.start_table_id.deep_view(),
            end_table_id: self.end_table_id.deep_view(),
            cardinality: self.cardinality.deep_view(),
            delete_constraint: self.delete_constraint.deep_view(),
            end_field_id: self.end_field_id.deep_view(),
            start_field_id: self.start_field_id.deep_view(),
            update_constraint: self.update_constraint.deep_view(),
        }
    }
}

impl DeepView for ReferenceVo {
    type V = ReferenceRow;

    open spec fn deep_view(&self) -> ReferenceRow {
        self@
    }
}

impl Clone for ReferenceVo {
    fn clone(&self) -> (copy: Self)
        ensures
            copy == *self,
    {
        ReferenceVo {
            id: self.id.clone(),
            name: clone_opt_text(&self.name),
            start_table_id: clone_opt_text(&self.start_table_id),
            end_table_id: clone_opt_text(&self.end_table_id),
            cardinality: clone_opt_text(&self.cardinality),
            delete_constraint: clone_opt_text(&self.delete_constraint),
            end_field_id: clone_opt_text(&self.end_field_id),
            start_field_id: clone_opt_text(&self.start_field_id),
            update_constraint: clone_opt_text(&self.update_constraint),
        }
    }
}

impl ReferenceVo {
    /// The row that stores this relationship.
    pub fn convert_to_reference(&self) -> (model: ReferenceModel)
        ensures
            model@ == self@,
    {
        ReferenceModel {
            id: self.id.clone(),
            name: clone_opt_text(&self.name),
            start_table_id: clone_opt_text(&self.start_table_id),
            end_table_id: clone_opt_text(&self.end_table_id),
            cardinality: clone_opt_text(&self.cardinality),
            delete_constraint: clone_opt_text(&self.delete_constraint),
            end_field_id: clone_opt_text(&self.end_field_id),
            start_field_id: clone_opt_text(&self.start_field_id),
            update_constraint: clone_opt_text(&self.update_constraint),
        }
    }
}

} // verus!
