//! Index definitions on the wire.

use crate::entity::model::{IndiceModel, IndiceRow};
use crate::text::clone_opt_text;
use vstd::prelude::*;

verus! {

/// An index definition as it travels on the wire.
#[derive(Debug, PartialEq, Eq)]
pub struct IndiceVo {
    pub id: String,
    pub name: Option<String>,
    pub unique: Option<bool>,
}

impl View for IndiceVo {
    type V = IndiceRow;

    open spec fn view(&self) -> IndiceRow {
        IndiceRow {
            id: self.id@,
            name: self.name.deep_view(),
            unique: self.unique,
        }
    }
}

impl DeepView for IndiceVo {
    type V = IndiceRow;

    open spec fn deep_view(&self) -> IndiceRow {
        self@
    }
}

impl Clone for IndiceVo {
    fn clone(&self) -> (copy: Self)
        ensures
            copy == *self,
    {
        IndiceVo {
            id: self.id.clone(),
            name: clone_opt_text(&self.name),
            unique: self.unique,
        }
    }
}

impl IndiceVo {
    /// The row that stores this index definition.
    pub fn convert_to_indice(&self) -> (model: IndiceModel)
        ensures
            model@ == self@,
    {
        IndiceModel {
            id: self.id.clone(),
            name: clone_opt_text(&self.name),
            unique: self.unique,
        }
    }
}

} // verus!
