//! Areas on the wire.

use crate::entity::model::{AreaModel, AreaRow};
use crate::text::clone_opt_text;
use vstd::prelude::*;

verus! {

/// An area as it travels on the wire.
#[derive(Debug, PartialEq, Eq)]
pub struct AreaVo {
    pub id: String,
    pub color: Option<String>,
    pub height: Option<String>,
    pub name: Option<String>,
    pub width: Option<String>,
    pub x: Option<String>,
    pub y: Option<String>,
}

impl View for AreaVo {
    type V = AreaRow;

    open spec fn view(&self) -> AreaRow {
        AreaRow {
            id: self.id@,
            color: self.color.deep_view(),
            height: self.height.deep_view(),
            name: self.name.deep_view(),
            width: self.width.deep_view(),
            x: self.x.deep_view(),
            y: self.y.deep_view(),
        }
    }
}

impl DeepView for AreaVo {
    type V = AreaRow;

    open spec fn deep_view(&self) -> AreaRow {
        self@
    }
}

impl Clone for AreaVo {
    fn clone(&self) -> (copy: Self)
        ensures
            copy == *self,
    {
        AreaVo {
            id: self.id.clone(),
            color: clone_opt_text(&self.color),
            height: clone_opt_text(&self.height),
            name: clone_opt_text(&self.name),
            width: clone_opt_text(&self.width),
            x: clone_opt_text(&self.x),
            y: clone_opt_text(&self.y),
        }
    }
}

impl AreaVo {
    /// The row that stores this area.
    pub fn convert_to_area(&self) -> (model: AreaModel)
        ensures
            model@ == self@,
    {
        AreaModel {
            id: self.id.clone(),
            color: clone_opt_text(&self.color),
            height: clone_opt_text(&self.height),
            name: clone_opt_text(&self.name),
            width: clone_opt_text(&self.width),
            x: clone_opt_text(&self.x),
            y: clone_opt_text(&self.y),
        }
    }
}

} // verus!
