//! Notes on the wire.

use crate::entity::model::{NoteModel, NoteRow};
use crate::text::clone_opt_text;
use vstd::prelude::*;

verus! {

/// A note as it travels on the wire.
#[derive(Debug, PartialEq, Eq)]
pub struct NoteVo {
    pub id: String,
    pub content: Option<String>,
    pub color: Option<String>,
    pub title: Option<String>,
    pub height: Option<String>,
    pub x: Option<String>,
    pub y: Option<String>,
}

impl View for NoteVo {
    type V = NoteRow;

    open spec fn view(&self) -> NoteRow {
        NoteRow {
            id: self.id@,
            content: self.content.deep_view(),
            color: self.color.deep_view(),
            title: self.title.deep_view(),
            height: self.height.deep_view(),
            x: self.x.deep_view(),
            y: self.y.deep_view(),
        }
    }
}

impl DeepView for NoteVo {
    type V = NoteRow;

    open spec fn deep_view(&self) -> NoteRow {
        self@
    }
}

impl Clone for NoteVo {
    fn clone(&self) -> (copy: Self)
        ensures
            copy == *self,
    {
        NoteVo {
            id: self.id.clone(),
            content: clone_opt_text(&self.content),
            color: clone_opt_text(&self.color),
            title: clone_opt_text(&self.title),
            height: clone_opt_text(&self.height),
            x: clone_opt_text(&self.x),
            y: clone_opt_text(&self.y),
        }
    }
}

impl NoteVo {
    /// The row that stores this note.
    pub fn convert_to_note(&self) -> (model: NoteModel)
        ensures
            model@ == self@,
    {
        NoteModel {
            id: self.id.clone(),
            content: clone_opt_text(&self.content),
            color: clone_opt_text(&self.color),
            title: clone_opt_text(&self.title),
            height: clone_opt_text(&self.height),
            x: clone_opt_text(&self.x),
            y: clone_opt_text(&self.y),
        }
    }
}

} // verus!
