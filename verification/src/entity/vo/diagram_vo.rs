//! Diagrams on the wire.

use crate::entity::change::{text_change, Change};
use crate::entity::model::{AreaRow, DiagramModel, DiagramRow, IndiceRow, NoteRow, ReferenceRow};
use crate::entity::vo::area_vo::AreaVo;
use crate::entity::vo::indice_vo::IndiceVo;
use crate::entity::vo::note_vo::NoteVo;
use crate::entity::vo::reference_vo::ReferenceVo;
use crate::entity::vo::table_vo::{TableView, TableVo};
use crate::entity::vo::task_vo::{TaskView, TaskVo};
use crate::text::{clone_opt_text, Text};
use vstd::prelude::*;

verus! {

/// A diagram as it travels on the wire: its own attributes and, where they were
/// read or supplied, the entities it owns.
#[derive(Debug, PartialEq, Eq)]
pub struct DiagramVo {
    pub id: String,
    pub zoom: Option<String>,
    pub database: Option<String>,
    pub name: Option<String>,
    pub tables: Option<Vec<TableVo>>,
    pub areas: Option<Vec<AreaVo>>,
    pub references: Option<Vec<ReferenceVo>>,
    pub indices: Option<Vec<IndiceVo>>,
    pub notes: Option<Vec<NoteVo>>,
    pub tasks: Option<Vec<TaskVo>>,
    pub pan: Option<String>,
    pub last_modified: Option<String>,
}

/// What a diagram on the wire holds.
pub struct DiagramView {
    pub id: Text,
    pub zoom: Option<Text>,
    pub database: Option<Text>,
    pub name: Option<Text>,
    pub tables: Option<Seq<TableView>>,
    pub areas: Option<Seq<AreaRow>>,
    pub references: Option<Seq<ReferenceRow>>,
    pub indices: Option<Seq<IndiceRow>>,
    pub notes: Option<Seq<NoteRow>>,
    pub tasks: Option<Seq<TaskView>>,
    pub pan: Option<Text>,
    pub last_modified: Option<Text>,
}

impl View for DiagramVo {
    type V = DiagramView;

    open spec fn view(&self) -> DiagramView {
        DiagramView {
            id: self.id@,
            zoom: self.zoom.deep_view(),
            database: self.database.deep_view(),
            name: self.name.deep_view(),
            tables: self.tables.deep_view(),
            areas: self.areas.deep_view(),
            references: self.references.deep_view(),
            indices: self.indices.deep_view(),
            notes: self.notes.deep_view(),
            tasks: self.tasks.deep_view(),
            pan: self.pan.deep_view(),
            last_modified: self.last_modified.deep_view(),
        }
    }
}

impl DeepView for DiagramVo {
    type V = DiagramView;

    open spec fn deep_view(&self) -> DiagramView {
        self@
    }
}

/// The changes that an update asks of a diagram row: one tag per attribute.
#[derive(Debug, PartialEq, Eq)]
pub struct DiagramChange {
    pub id: String,
    pub database: Change<String>,
    pub name: Change<String>,
    pub zoom: Change<String>,
    pub pan: Change<String>,
    pub last_modified: Change<String>,
}

/// What a diagram update holds.
pub struct DiagramPatch {
    pub id: Text,
    pub database: Change<Text>,
    pub name: Change<Text>,
    pub zoom: Change<Text>,
    pub pan: Change<Text>,
    pub last_modified: Change<Text>,
}

impl View for DiagramChange {
    type V = DiagramPatch;

    open spec fn view(&self) -> DiagramPatch {
        DiagramPatch {
            id: self.id@,
            database: self.database.deep_view(),
            name: self.name.deep_view(),
            zoom: self.zoom.deep_view(),
            pan: self.pan.deep_view(),
            last_modified: self.last_modified.deep_view(),
        }
    }
}

impl DiagramPatch {
    /// The row after the update.
    pub open spec fn apply(self, row: DiagramRow) -> DiagramRow {
        DiagramRow {
            id: row.id,
            database: self.database.applied(row.database),
            zoom: self.zoom.applied(row.zoom),
            name: self.name.applied(row.name),
            pan: self.pan.applied(row.pan),
            last_modified: self.last_modified.applied(row.last_modified),
        }
    }
}

impl DiagramVo {
    /// The row to store for this diagram under the identifier assigned to it; the
    /// identifier that the view carries is discarded.
    pub fn convert_to_diagram(&self, id: String) -> (model: DiagramModel)
        ensures
            model@ == (DiagramRow {
                id: id@,
                database: self@.database,
                zoom: self@.zoom,
                name: self@.name,
                pan: self@.pan,
                last_modified: self@.last_modified,
            }),
    {
        DiagramModel {
            id,
            database: clone_opt_text(&self.database),
            zoom: clone_opt_text(&self.zoom),
            name: clone_opt_text(&self.name),
            pan: clone_opt_text(&self.pan),
            last_modified: clone_opt_text(&self.last_modified),
        }
    }

    /// The wire form of a stored diagram, without any of the entities it owns.
    pub fn from(diagram: &DiagramModel) -> (vo: Self)
        ensures
            vo@ == (DiagramView {
                id: diagram@.id,
                zoom: diagram@.zoom,
                database: diagram@.database,
                name: diagram@.name,
                tables: None,
                areas: None,
                references: None,
                indices: None,
                notes: None,
                tasks: None,
                pan: diagram@.pan,
                last_modified: diagram@.last_modified,
            }),
    {
        DiagramVo {
            id: diagram.id.clone(),
            database: clone_opt_text(&diagram.database),
            zoom: clone_opt_text(&diagram.zoom),
            name: clone_opt_text(&diagram.name),
            tables: None,
            areas: None,
            references: None,
            indices: None,
            notes: None,
            tasks: None,
            pan: clone_opt_text(&diagram.pan),
            last_modified: clone_opt_text(&diagram.last_modified),
        }
    }

    /// The partial update of the diagram row that this view asks for: an
    /// attribute that is present is set, an absent one is left unchanged.
    pub fn convert_to_active_model(&self) -> (change: DiagramChange)
        ensures
            change@ == (DiagramPatch {
                id: self@.id,
                database: Change::of(self@.database),
                name: Change::of(self@.name),
                zoom: Change::of(self@.zoom),
                pan: Change::of(self@.pan),
                last_modified: Change::of(self@.last_modified),
            }),
    {
        DiagramChange {
            id: self.id.clone(),
            database: text_change(&self.database),
            name: text_change(&self.name),
            zoom: text_change(&self.zoom),
            pan: text_change(&self.pan),
            last_modified: text_change(&self.last_modified),
        }
    }
}

} // verus!
