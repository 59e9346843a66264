//! Storage rows: what one record of each relation holds.

use crate::text::{clone_opt_text, Text};
use vstd::prelude::*;

verus! {

/// A coloured region of the canvas, as stored.
#[derive(Debug, PartialEq, Eq)]
pub struct AreaModel {
    pub id: String,
    pub color: Option<String>,
    pub height: Option<String>,
    pub name: Option<String>,
    pub width: Option<String>,
    pub x: Option<String>,
    pub y: Option<String>,
}

/// What an area holds.
pub struct AreaRow {
    pub id: Text,
    pub color: Option<Text>,
    pub height: Option<Text>,
    pub name: Option<Text>,
    pub width: Option<Text>,
    pub x: Option<Text>,
    pub y: Option<Text>,
}

impl View for AreaModel {
    type V = AreaRow;

    open spec fn view(&self) -> AreaRow {
        AreaRow {
            id: self.id@,
            color: self.color.deep_view(),
            height: self.height.deep_view(),
            name: self.name.deep_view(),
            width: self.width.deep_view(),
            x: self.x.deep_view(),
            y: self.y.deep_view(),
        }
    }
}

impl DeepView for AreaModel {
    type V = AreaRow;

    open spec fn deep_view(&self) -> AreaRow {
        self@
    }
}

impl Clone for AreaModel {
    fn clone(&self) -> (copy: Self)
        ensures
            copy == *self,
    {
        AreaModel {
            id: self.id.clone(),
            color: clone_opt_text(&self.color),
            height: clone_opt_text(&self.height),
            name: clone_opt_text(&self.name),
            width: clone_opt_text(&self.width),
            x: clone_opt_text(&self.x),
            y: clone_opt_text(&self.y),
        }
    }
}

/// A note on the canvas, as stored.
#[derive(Debug, PartialEq, Eq)]
pub struct NoteModel {
    pub id: String,
    pub content: Option<String>,
    pub color: Option<String>,
    pub title: Option<String>,
    pub height: Option<String>,
    pub x: Option<String>,
    pub y: Option<String>,
}

/// What a note holds.
pub struct NoteRow {
    pub id: Text,
    pub content: Option<Text>,
    pub color: Option<Text>,
    pub title: Option<Text>,
    pub height: Option<Text>,
    pub x: Option<Text>,
    pub y: Option<Text>,
}

impl View for NoteModel {
    type V = NoteRow;

    open spec fn view(&self) -> NoteRow {
        NoteRow {
            id: self.id@,
            content: self.content.deep_view(),
            color: self.color.deep_view(),
            title: self.title.deep_view(),
            height: self.height.deep_view(),
            x: self.x.deep_view(),
            y: self.y.deep_view(),
        }
    }
}

impl DeepView for NoteModel {
    type V = NoteRow;

    open spec fn deep_view(&self) -> NoteRow {
        self@
    }
}

impl Clone for NoteModel {
    fn clone(&self) -> (copy: Self)
        ensures
            copy == *self,
    {
        NoteModel {
            id: self.id.clone(),
            content: clone_opt_text(&self.content),
            color: clone_opt_text(&self.color),
            title: clone_opt_text(&self.title),
            height: clone_opt_text(&self.height),
            x: clone_opt_text(&self.x),
            y: clone_opt_text(&self.y),
        }
    }
}

/// An index definition, as stored.
#[derive(Debug, PartialEq, Eq)]
pub struct IndiceModel {
    pub id: String,
    pub name: Option<String>,
    pub unique: Option<bool>,
}

/// What an index definition holds.
pub struct IndiceRow {
    pub id: Text,
    pub name: Option<Text>,
    pub unique: Option<bool>,
}

impl View for IndiceModel {
    type V = IndiceRow;

    open spec fn view(&self) -> IndiceRow {
        IndiceRow {
            id: self.id@,
            name: self.name.deep_view(),
            unique: self.unique,
        }
    }
}

impl DeepView for IndiceModel {
    type V = IndiceRow;

    open spec fn deep_view(&self) -> IndiceRow {
        self@
    }
}

impl Clone for IndiceModel {
    fn clone(&self) -> (copy: Self)
        ensures
            copy == *self,
    {
        IndiceModel {
            id: self.id.clone(),
            name: clone_opt_text(&self.name),
            unique: self.unique,
        }
    }
}

/// A foreign-key relationship between two fields, as stored.
#[derive(Debug, PartialEq, Eq)]
pub struct ReferenceModel {
    pub id: String,
    pub name: Option<String>,
    pub start_table_id: Option<String>,
    pub end_table_id: Option<String>,
    pub cardinality: Option<String>,
    pub delete_constraint: Option<String>,
    pub end_field_id: Option<String>,
    pub start_field_id: Option<String>,
    pub update_constraint: Option<String>,
}

/// What a relationship holds.
pub struct ReferenceRow {
    pub id: Text,
    pub name: Option<Text>,
    pub start_table_id: Option<Text>,
    pub end_table_id: Option<Text>,
    pub cardinality: Option<Text>,
    pub delete_constraint: Option<Text>,
    pub end_field_id: Option<Text>,
    pub start_field_id: Option<Text>,
    pub update_constraint: Option<Text>,
}

impl View for ReferenceModel {
    type V = ReferenceRow;

    open spec fn view(&self) -> ReferenceRow {
        ReferenceRow {
            id: self.id@,
            name: self.name.deep_view(),
            start_table_id: self.start_table_id.deep_view(),
            end_table_id: self.end_table_id.deep_view(),
            cardinality: self.cardinality.deep_view(),
            delete_constraint: self.delete_constraint.deep_view(),
            end_field_id: self.end_field_id.deep_view(),
            start_field_id: self.start_field_id.deep_view(),
            update_constraint: self.update_constraint.deep_view(),
        }
    }
}

impl DeepView for ReferenceModel {
    type V = ReferenceRow;

    open spec fn deep_view(&self) -> ReferenceRow {
        self@
    }
}

impl Clone for ReferenceModel {
    fn clone(&self) -> (copy: Self)
        ensures
            copy == *self,
    {
        ReferenceModel {
            id: self.id.clone(),
            name: clone_opt_text(&self.name),
            start_table_id: clone_opt_text(&self.start_table_id),
            end_table_id: clone_opt_text(&self.end_table_id),
            cardinality: clone_opt_text(&self.cardinality),
            delete_constraint: clone_opt_text(&self.delete_constraint),
            end_field_id: clone_opt_text(&self.end_field_id),
            start_field_id: clone_opt_text(&self.start_field_id),
            update_constraint: clone_opt_text(&self.update_constraint),
        }
    }
}

/// A diagram, as stored.
#[derive(Debug, PartialEq, Eq)]
pub struct DiagramModel {
    pub id: String,
    pub database: Option<String>,
    pub zoom: Option<String>,
    pub name: Option<String>,
    pub pan: Option<String>,
    pub last_modified: Option<String>,
}

/// What a diagram row holds.
pub struct DiagramRow {
    pub id: Text,
    pub database: Option<Text>,
    pub zoom: Option<Text>,
    pub name: Option<Text>,
    pub pan: Option<Text>,
    pub last_modified: Option<Text>,
}

impl View for DiagramModel {
    type V = DiagramRow;

    open spec fn view(&self) -> DiagramRow {
        DiagramRow {
            id: self.id@,
            database: self.database.deep_view(),
            zoom: self.zoom.deep_view(),
            name: self.name.deep_view(),
            pan: self.pan.deep_view(),
            last_modified: self.last_modified.deep_view(),
        }
    }
}

impl DeepView for DiagramModel {
    type V = DiagramRow;

    open spec fn deep_view(&self) -> DiagramRow {
        self@
    }
}

impl Clone for DiagramModel {
    fn clone(&self) -> (copy: Self)
        ensures
            copy == *self,
    {
        DiagramModel {
            id: self.id.clone(),
            database: clone_opt_text(&self.database),
            zoom: clone_opt_text(&self.zoom),
            name: clone_opt_text(&self.name),
            pan: clone_opt_text(&self.pan),
            last_modified: clone_opt_text(&self.last_modified),
        }
    }
}

/// A task of a diagram, as stored.
#[derive(Debug, PartialEq, Eq)]
pub struct TaskModel {
    pub id: String,
    pub complete: Option<bool>,
    pub order: Option<i32>,
    pub details: Option<String>,
    pub title: Option<String>,
}

/// What a task holds.
pub struct TaskRow {
    pub id: Text,
    pub complete: Option<bool>,
    pub order: Option<i32>,
    pub details: Option<Text>,
    pub title: Option<Text>,
}

impl View for TaskModel {
    type V = TaskRow;

    open spec fn view(&self) -> TaskRow {
        TaskRow {
            id: self.id@,
            complete: self.complete,
            order: self.order,
            details: self.details.deep_view(),
            title: self.title.deep_view(),
        }
    }
}

impl DeepView for TaskModel {
    type V = TaskRow;

    open spec fn deep_view(&self) -> TaskRow {
        self@
    }
}

impl Clone for TaskModel {
    fn clone(&self) -> (copy: Self)
        ensures
            copy == *self,
    {
        TaskModel {
            id: self.id.clone(),
            complete: self.complete,
            order: self.order,
            details: clone_opt_text(&self.details),
            title: clone_opt_text(&self.title),
        }
    }
}

/// The record that binds one field to one table.
#[derive(Debug, PartialEq, Eq)]
pub struct TableLinkModel {
    pub id: String,
    pub table_id: Option<String>,
    pub field_id: Option<String>,
}

/// What a table-field link holds.
pub struct TableLinkRow {
    pub id: Text,
    pub table_id: Option<Text>,
    pub field_id: Option<Text>,
}

impl View for TableLinkModel {
    type V = TableLinkRow;

    open spec fn view(&self) -> TableLinkRow {
        TableLinkRow {
            id: self.id@,
            table_id: self.table_id.deep_view(),
            field_id: self.field_id.deep_view(),
        }
    }
}

impl DeepView for TableLinkModel {
    type V = TableLinkRow;

    open spec fn deep_view(&self) -> TableLinkRow {
        self@
    }
}

impl Clone for TableLinkModel {
    fn clone(&self) -> (copy: Self)
        ensures
            copy == *self,
    {
        TableLinkModel {
            id: self.id.clone(),
            table_id: clone_opt_text(&self.table_id),
            field_id: clone_opt_text(&self.field_id),
        }
    }
}

/// The record that binds a table or a task to a diagram.
#[derive(Debug, PartialEq, Eq)]
pub struct DiagramLinkModel {
    pub id: String,
    pub diagram_id: Option<String>,
    pub task_id: Option<String>,
    pub table_id: Option<String>,
}

/// What a diagram link holds.
pub struct DiagramLinkRow {
    pub id: Text,
    pub diagram_id: Option<Text>,
    pub task_id: Option<Text>,
    pub table_id: Option<Text>,
}

impl View for DiagramLinkModel {
    type V = DiagramLinkRow;

    open spec fn view(&self) -> DiagramLinkRow {
        DiagramLinkRow {
            id: self.id@,
            diagram_id: self.diagram_id.deep_view(),
            task_id: self.task_id.deep_view(),
            table_id: self.table_id.deep_view(),
        }
    }
}

impl DeepView for DiagramLinkModel {
    type V = DiagramLinkRow;

    open spec fn deep_view(&self) -> DiagramLinkRow {
        self@
    }
}

impl Clone for DiagramLinkModel {
    fn clone(&self) -> (copy: Self)
        ensures
            copy == *self,
    {
        DiagramLinkModel {
            id: self.id.clone(),
            diagram_id: clone_opt_text(&self.diagram_id),
            task_id: clone_opt_text(&self.task_id),
            table_id: clone_opt_text(&self.table_id),
        }
    }
}

/// A table of a diagram, as stored.
#[derive(Debug, PartialEq, Eq)]
pub struct TableModel {
    pub id: String,
    pub name: Option<String>,
    pub color: Option<String>,
    pub comment: Option<String>,
    pub locked: Option<bool>,
    pub x: Option<String>,
    pub y: Option<String>,
}

/// What describes a table apart from its identifier.
pub struct TableAttrs {
    pub name: Option<Text>,
    pub color: Option<Text>,
    pub comment: Option<Text>,
    pub locked: Option<bool>,
    pub x: Option<Text>,
    pub y: Option<Text>,
}

/// What a table row holds.
pub struct TableRow {
    pub id: Text,
    pub attrs: TableAttrs,
}

impl View for TableModel {
    type V = TableRow;

    open spec fn view(&self) -> TableRow {
        TableRow {
            id: self.id@,
            attrs: TableAttrs {
                name: self.name.deep_view(),
                color: self.color.deep_view(),
                comment: self.comment.deep_view(),
                locked: self.locked,
                x: self.x.deep_view(),
                y: self.y.deep_view(),
            },
        }
    }
}

impl DeepView for TableModel {
    type V = TableRow;

    open spec fn deep_view(&self) -> TableRow {
        self@
    }
}

impl Clone for TableModel {
    fn clone(&self) -> (copy: Self)
        ensures
            copy == *self,
    {
        TableModel {
            id: self.id.clone(),
            name: clone_opt_text(&self.name),
            color: clone_opt_text(&self.color),
            comment: clone_opt_text(&self.comment),
            locked: self.locked,
            x: clone_opt_text(&self.x),
            y: clone_opt_text(&self.y),
        }
    }
}

/// A field of a table, as stored.
#[derive(Debug, PartialEq, Eq)]
pub struct FieldModel {
    pub id: String,
    pub check: Option<String>,
    pub comment: Option<String>,
    pub default: Option<String>,
    pub increment: Option<bool>,
    pub not_null: Option<bool>,
    pub primary: Option<bool>,
    pub size: Option<i32>,
    pub field_type: Option<String>,
    pub unique: Option<bool>,
    pub name: Option<String>,
}

/// What describes a field apart from its identifier.
pub struct FieldAttrs {
    pub check: Option<Text>,
    pub comment: Option<Text>,
    pub default: Option<Text>,
    pub increment: Option<bool>,
    pub not_null: Option<bool>,
    pub primary: Option<bool>,
    pub size: Option<i32>,
    pub field_type: Option<Text>,
    pub unique: Option<bool>,
    pub name: Option<Text>,
}

/// What a field row holds.
pub struct FieldRow {
    pub id: Text,
    pub attrs: FieldAttrs,
}

impl View for FieldModel {
    type V = FieldRow;

    open spec fn view(&self) -> FieldRow {
        FieldRow {
            id: self.id@,
            attrs: FieldAttrs {
                check: self.check.deep_view(),
                comment: self.comment.deep_view(),
                default: self.default.deep_view(),
                increment: self.increment,
                not_null: self.not_null,
                primary: self.primary,
                size: self.size,
                field_type: self.field_type.deep_view(),
                unique: self.unique,
                name: self.name.deep_view(),
            },
        }
    }
}

impl DeepView for FieldModel {
    type V = FieldRow;

    open spec fn deep_view(&self) -> FieldRow {
        self@
    }
}

impl Clone for FieldModel {
    fn clone(&self) -> (copy: Self)
        ensures
            copy == *self,
    {
        FieldModel {
            id: self.id.clone(),
            check: clone_opt_text(&self.check),
            comment: clone_opt_text(&self.comment),
            default: clone_opt_text(&self.default),
            increment: self.increment,
            not_null: self.not_null,
            primary: self.primary,
            size: self.size,
            field_type: clone_opt_text(&self.field_type),
            unique: self.unique,
            name: clone_opt_text(&self.name),
        }
    }
}

impl DiagramLinkModel {
    /// A link row from its four columns.
    pub fn new(
        id: String,
        diagram_id: Option<String>,
        task_id: Option<String>,
        table_id: Option<String>,
    ) -> (link: Self)
        ensures
            link == (DiagramLinkModel { id, diagram_id, task_id, table_id }),
    {
        DiagramLinkModel { id, diagram_id, task_id, table_id }
    }
}

} // verus!
