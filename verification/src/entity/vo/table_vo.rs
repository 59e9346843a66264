//! Tables and fields on the wire.

use crate::entity::change::{flag_change, text_change, Change};
use crate::entity::dto::FieldWithTable;
use crate::entity::model::{
    FieldAttrs, FieldModel, FieldRow, TableAttrs, TableLinkModel, TableLinkRow, TableModel,
    TableRow,
};
use crate::text::{clone_opt_text, Text};
use vstd::prelude::*;

verus! {

/// A field as it travels on the wire, with the table it was read under.
#[derive(Debug, PartialEq, Eq)]
pub struct FieldVo {
    pub id: String,
    pub table_id: Option<String>,
    pub check: Option<String>,
    pub comment: Option<String>,
    pub default: Option<String>,
    pub increment: Option<bool>,
    pub not_null: Option<bool>,
    pub primary: Option<bool>,
    pub size: Option<i32>,
    pub field_type: Option<String>,
    pub unique: Option<bool>,
    pub name: Option<String>,
}

/// What a field on the wire holds.
pub struct FieldView {
    pub id: Text,
    pub table_id: Option<Text>,
    pub attrs: FieldAttrs,
}

impl View for FieldVo {
    type V = FieldView;

    open spec fn view(&self) -> FieldView {
        FieldView {
            id: self.id@,
            table_id: self.table_id.deep_view(),
            attrs: FieldAttrs {
                check: self.check.deep_view(),
                comment: self.comment.deep_view(),
                default: self.default.deep_view(),
                increment: self.increment,
                not_null: self.not_null,
                primary: self.primary,
                size: self.size,
                field_type: self.field_type.deep_view(),
                unique: self.unique,
                name: self.name.deep_view(),
            },
        }
    }
}

impl DeepView for FieldVo {
    type V = FieldView;

    open spec fn deep_view(&self) -> FieldView {
        self@
    }
}

impl Clone for FieldVo {
    fn clone(&self) -> (copy: Self)
        ensures
            copy == *self,
    {
        FieldVo {
            id: self.id.clone(),
            table_id: clone_opt_text(&self.table_id),
            check: clone_opt_text(&self.check),
            comment: clone_opt_text(&self.comment),
            default: clone_opt_text(&self.default),
            increment: self.increment,
            not_null: self.not_null,
            primary: self.primary,
            size: self.size,
            field_type: clone_opt_text(&self.field_type),
            unique: self.unique,
            name: clone_opt_text(&self.name),
        }
    }
}

impl FieldVo {
    /// The row that stores this field. It keeps the identifier that the view
    /// carries: whoever creates a field overwrites it with an allocated one.
    pub fn convert_to_field(&self) -> (model: FieldModel)
        ensures
            model@ == (FieldRow { id: self@.id, attrs: self@.attrs }),
    {
        FieldModel {
            id: self.id.clone(),
            check: clone_opt_text(&self.check),
            comment: clone_opt_text(&self.comment),
            default: clone_opt_text(&self.default),
            increment: self.increment,
            not_null: self.not_null,
            primary: self.primary,
            size: self.size,
            field_type: clone_opt_text(&self.field_type),
            unique: self.unique,
            name: clone_opt_text(&self.name),
        }
    }

    /// The wire form of a joined field row: the same attributes, under the table
    /// that the join found it linked to.
    pub fn build_from_field_with_table(field: FieldWithTable) -> (vo: Self)
        ensures
            vo@ == (FieldView {
                id: field@.id,
                table_id: Some(field@.table_id),
                attrs: field@.attrs,
            }),
    {
        FieldVo {
            id: field.id,
            table_id: Some(field.table_id),
            check: field.check,
            comment: field.comment,
            default: field.default,
            increment: field.increment,
            not_null: field.not_null,
            primary: field.primary,
            size: field.size,
            field_type: field.field_type,
            unique: field.unique,
            name: field.name,
        }
    }
}

/// The link row that binds field `field_id` to table `table_id`.
pub fn build_table_link(id: String, table_id: String, field_id: String) -> (link: TableLinkModel)
    ensures
        link@ == (TableLinkRow { id: id@, table_id: Some(table_id@), field_id: Some(field_id@) }),
{
    TableLinkModel { id, table_id: Some(table_id), field_id: Some(field_id) }
}

/// A copy of a list of fields.
pub fn clone_fields(fields: &Vec<FieldVo>) -> (copy: Vec<FieldVo>)
    ensures
        copy@ == fields@,
{
    let mut copy: Vec<FieldVo> = Vec::new();
    let mut i: usize = 0;
    while i < fields.len()
        invariant
            i <= fields.len(),
            copy@ == fields@.take(i as int),
        decreases fields.len() - i,
    {
        copy.push(fields[i].clone());
        i = i + 1;
        assert(copy@ =~= fields@.take(i as int));
    }
    assert(fields@.take(fields.len() as int) =~= fields@);
    copy
}

/// A table as it travels on the wire: its attributes, the diagram it belongs to
/// and, where the sender supplies or asks for them, its fields.
#[derive(Debug, PartialEq, Eq)]
pub struct TableVo {
    pub id: String,
    pub color: Option<String>,
    pub comment: Option<String>,
    pub locked: Option<bool>,
    pub name: Option<String>,
    pub x: Option<String>,
    pub y: Option<String>,
    pub fields: Option<Vec<FieldVo>>,
    pub diagram_id: String,
}

/// What a table on the wire holds.
pub struct TableView {
    pub id: Text,
    pub attrs: TableAttrs,
    pub fields: Option<Seq<FieldView>>,
    pub diagram_id: Text,
}

impl View for TableVo {
    type V = TableView;

    open spec fn view(&self) -> TableView {
        TableView {
            id: self.id@,
            attrs: TableAttrs {
                name: self.name.deep_view(),
                color: self.color.deep_view(),
                comment: self.comment.deep_view(),
                locked: self.locked,
                x: self.x.deep_view(),
                y: self.y.deep_view(),
            },
            fields: self.fields.deep_view(),
            diagram_id: self.diagram_id@,
        }
    }
}

impl DeepView for TableVo {
    type V = TableView;

    open spec fn deep_view(&self) -> TableView {
        self@
    }
}

impl Clone for TableVo {
    fn clone(&self) -> (copy: Self)
        ensures
            copy@ == self@,
    {
        let fields = match &self.fields {
            Some(list) => Some(clone_fields(list)),
            None => None,
        };
        TableVo {
            id: self.id.clone(),
            color: clone_opt_text(&self.color),
            comment: clone_opt_text(&self.comment),
            locked: self.locked,
            name: clone_opt_text(&self.name),
            x: clone_opt_text(&self.x),
            y: clone_opt_text(&self.y),
            fields,
            diagram_id: self.diagram_id.clone(),
        }
    }
}

/// The changes that an update asks of a table row: one tag per attribute.
#[derive(Debug, PartialEq, Eq)]
pub struct TableChange {
    pub id: String,
    pub name: Change<String>,
    pub color: Change<String>,
    pub comment: Change<String>,
    pub locked: Change<bool>,
    pub x: Change<String>,
    pub y: Change<String>,
}

/// What a table update holds.
pub struct TablePatch {
    pub id: Text,
    pub name: Change<Text>,
    pub color: Change<Text>,
    pub comment: Change<Text>,
    pub locked: Change<bool>,
    pub x: Change<Text>,
    pub y: Change<Text>,
}

impl View for TableChange {
    type V = TablePatch;

    open spec fn view(&self) -> TablePatch {
        TablePatch {
            id: self.id@,
            name: self.name.deep_view(),
            color: self.color.deep_view(),
            comment: self.comment.deep_view(),
            locked: self.locked,
            x: self.x.deep_view(),
            y: self.y.deep_view(),
        }
    }
}

impl TablePatch {
    /// The attributes of a row after the update.
    pub open spec fn apply(self, attrs: TableAttrs) -> TableAttrs {
        TableAttrs {
            name: self.name.applied(attrs.name),
            color: self.color.applied(attrs.color),
            comment: self.comment.applied(attrs.comment),
            locked: self.locked.applied(attrs.locked),
            x: self.x.applied(attrs.x),
            y: self.y.applied(attrs.y),
        }
    }
}

impl TableView {
    /// The partial update that a view asks for: an attribute that is present is
    /// set, an absent one is left unchanged.
    pub open spec fn patch(self) -> TablePatch {
        TablePatch {
            id: self.id,
            name: Change::of(self.attrs.name),
            color: Change::of(self.attrs.color),
            comment: Change::of(self.attrs.comment),
            locked: Change::of(self.attrs.locked),
            x: Change::of(self.attrs.x),
            y: Change::of(self.attrs.y),
        }
    }
}

impl TableVo {
    /// The row that stores this table. It keeps the identifier that the view
    /// carries: whoever creates a table overwrites it with an allocated one.
    pub fn convert_to_table(&self) -> (model: TableModel)
        ensures
            model@ == (TableRow { id: self@.id, attrs: self@.attrs }),
    {
        TableModel {
            id: self.id.clone(),
            name: clone_opt_text(&self.name),
            color: clone_opt_text(&self.color),
            comment: clone_opt_text(&self.comment),
            locked: self.locked,
            x: clone_opt_text(&self.x),
            y: clone_opt_text(&self.y),
        }
    }

    /// The wire form of a stored table, with the fields found for it and the
    /// diagram it was read under.
    pub fn build_from_table(
        table: TableModel,
        fields: Option<Vec<FieldVo>>,
        diagram_id: String,
    ) -> (vo: Self)
        ensures
            vo@ == (TableView {
                id: table@.id,
                attrs: table@.attrs,
                fields: fields.deep_view(),
                diagram_id: diagram_id@,
            }),
    {
        TableVo {
            id: table.id,
            name: table.name,
            fields,
            color: table.color,
            comment: table.comment,
            locked: table.locked,
            x: table.x,
            y: table.y,
            diagram_id,
        }
    }

    /// The partial update of the table row that this view asks for.
    pub fn convert_to_active_model(&self) -> (change: TableChange)
        ensures
            change@ == self@.patch(),
    {
        TableChange {
            id: self.id.clone(),
            name: text_change(&self.name),
            color: text_change(&self.color),
            comment: text_change(&self.comment),
            locked: flag_change(self.locked),
            x: text_change(&self.x),
            y: text_change(&self.y),
        }
    }
}

} // verus!
