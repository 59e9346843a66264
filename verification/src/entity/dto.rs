//! Rows that a joined query hands back.

use crate::entity::model::FieldAttrs;
use crate::text::{clone_opt_text, Text};
use vstd::prelude::*;

verus! {

/// A field together with the table that a link binds it to.
#[derive(Debug, PartialEq, Eq)]
pub struct FieldWithTable {
    pub id: String,
    pub check: Option<String>,
    pub comment: Option<String>,
    pub default: Option<String>,
    pub increment: Option<bool>,
    pub not_null: Option<bool>,
    pub primary: Option<bool>,
    pub size: Option<i32>,
    pub field_type: Option<String>,
    pub unique: Option<bool>,
    pub table_id: String,
    pub name: Option<String>,
}

/// What a joined field row holds.
pub struct JoinedField {
    pub id: Text,
    pub table_id: Text,
    pub attrs: FieldAttrs,
}

impl View for FieldWithTable {
    type V = JoinedField;

    open spec fn view(&self) -> JoinedField {
        JoinedField {
            id: self.id@,
            table_id: self.table_id@,
            attrs: FieldAttrs {
                check: self.check.deep_view(),
                comment: self.comment.deep_view(),
                default: self.default.deep_view(),
                increment: self.increment,
                not_null: self.not_null,
                primary: self.primary,
                size: self.size,
                field_type: self.field_type.deep_view(),
                unique: self.unique,
                name: self.name.deep_view(),
            },
        }
    }
}

impl DeepView for FieldWithTable {
    type V = JoinedField;

    open spec fn deep_view(&self) -> JoinedField {
        self@
    }
}

impl Clone for FieldWithTable {
    fn clone(&self) -> (copy: Self)
        ensures
            copy == *self,
    {
        FieldWithTable {
            id: self.id.clone(),
            check: clone_opt_text(&self.check),
            comment: clone_opt_text(&self.comment),
            default: clone_opt_text(&self.default),
            increment: self.increment,
            not_null: self.not_null,
            primary: self.primary,
            size: self.size,
            field_type: clone_opt_text(&self.field_type),
            unique: self.unique,
            table_id: self.table_id.clone(),
            name: clone_opt_text(&self.name),
        }
    }
}

} // verus!
