//! Template records of the embedded database.

use crate::db::models::common::BusinessModel;
use crate::text::{decimal_text, flag_text, render_decimal, render_flag, Text};
use vstd::prelude::*;

verus! {

/// A template record: a stored diagram to start from.
#[derive(Debug, PartialEq, Eq)]
pub struct Template {
    pub id: i64,
    pub custom: bool,
    pub content: String,
}

impl Clone for Template {
    fn clone(&self) -> (copy: Self)
        ensures
            copy == *self,
    {
        Template { id: self.id, custom: self.custom, content: self.content.clone() }
    }
}

impl Template {
    pub fn new(id: i64, custom: bool, content: String) -> (template: Self)
        ensures
            template == (Template { id, custom, content }),
    {
        Template { id, custom, content }
    }

    pub fn from_tuple(tuple: (i64, bool, String)) -> (template: Self)
        ensures
            template == (Template { id: tuple.0, custom: tuple.1, content: tuple.2 }),
    {
        Template { id: tuple.0, custom: tuple.1, content: tuple.2 }
    }

    /// The value list of the record.
    pub open spec fn values_text(&self) -> Text {
        decimal_text(self.id as int) + ", "@ + flag_text(self.custom) + ", "@ + self.content@
    }
}

impl BusinessModel for Template {
    fn get_columns(&self) -> (columns: String)
        ensures
            columns@ == "id, custom, content"@,
    {
        "id, custom, content".to_string()
    }

    fn get_values(&self) -> (values: String)
        ensures
            values@ == self.values_text(),
    {
        let mut values = render_decimal(self.id as i128);
        values.append(", ");
        values.append(render_flag(self.custom).as_str());
        values.append(", ");
        values.append(self.content.as_str());
        values
    }

    fn get_order_by(&self) -> (column: String)
        ensures
            column@ == "id"@,
    {
        "id".to_string()
    }
}

} // verus!
