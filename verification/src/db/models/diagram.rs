//! Diagram records of the embedded database.

use crate::db::models::common::BusinessModel;
use crate::text::{decimal_text, render_decimal, Text};
use vstd::prelude::*;

verus! {

/// A diagram record.
#[derive(Debug, PartialEq, Eq, Clone, Copy)]
pub struct Diagram {
    pub id: i64,
    pub last_modified: i64,
    pub loaded_from_gist_id: Option<i64>,
}

/// An optional number as a literal: its decimal text, or `null`.
pub open spec fn nullable_text(value: Option<i64>) -> Text {
    match value {
        Some(number) => decimal_text(number as int),
        None => "null"@,
    }
}

impl Diagram {
    pub fn new(id: i64, last_modified: i64, loaded_from_gist_id: Option<i64>) -> (diagram: Self)
        ensures
            diagram == (Diagram { id, last_modified, loaded_from_gist_id }),
    {
        Diagram { id, last_modified, loaded_from_gist_id }
    }

    pub fn from_tuple(tuple: (i64, i64, Option<i64>)) -> (diagram: Self)
        ensures
            diagram == (Diagram {
                id: tuple.0,
                last_modified: tuple.1,
                loaded_from_gist_id: tuple.2,
            }),
    {
        Diagram { id: tuple.0, last_modified: tuple.1, loaded_from_gist_id: tuple.2 }
    }

    /// The value list of the record.
    pub open spec fn values_text(self) -> Text {
        decimal_text(self.id as int) + ", "@ + decimal_text(self.last_modified as int) + ", "@
            + nullable_text(self.loaded_from_gist_id)
    }
}

impl BusinessModel for Diagram {
    fn get_columns(&self) -> (columns: String)
        ensures
            columns@ == "id, last_modified, loaded_from_gist_id"@,
    {
        "id, last_modified, loaded_from_gist_id".to_string()
    }

    fn get_values(&self) -> (values: String)
        ensures
            values@ == self.values_text(),
    {
        let mut values = render_decimal(self.id as i128);
        values.append(", ");
        values.append(render_decimal(self.last_modified as i128).as_str());
        values.append(", ");
        match self.loaded_from_gist_id {
            Some(number) => values.append(render_decimal(number as i128).as_str()),
            None => values.append("null"),
        }
        values
    }

    fn get_order_by(&self) -> (column: String)
        ensures
            column@ == "id"@,
    {
        "id".to_string()
    }
}

} // verus!
