//! Task records of the embedded database.

use crate::db::models::common::BusinessModel;
use crate::text::{decimal_text, flag_text, render_decimal, render_flag, Text};
use vstd::prelude::*;

verus! {

/// A task record. Its priority runs from 0, none, to 3, high.
#[derive(Debug, PartialEq, Eq)]
pub struct Task {
    id: i64,
    complete: bool,
    details: String,
    task_order: i64,
    priority: i64,
    title: String,
    diagram_id: i64,
}

impl Clone for Task {
    fn clone(&self) -> (copy: Self)
        ensures
            copy == *self,
    {
        Task {
            id: self.id,
            complete: self.complete,
            details: self.details.clone(),
            task_order: self.task_order,
            priority: self.priority,
            title: self.title.clone(),
            diagram_id: self.diagram_id,
        }
    }
}

impl Task {
    pub closed spec fn id(&self) -> i64 {
        self.id
    }

    pub closed spec fn complete(&self) -> bool {
        self.complete
    }

    pub closed spec fn details(&self) -> String {
        self.details
    }

    pub closed spec fn task_order(&self) -> i64 {
        self.task_order
    }

    pub closed spec fn priority(&self) -> i64 {
        self.priority
    }

    pub closed spec fn title(&self) -> String {
        self.title
    }

    pub closed spec fn diagram_id(&self) -> i64 {
        self.diagram_id
    }

    pub fn new(
        id: i64,
        complete: bool,
        details: String,
        task_order: i64,
        priority: i64,
        title: String,
        diagram_id: i64,
    ) -> (task: Self)
        ensures
            task.id() == id,
            task.complete() == complete,
            task.details() == details,
            task.task_order() == task_order,
            task.priority() == priority,
            task.title() == title,
            task.diagram_id() == diagram_id,
    {
        Task { id, complete, details, task_order, priority, title, diagram_id }
    }

    /// The task with every number 0, every text empty and nothing done.
    pub fn empty_task() -> (task: Self)
        ensures
            task.id() == 0,
            task.complete() == false,
            task.details()@ == Seq::<char>::empty(),
            task.task_order() == 0,
            task.priority() == 0,
            task.title()@ == Seq::<char>::empty(),
            task.diagram_id() == 0,
    {
        Task {
            id: 0,
            complete: false,
            details: String::new(),
            task_order: 0,
            priority: 0,
            title: String::new(),
            diagram_id: 0,
        }
    }

    pub fn from_tuple(tuple: (i64, bool, String, i64, i64, String, i64)) -> (task: Self)
        ensures
            task.id() == tuple.0,
            task.complete() == tuple.1,
            task.details() == tuple.2,
            task.task_order() == tuple.3,
            task.priority() == tuple.4,
            task.title() == tuple.5,
            task.diagram_id() == tuple.6,
    {
        Task {
            id: tuple.0,
            complete: tuple.1,
            details: tuple.2,
            task_order: tuple.3,
            priority: tuple.4,
            title: tuple.5,
            diagram_id: tuple.6,
        }
    }

    /// The value list of the record: every column as it prints, in the order of
    /// the columns.
    pub open spec fn values_text(&self) -> Text {
        decimal_text(self.id() as int) + ", "@ + flag_text(self.complete()) + ", "@
            + self.details()@ + ", "@ + decimal_text(self.task_order() as int) + ", "@
            + decimal_text(self.priority() as int) + ", "@ + self.title()@ + ", "@ + decimal_text(
            self.diagram_id() as int,
        )
    }
}

impl BusinessModel for Task {
    fn get_columns(&self) -> (columns: String)
        ensures
            columns@ == "id, complete, details, task_order, priority, title, diagram_id"@,
    {
        "id, complete, details, task_order, priority, title, diagram_id".to_string()
    }

    fn get_values(&self) -> (values: String)
        ensures
            values@ == self.values_text(),
    {
        let mut values = render_decimal(self.id as i128);
        values.append(", ");
        values.append(render_flag(self.complete).as_str());
        values.append(", ");
        values.append(self.details.as_str());
        values.append(", ");
        values.append(render_decimal(self.task_order as i128).as_str());
        values.append(", ");
        values.append(render_decimal(self.priority as i128).as_str());
        values.append(", ");
        values.append(self.title.as_str());
        values.append(", ");
        values.append(render_decimal(self.diagram_id as i128).as_str());
        values
    }

    fn get_order_by(&self) -> (column: String)
        ensures
            column@ == "task_order"@,
    {
        "task_order".to_string()
    }
}

} // verus!
