//! Tasks on the wire.

use crate::entity::change::{flag_change, number_change, text_change, Change};
use crate::entity::model::{TaskModel, TaskRow};
use crate::text::{clone_opt_text, Text};
use vstd::prelude::*;

verus! {

/// A task as it is sent out, with the diagram it belongs to.
#[derive(Debug, PartialEq, Eq)]
pub struct TaskVo {
    pub id: String,
    pub complete: Option<bool>,
    pub order: Option<i32>,
    pub details: Option<String>,
    pub title: Option<String>,
    pub diagram_id: String,
}

/// What a task on the wire holds.
pub struct TaskView {
    pub id: Text,
    pub complete: Option<bool>,
    pub order: Option<i32>,
    pub details: Option<Text>,
    pub title: Option<Text>,
    pub diagram_id: Text,
}

impl View for TaskVo {
    type V = TaskView;

    open spec fn view(&self) -> TaskView {
        TaskView {
            id: self.id@,
            complete: self.complete,
            order: self.order,
            details: self.details.deep_view(),
            title: self.title.deep_view(),
            diagram_id: self.diagram_id@,
        }
    }
}

impl DeepView for TaskVo {
    type V = TaskView;

    open spec fn deep_view(&self) -> TaskView {
        self@
    }
}

impl Clone for TaskVo {
    fn clone(&self) -> (copy: Self)
        ensures
            copy == *self,
    {
        TaskVo {
            id: self.id.clone(),
            complete: self.complete,
            order: self.order,
            details: clone_opt_text(&self.details),
            title: clone_opt_text(&self.title),
            diagram_id: self.diagram_id.clone(),
        }
    }
}

/// A request to create a task under a diagram.
#[derive(Debug, PartialEq, Eq)]
pub struct TaskAddVo {
    pub diagram_id: String,
    pub complete: Option<bool>,
    pub order: Option<i32>,
    pub details: Option<String>,
    pub title: Option<String>,
}

/// What a request to create a task holds.
pub struct TaskAddView {
    pub diagram_id: Text,
    pub complete: Option<bool>,
    pub order: Option<i32>,
    pub details: Option<Text>,
    pub title: Option<Text>,
}

impl View for TaskAddVo {
    type V = TaskAddView;

    open spec fn view(&self) -> TaskAddView {
        TaskAddView {
            diagram_id: self.diagram_id@,
            complete: self.complete,
            order: self.order,
            details: self.details.deep_view(),
            title: self.title.deep_view(),
        }
    }
}

impl DeepView for TaskAddVo {
    type V = TaskAddView;

    open spec fn deep_view(&self) -> TaskAddView {
        self@
    }
}

impl Clone for TaskAddVo {
    fn clone(&self) -> (copy: Self)
        ensures
            copy == *self,
    {
        TaskAddVo {
            diagram_id: self.diagram_id.clone(),
            complete: self.complete,
            order: self.order,
            details: clone_opt_text(&self.details),
            title: clone_opt_text(&self.title),
        }
    }
}

/// A request to change a task; an absent attribute is left as it is.
#[derive(Debug, PartialEq, Eq)]
pub struct TaskUpdateVo {
    pub id: String,
    pub complete: Option<bool>,
    pub order: Option<i32>,
    pub details: Option<String>,
    pub title: Option<String>,
}

impl View for TaskUpdateVo {
    type V = TaskRow;

    open spec fn view(&self) -> TaskRow {
        TaskRow {
            id: self.id@,
            complete: self.complete,
            order: self.order,
            details: self.details.deep_view(),
            title: self.title.deep_view(),
        }
    }
}

impl DeepView for TaskUpdateVo {
    type V = TaskRow;

    open spec fn deep_view(&self) -> TaskRow {
        self@
    }
}

impl Clone for TaskUpdateVo {
    fn clone(&self) -> (copy: Self)
        ensures
            copy == *self,
    {
        TaskUpdateVo {
            id: self.id.clone(),
            complete: self.complete,
            order: self.order,
            details: clone_opt_text(&self.details),
            title: clone_opt_text(&self.title),
        }
    }
}

impl TaskVo {
    /// The wire form of a stored task, with the diagram it was found under.
    pub fn from_option(task: &TaskModel, diagram_id: String) -> (vo: Self)
        ensures
            vo@ == (TaskView {
                id: task@.id,
                complete: task@.complete,
                order: task@.order,
                details: task@.details,
                title: task@.title,
                diagram_id: diagram_id@,
            }),
    {
        TaskVo {
            id: task.id.clone(),
            complete: task.complete,
            order: task.order,
            details: clone_opt_text(&task.details),
            title: clone_opt_text(&task.title),
            diagram_id,
        }
    }
}

impl TaskAddVo {
    /// The row to store for this request, under the identifier assigned to it.
    pub fn convert_to_task(&self, id: String) -> (model: TaskModel)
        ensures
            model@ == (TaskRow {
                id: id@,
                complete: self@.complete,
                order: self@.order,
                details: self@.details,
                title: self@.title,
            }),
    {
        TaskModel {
            id,
            complete: self.complete,
            order: self.order,
            details: clone_opt_text(&self.details),
            title: clone_opt_text(&self.title),
        }
    }
}

/// The changes that an update asks of a task row: one tag per attribute.
#[derive(Debug, PartialEq, Eq)]
pub struct TaskChange {
    pub id: String,
    pub title: Change<String>,
    pub complete: Change<bool>,
    pub order: Change<i32>,
    pub details: Change<String>,
}

/// What a task update holds.
pub struct TaskPatch {
    pub id: Text,
    pub title: Change<Text>,
    pub complete: Change<bool>,
    pub order: Change<i32>,
    pub details: Change<Text>,
}

impl View for TaskChange {
    type V = TaskPatch;

    open spec fn view(&self) -> TaskPatch {
        TaskPatch {
            id: self.id@,
            title: self.title.deep_view(),
            complete: self.complete,
            order: self.order,
            details: self.details.deep_view(),
        }
    }
}

impl TaskPatch {
    /// The row after the update.
    pub open spec fn apply(self, row: TaskRow) -> TaskRow {
        TaskRow {
            id: row.id,
            complete: self.complete.applied(row.complete),
            order: self.order.applied(row.order),
            details: self.details.applied(row.details),
            title: self.title.applied(row.title),
        }
    }
}

impl TaskUpdateVo {
    /// The row that holds exactly what this request carries.
    pub fn convert_to_task(&self) -> (model: TaskModel)
        ensures
            model@ == self@,
    {
        TaskModel {
            id: self.id.clone(),
            complete: self.complete,
            order: self.order,
            details: clone_opt_text(&self.details),
            title: clone_opt_text(&self.title),
        }
    }

    /// The partial update that this request asks for: an attribute that is present
    /// is set, an absent one is left unchanged.
    pub fn convert_to_active_model(&self) -> (change: TaskChange)
        ensures
            change@ == (TaskPatch {
                id: self@.id,
                title: Change::of(self@.title),
                complete: Change::of(self@.complete),
                order: Change::of(self@.order),
                details: Change::of(self@.details),
            }),
    {
        TaskChange {
            id: self.id.clone(),
            title: text_change(&self.title),
            complete: flag_change(self.complete),
            order: number_change(self.order),
            details: text_change(&self.details),
        }
    }
}

} // verus!
