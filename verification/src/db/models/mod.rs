//! The relations of the embedded database and the records kept in them.

pub mod common;
pub mod diagram;
pub mod task;
pub mod template;

pub use common::{BusinessModel, CommonModel, Model, ToCommonModel};

use crate::text::Text;
use diagram::Diagram;
use task::Task;
use vstd::prelude::*;

verus! {

/// The relations of the embedded database.
#[derive(Debug, PartialEq, Eq, Clone, Copy)]
pub enum TableType {
    Diagram,
    Note,
    Task,
    Area,
    Type,
    Enum,
}

impl TableType {
    /// The name of the relation in the database.
    pub open spec fn name(&self) -> Text {
        match self {
            TableType::Diagram => "diagram"@,
            TableType::Note => "note"@,
            TableType::Task => "task"@,
            TableType::Area => "area"@,
            TableType::Type => "type"@,
            TableType::Enum => "enum"@,
        }
    }

    /// The relation that a number stands for.
    pub open spec fn of_number(num: int) -> TableType {
        if num == 0 {
            TableType::Diagram
        } else if num == 1 {
            TableType::Note
        } else if num == 2 {
            TableType::Task
        } else if num == 3 {
            TableType::Area
        } else if num == 4 {
            TableType::Type
        } else {
            TableType::Enum
        }
    }

    /// The columns with which the relation is created.
    pub open spec fn columns(&self) -> Text {
        match self {
            TableType::Task =>
                "id INTEGER PRIMARY KEY AUTOINCREMENT, \n    compele BOOLEAN, \n    details STRING,\n    task_order INTEGER,\n    priority INTEGER,\n    title STRING"@,
            _ =>
                "id INTEGER PRIMARY KEY AUTOINCREMENT, last_modified INTEGER, loaded_from_gist_id INTEGER"@,
        }
    }

    /// The statement that creates the relation unless it exists.
    pub open spec fn create_sql(&self) -> Text {
        "CREATE TABLE IF NOT EXISTS "@ + self.name() + " ("@ + self.columns() + ")"@
    }

    /// The statement that creates the relation unless it exists.
    pub fn get_create_sql(&self) -> (sql: String)
        ensures
            sql@ == self.create_sql(),
    {
        let mut sql = String::from_str("CREATE TABLE IF NOT EXISTS ");
        sql.append(self.get_table_name());
        sql.append(" (");
        match self {
            TableType::Task => sql.append(
                "id INTEGER PRIMARY KEY AUTOINCREMENT, \n    compele BOOLEAN, \n    details STRING,\n    task_order INTEGER,\n    priority INTEGER,\n    title STRING",
            ),
            _ => sql.append(
                "id INTEGER PRIMARY KEY AUTOINCREMENT, last_modified INTEGER, loaded_from_gist_id INTEGER",
            ),
        }
        sql.append(")");
        sql
    }

    /// The name of the relation in the database.
    pub fn get_table_name(&self) -> (name: &'static str)
        ensures
            name@ == self.name(),
    {
        match self {
            TableType::Diagram => "diagram",
            TableType::Note => "note",
            TableType::Task => "task",
            TableType::Area => "area",
            TableType::Type => "type",
            TableType::Enum => "enum",
        }
    }

    /// The relation that a number from 0 to 5 stands for.
    pub fn from_num(num: i64) -> (kind: TableType)
        requires
            0 <= num <= 5,
        ensures
            kind == TableType::of_number(num as int),
    {
        if num == 0 {
            TableType::Diagram
        } else if num == 1 {
            TableType::Note
        } else if num == 2 {
            TableType::Task
        } else if num == 3 {
            TableType::Area
        } else if num == 4 {
            TableType::Type
        } else {
            TableType::Enum
        }
    }
}

/// A diagram record from its three columns.
pub fn init_diagram(id: i64, last_modified: i64, loaded_from_gist_id: Option<i64>) -> (diagram:
    Diagram)
    ensures
        diagram == (Diagram { id, last_modified, loaded_from_gist_id }),
{
    Diagram::new(id, last_modified, loaded_from_gist_id)
}

/// A task record that belongs to no diagram yet.
pub fn init_task(
    id: i64,
    complete: bool,
    details: String,
    order: i64,
    priority: i64,
    title: String,
) -> (task: Task)
    ensures
        task.id() == id,
        task.complete() == complete,
        task.details() == details,
        task.task_order() == order,
        task.priority() == priority,
        task.title() == title,
        task.diagram_id() == 0,
{
    Task::new(id, complete, details, order, priority, title, 0)
}

} // verus!
