//! Tasks of a diagram: a task row and the link that binds it to its diagram.

use crate::entity::model::{DiagramLinkModel, DiagramLinkRow, TaskModel, TaskRow};
use crate::entity::vo::task_vo::TaskAddVo;
use crate::ids::{issued_in_order, lemma_issued_in_order_concat, next_id, IdAllocator};
use vstd::prelude::*;

verus! {

/// A new task: its row and the link to its diagram, each under its own new
/// identifier.
#[derive(Debug, PartialEq, Eq)]
pub struct AddedTodo {
    pub task: TaskModel,
    pub link: DiagramLinkModel,
}

/// Plans the creation of a task: the row that stores it and the link row that
/// binds it, and no table, to the diagram that the request names.
pub fn add_todo(allocator: &mut IdAllocator, todo: &TaskAddVo) -> (added: AddedTodo)
    requires
        old(allocator).room() >= 2,
    ensures
        added.task@ == (TaskRow {
            id: added.task@.id,
            complete: todo@.complete,
            order: todo@.order,
            details: todo@.details,
            title: todo@.title,
        }),
        added.link@ == (DiagramLinkRow {
            id: added.link@.id,
            diagram_id: Some(todo@.diagram_id),
            task_id: Some(added.task@.id),
            table_id: None,
        }),
        issued_in_order(
            seq![added.task@.id, added.link@.id],
            old(allocator).watermark(),
            final(allocator).watermark(),
        ),
        final(allocator).room() >= old(allocator).room() - 2,
{
    let ghost w0 = allocator.watermark();
    let task_id = next_id(allocator);
    let ghost w1 = allocator.watermark();
    let task = todo.convert_to_task(task_id.clone());
    let link_id = next_id(allocator);
    let link = DiagramLinkModel::new(link_id, Some(todo.diagram_id.clone()), Some(task_id), None);
    proof {
        assert(issued_in_order(seq![task@.id], w0, w1));
        assert(issued_in_order(seq![link@.id], w1, allocator.watermark()));
        lemma_issued_in_order_concat(seq![task@.id], seq![link@.id], w0, w1, allocator.watermark());
        assert(seq![task@.id] + seq![link@.id] =~= seq![task@.id, link@.id]);
    }
    AddedTodo { task, link }
}

} // verus!
