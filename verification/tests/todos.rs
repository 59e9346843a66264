use drawdb::entity::vo::{ReferenceVo, TaskAddVo};
use drawdb::ids::IdAllocator;
use drawdb::references::{add_references, delete_references};
use drawdb::todos::add_todo;

fn text(s: &str) -> Option<String> {
    Some(s.to_string())
}

fn reference(id: &str, name: &str) -> ReferenceVo {
    ReferenceVo {
        id: id.to_string(),
        name: text(name),
        start_table_id: text("t1"),
        end_table_id: text("t2"),
        cardinality: None,
        delete_constraint: None,
        end_field_id: text("f2"),
        start_field_id: text("f1"),
        update_constraint: text("restrict"),
    }
}

#[test]
fn a_new_task_is_bound_to_its_diagram() {
    let mut allocator = IdAllocator::new(1, 1);
    let request = TaskAddVo {
        diagram_id: "1".to_string(),
        complete: Some(false),
        order: Some(0),
        details: text("test"),
        title: text("test"),
    };
    let added = add_todo(&mut allocator, &request);
    assert_eq!(added.task.complete, Some(false));
    assert_eq!(added.task.order, Some(0));
    assert_eq!(added.task.details, text("test"));
    assert_eq!(added.task.title, text("test"));
    assert_eq!(added.link.diagram_id, text("1"));
    assert_eq!(added.link.task_id, Some(added.task.id.clone()));
    assert_eq!(added.link.table_id, None);
    assert_ne!(added.link.id, added.task.id);
    let task_number: u64 = added.task.id.parse().unwrap();
    let link_number: u64 = added.link.id.parse().unwrap();
    assert!(task_number < link_number);
}

#[test]
fn references_are_inserted_as_they_come() {
    let vos = vec![reference("r1", "a"), reference("r2", "b")];
    let rows = add_references(&vos);
    assert_eq!(rows.len(), 2);
    assert_eq!(rows[0], vos[0].convert_to_reference());
    assert_eq!(rows[1], vos[1].convert_to_reference());
    assert_eq!(rows[1].name, text("b"));
    assert!(add_references(&vec![]).is_empty());
}

#[test]
fn references_are_deleted_by_identifier() {
    let vos = vec![reference("r1", "a"), reference("r2", "b"), reference("r1", "c")];
    assert_eq!(
        delete_references(&vos),
        vec!["r1".to_string(), "r2".to_string(), "r1".to_string()]
    );
    assert!(delete_references(&vec![]).is_empty());
}
