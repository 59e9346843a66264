use drawdb::entity::change::Change;
use drawdb::entity::dto::FieldWithTable;
use drawdb::entity::model::TableModel;
use drawdb::entity::vo::{FieldVo, TableVo};
use drawdb::error::DrawDBError;
use drawdb::ids::IdAllocator;
use drawdb::store::Write;
use drawdb::tables::{
    add_table, batch_add_table, delete_table, joined_ids, query_tables, table_ids, update_table,
};

fn text(s: &str) -> Option<String> {
    Some(s.to_string())
}

fn field(id: &str, name: &str) -> FieldVo {
    FieldVo {
        id: id.to_string(),
        table_id: None,
        check: None,
        comment: None,
        default: None,
        increment: None,
        not_null: Some(true),
        primary: None,
        size: Some(8),
        field_type: text("INT"),
        unique: None,
        name: text(name),
    }
}

fn table(id: &str, name: &str, fields: Option<Vec<FieldVo>>) -> TableVo {
    TableVo {
        id: id.to_string(),
        color: None,
        comment: None,
        locked: None,
        name: text(name),
        x: text("0"),
        y: text("0"),
        fields,
        diagram_id: "d1".to_string(),
    }
}

fn joined(id: &str, table_id: &str, name: &str) -> FieldWithTable {
    FieldWithTable {
        id: id.to_string(),
        check: None,
        comment: None,
        default: None,
        increment: None,
        not_null: None,
        primary: None,
        size: None,
        field_type: text("TEXT"),
        unique: None,
        table_id: table_id.to_string(),
        name: text(name),
    }
}

fn row(id: &str, name: &str) -> TableModel {
    TableModel {
        id: id.to_string(),
        name: text(name),
        color: None,
        comment: None,
        locked: None,
        x: None,
        y: None,
    }
}

#[test]
fn add_table_writes_table_fields_and_links() {
    let mut allocator = IdAllocator::new(1, 1);
    let view = table("client", "users", Some(vec![field("c1", "id"), field("c2", "email")]));
    let added = add_table(&mut allocator, &view);
    assert_eq!(added.ids.field_ids.len(), 2);
    assert_eq!(added.ids.link_ids.len(), 2);
    assert_eq!(added.writes.len(), 3);
    match &added.writes[0] {
        Write::InsertTables(rows) => {
            assert_eq!(rows.len(), 1);
            assert_eq!(rows[0].id, added.ids.table_id);
            assert_ne!(rows[0].id, "client");
            assert_eq!(rows[0].name, text("users"));
        }
        other => panic!("unexpected first write {:?}", other),
    }
    match &added.writes[1] {
        Write::InsertFields(rows) => {
            assert_eq!(rows.len(), 2);
            assert_eq!(rows[0].id, added.ids.field_ids[0]);
            assert_eq!(rows[1].id, added.ids.field_ids[1]);
            assert_eq!(rows[0].name, text("id"));
            assert_eq!(rows[1].name, text("email"));
            assert_eq!(rows[0].size, Some(8));
            assert_eq!(rows[0].field_type, text("INT"));
            assert_eq!(rows[0].not_null, Some(true));
        }
        other => panic!("unexpected second write {:?}", other),
    }
    match &added.writes[2] {
        Write::InsertTableLinks(links) => {
            assert_eq!(links.len(), 2);
            for i in 0..2 {
                assert_eq!(links[i].id, added.ids.link_ids[i]);
                assert_eq!(links[i].table_id, Some(added.ids.table_id.clone()));
                assert_eq!(links[i].field_id, Some(added.ids.field_ids[i].clone()));
            }
        }
        other => panic!("unexpected third write {:?}", other),
    }
}

#[test]
fn add_table_allocates_distinct_identifiers() {
    let mut allocator = IdAllocator::new(1, 1);
    let view = table("client", "users", Some(vec![field("same", "a"), field("same", "b")]));
    let added = add_table(&mut allocator, &view);
    let mut all = vec![added.ids.table_id.clone()];
    all.extend(added.ids.field_ids.iter().cloned());
    all.extend(added.ids.link_ids.iter().cloned());
    let count = all.len();
    all.sort();
    all.dedup();
    assert_eq!(count, 5);
    assert_eq!(all.len(), 5);
}

#[test]
fn add_table_without_a_field_list_writes_the_table_only() {
    let mut allocator = IdAllocator::new(1, 1);
    let added = add_table(&mut allocator, &table("client", "empty", None));
    assert_eq!(added.writes.len(), 1);
    assert!(added.ids.field_ids.is_empty());
    assert!(added.ids.link_ids.is_empty());
    assert!(matches!(added.writes[0], Write::InsertTables(_)));
}

#[test]
fn add_table_with_an_empty_field_list_writes_the_table_only() {
    let mut allocator = IdAllocator::new(1, 1);
    let added = add_table(&mut allocator, &table("client", "empty", Some(vec![])));
    assert_eq!(added.writes.len(), 1);
    assert!(matches!(added.writes[0], Write::InsertTables(_)));
}

#[test]
fn batch_add_table_makes_three_inserts() {
    let mut allocator = IdAllocator::new(1, 1);
    let views = vec![
        table("a", "t1", Some(vec![field("x", "f1"), field("y", "f2")])),
        table("b", "t2", None),
        table("c", "t3", Some(vec![field("z", "g1"), field("z", "g2"), field("z", "g3")])),
    ];
    let added = batch_add_table(&mut allocator, &views);
    assert_eq!(added.ids.len(), 3);
    assert_eq!(added.writes.len(), 3);
    match &added.writes[0] {
        Write::InsertTables(rows) => {
            assert_eq!(rows.len(), 3);
            for i in 0..3 {
                assert_eq!(rows[i].id, added.ids[i].table_id);
                assert_eq!(rows[i].name, views[i].name);
            }
        }
        other => panic!("unexpected first write {:?}", other),
    }
    match &added.writes[1] {
        Write::InsertFields(rows) => {
            assert_eq!(rows.len(), 5);
            assert_eq!(rows[0].id, added.ids[0].field_ids[0]);
            assert_eq!(rows[1].id, added.ids[0].field_ids[1]);
            assert_eq!(rows[2].id, added.ids[2].field_ids[0]);
            assert_eq!(rows[3].id, added.ids[2].field_ids[1]);
            assert_eq!(rows[4].id, added.ids[2].field_ids[2]);
            assert_eq!(rows[0].name, text("f1"));
            assert_eq!(rows[4].name, text("g3"));
        }
        other => panic!("unexpected second write {:?}", other),
    }
    match &added.writes[2] {
        Write::InsertTableLinks(links) => {
            assert_eq!(links.len(), 5);
            assert_eq!(links[0].table_id, Some(added.ids[0].table_id.clone()));
            assert_eq!(links[1].table_id, Some(added.ids[0].table_id.clone()));
            assert_eq!(links[2].table_id, Some(added.ids[2].table_id.clone()));
            assert_eq!(links[4].table_id, Some(added.ids[2].table_id.clone()));
            assert_eq!(links[4].field_id, Some(added.ids[2].field_ids[2].clone()));
        }
        other => panic!("unexpected third write {:?}", other),
    }
}

#[test]
fn batch_add_table_of_nothing_still_makes_three_inserts() {
    let mut allocator = IdAllocator::new(1, 1);
    let added = batch_add_table(&mut allocator, &vec![]);
    assert!(added.ids.is_empty());
    assert_eq!(
        added.writes,
        vec![
            Write::InsertTables(vec![]),
            Write::InsertFields(vec![]),
            Write::InsertTableLinks(vec![]),
        ]
    );
}

#[test]
fn batch_add_table_shares_no_field_identifier_between_tables() {
    let mut allocator = IdAllocator::new(1, 1);
    let views = vec![
        table("a", "t1", Some(vec![field("x", "f1"), field("y", "f2")])),
        table("b", "t2", Some(vec![field("x", "g1"), field("y", "g2"), field("z", "g3")])),
    ];
    let added = batch_add_table(&mut allocator, &views);
    assert_eq!(added.ids[0].field_ids.len(), 2);
    assert_eq!(added.ids[1].field_ids.len(), 3);
    for a in &added.ids[0].field_ids {
        for b in &added.ids[1].field_ids {
            assert_ne!(a, b);
        }
    }
}

#[test]
fn update_table_without_a_field_list_is_a_structural_error() {
    let mut allocator = IdAllocator::new(1, 1);
    let before = allocator.remaining();
    let existing = vec![joined("f1", "t1", "old")];
    let result = update_table(&mut allocator, &table("t1", "users", None), &existing);
    assert_eq!(result, Err(DrawDBError::DeconstructError("fields is none".to_string())));
    assert_eq!(allocator.remaining(), before);
}

#[test]
fn update_table_replaces_the_fields() {
    let mut allocator = IdAllocator::new(1, 1);
    let existing = vec![joined("f1", "t1", "old1"), joined("f2", "t1", "old2")];
    let view = table("t1", "users", Some(vec![field("f1", "new")]));
    let updated = update_table(&mut allocator, &view, &existing).unwrap();
    assert_eq!(updated.field_ids.len(), 1);
    assert_eq!(updated.link_ids.len(), 1);
    assert_eq!(updated.writes.len(), 5);
    match &updated.writes[0] {
        Write::UpdateTable(change) => {
            assert_eq!(change.id, "t1");
            assert_eq!(change.name, Change::SetTo("users".to_string()));
            assert_eq!(change.color, Change::Unchanged);
        }
        other => panic!("unexpected first write {:?}", other),
    }
    assert_eq!(updated.writes[1], Write::DeleteFields(vec!["f1".to_string(), "f2".to_string()]));
    assert_eq!(updated.writes[2], Write::DeleteTableLinksOf("t1".to_string()));
    match &updated.writes[3] {
        Write::InsertFields(rows) => {
            assert_eq!(rows.len(), 1);
            assert_eq!(rows[0].id, updated.field_ids[0]);
            assert_ne!(rows[0].id, "f1");
            assert_eq!(rows[0].name, text("new"));
        }
        other => panic!("unexpected fourth write {:?}", other),
    }
    match &updated.writes[4] {
        Write::InsertTableLinks(links) => {
            assert_eq!(links.len(), 1);
            assert_eq!(links[0].id, updated.link_ids[0]);
            assert_eq!(links[0].table_id, text("t1"));
            assert_eq!(links[0].field_id, Some(updated.field_ids[0].clone()));
        }
        other => panic!("unexpected fifth write {:?}", other),
    }
}

#[test]
fn update_table_with_an_empty_field_list_is_accepted() {
    let mut allocator = IdAllocator::new(1, 1);
    let existing = vec![joined("f1", "t1", "old1")];
    let updated = update_table(&mut allocator, &table("t1", "users", Some(vec![])), &existing)
        .unwrap();
    assert!(updated.field_ids.is_empty());
    assert_eq!(updated.writes.len(), 5);
    assert_eq!(updated.writes[1], Write::DeleteFields(vec!["f1".to_string()]));
    assert_eq!(updated.writes[3], Write::InsertFields(vec![]));
    assert_eq!(updated.writes[4], Write::InsertTableLinks(vec![]));
}

#[test]
fn delete_table_removes_row_links_and_fields() {
    let linked = vec![joined("f1", "t1", "a"), joined("f2", "t1", "b")];
    let writes = delete_table(&"t1".to_string(), &linked);
    assert_eq!(
        writes,
        vec![
            Write::DeleteTable("t1".to_string()),
            Write::DeleteTableLinksOf("t1".to_string()),
            Write::DeleteDiagramLinksOf("t1".to_string()),
            Write::DeleteFields(vec!["f1".to_string(), "f2".to_string()]),
        ]
    );
}

#[test]
fn joined_ids_and_table_ids_list_the_keys() {
    let rows = vec![joined("f1", "t1", "a"), joined("f2", "t2", "b")];
    assert_eq!(joined_ids(&rows), vec!["f1".to_string(), "f2".to_string()]);
    let tables = vec![row("t1", "a"), row("t2", "b")];
    assert_eq!(table_ids(&tables), vec!["t1".to_string(), "t2".to_string()]);
}

#[test]
fn query_tables_groups_fields_by_table() {
    let tables = vec![row("t1", "users"), row("t2", "orders"), row("t3", "empty")];
    let fields = vec![
        joined("f1", "t1", "id"),
        joined("f2", "t2", "total"),
        joined("f3", "t1", "email"),
        joined("f4", "t2", "placed"),
        joined("f5", "t1", "name"),
        joined("f6", "other", "stray"),
    ];
    let vos = query_tables(&tables, &fields, &"d1".to_string());
    assert_eq!(vos.len(), 3);
    assert_eq!(vos[0].id, "t1");
    assert_eq!(vos[0].name, text("users"));
    assert_eq!(vos[0].diagram_id, "d1");
    let first: Vec<String> = vos[0].fields.as_ref().unwrap().iter().map(|f| f.id.clone()).collect();
    assert_eq!(first, vec!["f1".to_string(), "f3".to_string(), "f5".to_string()]);
    let second: Vec<String> =
        vos[1].fields.as_ref().unwrap().iter().map(|f| f.id.clone()).collect();
    assert_eq!(second, vec!["f2".to_string(), "f4".to_string()]);
    assert_eq!(vos[2].fields, Some(vec![]));
    let email = &vos[0].fields.as_ref().unwrap()[1];
    assert_eq!(email.name, text("email"));
    assert_eq!(email.table_id, text("t1"));
    assert_eq!(email.field_type, text("TEXT"));
}

#[test]
fn query_tables_of_nothing_is_empty() {
    assert!(query_tables(&vec![], &vec![], &"d1".to_string()).is_empty());
}
