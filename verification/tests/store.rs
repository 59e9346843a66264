use drawdb::entity::dto::FieldWithTable;
use drawdb::entity::model::{DiagramLinkModel, FieldModel, TableLinkModel, TableModel};
use drawdb::entity::vo::{FieldVo, TableVo};
use drawdb::error::DrawDBError;
use drawdb::ids::{next_id, IdAllocator};
use drawdb::memory::MemoryStore;
use drawdb::store::{Fault, Write};
use drawdb::tables::{
    add_table, batch_add_table, delete_table, query_tables, table_ids, update_table,
};

fn text(s: &str) -> Option<String> {
    Some(s.to_string())
}

fn field(name: &str, size: i32) -> FieldVo {
    FieldVo {
        id: "client".to_string(),
        table_id: None,
        check: None,
        comment: text("a comment"),
        default: None,
        increment: Some(false),
        not_null: Some(true),
        primary: None,
        size: Some(size),
        field_type: text("VARCHAR"),
        unique: None,
        name: text(name),
    }
}

fn table(name: &str, fields: Option<Vec<FieldVo>>, diagram_id: &str) -> TableVo {
    TableVo {
        id: "client".to_string(),
        color: text("#00ff00"),
        comment: None,
        locked: Some(false),
        name: text(name),
        x: text("1"),
        y: text("2"),
        fields,
        diagram_id: diagram_id.to_string(),
    }
}

fn bind(allocator: &mut IdAllocator, diagram_id: &str, table_id: &str) -> Write {
    Write::InsertDiagramLinks(vec![DiagramLinkModel::new(
        next_id(allocator),
        text(diagram_id),
        None,
        text(table_id),
    )])
}

fn read(store: &MemoryStore, diagram_id: &str) -> Vec<TableVo> {
    let tables = store.tables_of_diagram(&diagram_id.to_string());
    let fields = store.fields_of_tables(&table_ids(&tables));
    query_tables(&tables, &fields, &diagram_id.to_string())
}

fn names(fields: &Vec<FieldVo>) -> Vec<Option<String>> {
    fields.iter().map(|f| f.name.clone()).collect()
}

fn field_ids(rows: &Vec<FieldWithTable>) -> Vec<String> {
    rows.iter().map(|r| r.id.clone()).collect()
}

#[test]
fn a_new_store_is_empty() {
    let store = MemoryStore::new();
    assert!(store.tables().is_empty());
    assert!(store.fields().is_empty());
    assert!(store.table_links().is_empty());
    assert!(store.diagram_links().is_empty());
}

#[test]
fn added_table_reads_back_with_its_fields() {
    let mut allocator = IdAllocator::new(1, 1);
    let mut store = MemoryStore::new();
    let view = table("users", Some(vec![field("id", 8), field("email", 64), field("name", 32)]), "d1");
    let added = add_table(&mut allocator, &view);
    assert_eq!(store.transact(&added.writes), Ok(()));
    let link = bind(&mut allocator, "d1", &added.ids.table_id);
    assert_eq!(store.transact(&vec![link]), Ok(()));
    let vos = read(&store, "d1");
    assert_eq!(vos.len(), 1);
    assert_eq!(vos[0].id, added.ids.table_id);
    assert_eq!(vos[0].name, text("users"));
    assert_eq!(vos[0].color, text("#00ff00"));
    assert_eq!(vos[0].locked, Some(false));
    assert_eq!(vos[0].x, text("1"));
    assert_eq!(vos[0].y, text("2"));
    assert_eq!(vos[0].diagram_id, "d1");
    let fields = vos[0].fields.as_ref().unwrap();
    assert_eq!(fields.len(), 3);
    for (i, expected) in view.fields.as_ref().unwrap().iter().enumerate() {
        assert_eq!(fields[i].id, added.ids.field_ids[i]);
        assert_eq!(fields[i].table_id, Some(added.ids.table_id.clone()));
        assert_eq!(fields[i].name, expected.name);
        assert_eq!(fields[i].size, expected.size);
        assert_eq!(fields[i].comment, expected.comment);
        assert_eq!(fields[i].field_type, expected.field_type);
        assert_eq!(fields[i].not_null, expected.not_null);
        assert_eq!(fields[i].increment, expected.increment);
        assert_eq!(fields[i].check, expected.check);
    }
    assert!(read(&store, "d2").is_empty());
}

#[test]
fn added_table_without_fields_reads_back_with_an_empty_list() {
    let mut allocator = IdAllocator::new(1, 1);
    let mut store = MemoryStore::new();
    let added = add_table(&mut allocator, &table("bare", None, "d1"));
    assert_eq!(store.transact(&added.writes), Ok(()));
    let link = bind(&mut allocator, "d1", &added.ids.table_id);
    assert_eq!(store.transact(&vec![link]), Ok(()));
    let vos = read(&store, "d1");
    assert_eq!(vos.len(), 1);
    assert_eq!(vos[0].fields, Some(vec![]));
}

#[test]
fn update_replaces_the_fields_and_none_of_the_old_survives() {
    let mut allocator = IdAllocator::new(1, 1);
    let mut store = MemoryStore::new();
    let added = add_table(
        &mut allocator,
        &table("users", Some(vec![field("a", 1), field("b", 2), field("c", 3)]), "d1"),
    );
    store.transact(&added.writes).unwrap();
    let link = bind(&mut allocator, "d1", &added.ids.table_id);
    store.transact(&vec![link]).unwrap();

    let mut view = table("people", Some(vec![field("x", 10), field("y", 20)]), "d1");
    view.id = added.ids.table_id.clone();
    view.color = None;
    let existing = store.fields_of_table(&view.id);
    assert_eq!(field_ids(&existing), added.ids.field_ids);
    let updated = update_table(&mut allocator, &view, &existing).unwrap();
    assert_eq!(store.transact(&updated.writes), Ok(()));

    let after = store.fields_of_table(&view.id);
    assert_eq!(field_ids(&after), updated.field_ids);
    assert_eq!(after.len(), 2);
    for old in &added.ids.field_ids {
        assert!(store.fields().iter().all(|row| &row.id != old));
    }
    assert_eq!(store.fields().len(), 2);
    assert_eq!(store.table_links().len(), 2);
    let vos = read(&store, "d1");
    assert_eq!(vos.len(), 1);
    assert_eq!(vos[0].name, text("people"));
    assert_eq!(vos[0].color, text("#00ff00"));
    assert_eq!(names(vos[0].fields.as_ref().unwrap()), vec![text("x"), text("y")]);
}

#[test]
fn update_with_an_empty_list_deletes_all_fields() {
    let mut allocator = IdAllocator::new(1, 1);
    let mut store = MemoryStore::new();
    let added = add_table(&mut allocator, &table("users", Some(vec![field("a", 1)]), "d1"));
    store.transact(&added.writes).unwrap();
    let mut view = table("users", Some(vec![]), "d1");
    view.id = added.ids.table_id.clone();
    let existing = store.fields_of_table(&view.id);
    let updated = update_table(&mut allocator, &view, &existing).unwrap();
    assert_eq!(store.transact(&updated.writes), Ok(()));
    assert!(store.fields().is_empty());
    assert!(store.table_links().is_empty());
    assert_eq!(store.tables().len(), 1);
}

#[test]
fn update_without_a_field_list_leaves_the_fields_untouched() {
    let mut allocator = IdAllocator::new(1, 1);
    let mut store = MemoryStore::new();
    let added = add_table(&mut allocator, &table("users", Some(vec![field("a", 1), field("b", 2)]), "d1"));
    store.transact(&added.writes).unwrap();
    let before = store.snapshot();
    let mut view = table("renamed", None, "d1");
    view.id = added.ids.table_id.clone();
    let existing = store.fields_of_table(&view.id);
    let result = update_table(&mut allocator, &view, &existing);
    assert!(matches!(result, Err(DrawDBError::DeconstructError(_))));
    assert_eq!(store, before);
    assert_eq!(field_ids(&store.fields_of_table(&view.id)), added.ids.field_ids);
}

#[test]
fn update_of_a_missing_table_is_refused_and_changes_nothing() {
    let mut allocator = IdAllocator::new(1, 1);
    let mut store = MemoryStore::new();
    let added = add_table(&mut allocator, &table("users", Some(vec![field("a", 1)]), "d1"));
    store.transact(&added.writes).unwrap();
    let before = store.snapshot();
    let mut view = table("ghost", Some(vec![field("z", 9)]), "d1");
    view.id = "no-such-table".to_string();
    let updated = update_table(&mut allocator, &view, &vec![]).unwrap();
    assert_eq!(store.transact(&updated.writes), Err(Fault::NotFound));
    assert_eq!(store, before);
}

#[test]
fn delete_cascades_to_links_and_fields() {
    let mut allocator = IdAllocator::new(1, 1);
    let mut store = MemoryStore::new();
    let doomed = add_table(&mut allocator, &table("doomed", Some(vec![field("a", 1), field("b", 2)]), "d1"));
    let kept = add_table(&mut allocator, &table("kept", Some(vec![field("c", 3)]), "d1"));
    store.transact(&doomed.writes).unwrap();
    store.transact(&kept.writes).unwrap();
    let first = bind(&mut allocator, "d1", &doomed.ids.table_id);
    let second = bind(&mut allocator, "d1", &kept.ids.table_id);
    store.transact(&vec![first, second]).unwrap();

    let linked = store.fields_of_table(&doomed.ids.table_id);
    let writes = delete_table(&doomed.ids.table_id, &linked);
    assert_eq!(store.transact(&writes), Ok(()));

    let gone = Some(doomed.ids.table_id.clone());
    assert!(store.tables().iter().all(|t| t.id != doomed.ids.table_id));
    assert!(store.table_links().iter().all(|l| l.table_id != gone));
    assert!(store.diagram_links().iter().all(|l| l.table_id != gone));
    for id in &doomed.ids.field_ids {
        assert!(store.fields().iter().all(|f| &f.id != id));
    }
    assert!(store.fields_of_table(&doomed.ids.table_id).is_empty());
    assert_eq!(field_ids(&store.fields_of_table(&kept.ids.table_id)), kept.ids.field_ids);
    let vos = read(&store, "d1");
    assert_eq!(vos.len(), 1);
    assert_eq!(vos[0].name, text("kept"));
}

#[test]
fn deleting_a_missing_table_succeeds_and_changes_nothing() {
    let mut allocator = IdAllocator::new(1, 1);
    let mut store = MemoryStore::new();
    let added = add_table(&mut allocator, &table("users", Some(vec![field("a", 1)]), "d1"));
    store.transact(&added.writes).unwrap();
    let before = store.snapshot();
    let missing = "missing".to_string();
    let writes = delete_table(&missing, &store.fields_of_table(&missing));
    assert_eq!(store.transact(&writes), Ok(()));
    assert_eq!(store, before);
}

#[test]
fn batch_keeps_the_fields_of_each_table_apart() {
    let mut allocator = IdAllocator::new(1, 1);
    let mut store = MemoryStore::new();
    let views = vec![
        table("t1", Some(vec![field("a", 1), field("b", 2)]), "d1"),
        table("t2", Some(vec![field("c", 3), field("d", 4), field("e", 5)]), "d1"),
    ];
    let added = batch_add_table(&mut allocator, &views);
    assert_eq!(store.transact(&added.writes), Ok(()));
    let first = store.fields_of_table(&added.ids[0].table_id);
    let second = store.fields_of_table(&added.ids[1].table_id);
    assert_eq!(field_ids(&first), added.ids[0].field_ids);
    assert_eq!(field_ids(&second), added.ids[1].field_ids);
    assert_eq!(first.len(), 2);
    assert_eq!(second.len(), 3);
    assert_eq!(first[0].name, text("a"));
    assert_eq!(first[1].name, text("b"));
    assert_eq!(second[0].name, text("c"));
    assert_eq!(second[2].name, text("e"));
    for a in &first {
        for b in &second {
            assert_ne!(a.id, b.id);
        }
    }
}

#[test]
fn a_refused_link_insert_rolls_back_table_and_fields() {
    let mut allocator = IdAllocator::new(1, 1);
    let mut store = MemoryStore::new();
    let earlier = add_table(&mut allocator, &table("earlier", Some(vec![field("a", 1)]), "d1"));
    store.transact(&earlier.writes).unwrap();
    let before = store.snapshot();

    let added = add_table(&mut allocator, &table("late", Some(vec![field("b", 2), field("c", 3)]), "d1"));
    let mut writes = added.writes;
    let clash = TableLinkModel {
        id: earlier.ids.link_ids[0].clone(),
        table_id: Some(added.ids.table_id.clone()),
        field_id: Some(added.ids.field_ids[0].clone()),
    };
    match &mut writes[2] {
        Write::InsertTableLinks(links) => links[0] = clash,
        other => panic!("unexpected third write {:?}", other),
    }
    assert_eq!(store.transact(&writes), Err(Fault::Conflict));
    assert_eq!(store, before);
    assert!(store.tables().iter().all(|t| t.id != added.ids.table_id));
    for id in &added.ids.field_ids {
        assert!(store.fields().iter().all(|f| &f.id != id));
    }
}

#[test]
fn apply_refuses_a_key_that_is_taken_and_one_that_comes_twice() {
    let mut store = MemoryStore::new();
    let row = |id: &str| TableModel {
        id: id.to_string(),
        name: None,
        color: None,
        comment: None,
        locked: None,
        x: None,
        y: None,
    };
    assert_eq!(store.apply(&Write::InsertTables(vec![row("1"), row("2")])), Ok(()));
    assert_eq!(store.apply(&Write::InsertTables(vec![row("3"), row("2")])), Err(Fault::Conflict));
    assert_eq!(store.apply(&Write::InsertTables(vec![row("4"), row("4")])), Err(Fault::Conflict));
    assert_eq!(store.tables().len(), 2);
    assert_eq!(store.apply(&Write::InsertTables(vec![])), Ok(()));
    assert_eq!(store.tables().len(), 2);
}

#[test]
fn a_join_lists_a_field_once_per_link() {
    let mut store = MemoryStore::new();
    let field = FieldModel {
        id: "f".to_string(),
        check: None,
        comment: None,
        default: None,
        increment: None,
        not_null: None,
        primary: None,
        size: None,
        field_type: None,
        unique: None,
        name: text("shared"),
    };
    let link = |id: &str, table: Option<&str>, field: Option<&str>| TableLinkModel {
        id: id.to_string(),
        table_id: table.map(|t| t.to_string()),
        field_id: field.map(|f| f.to_string()),
    };
    store.apply(&Write::InsertFields(vec![field])).unwrap();
    store
        .apply(&Write::InsertTableLinks(vec![
            link("l1", Some("t1"), Some("f")),
            link("l2", Some("t2"), Some("f")),
            link("l3", None, Some("f")),
            link("l4", Some("t1"), None),
            link("l5", Some("t1"), Some("missing")),
        ]))
        .unwrap();
    let rows = store.fields_of_tables(&vec!["t1".to_string(), "t2".to_string()]);
    assert_eq!(rows.len(), 2);
    assert_eq!(rows[0].table_id, "t1");
    assert_eq!(rows[1].table_id, "t2");
    assert_eq!(rows[0].id, "f");
    assert!(store.fields_of_table(&"t3".to_string()).is_empty());
}

fn every_field_is_linked_once(store: &MemoryStore) -> bool {
    store.fields().iter().all(|field| {
        store.table_links().iter().filter(|link| link.field_id.as_ref() == Some(&field.id)).count()
            == 1
    })
}

#[test]
fn every_operation_keeps_each_field_linked_once() {
    let mut allocator = IdAllocator::new(1, 1);
    let mut store = MemoryStore::new();
    let first = add_table(&mut allocator, &table("t1", Some(vec![field("a", 1), field("b", 2)]), "d1"));
    store.transact(&first.writes).unwrap();
    assert!(every_field_is_linked_once(&store));

    let batch = batch_add_table(
        &mut allocator,
        &vec![table("t2", Some(vec![field("c", 3)]), "d1"), table("t3", None, "d1")],
    );
    store.transact(&batch.writes).unwrap();
    assert!(every_field_is_linked_once(&store));
    assert_eq!(store.fields().len(), 3);

    let mut view = table("t1", Some(vec![field("x", 1), field("y", 2), field("z", 3)]), "d1");
    view.id = first.ids.table_id.clone();
    let existing = store.fields_of_table(&view.id);
    let updated = update_table(&mut allocator, &view, &existing).unwrap();
    store.transact(&updated.writes).unwrap();
    assert!(every_field_is_linked_once(&store));
    assert_eq!(store.fields().len(), 4);

    let doomed = batch.ids[0].table_id.clone();
    let linked = store.fields_of_table(&doomed);
    store.transact(&delete_table(&doomed, &linked)).unwrap();
    assert!(every_field_is_linked_once(&store));
    assert_eq!(store.fields().len(), 3);
    assert_eq!(store.tables().len(), 2);
}
