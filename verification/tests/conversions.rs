use drawdb::entity::change::Change;
use drawdb::entity::dto::FieldWithTable;
use drawdb::entity::model::{DiagramLinkModel, DiagramModel, TableModel, TaskModel};
use drawdb::entity::vo::{
    build_table_link, AreaVo, DiagramVo, FieldVo, IndiceVo, NoteVo, ReferenceVo, TableVo,
    TaskAddVo, TaskUpdateVo, TaskVo,
};

fn text(s: &str) -> Option<String> {
    Some(s.to_string())
}

fn sample_field() -> FieldVo {
    FieldVo {
        id: "client-field".to_string(),
        table_id: text("client-table"),
        check: text("age > 0"),
        comment: text("years"),
        default: text("18"),
        increment: Some(false),
        not_null: Some(true),
        primary: Some(false),
        size: Some(3),
        field_type: text("INT"),
        unique: Some(false),
        name: text("age"),
    }
}

fn sample_table() -> TableVo {
    TableVo {
        id: "client-table".to_string(),
        color: text("#ff0000"),
        comment: None,
        locked: Some(true),
        name: text("users"),
        x: text("10"),
        y: text("20"),
        fields: Some(vec![sample_field()]),
        diagram_id: "d1".to_string(),
    }
}

#[test]
fn area_converts_attribute_by_attribute() {
    let vo = AreaVo {
        id: "a1".to_string(),
        color: text("blue"),
        height: text("40"),
        name: text("core"),
        width: text("60"),
        x: None,
        y: text("7"),
    };
    let model = vo.convert_to_area();
    assert_eq!(model.id, "a1");
    assert_eq!(model.color, text("blue"));
    assert_eq!(model.height, text("40"));
    assert_eq!(model.name, text("core"));
    assert_eq!(model.width, text("60"));
    assert_eq!(model.x, None);
    assert_eq!(model.y, text("7"));
}

#[test]
fn note_converts_attribute_by_attribute() {
    let vo = NoteVo {
        id: "n1".to_string(),
        content: text("remember"),
        color: None,
        title: text("todo"),
        height: text("12"),
        x: text("1"),
        y: text("2"),
    };
    let model = vo.convert_to_note();
    assert_eq!(model.id, "n1");
    assert_eq!(model.content, text("remember"));
    assert_eq!(model.color, None);
    assert_eq!(model.title, text("todo"));
    assert_eq!(model.height, text("12"));
    assert_eq!(model.x, text("1"));
    assert_eq!(model.y, text("2"));
}

#[test]
fn indice_converts_attribute_by_attribute() {
    let vo = IndiceVo { id: "i1".to_string(), name: text("by_name"), unique: Some(true) };
    let model = vo.convert_to_indice();
    assert_eq!(model.id, "i1");
    assert_eq!(model.name, text("by_name"));
    assert_eq!(model.unique, Some(true));
}

#[test]
fn reference_converts_attribute_by_attribute() {
    let vo = ReferenceVo {
        id: "r1".to_string(),
        name: text("fk_user"),
        start_table_id: text("t1"),
        end_table_id: text("t2"),
        cardinality: text("one_to_many"),
        delete_constraint: text("cascade"),
        end_field_id: text("f2"),
        start_field_id: text("f1"),
        update_constraint: None,
    };
    let model = vo.convert_to_reference();
    assert_eq!(model.id, "r1");
    assert_eq!(model.name, text("fk_user"));
    assert_eq!(model.start_table_id, text("t1"));
    assert_eq!(model.end_table_id, text("t2"));
    assert_eq!(model.cardinality, text("one_to_many"));
    assert_eq!(model.delete_constraint, text("cascade"));
    assert_eq!(model.end_field_id, text("f2"));
    assert_eq!(model.start_field_id, text("f1"));
    assert_eq!(model.update_constraint, None);
}

#[test]
fn table_converts_without_its_fields() {
    let model = sample_table().convert_to_table();
    assert_eq!(
        model,
        TableModel {
            id: "client-table".to_string(),
            name: text("users"),
            color: text("#ff0000"),
            comment: None,
            locked: Some(true),
            x: text("10"),
            y: text("20"),
        }
    );
}

#[test]
fn table_is_built_from_its_row() {
    let row = TableModel {
        id: "t9".to_string(),
        name: text("orders"),
        color: None,
        comment: text("all orders"),
        locked: None,
        x: text("3"),
        y: text("4"),
    };
    let vo = TableVo::build_from_table(row, Some(vec![]), "d7".to_string());
    assert_eq!(vo.id, "t9");
    assert_eq!(vo.name, text("orders"));
    assert_eq!(vo.color, None);
    assert_eq!(vo.comment, text("all orders"));
    assert_eq!(vo.locked, None);
    assert_eq!(vo.x, text("3"));
    assert_eq!(vo.y, text("4"));
    assert_eq!(vo.fields, Some(vec![]));
    assert_eq!(vo.diagram_id, "d7");
}

#[test]
fn table_update_sets_what_is_present_and_leaves_the_rest() {
    let change = sample_table().convert_to_active_model();
    assert_eq!(change.id, "client-table");
    assert_eq!(change.name, Change::SetTo("users".to_string()));
    assert_eq!(change.color, Change::SetTo("#ff0000".to_string()));
    assert_eq!(change.comment, Change::Unchanged);
    assert_eq!(change.locked, Change::SetTo(true));
    assert_eq!(change.x, Change::SetTo("10".to_string()));
    assert_eq!(change.y, Change::SetTo("20".to_string()));
}

#[test]
fn field_converts_and_keeps_the_identifier_it_carries() {
    let model = sample_field().convert_to_field();
    assert_eq!(model.id, "client-field");
    assert_eq!(model.check, text("age > 0"));
    assert_eq!(model.comment, text("years"));
    assert_eq!(model.default, text("18"));
    assert_eq!(model.increment, Some(false));
    assert_eq!(model.not_null, Some(true));
    assert_eq!(model.primary, Some(false));
    assert_eq!(model.size, Some(3));
    assert_eq!(model.field_type, text("INT"));
    assert_eq!(model.unique, Some(false));
    assert_eq!(model.name, text("age"));
}

#[test]
fn field_is_built_from_a_joined_row() {
    let row = FieldWithTable {
        id: "f1".to_string(),
        check: None,
        comment: text("c"),
        default: None,
        increment: Some(true),
        not_null: None,
        primary: Some(true),
        size: Some(11),
        field_type: text("BIGINT"),
        unique: Some(true),
        table_id: "t1".to_string(),
        name: text("id"),
    };
    let vo = FieldVo::build_from_field_with_table(row);
    assert_eq!(vo.id, "f1");
    assert_eq!(vo.table_id, text("t1"));
    assert_eq!(vo.check, None);
    assert_eq!(vo.comment, text("c"));
    assert_eq!(vo.increment, Some(true));
    assert_eq!(vo.primary, Some(true));
    assert_eq!(vo.size, Some(11));
    assert_eq!(vo.field_type, text("BIGINT"));
    assert_eq!(vo.unique, Some(true));
    assert_eq!(vo.name, text("id"));
}

#[test]
fn table_link_binds_field_to_table() {
    let link = build_table_link("l1".to_string(), "t1".to_string(), "f1".to_string());
    assert_eq!(link.id, "l1");
    assert_eq!(link.table_id, text("t1"));
    assert_eq!(link.field_id, text("f1"));
}

#[test]
fn diagram_link_is_made_of_its_four_columns() {
    let link = DiagramLinkModel::new("l".to_string(), text("d"), None, text("t"));
    assert_eq!(link.id, "l");
    assert_eq!(link.diagram_id, text("d"));
    assert_eq!(link.task_id, None);
    assert_eq!(link.table_id, text("t"));
}

fn sample_diagram() -> DiagramVo {
    DiagramVo {
        id: "client-diagram".to_string(),
        zoom: text("1.5"),
        database: text("mysql"),
        name: None,
        tables: Some(vec![sample_table()]),
        areas: None,
        references: None,
        indices: None,
        notes: None,
        tasks: None,
        pan: text("0,0"),
        last_modified: None,
    }
}

#[test]
fn diagram_is_stored_under_the_assigned_identifier() {
    let model = sample_diagram().convert_to_diagram("777".to_string());
    assert_eq!(
        model,
        DiagramModel {
            id: "777".to_string(),
            database: text("mysql"),
            zoom: text("1.5"),
            name: None,
            pan: text("0,0"),
            last_modified: None,
        }
    );
}

#[test]
fn diagram_from_a_row_has_no_children() {
    let row = DiagramModel {
        id: "d1".to_string(),
        database: text("postgres"),
        zoom: None,
        name: text("shop"),
        pan: None,
        last_modified: text("2025-01-01"),
    };
    let vo = DiagramVo::from(&row);
    assert_eq!(vo.id, "d1");
    assert_eq!(vo.database, text("postgres"));
    assert_eq!(vo.zoom, None);
    assert_eq!(vo.name, text("shop"));
    assert_eq!(vo.pan, None);
    assert_eq!(vo.last_modified, text("2025-01-01"));
    assert_eq!(vo.tables, None);
    assert_eq!(vo.areas, None);
    assert_eq!(vo.references, None);
    assert_eq!(vo.indices, None);
    assert_eq!(vo.notes, None);
    assert_eq!(vo.tasks, None);
}

#[test]
fn diagram_update_sets_what_is_present_and_leaves_the_rest() {
    let change = sample_diagram().convert_to_active_model();
    assert_eq!(change.id, "client-diagram");
    assert_eq!(change.database, Change::SetTo("mysql".to_string()));
    assert_eq!(change.zoom, Change::SetTo("1.5".to_string()));
    assert_eq!(change.name, Change::Unchanged);
    assert_eq!(change.pan, Change::SetTo("0,0".to_string()));
    assert_eq!(change.last_modified, Change::Unchanged);
}

#[test]
fn task_goes_out_with_its_diagram() {
    let row = TaskModel {
        id: "k1".to_string(),
        complete: Some(true),
        order: Some(4),
        details: text("write tests"),
        title: None,
    };
    let vo = TaskVo::from_option(&row, "d1".to_string());
    assert_eq!(
        vo,
        TaskVo {
            id: "k1".to_string(),
            complete: Some(true),
            order: Some(4),
            details: text("write tests"),
            title: None,
            diagram_id: "d1".to_string(),
        }
    );
}

#[test]
fn new_task_is_stored_under_the_assigned_identifier() {
    let request = TaskAddVo {
        diagram_id: "1".to_string(),
        complete: Some(false),
        order: Some(0),
        details: text("test"),
        title: text("test"),
    };
    let row = request.convert_to_task("42".to_string());
    assert_eq!(
        row,
        TaskModel {
            id: "42".to_string(),
            complete: Some(false),
            order: Some(0),
            details: text("test"),
            title: text("test"),
        }
    );
}

#[test]
fn task_update_converts_to_a_row_and_to_a_partial_update() {
    let request = TaskUpdateVo {
        id: "7338216606830563329".to_string(),
        complete: Some(true),
        order: None,
        details: text("test66"),
        title: None,
    };
    let row = request.convert_to_task();
    assert_eq!(row.id, "7338216606830563329");
    assert_eq!(row.complete, Some(true));
    assert_eq!(row.order, None);
    assert_eq!(row.details, text("test66"));
    assert_eq!(row.title, None);
    let change = request.convert_to_active_model();
    assert_eq!(change.id, "7338216606830563329");
    assert_eq!(change.complete, Change::SetTo(true));
    assert_eq!(change.order, Change::Unchanged);
    assert_eq!(change.details, Change::SetTo("test66".to_string()));
    assert_eq!(change.title, Change::Unchanged);
}

#[test]
fn copies_equal_what_they_copy() {
    assert_eq!(sample_field().clone(), sample_field());
    assert_eq!(sample_table().clone(), sample_table());
}
