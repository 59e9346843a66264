use drawdb::db::models::diagram::Diagram;
use drawdb::db::models::task::Task;
use drawdb::db::models::template::Template;
use drawdb::db::models::{
    init_diagram, init_task, BusinessModel, CommonModel, Model, TableType, ToCommonModel,
};

fn parts(where_clause: &str, order_by: &str) -> CommonModel {
    CommonModel::new(
        "task".to_string(),
        "id, title".to_string(),
        "1, 'a'".to_string(),
        where_clause.to_string(),
        order_by.to_string(),
    )
}

#[test]
fn table_names() {
    assert_eq!(TableType::Diagram.get_table_name(), "diagram");
    assert_eq!(TableType::Note.get_table_name(), "note");
    assert_eq!(TableType::Task.get_table_name(), "task");
    assert_eq!(TableType::Area.get_table_name(), "area");
    assert_eq!(TableType::Type.get_table_name(), "type");
    assert_eq!(TableType::Enum.get_table_name(), "enum");
}

#[test]
fn table_types_by_number() {
    assert_eq!(TableType::from_num(0), TableType::Diagram);
    assert_eq!(TableType::from_num(1), TableType::Note);
    assert_eq!(TableType::from_num(2), TableType::Task);
    assert_eq!(TableType::from_num(3), TableType::Area);
    assert_eq!(TableType::from_num(4), TableType::Type);
    assert_eq!(TableType::from_num(5), TableType::Enum);
}

#[test]
fn insert_statement() {
    assert_eq!(parts("", "").get_insert_sql(), "INSERT INTO task (id, title) VALUES (1, 'a')");
}

#[test]
fn update_statement_takes_its_condition_from_the_values() {
    assert_eq!(parts("id = 1", "").get_update_sql(), "UPDATE task SET id, title WHERE 1, 'a'");
}

#[test]
fn delete_statement_with_and_without_a_condition() {
    assert_eq!(parts("id = 1", "").get_delete_sql(), "DELETE FROM task WHERE id = 1");
    assert_eq!(parts("", "").get_delete_sql(), "DELETE FROM task WHERE 1=1");
}

#[test]
fn select_statement_with_and_without_condition_and_ordering() {
    assert_eq!(
        parts("id = 1", "title").get_select_sql(),
        "SELECT id, title FROM task WHERE id = 1 ORDER BY title"
    );
    assert_eq!(
        parts("", "").get_select_sql(),
        "SELECT id, title FROM task WHERE 1=1 ORDER BY id"
    );
}

#[test]
fn diagram_record() {
    let diagram = Diagram::new(7, 1700000000000, Some(-3));
    assert_eq!(diagram, Diagram::from_tuple((7, 1700000000000, Some(-3))));
    assert_eq!(diagram, init_diagram(7, 1700000000000, Some(-3)));
    assert_eq!(diagram.get_columns(), "id, last_modified, loaded_from_gist_id");
    assert_eq!(diagram.get_values(), "7, 1700000000000, -3");
    assert_eq!(diagram.get_order_by(), "id");
    assert_eq!(Diagram::new(0, i64::MIN, None).get_values(), "0, -9223372036854775808, null");
}

#[test]
fn task_record() {
    let task = Task::new(1, true, "do it".to_string(), 2, 3, "now".to_string(), 9);
    assert_eq!(task, Task::from_tuple((1, true, "do it".to_string(), 2, 3, "now".to_string(), 9)));
    assert_eq!(
        task.get_columns(),
        "id, complete, details, task_order, priority, title, diagram_id"
    );
    assert_eq!(task.get_values(), "1, true, do it, 2, 3, now, 9");
    assert_eq!(task.get_order_by(), "task_order");
    assert_eq!(task.clone(), task);
    assert_eq!(Task::empty_task().get_values(), "0, false, , 0, 0, , 0");
    assert_eq!(
        init_task(4, false, "d".to_string(), 5, 1, "t".to_string()).get_values(),
        "4, false, d, 5, 1, t, 0"
    );
}

#[test]
fn template_record() {
    let template = Template::new(3, false, "{}".to_string());
    assert_eq!(template, Template::from_tuple((3, false, "{}".to_string())));
    assert_eq!(template.get_columns(), "id, custom, content");
    assert_eq!(template.get_values(), "3, false, {}");
    assert_eq!(template.get_order_by(), "id");
}

#[test]
fn any_record_gives_the_parts_of_a_statement() {
    let model = Diagram::new(1, 2, None).to_common_model("diagram".to_string(), "id = 1".to_string());
    assert_eq!(
        model,
        CommonModel::new(
            "diagram".to_string(),
            "id, last_modified, loaded_from_gist_id".to_string(),
            "1, 2, null".to_string(),
            "id = 1".to_string(),
            "id".to_string(),
        )
    );
    assert_eq!(
        model.get_insert_sql(),
        "INSERT INTO diagram (id, last_modified, loaded_from_gist_id) VALUES (1, 2, null)"
    );
    assert_eq!(
        model.get_select_sql(),
        "SELECT id, last_modified, loaded_from_gist_id FROM diagram WHERE id = 1 ORDER BY id"
    );
}

#[test]
fn create_statements() {
    assert_eq!(
        TableType::Diagram.get_create_sql(),
        "CREATE TABLE IF NOT EXISTS diagram (id INTEGER PRIMARY KEY AUTOINCREMENT, last_modified INTEGER, loaded_from_gist_id INTEGER)"
    );
    assert_eq!(
        TableType::Enum.get_create_sql(),
        "CREATE TABLE IF NOT EXISTS enum (id INTEGER PRIMARY KEY AUTOINCREMENT, last_modified INTEGER, loaded_from_gist_id INTEGER)"
    );
    assert_eq!(
        TableType::Task.get_create_sql(),
        "CREATE TABLE IF NOT EXISTS task (id INTEGER PRIMARY KEY AUTOINCREMENT, \n    compele BOOLEAN, \n    details STRING,\n    task_order INTEGER,\n    priority INTEGER,\n    title STRING)"
    );
}
