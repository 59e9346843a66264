use drawdb::diagrams::{assemble_all_diagrams, assemble_diagram, Children};
use drawdb::entity::model::DiagramModel;
use drawdb::entity::vo::{AreaVo, IndiceVo, NoteVo, ReferenceVo, TableVo, TaskVo};

fn text(s: &str) -> Option<String> {
    Some(s.to_string())
}

fn diagram(id: &str, name: &str) -> DiagramModel {
    DiagramModel {
        id: id.to_string(),
        database: text("mysql"),
        zoom: text("1"),
        name: text(name),
        pan: None,
        last_modified: text("today"),
    }
}

fn table(id: &str, diagram_id: &str) -> TableVo {
    TableVo {
        id: id.to_string(),
        color: None,
        comment: None,
        locked: None,
        name: text(id),
        x: None,
        y: None,
        fields: Some(vec![]),
        diagram_id: diagram_id.to_string(),
    }
}

fn task(id: &str, diagram_id: &str) -> TaskVo {
    TaskVo {
        id: id.to_string(),
        complete: Some(false),
        order: Some(1),
        details: None,
        title: text(id),
        diagram_id: diagram_id.to_string(),
    }
}

fn area(id: &str) -> AreaVo {
    AreaVo { id: id.to_string(), color: None, height: None, name: text(id), width: None, x: None, y: None }
}

fn note(id: &str) -> NoteVo {
    NoteVo { id: id.to_string(), content: text(id), color: None, title: None, height: None, x: None, y: None }
}

fn indice(id: &str) -> IndiceVo {
    IndiceVo { id: id.to_string(), name: text(id), unique: Some(true) }
}

fn reference(id: &str) -> ReferenceVo {
    ReferenceVo {
        id: id.to_string(),
        name: text(id),
        start_table_id: None,
        end_table_id: None,
        cardinality: None,
        delete_constraint: None,
        end_field_id: None,
        start_field_id: None,
        update_constraint: None,
    }
}

fn keyed<V>(key: &str, value: V) -> (String, V) {
    (key.to_string(), value)
}

#[test]
fn one_diagram_is_assembled_with_everything_read_for_it() {
    let vo = assemble_diagram(
        &diagram("d1", "shop"),
        vec![table("t1", "d1")],
        vec![area("a1")],
        vec![reference("r1"), reference("r2")],
        vec![],
        vec![note("n1")],
        vec![task("k1", "d1")],
    );
    assert_eq!(vo.id, "d1");
    assert_eq!(vo.name, text("shop"));
    assert_eq!(vo.database, text("mysql"));
    assert_eq!(vo.zoom, text("1"));
    assert_eq!(vo.pan, None);
    assert_eq!(vo.last_modified, text("today"));
    assert_eq!(vo.tables, Some(vec![table("t1", "d1")]));
    assert_eq!(vo.areas, Some(vec![area("a1")]));
    assert_eq!(vo.references, Some(vec![reference("r1"), reference("r2")]));
    assert_eq!(vo.indices, Some(vec![]));
    assert_eq!(vo.notes, Some(vec![note("n1")]));
    assert_eq!(vo.tasks, Some(vec![task("k1", "d1")]));
}

#[test]
fn a_diagram_without_children_has_empty_collections() {
    let vo = assemble_diagram(&diagram("d1", "bare"), vec![], vec![], vec![], vec![], vec![], vec![]);
    assert_eq!(vo.tables, Some(vec![]));
    assert_eq!(vo.areas, Some(vec![]));
    assert_eq!(vo.references, Some(vec![]));
    assert_eq!(vo.indices, Some(vec![]));
    assert_eq!(vo.notes, Some(vec![]));
    assert_eq!(vo.tasks, Some(vec![]));
}

#[test]
fn every_diagram_gets_its_own_children() {
    let diagrams = vec![diagram("d1", "first"), diagram("d2", "second"), diagram("d3", "third")];
    let children = Children {
        tables: vec![table("t1", "d1"), table("t2", "d2"), table("t3", "d1"), table("t4", "gone")],
        tasks: vec![task("k1", "d2"), task("k2", "d2")],
        areas: vec![keyed("d1", area("a1")), keyed("d2", area("a2")), keyed("d1", area("a3"))],
        references: vec![keyed("d2", reference("r1"))],
        indices: vec![keyed("d1", indice("i1")), keyed("d1", indice("i2"))],
        notes: vec![keyed("d2", note("n1")), keyed("d1", note("n2"))],
    };
    let vos = assemble_all_diagrams(&diagrams, children);
    assert_eq!(vos.len(), 3);
    assert_eq!(vos[0].id, "d1");
    assert_eq!(vos[0].name, text("first"));
    assert_eq!(vos[0].tables, Some(vec![table("t1", "d1"), table("t3", "d1")]));
    assert_eq!(vos[0].tasks, Some(vec![]));
    assert_eq!(vos[0].areas, Some(vec![area("a1"), area("a3")]));
    assert_eq!(vos[0].references, Some(vec![]));
    assert_eq!(vos[0].indices, Some(vec![indice("i1"), indice("i2")]));
    assert_eq!(vos[0].notes, Some(vec![note("n2")]));

    assert_eq!(vos[1].id, "d2");
    assert_eq!(vos[1].tables, Some(vec![table("t2", "d2")]));
    assert_eq!(vos[1].tasks, Some(vec![task("k1", "d2"), task("k2", "d2")]));
    assert_eq!(vos[1].areas, Some(vec![area("a2")]));
    assert_eq!(vos[1].references, Some(vec![reference("r1")]));
    assert_eq!(vos[1].indices, Some(vec![]));
    assert_eq!(vos[1].notes, Some(vec![note("n1")]));

    assert_eq!(vos[2].id, "d3");
    assert_eq!(vos[2].tables, Some(vec![]));
    assert_eq!(vos[2].tasks, Some(vec![]));
    assert_eq!(vos[2].areas, Some(vec![]));
    assert_eq!(vos[2].references, Some(vec![]));
    assert_eq!(vos[2].indices, Some(vec![]));
    assert_eq!(vos[2].notes, Some(vec![]));
}

#[test]
fn no_diagrams_give_no_aggregates() {
    let children = Children {
        tables: vec![table("t1", "d1")],
        tasks: vec![],
        areas: vec![],
        references: vec![],
        indices: vec![],
        notes: vec![],
    };
    assert!(assemble_all_diagrams(&vec![], children).is_empty());
}
