//! The diagram read assembler: a diagram with everything it owns, put together
//! from rows that a bounded number of reads returned.

use crate::entity::model::{AreaRow, DiagramModel, DiagramRow, IndiceRow, NoteRow, ReferenceRow};
use crate::entity::vo::area_vo::AreaVo;
use crate::entity::vo::diagram_vo::{DiagramView, DiagramVo};
use crate::entity::vo::indice_vo::IndiceVo;
use crate::entity::vo::note_vo::NoteVo;
use crate::entity::vo::reference_vo::ReferenceVo;
use crate::entity::vo::table_vo::{TableView, TableVo};
use crate::entity::vo::task_vo::{TaskView, TaskVo};
use crate::grouping::{find_group, group_by_key, grouped, key_is, lemma_filter_related};
use crate::seqs::lemma_filter_none;
use crate::text::{clone_opt_text, Text};
use vstd::prelude::*;

verus! {

/// Assembles one diagram from its row and the entities that were read for it.
/// Every collection is present in the result, empty where nothing was read.
pub fn assemble_diagram(
    diagram: &DiagramModel,
    tables: Vec<TableVo>,
    areas: Vec<AreaVo>,
    references: Vec<ReferenceVo>,
    indices: Vec<IndiceVo>,
    notes: Vec<NoteVo>,
    tasks: Vec<TaskVo>,
) -> (vo: DiagramVo)
    ensures
        vo@ == (DiagramView {
            id: diagram@.id,
            zoom: diagram@.zoom,
            database: diagram@.database,
            name: diagram@.name,
            tables: Some(tables.deep_view()),
            areas: Some(areas.deep_view()),
            references: Some(references.deep_view()),
            indices: Some(indices.deep_view()),
            notes: Some(notes.deep_view()),
            tasks: Some(tasks.deep_view()),
            pan: diagram@.pan,
            last_modified: diagram@.last_modified,
        }),
{
    DiagramVo {
        id: diagram.id.clone(),
        database: clone_opt_text(&diagram.database),
        zoom: clone_opt_text(&diagram.zoom),
        name: clone_opt_text(&diagram.name),
        tables: Some(tables),
        areas: Some(areas),
        references: Some(references),
        indices: Some(indices),
        notes: Some(notes),
        tasks: Some(tasks),
        pan: clone_opt_text(&diagram.pan),
        last_modified: clone_opt_text(&diagram.last_modified),
    }
}

/// `list` holds a copy of each value of `from`, in order.
pub open spec fn copies_of<V: Clone>(list: Seq<V>, from: Seq<(String, V)>) -> bool {
    &&& list.len() == from.len()
    &&& forall|m: int| 0 <= m < from.len() ==> cloned(from[m].1, #[trigger] list[m])
}

/// Copies of the values that were grouped under `key`, in their order; nothing
/// where no value has that key.
fn children_of<V: Clone>(
    groups: &Vec<(String, Vec<(String, V)>)>,
    key: &String,
    Ghost(items): Ghost<Seq<(String, V)>>,
) -> (list: Vec<V>)
    requires
        grouped(items, groups@),
    ensures
        copies_of(list@, items.filter(key_is(key@))),
{
    match find_group(groups, key) {
        Some(g) => {
            let group = &groups[g].1;
            let mut list: Vec<V> = Vec::new();
            let mut m: usize = 0;
            while m < group.len()
                invariant
                    m <= group.len(),
                    list.len() == m,
                    forall|j: int| 0 <= j < m ==> cloned(group[j].1, #[trigger] list[j]),
                decreases group.len() - m,
            {
                list.push(group[m].1.clone());
                m = m + 1;
            }
            list
        },
        None => {
            proof {
                assert forall|k: int| 0 <= k < items.len() implies !key_is::<V>(key@)(
                    #[trigger] items[k],
                ) by {
                    let g = choose|g: int|
                        0 <= g < groups.len() && (#[trigger] groups[g]).0@ == items[k].0@;
                    assert(groups[g].0@ != key@);
                }
                lemma_filter_none(items, key_is::<V>(key@));
            }
            Vec::new()
        },
    }
}

/// The pairs of key and row whose key is `parent`.
pub open spec fn keyed_by<R>(parent: Text) -> spec_fn((Text, R)) -> bool {
    |pair: (Text, R)| pair.0 == parent
}

/// The row of a pair of key and row.
pub open spec fn row_of<R>() -> spec_fn((Text, R)) -> R {
    |pair: (Text, R)| pair.1
}

/// The tables that belong to diagram `parent`.
pub open spec fn table_of(parent: Text) -> spec_fn(TableView) -> bool {
    |table: TableView| table.diagram_id == parent
}

/// The tasks that belong to diagram `parent`.
pub open spec fn task_of(parent: Text) -> spec_fn(TaskView) -> bool {
    |task: TaskView| task.diagram_id == parent
}

/// What a value of each kind holds.
pub open spec fn table_held() -> spec_fn(TableVo) -> TableView {
    |v: TableVo| v@
}

pub open spec fn task_held() -> spec_fn(TaskVo) -> TaskView {
    |v: TaskVo| v@
}

pub open spec fn area_held() -> spec_fn(AreaVo) -> AreaRow {
    |v: AreaVo| v@
}

pub open spec fn reference_held() -> spec_fn(ReferenceVo) -> ReferenceRow {
    |v: ReferenceVo| v@
}

pub open spec fn indice_held() -> spec_fn(IndiceVo) -> IndiceRow {
    |v: IndiceVo| v@
}

pub open spec fn note_held() -> spec_fn(NoteVo) -> NoteRow {
    |v: NoteVo| v@
}

/// Copies of the values grouped under a parent hold the rows that are keyed by
/// that parent, in order.
proof fn lemma_copies_of_keyed<V: Clone, R>(
    list: Seq<V>,
    items: Seq<(String, V)>,
    rows: Seq<(Text, R)>,
    parent: Text,
    held: spec_fn(V) -> R,
)
    requires
        copies_of(list, items.filter(key_is(parent))),
        items.len() == rows.len(),
        forall|k: int| 0 <= k < items.len() ==> #[trigger] rows[k] == (items[k].0@, held(items[k].1)),
        forall|a: V, b: V| #[trigger] cloned(a, b) ==> held(a) == held(b),
    ensures
        list.map_values(held) == rows.filter(keyed_by(parent)).map_values(row_of()),
{
    let carried = |pair: (String, V)| held(pair.1);
    assert forall|k: int| 0 <= k < items.len() implies key_is::<V>(parent)(#[trigger] items[k])
        == keyed_by::<R>(parent)(rows[k]) by {}
    assert forall|k: int| 0 <= k < items.len() implies carried(#[trigger] items[k]) == row_of::<R>()(
        rows[k],
    ) by {}
    lemma_filter_related(items, rows, key_is(parent), keyed_by(parent), carried, row_of());
    let kept = items.filter(key_is(parent));
    assert(list.map_values(held) =~= kept.map_values(carried)) by {
        assert forall|m: int| 0 <= m < list.len() implies held(#[trigger] list[m]) == carried(
            kept[m],
        ) by {
            assert(cloned(kept[m].1, list[m]));
        }
    }
}

/// Copies of the values grouped under a parent hold the rows that belong to that
/// parent, in order.
proof fn lemma_copies_of_owned<V: Clone, R>(
    list: Seq<V>,
    items: Seq<(String, V)>,
    rows: Seq<R>,
    parent: Text,
    held: spec_fn(V) -> R,
    belongs: spec_fn(R) -> bool,
)
    requires
        copies_of(list, items.filter(key_is(parent))),
        items.len() == rows.len(),
        forall|k: int|
            0 <= k < items.len() ==> {
                &&& #[trigger] rows[k] == held(items[k].1)
                &&& belongs(rows[k]) == (items[k].0@ == parent)
            },
        forall|a: V, b: V| #[trigger] cloned(a, b) ==> held(a) == held(b),
    ensures
        list.map_values(held) == rows.filter(belongs),
{
    let carried = |pair: (String, V)| held(pair.1);
    let same = |row: R| row;
    assert forall|k: int| 0 <= k < items.len() implies key_is::<V>(parent)(#[trigger] items[k])
        == belongs(rows[k]) by {}
    assert forall|k: int| 0 <= k < items.len() implies carried(#[trigger] items[k]) == same(
        rows[k],
    ) by {}
    lemma_filter_related(items, rows, key_is(parent), belongs, carried, same);
    let kept = items.filter(key_is(parent));
    assert(rows.filter(belongs).map_values(same) =~= rows.filter(belongs));
    assert(list.map_values(held) =~= kept.map_values(carried)) by {
        assert forall|m: int| 0 <= m < list.len() implies held(#[trigger] list[m]) == carried(
            kept[m],
        ) by {
            assert(cloned(kept[m].1, list[m]));
        }
    }
}

/// The entities of every diagram in view, as the reads returned them: tables and
/// tasks carry the diagram they belong to, the others come keyed by it.
#[derive(Debug, PartialEq, Eq)]
pub struct Children {
    pub tables: Vec<TableVo>,
    pub tasks: Vec<TaskVo>,
    pub areas: Vec<(String, AreaVo)>,
    pub references: Vec<(String, ReferenceVo)>,
    pub indices: Vec<(String, IndiceVo)>,
    pub notes: Vec<(String, NoteVo)>,
}

/// What the entities of every diagram in view hold.
pub struct ChildRows {
    pub tables: Seq<TableView>,
    pub tasks: Seq<TaskView>,
    pub areas: Seq<(Text, AreaRow)>,
    pub references: Seq<(Text, ReferenceRow)>,
    pub indices: Seq<(Text, IndiceRow)>,
    pub notes: Seq<(Text, NoteRow)>,
}

impl DeepView for Children {
    type V = ChildRows;

    open spec fn deep_view(&self) -> ChildRows {
        ChildRows {
            tables: self.tables.deep_view(),
            tasks: self.tasks.deep_view(),
            areas: self.areas.deep_view(),
            references: self.references.deep_view(),
            indices: self.indices.deep_view(),
            notes: self.notes.deep_view(),
        }
    }
}

/// A diagram with the entities that belong to it, each kind in the order in
/// which its rows came, and present even where it is empty.
pub open spec fn aggregate(diagram: DiagramRow, children: ChildRows) -> DiagramView {
    DiagramView {
        id: diagram.id,
        zoom: diagram.zoom,
        database: diagram.database,
        name: diagram.name,
        tables: Some(children.tables.filter(table_of(diagram.id))),
        areas: Some(children.areas.filter(keyed_by(diagram.id)).map_values(row_of())),
        references: Some(children.references.filter(keyed_by(diagram.id)).map_values(row_of())),
        indices: Some(children.indices.filter(keyed_by(diagram.id)).map_values(row_of())),
        notes: Some(children.notes.filter(keyed_by(diagram.id)).map_values(row_of())),
        tasks: Some(children.tasks.filter(task_of(diagram.id))),
        pan: diagram.pan,
        last_modified: diagram.last_modified,
    }
}

/// Every diagram of a list with the entities that belong to it.
pub open spec fn aggregates(diagrams: Seq<DiagramRow>, children: ChildRows) -> Seq<DiagramView> {
    Seq::new(diagrams.len(), |i: int| aggregate(diagrams[i], children))
}

/// Each table keyed by the diagram it belongs to.
fn keyed_tables(tables: &Vec<TableVo>) -> (pairs: Vec<(String, TableVo)>)
    ensures
        pairs.len() == tables.len(),
        forall|k: int|
            0 <= k < tables.len() ==> {
                &&& (#[trigger] pairs[k]).0@ == tables[k]@.diagram_id
                &&& pairs[k].1@ == tables[k]@
            },
{
    let mut pairs: Vec<(String, TableVo)> = Vec::new();
    let mut k: usize = 0;
    while k < tables.len()
        invariant
            k <= tables.len(),
            pairs.len() == k,
            forall|j: int|
                0 <= j < k ==> {
                    &&& (#[trigger] pairs[j]).0@ == tables[j]@.diagram_id
                    &&& pairs[j].1@ == tables[j]@
                },
        decreases tables.len() - k,
    {
        pairs.push((tables[k].diagram_id.clone(), tables[k].clone()));
        k = k + 1;
    }
    pairs
}

/// Each task keyed by the diagram it belongs to.
fn keyed_tasks(tasks: &Vec<TaskVo>) -> (pairs: Vec<(String, TaskVo)>)
    ensures
        pairs.len() == tasks.len(),
        forall|k: int|
            0 <= k < tasks.len() ==> {
                &&& (#[trigger] pairs[k]).0@ == tasks[k]@.diagram_id
                &&& pairs[k].1@ == tasks[k]@
            },
{
    let mut pairs: Vec<(String, TaskVo)> = Vec::new();
    let mut k: usize = 0;
    while k < tasks.len()
        invariant
            k <= tasks.len(),
            pairs.len() == k,
            forall|j: int|
                0 <= j < k ==> {
                    &&& (#[trigger] pairs[j]).0@ == tasks[j]@.diagram_id
                    &&& pairs[j].1@ == tasks[j]@
                },
        decreases tasks.len() - k,
    {
        pairs.push((tasks[k].diagram_id.clone(), tasks[k].clone()));
        k = k + 1;
    }
    pairs
}

/// Assembles every diagram of a list from rows that were read once for all of
/// them: each kind of entity is grouped by diagram in memory, and each diagram
/// is handed its own.
pub fn assemble_all_diagrams(diagrams: &Vec<DiagramModel>, children: Children) -> (vos: Vec<
    DiagramVo,
>)
    ensures
        vos.deep_view() == aggregates(diagrams.deep_view(), children.deep_view()),
{
    let ghost rows = children.deep_view();
    let table_pairs = keyed_tables(&children.tables);
    let task_pairs = keyed_tasks(&children.tasks);
    let ghost table_items = table_pairs@;
    let ghost task_items = task_pairs@;
    let ghost area_items = children.areas@;
    let ghost reference_items = children.references@;
    let ghost indice_items = children.indices@;
    let ghost note_items = children.notes@;
    let table_groups = group_by_key(table_pairs);
    let task_groups = group_by_key(task_pairs);
    let area_groups = group_by_key(children.areas);
    let reference_groups = group_by_key(children.references);
    let indice_groups = group_by_key(children.indices);
    let note_groups = group_by_key(children.notes);
    let mut vos: Vec<DiagramVo> = Vec::new();
    let mut i: usize = 0;
    while i < diagrams.len()
        invariant
            i <= diagrams.len(),
            vos.len() == i,
            grouped(table_items, table_groups@),
            grouped(task_items, task_groups@),
            grouped(area_items, area_groups@),
            grouped(reference_items, reference_groups@),
            grouped(indice_items, indice_groups@),
            grouped(note_items, note_groups@),
            table_items.len() == rows.tables.len(),
            task_items.len() == rows.tasks.len(),
            area_items.len() == rows.areas.len(),
            reference_items.len() == rows.references.len(),
            indice_items.len() == rows.indices.len(),
            note_items.len() == rows.notes.len(),
            forall|k: int|
                0 <= k < table_items.len() ==> {
                    &&& #[trigger] rows.tables[k] == table_items[k].1@
                    &&& table_items[k].0@ == rows.tables[k].diagram_id
                },
            forall|k: int|
                0 <= k < task_items.len() ==> {
                    &&& #[trigger] rows.tasks[k] == task_items[k].1@
                    &&& task_items[k].0@ == rows.tasks[k].diagram_id
                },
            forall|k: int|
                0 <= k < area_items.len() ==> #[trigger] rows.areas[k] == (
                    area_items[k].0@,
                    area_items[k].1@,
                ),
            forall|k: int|
                0 <= k < reference_items.len() ==> #[trigger] rows.references[k] == (
                    reference_items[k].0@,
                    reference_items[k].1@,
                ),
            forall|k: int|
                0 <= k < indice_items.len() ==> #[trigger] rows.indices[k] == (
                    indice_items[k].0@,
                    indice_items[k].1@,
                ),
            forall|k: int|
                0 <= k < note_items.len() ==> #[trigger] rows.notes[k] == (
                    note_items[k].0@,
                    note_items[k].1@,
                ),
            forall|j: int| 0 <= j < i ==> (#[trigger] vos[j])@ == aggregate(diagrams[j]@, rows),
        decreases diagrams.len() - i,
    {
        let diagram = &diagrams[i];
        let ghost parent = diagram.id@;
        let tables = children_of(&table_groups, &diagram.id, Ghost(table_items));
        let tasks = children_of(&task_groups, &diagram.id, Ghost(task_items));
        let areas = children_of(&area_groups, &diagram.id, Ghost(area_items));
        let references = children_of(&reference_groups, &diagram.id, Ghost(reference_items));
        let indices = children_of(&indice_groups, &diagram.id, Ghost(indice_items));
        let notes = children_of(&note_groups, &diagram.id, Ghost(note_items));
        proof {
            lemma_copies_of_owned(
                tables@,
                table_items,
                rows.tables,
                parent,
                table_held(),
                table_of(parent),
            );
            lemma_copies_of_owned(
                tasks@,
                task_items,
                rows.tasks,
                parent,
                task_held(),
                task_of(parent),
            );
            lemma_copies_of_keyed(areas@, area_items, rows.areas, parent, area_held());
            lemma_copies_of_keyed(
                references@,
                reference_items,
                rows.references,
                parent,
                reference_held(),
            );
            lemma_copies_of_keyed(indices@, indice_items, rows.indices, parent, indice_held());
            lemma_copies_of_keyed(notes@, note_items, rows.notes, parent, note_held());
            assert(tables.deep_view() =~= tables@.map_values(table_held()));
            assert(tasks.deep_view() =~= tasks@.map_values(task_held()));
            assert(areas.deep_view() =~= areas@.map_values(area_held()));
            assert(references.deep_view() =~= references@.map_values(reference_held()));
            assert(indices.deep_view() =~= indices@.map_values(indice_held()));
            assert(notes.deep_view() =~= notes@.map_values(note_held()));
        }
        vos.push(assemble_diagram(diagram, tables, areas, references, indices, notes, tasks));
        i = i + 1;
    }
    assert(vos.deep_view() =~= aggregates(diagrams.deep_view(), rows));
    vos
}

} // verus!
