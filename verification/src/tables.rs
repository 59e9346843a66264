//! The table consistency engine: every change to a table, its fields and the
//! links between them, planned as the writes of one transaction.

use crate::entity::dto::{FieldWithTable, JoinedField};
use crate::entity::model::{FieldModel, FieldRow, TableLinkModel, TableLinkRow, TableModel, TableRow};
use crate::entity::vo::table_vo::{build_table_link, FieldVo, FieldView, TableView, TableVo};
use crate::error::DrawDBError;
use crate::ids::{issued_in_order, lemma_issued_in_order_concat, next_id, next_ids, IdAllocator};
use crate::grouping::{find_group, group_by_key, grouped, key_is, lemma_filter_related};
use crate::seqs::lemma_filter_none;
use crate::store::{joined_keys, table_keys, Effect, Write};
use crate::text::Text;
use vstd::prelude::*;

verus! {

/// The field list that a view supplies; none counts as an empty one.
pub open spec fn supplied_fields(view: TableView) -> Seq<FieldView> {
    match view.fields {
        Some(fields) => fields,
        None => Seq::empty(),
    }
}

/// The rows that store `fields`, the i-th under the i-th identifier of `ids`.
pub open spec fn field_rows(fields: Seq<FieldView>, ids: Seq<Text>) -> Seq<FieldRow> {
    Seq::new(fields.len(), |i: int| FieldRow { id: ids[i], attrs: fields[i].attrs })
}

/// The links that bind each field of `field_ids` to table `table_id`, the i-th
/// under the i-th identifier of `link_ids`.
pub open spec fn link_rows(table_id: Text, field_ids: Seq<Text>, link_ids: Seq<Text>) -> Seq<
    TableLinkRow,
> {
    Seq::new(
        field_ids.len(),
        |i: int|
            TableLinkRow { id: link_ids[i], table_id: Some(table_id), field_id: Some(field_ids[i]) },
    )
}

/// The identifiers assigned to one new table: its own, one per field and one per
/// link.
#[derive(Debug, PartialEq, Eq)]
pub struct TableIds {
    pub table_id: String,
    pub field_ids: Vec<String>,
    pub link_ids: Vec<String>,
}

/// What the identifiers of one new table hold.
pub struct TableKeys {
    pub table_id: Text,
    pub field_ids: Seq<Text>,
    pub link_ids: Seq<Text>,
}

impl DeepView for TableIds {
    type V = TableKeys;

    open spec fn deep_view(&self) -> TableKeys {
        TableKeys {
            table_id: self.table_id@,
            field_ids: self.field_ids.deep_view(),
            link_ids: self.link_ids.deep_view(),
        }
    }
}

impl TableKeys {
    /// All of them, in the order in which they were allocated.
    pub open spec fn all(self) -> Seq<Text> {
        seq![self.table_id] + self.field_ids + self.link_ids
    }

    /// There is one field identifier and one link identifier for each field.
    pub open spec fn fits(self, view: TableView) -> bool {
        &&& self.field_ids.len() == supplied_fields(view).len()
        &&& self.link_ids.len() == supplied_fields(view).len()
    }
}

/// The writes that create a table from a view under the given identifiers: the
/// table row, then, where the view has fields, their rows and their links.
pub open spec fn insert_effects(view: TableView, keys: TableKeys) -> Seq<Effect> {
    let table = TableRow { id: keys.table_id, attrs: view.attrs };
    let fields = supplied_fields(view);
    if fields.len() > 0 {
        seq![
            Effect::InsertTables(seq![table]),
            Effect::InsertFields(field_rows(fields, keys.field_ids)),
            Effect::InsertTableLinks(link_rows(keys.table_id, keys.field_ids, keys.link_ids)),
        ]
    } else {
        seq![Effect::InsertTables(seq![table])]
    }
}

/// The writes that replace the fields of the table that `view` names: the row's
/// own attributes are updated, every field found linked to it and every link of
/// it is deleted, and the view's fields are inserted with new links.
pub open spec fn update_effects(
    view: TableView,
    existing: Seq<JoinedField>,
    field_ids: Seq<Text>,
    link_ids: Seq<Text>,
) -> Seq<Effect> {
    seq![
        Effect::UpdateTable(view.patch()),
        Effect::DeleteFields(joined_keys(existing)),
        Effect::DeleteTableLinksOf(view.id),
        Effect::InsertFields(field_rows(supplied_fields(view), field_ids)),
        Effect::InsertTableLinks(link_rows(view.id, field_ids, link_ids)),
    ]
}

/// The writes that remove a table: its row, its links to fields and to diagrams,
/// and the fields that were found linked to it.
pub open spec fn delete_effects(table_id: Text, linked: Seq<JoinedField>) -> Seq<Effect> {
    seq![
        Effect::DeleteTable(table_id),
        Effect::DeleteTableLinksOf(table_id),
        Effect::DeleteDiagramLinksOf(table_id),
        Effect::DeleteFields(joined_keys(linked)),
    ]
}

/// Appends to `rows` the rows that store `fields` under `ids`.
fn append_field_rows(rows: &mut Vec<FieldModel>, fields: &Vec<FieldVo>, ids: &Vec<String>)
    requires
        ids.len() == fields.len(),
    ensures
        final(rows).deep_view() == old(rows).deep_view() + field_rows(
            fields.deep_view(),
            ids.deep_view(),
        ),
{
    let ghost before = rows.deep_view();
    let ghost added = field_rows(fields.deep_view(), ids.deep_view());
    let mut i: usize = 0;
    while i < fields.len()
        invariant
            i <= fields.len(),
            ids.len() == fields.len(),
            added == field_rows(fields.deep_view(), ids.deep_view()),
            rows.deep_view() == before + added.take(i as int),
        decreases fields.len() - i,
    {
        let ghost so_far = rows.deep_view();
        let mut row = fields[i].convert_to_field();
        row.id = ids[i].clone();
        rows.push(row);
        i = i + 1;
        proof {
            assert(row@ == added[i - 1]);
            assert(rows.deep_view() =~= so_far.push(row@));
            assert(added.take(i as int) =~= added.take(i - 1).push(added[i - 1]));
            assert(rows.deep_view() =~= before + added.take(i as int));
        }
    }
    assert(added.take(fields.len() as int) =~= added);
}

/// Appends to `links` the links that bind the fields `field_ids` to `table_id`.
fn append_link_rows(
    links: &mut Vec<TableLinkModel>,
    table_id: &String,
    field_ids: &Vec<String>,
    link_ids: &Vec<String>,
)
    requires
        link_ids.len() == field_ids.len(),
    ensures
        final(links).deep_view() == old(links).deep_view() + link_rows(
            table_id@,
            field_ids.deep_view(),
            link_ids.deep_view(),
        ),
{
    let ghost before = links.deep_view();
    let ghost added = link_rows(table_id@, field_ids.deep_view(), link_ids.deep_view());
    let mut i: usize = 0;
    while i < field_ids.len()
        invariant
            i <= field_ids.len(),
            link_ids.len() == field_ids.len(),
            added == link_rows(table_id@, field_ids.deep_view(), link_ids.deep_view()),
            links.deep_view() == before + added.take(i as int),
        decreases field_ids.len() - i,
    {
        let ghost so_far = links.deep_view();
        let link = build_table_link(link_ids[i].clone(), table_id.clone(), field_ids[i].clone());
        links.push(link);
        i = i + 1;
        proof {
            assert(link@ == added[i - 1]);
            assert(links.deep_view() =~= so_far.push(link@));
            assert(added.take(i as int) =~= added.take(i - 1).push(added[i - 1]));
            assert(links.deep_view() =~= before + added.take(i as int));
        }
    }
    assert(added.take(field_ids.len() as int) =~= added);
}

/// The identifiers of the fields that a joined read returned.
pub fn joined_ids(rows: &Vec<FieldWithTable>) -> (ids: Vec<String>)
    ensures
        ids.deep_view() == joined_keys(rows.deep_view()),
{
    let mut ids: Vec<String> = Vec::new();
    let mut i: usize = 0;
    while i < rows.len()
        invariant
            i <= rows.len(),
            ids.len() == i,
            forall|j: int| 0 <= j < i ==> (#[trigger] ids[j])@ == rows[j]@.id,
        decreases rows.len() - i,
    {
        ids.push(rows[i].id.clone());
        i = i + 1;
    }
    assert(ids.deep_view() =~= joined_keys(rows.deep_view()));
    ids
}

/// A new table and the writes that create it.
#[derive(Debug, PartialEq, Eq)]
pub struct AddedTable {
    pub ids: TableIds,
    pub writes: Vec<Write>,
}

/// The number of fields that an executable view supplies.
fn field_count(table_vo: &TableVo) -> (count: usize)
    ensures
        count == supplied_fields(table_vo@).len(),
{
    match &table_vo.fields {
        Some(fields) => fields.len(),
        None => 0,
    }
}

/// Allocates the identifiers of one new table, its own first, then one per
/// field, then one per link.
fn allocate_table_ids(allocator: &mut IdAllocator, count: usize) -> (ids: TableIds)
    requires
        old(allocator).room() >= 1 + 2 * count,
    ensures
        ids.field_ids.len() == count,
        ids.link_ids.len() == count,
        issued_in_order(
            ids.deep_view().all(),
            old(allocator).watermark(),
            final(allocator).watermark(),
        ),
        final(allocator).room() >= old(allocator).room() - (1 + 2 * count),
        final(allocator).watermark() > old(allocator).watermark(),
{
    let ghost w0 = allocator.watermark();
    let table_id = next_id(allocator);
    let ghost w1 = allocator.watermark();
    let field_ids = next_ids(allocator, count);
    let ghost w2 = allocator.watermark();
    let link_ids = next_ids(allocator, count);
    let ghost w3 = allocator.watermark();
    let ids = TableIds { table_id, field_ids, link_ids };
    proof {
        let keys = ids.deep_view();
        assert(issued_in_order(seq![keys.table_id], w0, w1));
        lemma_issued_in_order_concat(seq![keys.table_id], keys.field_ids, w0, w1, w2);
        lemma_issued_in_order_concat(seq![keys.table_id] + keys.field_ids, keys.link_ids, w0, w2, w3);
    }
    ids
}

/// Plans the creation of a table with its fields. The identifier that the view
/// carries is discarded: the table, each field and each link get one from the
/// allocator, the i-th field identifier going to the i-th field. A view without
/// fields, or with an empty list, gives the table row alone.
pub fn add_table(allocator: &mut IdAllocator, table_vo: &TableVo) -> (added: AddedTable)
    requires
        old(allocator).room() >= 1 + 2 * supplied_fields(table_vo@).len(),
    ensures
        added.ids.deep_view().fits(table_vo@),
        added.writes.deep_view() == insert_effects(table_vo@, added.ids.deep_view()),
        issued_in_order(
            added.ids.deep_view().all(),
            old(allocator).watermark(),
            final(allocator).watermark(),
        ),
        final(allocator).room() >= old(allocator).room() - (1 + 2 * supplied_fields(
            table_vo@,
        ).len()),
{
    let count = field_count(table_vo);
    let ids = allocate_table_ids(allocator, count);
    let mut table = table_vo.convert_to_table();
    table.id = ids.table_id.clone();
    let mut tables: Vec<TableModel> = Vec::new();
    tables.push(table);
    let mut writes: Vec<Write> = Vec::new();
    writes.push(Write::InsertTables(tables));
    assert(tables.deep_view() =~= seq![TableRow { id: ids.table_id@, attrs: table_vo@.attrs }]);
    match &table_vo.fields {
        Some(fields) => {
            if count > 0 {
                let mut rows: Vec<FieldModel> = Vec::new();
                append_field_rows(&mut rows, fields, &ids.field_ids);
                let mut links: Vec<TableLinkModel> = Vec::new();
                append_link_rows(&mut links, &ids.table_id, &ids.field_ids, &ids.link_ids);
                assert(rows.deep_view() =~= field_rows(
                    fields.deep_view(),
                    ids.field_ids.deep_view(),
                ));
                assert(links.deep_view() =~= link_rows(
                    ids.table_id@,
                    ids.field_ids.deep_view(),
                    ids.link_ids.deep_view(),
                ));
                writes.push(Write::InsertFields(rows));
                writes.push(Write::InsertTableLinks(links));
            }
        },
        None => {},
    }
    assert(writes.deep_view() =~= insert_effects(table_vo@, ids.deep_view()));
    AddedTable { ids, writes }
}

/// The fields of a table replaced, and the writes that do it.
#[derive(Debug, PartialEq, Eq)]
pub struct UpdatedTable {
    pub field_ids: Vec<String>,
    pub link_ids: Vec<String>,
    pub writes: Vec<Write>,
}

/// Plans the update of a table from a view and the fields that were found linked
/// to it. A view without a field list is refused before anything is allocated or
/// written; an empty list is accepted and leaves the table without fields. The
/// supplied fields replace the existing ones: each gets a new identifier and a
/// new link, whatever identifier the view gave it. The linked fields are read
/// before the first write; the update of the row, which is the first write,
/// would not change what that read returns.
pub fn update_table(
    allocator: &mut IdAllocator,
    table_vo: &TableVo,
    existing: &Vec<FieldWithTable>,
) -> (result: Result<UpdatedTable, DrawDBError>)
    requires
        old(allocator).room() >= 2 * supplied_fields(table_vo@).len(),
    ensures
        result is Err <==> table_vo@.fields is None,
        result matches Err(error) ==> {
            &&& error.is_structural()
            &&& error matches DrawDBError::DeconstructError(detail) && detail@ == "fields is none"@
            &&& final(allocator).watermark() == old(allocator).watermark()
        },
        result matches Ok(updated) ==> {
            &&& updated.field_ids.len() == supplied_fields(table_vo@).len()
            &&& updated.link_ids.len() == supplied_fields(table_vo@).len()
            &&& updated.writes.deep_view() == update_effects(
                table_vo@,
                existing.deep_view(),
                updated.field_ids.deep_view(),
                updated.link_ids.deep_view(),
            )
            &&& issued_in_order(
                updated.field_ids.deep_view() + updated.link_ids.deep_view(),
                old(allocator).watermark(),
                final(allocator).watermark(),
            )
            &&& final(allocator).room() >= old(allocator).room() - 2 * supplied_fields(
                table_vo@,
            ).len()
        },
{
    match &table_vo.fields {
        None => Err(DrawDBError::DeconstructError("fields is none".to_string())),
        Some(fields) => {
            let ghost w0 = allocator.watermark();
            let field_ids = next_ids(allocator, fields.len());
            let ghost w1 = allocator.watermark();
            let link_ids = next_ids(allocator, fields.len());
            let ghost w2 = allocator.watermark();
            proof {
                lemma_issued_in_order_concat(
                    field_ids.deep_view(),
                    link_ids.deep_view(),
                    w0,
                    w1,
                    w2,
                );
            }
            let mut rows: Vec<FieldModel> = Vec::new();
            append_field_rows(&mut rows, fields, &field_ids);
            let mut links: Vec<TableLinkModel> = Vec::new();
            append_link_rows(&mut links, &table_vo.id, &field_ids, &link_ids);
            assert(rows.deep_view() =~= field_rows(fields.deep_view(), field_ids.deep_view()));
            assert(links.deep_view() =~= link_rows(
                table_vo.id@,
                field_ids.deep_view(),
                link_ids.deep_view(),
            ));
            let mut writes: Vec<Write> = Vec::new();
            writes.push(Write::UpdateTable(table_vo.convert_to_active_model()));
            writes.push(Write::DeleteFields(joined_ids(existing)));
            writes.push(Write::DeleteTableLinksOf(table_vo.id.clone()));
            writes.push(Write::InsertFields(rows));
            writes.push(Write::InsertTableLinks(links));
            assert(writes.deep_view() =~= update_effects(
                table_vo@,
                existing.deep_view(),
                field_ids.deep_view(),
                link_ids.deep_view(),
            ));
            Ok(UpdatedTable { field_ids, link_ids, writes })
        },
    }
}

/// Plans the removal of a table from its identifier and the fields that were
/// found linked to it: the table row, every link that names the table, and those
/// fields.
pub fn delete_table(table_id: &String, linked: &Vec<FieldWithTable>) -> (writes: Vec<Write>)
    ensures
        writes.deep_view() == delete_effects(table_id@, linked.deep_view()),
{
    let mut writes: Vec<Write> = Vec::new();
    writes.push(Write::DeleteTable(table_id.clone()));
    writes.push(Write::DeleteTableLinksOf(table_id.clone()));
    writes.push(Write::DeleteDiagramLinksOf(table_id.clone()));
    writes.push(Write::DeleteFields(joined_ids(linked)));
    assert(writes.deep_view() =~= delete_effects(table_id@, linked.deep_view()));
    writes
}

/// The identifiers needed to create the tables of `views`: one per table and two
/// per field.
pub open spec fn ids_needed(views: Seq<TableView>) -> nat
    decreases views.len(),
{
    if views.len() == 0 {
        0
    } else {
        ids_needed(views.drop_last()) + 1 + 2 * supplied_fields(views.last()).len()
    }
}

/// The identifiers of several new tables, table after table.
pub open spec fn all_keys(keys: Seq<TableKeys>) -> Seq<Text>
    decreases keys.len(),
{
    if keys.len() == 0 {
        Seq::empty()
    } else {
        all_keys(keys.drop_last()) + keys.last().all()
    }
}

/// The table rows of a batch: the i-th view under the i-th table identifier.
pub open spec fn batch_table_rows(views: Seq<TableView>, keys: Seq<TableKeys>) -> Seq<TableRow> {
    Seq::new(views.len(), |i: int| TableRow { id: keys[i].table_id, attrs: views[i].attrs })
}

/// The field rows of a batch: each table's fields under that table's own field
/// identifiers, table after table.
pub open spec fn batch_field_rows(views: Seq<TableView>, keys: Seq<TableKeys>) -> Seq<FieldRow>
    decreases views.len(),
{
    if views.len() == 0 {
        Seq::empty()
    } else {
        batch_field_rows(views.drop_last(), keys.drop_last()) + field_rows(
            supplied_fields(views.last()),
            keys.last().field_ids,
        )
    }
}

/// The links of a batch: each table's fields bound to that table, table after
/// table.
pub open spec fn batch_link_rows(views: Seq<TableView>, keys: Seq<TableKeys>) -> Seq<TableLinkRow>
    decreases views.len(),
{
    if views.len() == 0 {
        Seq::empty()
    } else {
        batch_link_rows(views.drop_last(), keys.drop_last()) + link_rows(
            keys.last().table_id,
            keys.last().field_ids,
            keys.last().link_ids,
        )
    }
}

/// The writes that create several tables at once: all table rows, then all field
/// rows, then all links, three inserts whatever the number of tables and fields.
pub open spec fn batch_effects(views: Seq<TableView>, keys: Seq<TableKeys>) -> Seq<Effect> {
    seq![
        Effect::InsertTables(batch_table_rows(views, keys)),
        Effect::InsertFields(batch_field_rows(views, keys)),
        Effect::InsertTableLinks(batch_link_rows(views, keys)),
    ]
}

/// A prefix of a batch needs no more identifiers than the whole batch.
pub proof fn lemma_ids_needed_prefix(views: Seq<TableView>, n: int)
    requires
        0 <= n <= views.len(),
    ensures
        ids_needed(views.take(n)) <= ids_needed(views),
    decreases views.len(),
{
    if n == views.len() {
        assert(views.take(n) =~= views);
    } else {
        assert(views.take(n) =~= views.drop_last().take(n));
        lemma_ids_needed_prefix(views.drop_last(), n);
    }
}

/// Several new tables and the writes that create them.
#[derive(Debug, PartialEq, Eq)]
pub struct AddedTables {
    pub ids: Vec<TableIds>,
    pub writes: Vec<Write>,
}

/// Plans the creation of several tables in three inserts. Each table gets its
/// identifiers in one run of the allocator, its own, then its fields', then its
/// links', so that no identifier of one table is used for another.
pub fn batch_add_table(allocator: &mut IdAllocator, table_vos: &Vec<TableVo>) -> (added:
    AddedTables)
    requires
        old(allocator).room() >= ids_needed(table_vos.deep_view()),
    ensures
        added.ids.len() == table_vos.len(),
        forall|i: int|
            0 <= i < table_vos.len() ==> (#[trigger] added.ids.deep_view()[i]).fits(
                table_vos.deep_view()[i],
            ),
        added.writes.deep_view() == batch_effects(table_vos.deep_view(), added.ids.deep_view()),
        issued_in_order(
            all_keys(added.ids.deep_view()),
            old(allocator).watermark(),
            final(allocator).watermark(),
        ),
        final(allocator).room() >= old(allocator).room() - ids_needed(table_vos.deep_view()),
{
    let ghost views = table_vos.deep_view();
    let ghost w0 = allocator.watermark();
    let ghost room0 = allocator.room();
    let mut ids: Vec<TableIds> = Vec::new();
    let mut tables: Vec<TableModel> = Vec::new();
    let mut fields: Vec<FieldModel> = Vec::new();
    let mut links: Vec<TableLinkModel> = Vec::new();
    let mut i: usize = 0;
    assert(views.take(0) =~= Seq::<TableView>::empty());
    assert(ids.deep_view() =~= Seq::<TableKeys>::empty());
    assert(fields.deep_view() =~= Seq::<FieldRow>::empty());
    assert(links.deep_view() =~= Seq::<TableLinkRow>::empty());
    while i < table_vos.len()
        invariant
            i <= table_vos.len(),
            views == table_vos.deep_view(),
            w0 == old(allocator).watermark(),
            room0 == old(allocator).room(),
            room0 >= ids_needed(views),
            ids.len() == i,
            tables.len() == i,
            forall|j: int| 0 <= j < i ==> (#[trigger] ids.deep_view()[j]).fits(views[j]),
            forall|j: int|
                0 <= j < i ==> (#[trigger] tables[j])@ == (TableRow {
                    id: ids.deep_view()[j].table_id,
                    attrs: views[j].attrs,
                }),
            fields.deep_view() == batch_field_rows(views.take(i as int), ids.deep_view()),
            links.deep_view() == batch_link_rows(views.take(i as int), ids.deep_view()),
            issued_in_order(all_keys(ids.deep_view()), w0, allocator.watermark()),
            allocator.watermark() >= w0,
            allocator.room() >= room0 - ids_needed(views.take(i as int)),
        decreases table_vos.len() - i,
    {
        let ghost keys_before = ids.deep_view();
        let ghost w1 = allocator.watermark();
        let table_vo = &table_vos[i];
        proof {
            lemma_ids_needed_prefix(views, i + 1);
            assert(views.take(i + 1).drop_last() =~= views.take(i as int));
            assert(views.take(i + 1).last() == views[i as int]);
            assert(table_vo@ == views[i as int]);
        }
        let count = field_count(table_vo);
        let own = allocate_table_ids(allocator, count);
        let mut table = table_vo.convert_to_table();
        table.id = own.table_id.clone();
        tables.push(table);
        match &table_vo.fields {
            Some(list) => {
                append_field_rows(&mut fields, list, &own.field_ids);
                append_link_rows(&mut links, &own.table_id, &own.field_ids, &own.link_ids);
            },
            None => {
                append_link_rows(&mut links, &own.table_id, &own.field_ids, &own.link_ids);
                assert(field_rows(supplied_fields(table_vo@), own.field_ids.deep_view())
                    =~= Seq::<FieldRow>::empty());
                assert(fields.deep_view() + Seq::<FieldRow>::empty() =~= fields.deep_view());
            },
        }
        let ghost own_keys = own.deep_view();
        ids.push(own);
        i = i + 1;
        proof {
            let keys = ids.deep_view();
            assert(keys =~= keys_before.push(own_keys));
            assert(keys.drop_last() =~= keys_before);
            assert(keys.last() == own_keys);
            lemma_issued_in_order_concat(
                all_keys(keys_before),
                own_keys.all(),
                w0,
                w1,
                allocator.watermark(),
            );
            assert forall|j: int| 0 <= j < i implies (#[trigger] keys[j]).fits(views[j]) by {
                if j < i - 1 {
                    assert(keys[j] == keys_before[j]);
                }
            }
            assert forall|j: int| 0 <= j < i implies (#[trigger] tables[j])@ == (TableRow {
                id: keys[j].table_id,
                attrs: views[j].attrs,
            }) by {
                if j < i - 1 {
                    assert(keys[j] == keys_before[j]);
                }
            }
        }
    }
    proof {
        assert(views.take(table_vos.len() as int) =~= views);
        assert(tables.deep_view() =~= batch_table_rows(views, ids.deep_view()));
    }
    let mut writes: Vec<Write> = Vec::new();
    writes.push(Write::InsertTables(tables));
    writes.push(Write::InsertFields(fields));
    writes.push(Write::InsertTableLinks(links));
    assert(writes.deep_view() =~= batch_effects(views, ids.deep_view()));
    AddedTables { ids, writes }
}

/// The identifiers of table rows, for the read that fetches their fields.
pub fn table_ids(tables: &Vec<TableModel>) -> (ids: Vec<String>)
    ensures
        ids.deep_view() == table_keys(tables.deep_view()),
{
    let mut ids: Vec<String> = Vec::new();
    let mut i: usize = 0;
    while i < tables.len()
        invariant
            i <= tables.len(),
            ids.len() == i,
            forall|j: int| 0 <= j < i ==> (#[trigger] ids[j])@ == tables[j]@.id,
        decreases tables.len() - i,
    {
        ids.push(tables[i].id.clone());
        i = i + 1;
    }
    assert(ids.deep_view() =~= table_keys(tables.deep_view()));
    ids
}

/// The joined rows that belong to table `table_id`.
pub open spec fn joined_of(table_id: Text) -> spec_fn(JoinedField) -> bool {
    |row: JoinedField| row.table_id == table_id
}

/// The wire form of a joined row.
pub open spec fn field_view_of() -> spec_fn(JoinedField) -> FieldView {
    |row: JoinedField| FieldView { id: row.id, table_id: Some(row.table_id), attrs: row.attrs }
}

/// The fields of table `table_id` among joined rows, in the order of the rows.
pub open spec fn fields_under(joined: Seq<JoinedField>, table_id: Text) -> Seq<FieldView> {
    joined.filter(joined_of(table_id)).map_values(field_view_of())
}

/// The tables of a diagram as a read hands them out: each table row with the
/// joined rows that belong to it as its field list, which is empty, never absent,
/// for a table without fields.
pub open spec fn assembled(
    tables: Seq<TableRow>,
    joined: Seq<JoinedField>,
    diagram_id: Text,
) -> Seq<TableView> {
    Seq::new(
        tables.len(),
        |i: int|
            TableView {
                id: tables[i].id,
                attrs: tables[i].attrs,
                fields: Some(fields_under(joined, tables[i].id)),
                diagram_id,
            },
    )
}

/// The view of the field that a keyed pair carries.
pub open spec fn carried_view() -> spec_fn((String, FieldVo)) -> FieldView {
    |pair: (String, FieldVo)| pair.1@
}

/// Each joined row as a wire field, keyed by the table it belongs to.
fn keyed_fields(fields: &Vec<FieldWithTable>) -> (pairs: Vec<(String, FieldVo)>)
    ensures
        pairs.len() == fields.len(),
        forall|k: int|
            0 <= k < fields.len() ==> {
                &&& (#[trigger] pairs[k]).0@ == fields[k]@.table_id
                &&& pairs[k].1@ == field_view_of()(fields[k]@)
            },
{
    let mut pairs: Vec<(String, FieldVo)> = Vec::new();
    let mut k: usize = 0;
    while k < fields.len()
        invariant
            k <= fields.len(),
            pairs.len() == k,
            forall|j: int|
                0 <= j < k ==> {
                    &&& (#[trigger] pairs[j]).0@ == fields[j]@.table_id
                    &&& pairs[j].1@ == field_view_of()(fields[j]@)
                },
        decreases fields.len() - k,
    {
        let vo = FieldVo::build_from_field_with_table(fields[k].clone());
        pairs.push((fields[k].table_id.clone(), vo));
        k = k + 1;
    }
    pairs
}

/// The fields that a group carries, without their keys.
fn carried_fields(group: &Vec<(String, FieldVo)>) -> (list: Vec<FieldVo>)
    ensures
        list.deep_view() == group@.map_values(carried_view()),
{
    let mut list: Vec<FieldVo> = Vec::new();
    let mut m: usize = 0;
    while m < group.len()
        invariant
            m <= group.len(),
            list.len() == m,
            forall|j: int| 0 <= j < m ==> (#[trigger] list[j]) == group[j].1,
        decreases group.len() - m,
    {
        list.push(group[m].1.clone());
        m = m + 1;
    }
    assert(list.deep_view() =~= group@.map_values(carried_view()));
    list
}

/// Assembles the tables of a diagram from the two reads: the table rows bound to
/// the diagram and the joined field rows of those tables. The fields are grouped
/// by table in memory; each table comes out with its own fields in the order in
/// which the read returned them.
pub fn query_tables(
    tables: &Vec<TableModel>,
    fields: &Vec<FieldWithTable>,
    diagram_id: &String,
) -> (vos: Vec<TableVo>)
    ensures
        vos.deep_view() == assembled(tables.deep_view(), fields.deep_view(), diagram_id@),
{
    let pairs = keyed_fields(fields);
    let ghost items = pairs@;
    let ghost joined = fields.deep_view();
    let groups = group_by_key(pairs);
    let mut vos: Vec<TableVo> = Vec::new();
    let mut i: usize = 0;
    while i < tables.len()
        invariant
            i <= tables.len(),
            vos.len() == i,
            joined == fields.deep_view(),
            items.len() == joined.len(),
            grouped(items, groups@),
            forall|k: int|
                0 <= k < items.len() ==> {
                    &&& (#[trigger] items[k]).0@ == joined[k].table_id
                    &&& items[k].1@ == field_view_of()(joined[k])
                },
            forall|j: int|
                0 <= j < i ==> (#[trigger] vos[j])@ == (TableView {
                    id: tables[j]@.id,
                    attrs: tables[j]@.attrs,
                    fields: Some(fields_under(joined, tables[j]@.id)),
                    diagram_id: diagram_id@,
                }),
        decreases tables.len() - i,
    {
        let table = tables[i].clone();
        let ghost key = table.id@;
        proof {
            assert forall|k: int| 0 <= k < items.len() implies key_is::<FieldVo>(key)(
                #[trigger] items[k],
            ) == joined_of(key)(joined[k]) by {}
            assert forall|k: int| 0 <= k < items.len() implies carried_view()(#[trigger] items[k])
                == field_view_of()(joined[k]) by {}
            lemma_filter_related(
                items,
                joined,
                key_is::<FieldVo>(key),
                joined_of(key),
                carried_view(),
                field_view_of(),
            );
        }
        let list = match find_group(&groups, &table.id) {
            Some(g) => carried_fields(&groups[g].1),
            None => {
                proof {
                    assert forall|k: int| 0 <= k < items.len() implies !key_is::<FieldVo>(key)(
                        #[trigger] items[k],
                    ) by {
                        let g = choose|g: int|
                            0 <= g < groups.len() && (#[trigger] groups[g]).0@ == items[k].0@;
                        assert(groups[g].0@ != key);
                    }
                    lemma_filter_none(items, key_is::<FieldVo>(key));
                }
                Vec::new()
            },
        };
        assert(list.deep_view() =~= fields_under(joined, key));
        vos.push(TableVo::build_from_table(table, Some(list), diagram_id.clone()));
        i = i + 1;
    }
    assert(vos.deep_view() =~= assembled(tables.deep_view(), fields.deep_view(), diagram_id@));
    vos
}

} // verus!
