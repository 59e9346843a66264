//! What holds of the engine's plans once storage has run them: the laws that tie
//! the writes of `tables` to the reads of `store`.

use crate::entity::dto::JoinedField;
use crate::entity::model::{DiagramLinkRow, FieldRow, TableLinkRow, TableRow};
use crate::ids::{id_number, id_text, issued_in_order};
use crate::entity::vo::table_vo::{FieldView, TableView};
use crate::ids::pairwise_distinct;
use crate::seqs::{
    lemma_filter_all, lemma_filter_key_origin, lemma_filter_keeps_unique, lemma_filter_membership,
    lemma_filter_none, lemma_filter_one, lemma_no_duplicates_add,
};
use crate::store::{
    diagram_link_keys, diagram_link_not_of, field_is, field_key, field_keys, field_not_among,
    joined, joined_keys, link_not_of, patched, table_is_not, table_key, table_keys,
    table_link_key, table_link_keys, Database, Effect, Fault,
};
use crate::tables::{
    assembled, delete_effects, field_rows, fields_under, insert_effects, joined_of, link_rows,
    supplied_fields, update_effects, TableKeys,
};
use crate::text::Text;
use vstd::prelude::*;

verus! {

/// The identifiers `ids` are new to `db` and differ from each other.
pub open spec fn fresh(db: Database, ids: Seq<Text>) -> bool {
    &&& pairwise_distinct(ids)
    &&& forall|i: int| 0 <= i < ids.len() ==> db.unused(#[trigger] ids[i])
}

/// The link row that binds a table to a diagram.
pub open spec fn diagram_link(link_id: Text, diagram_id: Text, table_id: Text) -> DiagramLinkRow {
    DiagramLinkRow {
        id: link_id,
        diagram_id: Some(diagram_id),
        task_id: None,
        table_id: Some(table_id),
    }
}

/// The joined rows under which the fields of a new table are read back: the
/// i-th supplied field under the i-th field identifier, bound to the table.
pub open spec fn expected_joined(
    fields: Seq<FieldView>,
    field_ids: Seq<Text>,
    table_id: Text,
) -> Seq<JoinedField> {
    Seq::new(
        fields.len(),
        |i: int| JoinedField { id: field_ids[i], table_id, attrs: fields[i].attrs },
    )
}

/// The field list with which a new table is read back.
pub open spec fn expected_fields(
    fields: Seq<FieldView>,
    field_ids: Seq<Text>,
    table_id: Text,
) -> Seq<FieldView> {
    Seq::new(
        fields.len(),
        |i: int| FieldView { id: field_ids[i], table_id: Some(table_id), attrs: fields[i].attrs },
    )
}

/// An identifier that a database does not use is the key of none of its rows.
pub proof fn lemma_unused_is_no_key(db: Database, id: Text)
    requires
        db.unused(id),
    ensures
        !table_keys(db.tables).contains(id),
        !field_keys(db.fields).contains(id),
        !table_link_keys(db.table_links).contains(id),
        !diagram_link_keys(db.diagram_links).contains(id),
{
    if table_keys(db.tables).contains(id) {
        let i = choose|i: int| 0 <= i < db.tables.len() && table_keys(db.tables)[i] == id;
        assert(db.tables[i].id == id);
    }
    if field_keys(db.fields).contains(id) {
        let i = choose|i: int| 0 <= i < db.fields.len() && field_keys(db.fields)[i] == id;
        assert(db.fields[i].id == id);
    }
    if table_link_keys(db.table_links).contains(id) {
        let i = choose|i: int|
            0 <= i < db.table_links.len() && table_link_keys(db.table_links)[i] == id;
        assert(db.table_links[i].id == id);
    }
    if diagram_link_keys(db.diagram_links).contains(id) {
        let i = choose|i: int|
            0 <= i < db.diagram_links.len() && diagram_link_keys(db.diagram_links)[i] == id;
        assert(db.diagram_links[i].id == id);
    }
}

/// Rows with unique keys hold exactly one row of a key that occurs.
pub proof fn lemma_filter_by_key(fields: Seq<FieldRow>, k: int)
    requires
        field_keys(fields).no_duplicates(),
        0 <= k < fields.len(),
    ensures
        fields.filter(field_is(fields[k].id)) == seq![fields[k]],
{
    let pred = field_is(fields[k].id);
    assert forall|i: int| 0 <= i < fields.len() && i != k implies !pred(#[trigger] fields[i]) by {
        assert(field_keys(fields)[i] == fields[i].id);
        assert(field_keys(fields)[k] == fields[k].id);
    }
    lemma_filter_one(fields, pred, k);
}

/// The join over two runs of links is the join over the first followed by the
/// join over the second.
pub proof fn lemma_joined_over_add(
    db: Database,
    a: Seq<TableLinkRow>,
    b: Seq<TableLinkRow>,
    table_ids: Seq<Text>,
)
    ensures
        db.joined_over(a + b, table_ids) == db.joined_over(a, table_ids) + db.joined_over(
            b,
            table_ids,
        ),
    decreases b.len(),
{
    if b.len() == 0 {
        assert(a + b =~= a);
        assert(db.joined_over(a, table_ids) + Seq::<JoinedField>::empty() =~= db.joined_over(
            a,
            table_ids,
        ));
    } else {
        assert((a + b).drop_last() =~= a + b.drop_last());
        assert((a + b).last() == b.last());
        lemma_joined_over_add(db, a, b.drop_last(), table_ids);
        assert(db.joined_over(a, table_ids) + db.joined_over(b.drop_last(), table_ids)
            + db.joined_by(b.last(), table_ids) =~= db.joined_over(a, table_ids) + (db.joined_over(
            b.drop_last(),
            table_ids,
        ) + db.joined_by(b.last(), table_ids)));
    }
}

/// Links that bind nothing to the tables asked for contribute nothing to the
/// join.
pub proof fn lemma_joined_over_none(db: Database, links: Seq<TableLinkRow>, table_ids: Seq<Text>)
    requires
        forall|i: int|
            0 <= i < links.len() ==> match (#[trigger] links[i]).table_id {
                Some(t) => !table_ids.contains(t),
                None => true,
            },
    ensures
        db.joined_over(links, table_ids) == Seq::<JoinedField>::empty(),
    decreases links.len(),
{
    if links.len() > 0 {
        assert forall|i: int| 0 <= i < links.drop_last().len() implies match (
        #[trigger] links.drop_last()[i]).table_id {
            Some(t) => !table_ids.contains(t),
            None => true,
        } by {
            assert(links.drop_last()[i] == links[i]);
        }
        lemma_joined_over_none(db, links.drop_last(), table_ids);
        assert(links.last() == links[links.len() - 1]);
        assert(db.joined_by(links.last(), table_ids) =~= Seq::<JoinedField>::empty());
        assert(Seq::<JoinedField>::empty() + Seq::<JoinedField>::empty() =~= Seq::<
            JoinedField,
        >::empty());
    }
}

/// The links of a table's own fields join to exactly those fields, in order,
/// where the field relation has unique keys and holds a row for each of them.
pub proof fn lemma_joined_over_own_links(
    db: Database,
    table_id: Text,
    fields: Seq<FieldView>,
    field_ids: Seq<Text>,
    link_ids: Seq<Text>,
)
    requires
        field_keys(db.fields).no_duplicates(),
        field_ids.len() == fields.len(),
        forall|i: int|
            0 <= i < fields.len() ==> db.fields.contains(
                #[trigger] field_rows(fields, field_ids)[i],
            ),
    ensures
        db.joined_over(link_rows(table_id, field_ids, link_ids), seq![table_id])
            == expected_joined(fields, field_ids, table_id),
    decreases fields.len(),
{
    let links = link_rows(table_id, field_ids, link_ids);
    let wanted = seq![table_id];
    if fields.len() == 0 {
        assert(expected_joined(fields, field_ids, table_id) =~= Seq::<JoinedField>::empty());
    } else {
        let n = fields.len() - 1;
        let fewer = fields.drop_last();
        let fewer_ids = field_ids.drop_last();
        assert forall|i: int| 0 <= i < fewer.len() implies db.fields.contains(
            #[trigger] field_rows(fewer, fewer_ids)[i],
        ) by {
            assert(field_rows(fewer, fewer_ids)[i] == field_rows(fields, field_ids)[i]);
        }
        lemma_joined_over_own_links(db, table_id, fewer, fewer_ids, link_ids);
        assert(links.drop_last() =~= link_rows(table_id, fewer_ids, link_ids));
        let row = field_rows(fields, field_ids)[n];
        assert(db.fields.contains(row));
        let k = choose|k: int| 0 <= k < db.fields.len() && db.fields[k] == row;
        lemma_filter_by_key(db.fields, k);
        assert(wanted[0] == table_id);
        assert(wanted.contains(table_id));
        assert(links.last() == TableLinkRow {
            id: link_ids[n],
            table_id: Some(table_id),
            field_id: Some(field_ids[n]),
        });
        assert(db.joined_by(links.last(), wanted) =~= seq![joined(row, table_id)]);
        assert(expected_joined(fields, field_ids, table_id) =~= expected_joined(
            fewer,
            fewer_ids,
            table_id,
        ) + seq![joined(row, table_id)]);
    }
}

/// The keys of planned field rows are the identifiers they were planned under.
pub proof fn lemma_planned_keys(
    table_id: Text,
    fields: Seq<FieldView>,
    field_ids: Seq<Text>,
    link_ids: Seq<Text>,
)
    requires
        field_ids.len() == fields.len(),
        link_ids.len() == fields.len(),
    ensures
        field_keys(field_rows(fields, field_ids)) == field_ids,
        table_link_keys(link_rows(table_id, field_ids, link_ids)) == link_ids,
{
    assert(field_keys(field_rows(fields, field_ids)) =~= field_ids);
    assert(table_link_keys(link_rows(table_id, field_ids, link_ids)) =~= link_ids);
}

/// Rows with fresh keys can be inserted: the keys stay unique.
pub proof fn lemma_fresh_keys_fit(existing: Seq<Text>, added: Seq<Text>)
    requires
        existing.no_duplicates(),
        pairwise_distinct(added),
        forall|i: int| 0 <= i < added.len() ==> !existing.contains(#[trigger] added[i]),
    ensures
        (existing + added).no_duplicates(),
{
    assert(added.no_duplicates()) by {
        assert forall|i: int, j: int|
            0 <= i < added.len() && 0 <= j < added.len() && i != j implies added[i]
            != added[j] by {
            if i < j {
                assert(added[i] != added[j]);
            } else {
                assert(added[j] != added[i]);
            }
        }
    }
    assert forall|i: int, j: int| 0 <= i < existing.len() && 0 <= j < added.len() implies existing[i]
        != added[j] by {
        if existing[i] == added[j] {
            assert(existing.contains(added[j]));
        }
    }
    lemma_no_duplicates_add(existing, added);
}

/// The state after a new table's writes ran on a database to which its
/// identifiers are new: the planned rows are appended to the three relations and
/// nothing else changes.
pub proof fn lemma_insert_effects_append(db: Database, view: TableView, keys: TableKeys)
    requires
        db.well_formed(),
        keys.fits(view),
        fresh(db, keys.all()),
    ensures
        db.apply_all(insert_effects(view, keys)) == Ok::<Database, Fault>(
            Database {
                tables: db.tables + seq![TableRow { id: keys.table_id, attrs: view.attrs }],
                fields: db.fields + field_rows(supplied_fields(view), keys.field_ids),
                table_links: db.table_links + link_rows(
                    keys.table_id,
                    keys.field_ids,
                    keys.link_ids,
                ),
                diagram_links: db.diagram_links,
            },
        ),
        db.transact(insert_effects(view, keys)).well_formed(),
{
    let fields = supplied_fields(view);
    let all = keys.all();
    let k = fields.len() as int;
    let table = TableRow { id: keys.table_id, attrs: view.attrs };
    let rows = field_rows(fields, keys.field_ids);
    let links = link_rows(keys.table_id, keys.field_ids, keys.link_ids);
    assert(all[0] == keys.table_id);
    assert forall|i: int| 0 <= i < k implies all[1 + i] == keys.field_ids[i] && all[1 + k + i]
        == keys.link_ids[i] by {}
    lemma_unused_is_no_key(db, keys.table_id);
    assert(table_keys(db.tables + seq![table]) =~= table_keys(db.tables) + seq![keys.table_id]);
    lemma_fresh_keys_fit(table_keys(db.tables), seq![keys.table_id]);
    lemma_planned_keys(keys.table_id, fields, keys.field_ids, keys.link_ids);
    assert(field_keys(db.fields + rows) =~= field_keys(db.fields) + keys.field_ids);
    assert(table_link_keys(db.table_links + links) =~= table_link_keys(db.table_links)
        + keys.link_ids);
    assert(pairwise_distinct(keys.field_ids)) by {
        assert forall|i: int, j: int| 0 <= i < j < k implies #[trigger] keys.field_ids[i]
            != #[trigger] keys.field_ids[j] by {
            assert(all[1 + i] != all[1 + j]);
        }
    }
    assert(pairwise_distinct(keys.link_ids)) by {
        assert forall|i: int, j: int| 0 <= i < j < k implies #[trigger] keys.link_ids[i]
            != #[trigger] keys.link_ids[j] by {
            assert(all[1 + k + i] != all[1 + k + j]);
        }
    }
    assert forall|i: int| 0 <= i < k implies !field_keys(db.fields).contains(
        #[trigger] keys.field_ids[i],
    ) by {
        assert(db.unused(all[1 + i]));
        lemma_unused_is_no_key(db, keys.field_ids[i]);
    }
    assert forall|i: int| 0 <= i < k implies !table_link_keys(db.table_links).contains(
        #[trigger] keys.link_ids[i],
    ) by {
        assert(db.unused(all[1 + k + i]));
        lemma_unused_is_no_key(db, keys.link_ids[i]);
    }
    lemma_fresh_keys_fit(field_keys(db.fields), keys.field_ids);
    lemma_fresh_keys_fit(table_link_keys(db.table_links), keys.link_ids);
    let effects = insert_effects(view, keys);
    let first = Database { tables: db.tables + seq![table], ..db };
    if k > 0 {
        let one = effects.drop_last().drop_last();
        assert(one.drop_last() =~= Seq::<Effect>::empty());
        assert(db.apply_all(one.drop_last()) == Ok::<Database, Fault>(db));
        assert(db.apply_all(one) == Ok::<Database, Fault>(first));
        let second = Database { fields: db.fields + rows, ..first };
        assert(db.apply_all(effects.drop_last()) == Ok::<Database, Fault>(second));
    } else {
        assert(effects.drop_last() =~= Seq::<Effect>::empty());
        assert(db.apply_all(effects.drop_last()) == Ok::<Database, Fault>(db));
        assert(rows =~= Seq::<FieldRow>::empty());
        assert(links =~= Seq::<TableLinkRow>::empty());
        assert(db.fields + rows =~= db.fields);
        assert(db.table_links + links =~= db.table_links);
    }
}

/// The state after a table was bound to a diagram under a new link key: the
/// link is appended and nothing else changes.
pub proof fn lemma_bind_appends(db: Database, link_id: Text, diagram_id: Text, table_id: Text)
    requires
        db.well_formed(),
        !diagram_link_keys(db.diagram_links).contains(link_id),
    ensures
        db.transact(
            seq![Effect::InsertDiagramLinks(seq![diagram_link(link_id, diagram_id, table_id)])],
        ) == (Database {
            diagram_links: db.diagram_links + seq![diagram_link(link_id, diagram_id, table_id)],
            ..db
        }),
{
    let dlink = diagram_link(link_id, diagram_id, table_id);
    let bind = seq![Effect::InsertDiagramLinks(seq![dlink])];
    assert(diagram_link_keys(db.diagram_links + seq![dlink]) =~= diagram_link_keys(
        db.diagram_links,
    ) + seq![link_id]);
    lemma_fresh_keys_fit(diagram_link_keys(db.diagram_links), seq![link_id]);
    assert(bind.drop_last() =~= Seq::<Effect>::empty());
    assert(db.apply_all(bind.drop_last()) == Ok::<Database, Fault>(db));
}

/// A diagram that held no table holds exactly the new one once the new table's
/// row and its link to the diagram are in.
pub proof fn lemma_only_new_table_held(
    db: Database,
    bound: Database,
    table: TableRow,
    link_id: Text,
    diagram_id: Text,
)
    requires
        db.tables_of_diagram(diagram_id).len() == 0,
        forall|i: int| 0 <= i < db.tables.len() ==> (#[trigger] db.tables[i]).id != table.id,
        bound.tables == db.tables + seq![table],
        bound.diagram_links == db.diagram_links + seq![
            diagram_link(link_id, diagram_id, table.id),
        ],
    ensures
        bound.tables_of_diagram(diagram_id) == seq![table],
{
    let dlink = diagram_link(link_id, diagram_id, table.id);
    let held = bound.held_by(diagram_id);
    assert forall|i: int| 0 <= i < db.tables.len() implies !held(#[trigger] db.tables[i]) by {
        let r = db.tables[i];
        if bound.diagram_holds(diagram_id, r.id) {
            let j = choose|j: int|
                0 <= j < bound.diagram_links.len() && (#[trigger] bound.diagram_links[j]).diagram_id
                    == Some(diagram_id) && bound.diagram_links[j].table_id == Some(r.id);
            if j < db.diagram_links.len() {
                assert(bound.diagram_links[j] == db.diagram_links[j]);
                assert(db.diagram_holds(diagram_id, r.id));
                assert(db.held_by(diagram_id)(r));
                assert(db.tables.contains(r));
                lemma_filter_membership(db.tables, db.held_by(diagram_id), r);
                assert(db.tables_of_diagram(diagram_id).contains(r));
            } else {
                assert(bound.diagram_links[j] == dlink);
            }
        }
    }
    assert(held(table)) by {
        let j = db.diagram_links.len() as int;
        assert(bound.diagram_links[j] == dlink);
    }
    lemma_filter_none(db.tables, held);
    lemma_filter_all(seq![table], held);
    Seq::filter_distributes_over_add(db.tables, seq![table], held);
    assert(Seq::<TableRow>::empty() + seq![table] =~= seq![table]);
}

/// Once the rows and links of a table's fields are appended to relations that
/// did not mention the table, a read of the table's fields finds exactly them.
pub proof fn lemma_join_finds_appended(
    old_links: Seq<TableLinkRow>,
    after: Database,
    table_id: Text,
    fields: Seq<FieldView>,
    field_ids: Seq<Text>,
    link_ids: Seq<Text>,
)
    requires
        field_ids.len() == fields.len(),
        field_keys(after.fields).no_duplicates(),
        after.table_links == old_links + link_rows(table_id, field_ids, link_ids),
        forall|i: int|
            0 <= i < old_links.len() ==> (#[trigger] old_links[i]).table_id != Some(table_id),
        forall|i: int|
            0 <= i < fields.len() ==> after.fields.contains(
                #[trigger] field_rows(fields, field_ids)[i],
            ),
    ensures
        after.fields_of_table(table_id) == expected_joined(fields, field_ids, table_id),
{
    let wanted = seq![table_id];
    let links = link_rows(table_id, field_ids, link_ids);
    assert forall|i: int| 0 <= i < old_links.len() implies match (#[trigger] old_links[i]).table_id {
        Some(t) => !wanted.contains(t),
        None => true,
    } by {}
    lemma_joined_over_none(after, old_links, wanted);
    lemma_joined_over_add(after, old_links, links, wanted);
    lemma_joined_over_own_links(after, table_id, fields, field_ids, link_ids);
    assert(Seq::<JoinedField>::empty() + expected_joined(fields, field_ids, table_id)
        =~= expected_joined(fields, field_ids, table_id));
}

/// One table row and the joined rows of its own fields assemble to one entry
/// that lists those fields.
pub proof fn lemma_assembled_single(
    table: TableRow,
    fields: Seq<FieldView>,
    field_ids: Seq<Text>,
    diagram_id: Text,
)
    ensures
        assembled(seq![table], expected_joined(fields, field_ids, table.id), diagram_id) == seq![
            TableView {
                id: table.id,
                attrs: table.attrs,
                fields: Some(expected_fields(fields, field_ids, table.id)),
                diagram_id,
            },
        ],
{
    let expected = expected_joined(fields, field_ids, table.id);
    lemma_filter_all(expected, joined_of(table.id));
    assert(fields_under(expected, table.id) =~= expected_fields(fields, field_ids, table.id));
    assert(assembled(seq![table], expected, diagram_id) =~= seq![
        TableView {
            id: table.id,
            attrs: table.attrs,
            fields: Some(expected_fields(fields, field_ids, table.id)),
            diagram_id,
        },
    ]);
}

/// A table that was added and bound to a diagram without tables is what a read of
/// that diagram returns: exactly one entry, with the view's attributes under the
/// allocated identifier, and with one field per supplied field, in the same
/// order and with the same attributes, each under its allocated identifier.
pub proof fn law_added_table_reads_back(
    db: Database,
    view: TableView,
    keys: TableKeys,
    diagram_id: Text,
    link_id: Text,
)
    requires
        db.well_formed(),
        keys.fits(view),
        fresh(db, keys.all().push(link_id)),
        db.tables_of_diagram(diagram_id).len() == 0,
    ensures
        ({
            let added = db.transact(insert_effects(view, keys));
            let bound = added.transact(
                seq![
                    Effect::InsertDiagramLinks(
                        seq![diagram_link(link_id, diagram_id, keys.table_id)],
                    ),
                ],
            );
            let tables = bound.tables_of_diagram(diagram_id);
            assembled(tables, bound.fields_of_tables(table_keys(tables)), diagram_id) == seq![
                TableView {
                    id: keys.table_id,
                    attrs: view.attrs,
                    fields: Some(
                        expected_fields(supplied_fields(view), keys.field_ids, keys.table_id),
                    ),
                    diagram_id,
                },
            ]
        }),
{
    let fields = supplied_fields(view);
    let all = keys.all();
    let more = all.push(link_id);
    assert forall|i: int| 0 <= i < all.len() implies db.unused(#[trigger] all[i]) by {
        assert(more[i] == all[i]);
    }
    assert(pairwise_distinct(all)) by {
        assert forall|i: int, j: int| 0 <= i < j < all.len() implies #[trigger] all[i]
            != #[trigger] all[j] by {
            assert(more[i] == all[i] && more[j] == all[j]);
        }
    }
    lemma_insert_effects_append(db, view, keys);
    let table = TableRow { id: keys.table_id, attrs: view.attrs };
    let rows = field_rows(fields, keys.field_ids);
    let added = db.transact(insert_effects(view, keys));
    assert(more[all.len() as int] == link_id);
    assert(db.unused(link_id));
    lemma_unused_is_no_key(db, link_id);
    lemma_bind_appends(added, link_id, diagram_id, keys.table_id);
    let bound = added.transact(
        seq![Effect::InsertDiagramLinks(seq![diagram_link(link_id, diagram_id, keys.table_id)])],
    );
    assert(more[0] == keys.table_id);
    assert(db.unused(keys.table_id));
    lemma_only_new_table_held(db, bound, table, link_id, diagram_id);
    let tables = bound.tables_of_diagram(diagram_id);
    assert(table_keys(tables) =~= seq![keys.table_id]);
    assert forall|i: int| 0 <= i < fields.len() implies bound.fields.contains(
        #[trigger] rows[i],
    ) by {
        assert(bound.fields[db.fields.len() + i] == rows[i]);
    }
    lemma_join_finds_appended(
        db.table_links,
        bound,
        keys.table_id,
        fields,
        keys.field_ids,
        keys.link_ids,
    );
    lemma_assembled_single(table, fields, keys.field_ids, diagram_id);
}

/// Every row of a join carries the key of a field row and the table it was
/// asked for.
pub proof fn lemma_joined_rows_origin(
    db: Database,
    links: Seq<TableLinkRow>,
    table_ids: Seq<Text>,
    i: int,
)
    requires
        0 <= i < db.joined_over(links, table_ids).len(),
    ensures
        field_keys(db.fields).contains(db.joined_over(links, table_ids)[i].id),
        table_ids.contains(db.joined_over(links, table_ids)[i].table_id),
    decreases links.len(),
{
    if links.len() > 0 {
        let before = db.joined_over(links.drop_last(), table_ids);
        if i < before.len() {
            lemma_joined_rows_origin(db, links.drop_last(), table_ids, i);
        } else {
            let link = links.last();
            let part = db.joined_by(link, table_ids);
            let m = i - before.len();
            assert(db.joined_over(links, table_ids)[i] == part[m]);
            let field_id = link.field_id->0;
            let kept = db.fields.filter(field_is(field_id));
            assert(part[m].id == kept[m].id);
            assert(kept.contains(kept[m]));
            lemma_filter_membership(db.fields, field_is(field_id), kept[m]);
            let p = choose|p: int| 0 <= p < db.fields.len() && db.fields[p] == kept[m];
            assert(field_keys(db.fields)[p] == kept[m].id);
        }
    }
}

/// A read of fields depends on the field rows and on the links alone.
pub proof fn lemma_join_reads_fields_and_links(
    a: Database,
    b: Database,
    links: Seq<TableLinkRow>,
    table_ids: Seq<Text>,
)
    requires
        a.fields == b.fields,
    ensures
        a.joined_over(links, table_ids) == b.joined_over(links, table_ids),
    decreases links.len(),
{
    if links.len() > 0 {
        lemma_join_reads_fields_and_links(a, b, links.drop_last(), table_ids);
    }
}

/// The fields of a table may be read before its row is updated: the update of
/// the row changes nothing of what the read returns.
pub proof fn law_row_update_keeps_fields(db: Database, view: TableView)
    ensures
        db.apply(Effect::UpdateTable(view.patch())) matches Ok(next) ==> next.fields_of_table(
            view.id,
        ) == db.fields_of_table(view.id),
{
    if db.apply(Effect::UpdateTable(view.patch())) is Ok {
        let next = db.apply(Effect::UpdateTable(view.patch()))->Ok_0;
        lemma_join_reads_fields_and_links(next, db, db.table_links, seq![view.id]);
    }
}

/// The state after the writes of an update ran: the table row takes the changes,
/// the fields read for the table and the table's links are gone, and the new
/// rows and links are appended.
pub proof fn lemma_update_effects_state(
    db: Database,
    view: TableView,
    field_ids: Seq<Text>,
    link_ids: Seq<Text>,
)
    requires
        db.apply_all(update_effects(view, db.fields_of_table(view.id), field_ids, link_ids)) is Ok,
    ensures
        db.transact(update_effects(view, db.fields_of_table(view.id), field_ids, link_ids)) == (
        Database {
            tables: db.tables.map_values(patched(view.patch())),
            fields: db.fields.filter(field_not_among(joined_keys(db.fields_of_table(view.id))))
                + field_rows(supplied_fields(view), field_ids),
            table_links: db.table_links.filter(link_not_of(view.id)) + link_rows(
                view.id,
                field_ids,
                link_ids,
            ),
            diagram_links: db.diagram_links,
        }),
{
    let effects = update_effects(view, db.fields_of_table(view.id), field_ids, link_ids);
    let e4 = effects.drop_last();
    let e3 = e4.drop_last();
    let e2 = e3.drop_last();
    let e1 = e2.drop_last();
    assert(e1.drop_last() =~= Seq::<Effect>::empty());
    assert(db.apply_all(e1.drop_last()) == Ok::<Database, Fault>(db));
    assert(db.apply_all(e1) is Ok);
    assert(db.apply_all(e2) is Ok);
    assert(db.apply_all(e3) is Ok);
    assert(db.apply_all(e4) is Ok);
}

/// After an update the table has exactly the supplied fields, in their order and
/// under their new identifiers, however many it had before; and none of the
/// fields it had before is left in storage.
pub proof fn law_update_replaces_fields(
    db: Database,
    view: TableView,
    field_ids: Seq<Text>,
    link_ids: Seq<Text>,
)
    requires
        db.well_formed(),
        view.fields is Some,
        table_keys(db.tables).contains(view.id),
        field_ids.len() == supplied_fields(view).len(),
        link_ids.len() == supplied_fields(view).len(),
        fresh(db, field_ids + link_ids),
    ensures
        ({
            let existing = db.fields_of_table(view.id);
            let after = db.transact(update_effects(view, existing, field_ids, link_ids));
            &&& after.well_formed()
            &&& after.fields_of_table(view.id) == expected_joined(
                supplied_fields(view),
                field_ids,
                view.id,
            )
            &&& forall|i: int|
                0 <= i < existing.len() ==> !field_keys(after.fields).contains(
                    (#[trigger] existing[i]).id,
                )
        }),
{
    let fields = supplied_fields(view);
    let k = fields.len() as int;
    let wanted = seq![view.id];
    let existing = db.fields_of_table(view.id);
    let gone = joined_keys(existing);
    let effects = update_effects(view, existing, field_ids, link_ids);
    let rows = field_rows(fields, field_ids);
    let links = link_rows(view.id, field_ids, link_ids);
    let both = field_ids + link_ids;
    assert forall|i: int| 0 <= i < k implies both[i] == field_ids[i] && both[k + i]
        == link_ids[i] by {}
    // The five writes, one after the other.
    let s1 = Database { tables: db.tables.map_values(patched(view.patch())), ..db };
    let s2 = Database { fields: db.fields.filter(field_not_among(gone)), ..s1 };
    let s3 = Database { table_links: db.table_links.filter(link_not_of(view.id)), ..s2 };
    let s4 = Database { fields: s3.fields + rows, ..s3 };
    let s5 = Database { table_links: s3.table_links + links, ..s4 };
    lemma_filter_keeps_unique(db.fields, field_not_among(gone), field_key());
    lemma_filter_keeps_unique(db.table_links, link_not_of(view.id), table_link_key());
    lemma_planned_keys(view.id, fields, field_ids, link_ids);
    assert(pairwise_distinct(field_ids)) by {
        assert forall|i: int, j: int| 0 <= i < j < k implies #[trigger] field_ids[i]
            != #[trigger] field_ids[j] by {
            assert(both[i] != both[j]);
        }
    }
    assert(pairwise_distinct(link_ids)) by {
        assert forall|i: int, j: int| 0 <= i < j < k implies #[trigger] link_ids[i]
            != #[trigger] link_ids[j] by {
            assert(both[k + i] != both[k + j]);
        }
    }
    assert forall|i: int| 0 <= i < k implies !field_keys(s3.fields).contains(
        #[trigger] field_ids[i],
    ) by {
        assert(db.unused(both[i]));
        if field_keys(s3.fields).contains(field_ids[i]) {
            let p = lemma_filter_key_origin(
                db.fields,
                field_not_among(gone),
                field_key(),
                field_ids[i],
            );
        }
    }
    assert forall|i: int| 0 <= i < k implies !table_link_keys(s3.table_links).contains(
        #[trigger] link_ids[i],
    ) by {
        assert(db.unused(both[k + i]));
        if table_link_keys(s3.table_links).contains(link_ids[i]) {
            let p = lemma_filter_key_origin(
                db.table_links,
                link_not_of(view.id),
                table_link_key(),
                link_ids[i],
            );
        }
    }
    lemma_fresh_keys_fit(field_keys(s3.fields), field_ids);
    lemma_fresh_keys_fit(table_link_keys(s3.table_links), link_ids);
    assert(field_keys(s3.fields + rows) =~= field_keys(s3.fields) + field_ids);
    assert(table_link_keys(s3.table_links + links) =~= table_link_keys(s3.table_links) + link_ids);
    assert(table_keys(s1.tables) =~= table_keys(db.tables));
    let e4 = effects.drop_last();
    let e3 = e4.drop_last();
    let e2 = e3.drop_last();
    let e1 = e2.drop_last();
    assert(e1.drop_last() =~= Seq::<Effect>::empty());
    assert(db.apply_all(e1.drop_last()) == Ok::<Database, Fault>(db));
    assert(db.apply_all(e1) == Ok::<Database, Fault>(s1));
    assert(db.apply_all(e2) == Ok::<Database, Fault>(s2));
    assert(db.apply_all(e3) == Ok::<Database, Fault>(s3));
    assert(db.apply_all(e4) == Ok::<Database, Fault>(s4));
    assert(db.apply_all(effects) == Ok::<Database, Fault>(s5));
    let after = db.transact(effects);
    assert(after == s5);
    // What the table has afterwards.
    assert forall|i: int| 0 <= i < s3.table_links.len() implies match (
    #[trigger] s3.table_links[i]).table_id {
        Some(t) => !wanted.contains(t),
        None => true,
    } by {
        let l = s3.table_links[i];
        assert(s3.table_links.contains(l));
        lemma_filter_membership(db.table_links, link_not_of(view.id), l);
    }
    lemma_joined_over_none(after, s3.table_links, wanted);
    lemma_joined_over_add(after, s3.table_links, links, wanted);
    assert forall|i: int| 0 <= i < k implies after.fields.contains(#[trigger] rows[i]) by {
        assert(after.fields[s3.fields.len() + i] == rows[i]);
    }
    lemma_joined_over_own_links(after, view.id, fields, field_ids, link_ids);
    assert(after.fields_of_table(view.id) =~= expected_joined(fields, field_ids, view.id));
    // What is gone.
    assert forall|i: int| 0 <= i < existing.len() implies !field_keys(after.fields).contains(
        (#[trigger] existing[i]).id,
    ) by {
        let id = existing[i].id;
        assert(gone[i] == id);
        assert(gone.contains(id));
        lemma_joined_rows_origin(db, db.table_links, wanted, i);
        if field_keys(after.fields).contains(id) {
            let p = choose|p: int| 0 <= p < after.fields.len() && field_keys(after.fields)[p] == id;
            if p < s3.fields.len() {
                assert(field_keys(s3.fields)[p] == id);
                let q = lemma_filter_key_origin(
                    db.fields,
                    field_not_among(gone),
                    field_key(),
                    id,
                );
            } else {
                let m = p - s3.fields.len();
                assert(after.fields[p] == rows[m]);
                assert(db.unused(both[m]));
                lemma_unused_is_no_key(db, field_ids[m]);
            }
        }
    }
}

/// After a table was deleted nothing names it any more: its row is gone, no link
/// to a field or to a diagram refers to it, a read of its fields finds none, and
/// every field that was linked to it is gone from storage.
pub proof fn law_delete_cascades(db: Database, table_id: Text)
    ensures
        ({
            let linked = db.fields_of_table(table_id);
            let after = db.transact(delete_effects(table_id, linked));
            &&& !table_keys(after.tables).contains(table_id)
            &&& forall|i: int|
                0 <= i < after.table_links.len() ==> (#[trigger] after.table_links[i]).table_id
                    != Some(table_id)
            &&& forall|i: int|
                0 <= i < after.diagram_links.len() ==> (#[trigger] after.diagram_links[i]).table_id
                    != Some(table_id)
            &&& forall|i: int|
                0 <= i < linked.len() ==> !field_keys(after.fields).contains(
                    (#[trigger] linked[i]).id,
                )
            &&& after.fields_of_table(table_id) == Seq::<JoinedField>::empty()
        }),
{
    let wanted = seq![table_id];
    let linked = db.fields_of_table(table_id);
    let gone = joined_keys(linked);
    let effects = delete_effects(table_id, linked);
    let s1 = Database { tables: db.tables.filter(table_is_not(table_id)), ..db };
    let s2 = Database { table_links: db.table_links.filter(link_not_of(table_id)), ..s1 };
    let s3 = Database {
        diagram_links: db.diagram_links.filter(diagram_link_not_of(table_id)),
        ..s2
    };
    let s4 = Database { fields: db.fields.filter(field_not_among(gone)), ..s3 };
    let e3 = effects.drop_last();
    let e2 = e3.drop_last();
    let e1 = e2.drop_last();
    assert(e1.drop_last() =~= Seq::<Effect>::empty());
    assert(db.apply_all(e1.drop_last()) == Ok::<Database, Fault>(db));
    assert(db.apply_all(e1) == Ok::<Database, Fault>(s1));
    assert(db.apply_all(e2) == Ok::<Database, Fault>(s2));
    assert(db.apply_all(e3) == Ok::<Database, Fault>(s3));
    assert(db.apply_all(effects) == Ok::<Database, Fault>(s4));
    let after = db.transact(effects);
    assert(after == s4);
    if table_keys(after.tables).contains(table_id) {
        let p = lemma_filter_key_origin(db.tables, table_is_not(table_id), table_key(), table_id);
    }
    assert forall|i: int| 0 <= i < after.table_links.len() implies (
    #[trigger] after.table_links[i]).table_id != Some(table_id) by {
        let l = after.table_links[i];
        assert(after.table_links.contains(l));
        lemma_filter_membership(db.table_links, link_not_of(table_id), l);
    }
    assert forall|i: int| 0 <= i < after.diagram_links.len() implies (
    #[trigger] after.diagram_links[i]).table_id != Some(table_id) by {
        let l = after.diagram_links[i];
        assert(after.diagram_links.contains(l));
        lemma_filter_membership(db.diagram_links, diagram_link_not_of(table_id), l);
    }
    assert forall|i: int| 0 <= i < linked.len() implies !field_keys(after.fields).contains(
        (#[trigger] linked[i]).id,
    ) by {
        let id = linked[i].id;
        assert(gone[i] == id);
        assert(gone.contains(id));
        if field_keys(after.fields).contains(id) {
            let q = lemma_filter_key_origin(db.fields, field_not_among(gone), field_key(), id);
        }
    }
    assert forall|i: int| 0 <= i < after.table_links.len() implies match (
    #[trigger] after.table_links[i]).table_id {
        Some(t) => !wanted.contains(t),
        None => true,
    } by {}
    lemma_joined_over_none(after, after.table_links, wanted);
}

/// Writes that storage refuses part-way leave no trace: where any write of a
/// transaction fails, what is visible afterwards is what was there before.
pub proof fn law_refused_transaction_leaves_no_trace(db: Database, effects: Seq<Effect>)
    requires
        db.apply_all(effects) is Err,
    ensures
        db.transact(effects) == db,
{
}

/// Where the link insert of a new table is refused, the table row and the field
/// rows that the same plan inserted before it are not visible afterwards: what
/// is visible is what was there before, which holds no row under an identifier
/// of the plan that was new to it.
pub proof fn law_failed_link_insert_rolls_back(db: Database, view: TableView, keys: TableKeys)
    requires
        supplied_fields(view).len() > 0,
        db.apply_all(insert_effects(view, keys).drop_last()) matches Ok(partly) && partly.apply(
            insert_effects(view, keys).last(),
        ) is Err,
    ensures
        db.apply_all(insert_effects(view, keys)) is Err,
        db.transact(insert_effects(view, keys)) == db,
        db.unused(keys.table_id) ==> !table_keys(
            db.transact(insert_effects(view, keys)).tables,
        ).contains(keys.table_id),
        forall|i: int|
            0 <= i < keys.field_ids.len() && db.unused(#[trigger] keys.field_ids[i])
                ==> !field_keys(db.transact(insert_effects(view, keys)).fields).contains(
                keys.field_ids[i],
            ),
{
    if db.unused(keys.table_id) {
        lemma_unused_is_no_key(db, keys.table_id);
    }
    assert forall|i: int|
        0 <= i < keys.field_ids.len() && db.unused(
            #[trigger] keys.field_ids[i],
        ) implies !field_keys(db.fields).contains(keys.field_ids[i]) by {
        lemma_unused_is_no_key(db, keys.field_ids[i]);
    }
}

/// The identifier `id` was handed out while the mark was at most `mark`.
pub open spec fn issued_by(id: Text, mark: int) -> bool {
    &&& id == id_text(id_number(id))
    &&& id_number(id) <= mark
}

/// A reference, where there is one, names an identifier handed out by `mark`.
pub open spec fn refers_by(reference: Option<Text>, mark: int) -> bool {
    match reference {
        Some(id) => issued_by(id, mark),
        None => true,
    }
}

/// Every key of the database, and every reference to a table or a field, is an
/// identifier that was handed out while the mark was at most `mark`.
pub open spec fn settled(db: Database, mark: int) -> bool {
    &&& forall|i: int| 0 <= i < db.tables.len() ==> issued_by((#[trigger] db.tables[i]).id, mark)
    &&& forall|i: int| 0 <= i < db.fields.len() ==> issued_by((#[trigger] db.fields[i]).id, mark)
    &&& forall|i: int|
        0 <= i < db.table_links.len() ==> {
            &&& issued_by((#[trigger] db.table_links[i]).id, mark)
            &&& refers_by(db.table_links[i].table_id, mark)
            &&& refers_by(db.table_links[i].field_id, mark)
        }
    &&& forall|i: int|
        0 <= i < db.diagram_links.len() ==> {
            &&& issued_by((#[trigger] db.diagram_links[i]).id, mark)
            &&& refers_by(db.diagram_links[i].table_id, mark)
        }
}

/// Identifiers are never reused: what the allocator hands out after the mark
/// `lo` is new to every database whose identifiers were handed out by then.
pub proof fn law_issued_ids_are_fresh(db: Database, ids: Seq<Text>, lo: int, hi: int)
    requires
        settled(db, lo),
        issued_in_order(ids, lo, hi),
    ensures
        fresh(db, ids),
{
    assert forall|i: int| 0 <= i < ids.len() implies db.unused(#[trigger] ids[i]) by {
        let id = ids[i];
        assert(id_number(id) > lo);
        assert forall|j: int| 0 <= j < db.tables.len() implies (#[trigger] db.tables[j]).id
            != id by {
            assert(issued_by(db.tables[j].id, lo));
        }
        assert forall|j: int| 0 <= j < db.fields.len() implies (#[trigger] db.fields[j]).id
            != id by {
            assert(issued_by(db.fields[j].id, lo));
        }
        assert forall|j: int| 0 <= j < db.table_links.len() implies {
            &&& (#[trigger] db.table_links[j]).id != id
            &&& db.table_links[j].table_id != Some(id)
            &&& db.table_links[j].field_id != Some(id)
        } by {
            assert(issued_by(db.table_links[j].id, lo));
            assert(refers_by(db.table_links[j].table_id, lo));
            assert(refers_by(db.table_links[j].field_id, lo));
        }
        assert forall|j: int| 0 <= j < db.diagram_links.len() implies {
            &&& (#[trigger] db.diagram_links[j]).id != id
            &&& db.diagram_links[j].table_id != Some(id)
        } by {
            assert(issued_by(db.diagram_links[j].id, lo));
            assert(refers_by(db.diagram_links[j].table_id, lo));
        }
    }
}

/// A database whose identifiers were handed out by `lo` still holds only
/// identifiers that were handed out, by `hi`, once a table was added under
/// identifiers that the allocator handed out while the mark rose from `lo` to
/// `hi`.
pub proof fn law_added_table_stays_settled(
    db: Database,
    view: TableView,
    keys: TableKeys,
    lo: int,
    hi: int,
)
    requires
        db.well_formed(),
        settled(db, lo),
        keys.fits(view),
        issued_in_order(keys.all(), lo, hi),
    ensures
        settled(db.transact(insert_effects(view, keys)), hi),
        db.transact(insert_effects(view, keys)).well_formed(),
{
    let all = keys.all();
    let k = supplied_fields(view).len() as int;
    law_issued_ids_are_fresh(db, all, lo, hi);
    lemma_insert_effects_append(db, view, keys);
    let after = db.transact(insert_effects(view, keys));
    assert(all[0] == keys.table_id);
    assert forall|i: int| 0 <= i < k implies all[1 + i] == keys.field_ids[i] && all[1 + k + i]
        == keys.link_ids[i] by {}
    assert forall|i: int| 0 <= i < after.tables.len() implies issued_by(
        (#[trigger] after.tables[i]).id,
        hi,
    ) by {
        if i < db.tables.len() {
            assert(issued_by(db.tables[i].id, lo));
        }
    }
    assert forall|i: int| 0 <= i < after.fields.len() implies issued_by(
        (#[trigger] after.fields[i]).id,
        hi,
    ) by {
        if i < db.fields.len() {
            assert(issued_by(db.fields[i].id, lo));
        } else {
            let m = i - db.fields.len();
            assert(after.fields[i].id == all[1 + m]);
        }
    }
    assert forall|i: int| 0 <= i < after.table_links.len() implies {
        &&& issued_by((#[trigger] after.table_links[i]).id, hi)
        &&& refers_by(after.table_links[i].table_id, hi)
        &&& refers_by(after.table_links[i].field_id, hi)
    } by {
        if i < db.table_links.len() {
            assert(issued_by(db.table_links[i].id, lo));
            assert(refers_by(db.table_links[i].table_id, lo));
            assert(refers_by(db.table_links[i].field_id, lo));
        } else {
            let m = i - db.table_links.len();
            assert(after.table_links[i].id == all[1 + k + m]);
            assert(after.table_links[i].field_id == Some(all[1 + m]));
            assert(after.table_links[i].table_id == Some(all[0]));
        }
    }
    assert forall|i: int| 0 <= i < after.diagram_links.len() implies {
        &&& issued_by((#[trigger] after.diagram_links[i]).id, hi)
        &&& refers_by(after.diagram_links[i].table_id, hi)
    } by {
        assert(issued_by(db.diagram_links[i].id, lo));
        assert(refers_by(db.diagram_links[i].table_id, lo));
    }
}

} // verus!
