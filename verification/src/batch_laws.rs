//! Why a batch keeps its tables apart: each table's identifiers occupy their own
//! stretch of the allocated run, so no field or link of one table can be taken
//! for another's.

use crate::entity::dto::JoinedField;
use crate::entity::model::{FieldRow, TableLinkRow};
use crate::entity::vo::table_vo::TableView;
use crate::ids::pairwise_distinct;
use crate::laws::{
    expected_joined, fresh, lemma_fresh_keys_fit, lemma_joined_over_add, lemma_joined_over_none,
    lemma_joined_over_own_links, lemma_unused_is_no_key,
};
use crate::invariants::{linked_once, points_to};
use crate::seqs::{lemma_filter_none, lemma_filter_one};
use crate::store::{field_keys, table_keys, table_link_keys, Database, Effect, Fault};
use crate::tables::{
    all_keys, batch_effects, batch_field_rows, batch_link_rows, batch_table_rows, field_rows,
    link_rows, supplied_fields, TableKeys,
};
use vstd::prelude::*;

verus! {

/// Where the identifiers of the table at position `s` begin in the run of all
/// identifiers of a batch.
pub open spec fn key_offset(keys: Seq<TableKeys>, s: int) -> int {
    all_keys(keys.take(s)).len() as int
}

/// Each view of the batch has the identifiers that its fields need.
pub open spec fn batch_fits(views: Seq<TableView>, keys: Seq<TableKeys>) -> bool {
    &&& keys.len() == views.len()
    &&& forall|s: int| 0 <= s < views.len() ==> (#[trigger] keys[s]).fits(views[s])
}

/// The i-th identifier of the table at position `s` sits at its offset plus `i`
/// in the run of all identifiers, and the next table begins where it ends.
pub proof fn lemma_all_keys_at(keys: Seq<TableKeys>, s: int, i: int)
    requires
        0 <= s < keys.len(),
        0 <= i < keys[s].all().len(),
    ensures
        0 <= key_offset(keys, s),
        key_offset(keys, s) + i < all_keys(keys).len(),
        all_keys(keys)[key_offset(keys, s) + i] == keys[s].all()[i],
        key_offset(keys, s + 1) == key_offset(keys, s) + keys[s].all().len(),
    decreases keys.len(),
{
    let n = keys.len() - 1;
    let init = keys.drop_last();
    assert(keys.take(s + 1).drop_last() =~= keys.take(s));
    assert(keys.take(s + 1).last() == keys[s]);
    if s == n {
        assert(keys.take(n) =~= init);
    } else {
        assert(init.take(s) =~= keys.take(s));
        assert(init.take(s + 1) =~= keys.take(s + 1));
        assert(init[s] == keys[s]);
        lemma_all_keys_at(init, s, i);
    }
}

/// Later tables begin later in the run of all identifiers.
pub proof fn lemma_key_offset_grows(keys: Seq<TableKeys>, s: int, t: int)
    requires
        0 <= s <= t <= keys.len(),
    ensures
        key_offset(keys, s) <= key_offset(keys, t),
    decreases t - s,
{
    if s < t {
        lemma_key_offset_grows(keys, s, t - 1);
        assert(keys.take(t).drop_last() =~= keys.take(t - 1));
    }
}

/// Two identifiers of a batch at different places are different identifiers.
pub proof fn lemma_keys_differ(keys: Seq<TableKeys>, s: int, i: int, t: int, j: int)
    requires
        pairwise_distinct(all_keys(keys)),
        0 <= s < keys.len(),
        0 <= t < keys.len(),
        0 <= i < keys[s].all().len(),
        0 <= j < keys[t].all().len(),
        s != t || i != j,
    ensures
        keys[s].all()[i] != keys[t].all()[j],
{
    lemma_all_keys_at(keys, s, i);
    lemma_all_keys_at(keys, t, j);
    let p = key_offset(keys, s) + i;
    let q = key_offset(keys, t) + j;
    if s < t {
        lemma_key_offset_grows(keys, s + 1, t);
        assert(all_keys(keys)[p] != all_keys(keys)[q]);
    } else if t < s {
        lemma_key_offset_grows(keys, t + 1, s);
        assert(all_keys(keys)[q] != all_keys(keys)[p]);
    } else if i < j {
        assert(all_keys(keys)[p] != all_keys(keys)[q]);
    } else {
        assert(all_keys(keys)[q] != all_keys(keys)[p]);
    }
}

/// The run of a prefix of a batch is a prefix of the run of the batch.
pub proof fn lemma_all_keys_prefix(keys: Seq<TableKeys>, n: int)
    requires
        0 <= n <= keys.len(),
    ensures
        all_keys(keys.take(n)) == all_keys(keys).take(key_offset(keys, n)),
        key_offset(keys, n) <= all_keys(keys).len(),
    decreases keys.len() - n,
{
    if n == keys.len() {
        assert(keys.take(n) =~= keys);
        assert(all_keys(keys).take(all_keys(keys).len() as int) =~= all_keys(keys));
    } else {
        lemma_all_keys_prefix(keys, n + 1);
        assert(keys.take(n + 1).drop_last() =~= keys.take(n));
        let longer = all_keys(keys.take(n + 1));
        assert(longer == all_keys(keys.take(n)) + keys[n].all());
        assert(all_keys(keys.take(n)) =~= longer.take(key_offset(keys, n)));
        assert(longer.take(key_offset(keys, n)) =~= all_keys(keys).take(key_offset(keys, n)));
    }
}

/// Every identifier of a batch is new to the database that the batch is new to.
pub proof fn lemma_key_unused(db: Database, keys: Seq<TableKeys>, s: int, i: int)
    requires
        fresh(db, all_keys(keys)),
        0 <= s < keys.len(),
        0 <= i < keys[s].all().len(),
    ensures
        db.unused(keys[s].all()[i]),
{
    lemma_all_keys_at(keys, s, i);
    assert(db.unused(all_keys(keys)[key_offset(keys, s) + i]));
}

/// The table at position `s` of a batch whose field rows hold `row`.
pub open spec fn field_row_from(
    views: Seq<TableView>,
    keys: Seq<TableKeys>,
    row: FieldRow,
    s: int,
    i: int,
) -> bool {
    &&& 0 <= s < views.len()
    &&& 0 <= i < supplied_fields(views[s]).len()
    &&& row == field_rows(supplied_fields(views[s]), keys[s].field_ids)[i]
}

/// Each field row of a batch is a field of one of its tables, under that table's
/// own identifier for it.
pub proof fn lemma_batch_field_origin(views: Seq<TableView>, keys: Seq<TableKeys>, x: int) -> (at:
    (int, int))
    requires
        batch_fits(views, keys),
        0 <= x < batch_field_rows(views, keys).len(),
    ensures
        field_row_from(views, keys, batch_field_rows(views, keys)[x], at.0, at.1),
    decreases views.len(),
{
    let n = views.len() - 1;
    let before = batch_field_rows(views.drop_last(), keys.drop_last());
    if x < before.len() {
        assert forall|s: int| 0 <= s < n implies (#[trigger] keys.drop_last()[s]).fits(
            views.drop_last()[s],
        ) by {
            assert(keys[s].fits(views[s]));
        }
        let at = lemma_batch_field_origin(views.drop_last(), keys.drop_last(), x);
        assert(views.drop_last()[at.0] == views[at.0]);
        assert(keys.drop_last()[at.0] == keys[at.0]);
        at
    } else {
        (n, x - before.len())
    }
}

/// Each field of each table of a batch has its row among the batch's field rows.
pub proof fn lemma_batch_field_present(
    views: Seq<TableView>,
    keys: Seq<TableKeys>,
    s: int,
    i: int,
)
    requires
        batch_fits(views, keys),
        0 <= s < views.len(),
        0 <= i < supplied_fields(views[s]).len(),
    ensures
        batch_field_rows(views, keys).contains(
            field_rows(supplied_fields(views[s]), keys[s].field_ids)[i],
        ),
    decreases views.len(),
{
    let n = views.len() - 1;
    let before = batch_field_rows(views.drop_last(), keys.drop_last());
    let own = field_rows(supplied_fields(views.last()), keys.last().field_ids);
    let whole = batch_field_rows(views, keys);
    if s == n {
        assert(whole[before.len() + i] == own[i]);
    } else {
        assert forall|r: int| 0 <= r < n implies (#[trigger] keys.drop_last()[r]).fits(
            views.drop_last()[r],
        ) by {
            assert(keys[r].fits(views[r]));
        }
        lemma_batch_field_present(views.drop_last(), keys.drop_last(), s, i);
        let row = field_rows(supplied_fields(views[s]), keys[s].field_ids)[i];
        assert(views.drop_last()[s] == views[s] && keys.drop_last()[s] == keys[s]);
        let p = choose|p: int| 0 <= p < before.len() && before[p] == row;
        assert(whole[p] == row);
    }
}

/// The field rows of a batch have keys that are new to the database and differ
/// from each other.
pub proof fn lemma_batch_field_keys_fit(db: Database, views: Seq<TableView>, keys: Seq<TableKeys>)
    requires
        db.well_formed(),
        batch_fits(views, keys),
        fresh(db, all_keys(keys)),
    ensures
        field_keys(db.fields + batch_field_rows(views, keys)).no_duplicates(),
{
    let rows = batch_field_rows(views, keys);
    let added = field_keys(rows);
    assert forall|x: int, y: int| 0 <= x < y < added.len() implies #[trigger] added[x]
        != #[trigger] added[y] by {
        lemma_batch_rows_apart(views, keys, x, y);
    }
    assert forall|x: int| 0 <= x < added.len() implies !field_keys(db.fields).contains(
        #[trigger] added[x],
    ) by {
        let at = lemma_batch_field_origin(views, keys, x);
        assert(keys[at.0].fits(views[at.0]));
        assert(keys[at.0].all()[1 + at.1] == keys[at.0].field_ids[at.1]);
        lemma_key_unused(db, keys, at.0, 1 + at.1);
        lemma_unused_is_no_key(db, added[x]);
    }
    lemma_fresh_keys_fit(field_keys(db.fields), added);
    assert(field_keys(db.fields + rows) =~= field_keys(db.fields) + added);
}

/// Two field rows at different places of a batch have different keys.
pub proof fn lemma_batch_rows_apart(views: Seq<TableView>, keys: Seq<TableKeys>, x: int, y: int)
    requires
        batch_fits(views, keys),
        pairwise_distinct(all_keys(keys)),
        0 <= x < y < batch_field_rows(views, keys).len(),
    ensures
        batch_field_rows(views, keys)[x].id != batch_field_rows(views, keys)[y].id,
    decreases views.len(),
{
    let n = views.len() - 1;
    let before = batch_field_rows(views.drop_last(), keys.drop_last());
    let own = field_rows(supplied_fields(views.last()), keys.last().field_ids);
    let whole = batch_field_rows(views, keys);
    assert(keys[n].fits(views[n]));
    assert forall|r: int| 0 <= r < n implies (#[trigger] keys.drop_last()[r]).fits(
        views.drop_last()[r],
    ) by {
        assert(keys[r].fits(views[r]));
    }
    if y < before.len() {
        lemma_all_keys_prefix(keys, n);
        assert(keys.take(n) =~= keys.drop_last());
        let part = all_keys(keys.drop_last());
        assert forall|i: int, j: int| 0 <= i < j < part.len() implies #[trigger] part[i]
            != #[trigger] part[j] by {
            assert(part[i] == all_keys(keys)[i] && part[j] == all_keys(keys)[j]);
        }
        lemma_batch_rows_apart(views.drop_last(), keys.drop_last(), x, y);
    } else if x < before.len() {
        let at = lemma_batch_field_origin(views.drop_last(), keys.drop_last(), x);
        let j = y - before.len();
        assert(views.drop_last()[at.0] == views[at.0] && keys.drop_last()[at.0] == keys[at.0]);
        assert(keys[at.0].fits(views[at.0]));
        assert(keys[at.0].all()[1 + at.1] == keys[at.0].field_ids[at.1]);
        assert(keys[n].all()[1 + j] == keys[n].field_ids[j]);
        lemma_keys_differ(keys, at.0, 1 + at.1, n, 1 + j);
        assert(whole[y] == own[j]);
    } else {
        let i = x - before.len();
        let j = y - before.len();
        assert(keys[n].all()[1 + i] == keys[n].field_ids[i]);
        assert(keys[n].all()[1 + j] == keys[n].field_ids[j]);
        lemma_keys_differ(keys, n, 1 + i, n, 1 + j);
        assert(whole[x] == own[i] && whole[y] == own[j]);
    }
}

/// The table at position `s` of a batch whose links hold `link` as its i-th.
pub open spec fn link_row_from(keys: Seq<TableKeys>, link: TableLinkRow, s: int, i: int) -> bool {
    &&& 0 <= s < keys.len()
    &&& 0 <= i < keys[s].field_ids.len()
    &&& link == link_rows(keys[s].table_id, keys[s].field_ids, keys[s].link_ids)[i]
}

/// Each link of a batch binds a field of one of its tables to that table, under
/// that table's own identifier for the link.
pub proof fn lemma_batch_link_origin(views: Seq<TableView>, keys: Seq<TableKeys>, x: int) -> (at:
    (int, int))
    requires
        keys.len() == views.len(),
        0 <= x < batch_link_rows(views, keys).len(),
    ensures
        link_row_from(keys, batch_link_rows(views, keys)[x], at.0, at.1),
    decreases views.len(),
{
    let n = views.len() - 1;
    let before = batch_link_rows(views.drop_last(), keys.drop_last());
    if x < before.len() {
        let at = lemma_batch_link_origin(views.drop_last(), keys.drop_last(), x);
        assert(keys.drop_last()[at.0] == keys[at.0]);
        at
    } else {
        (n, x - before.len())
    }
}

/// The links of a batch have keys that are new to the database and differ from
/// each other.
pub proof fn lemma_batch_link_keys_fit(db: Database, views: Seq<TableView>, keys: Seq<TableKeys>)
    requires
        db.well_formed(),
        batch_fits(views, keys),
        fresh(db, all_keys(keys)),
    ensures
        table_link_keys(db.table_links + batch_link_rows(views, keys)).no_duplicates(),
{
    let rows = batch_link_rows(views, keys);
    let added = table_link_keys(rows);
    assert forall|x: int, y: int| 0 <= x < y < added.len() implies #[trigger] added[x]
        != #[trigger] added[y] by {
        let a = lemma_batch_link_origin(views, keys, x);
        let b = lemma_batch_link_origin(views, keys, y);
        assert(keys[a.0].fits(views[a.0]) && keys[b.0].fits(views[b.0]));
        let ka = keys[a.0].field_ids.len() as int;
        let kb = keys[b.0].field_ids.len() as int;
        assert(keys[a.0].all()[1 + ka + a.1] == keys[a.0].link_ids[a.1]);
        assert(keys[b.0].all()[1 + kb + b.1] == keys[b.0].link_ids[b.1]);
        if a.0 == b.0 && a.1 == b.1 {
            lemma_batch_links_apart(views, keys, x, y);
        } else {
            lemma_keys_differ(keys, a.0, 1 + ka + a.1, b.0, 1 + kb + b.1);
        }
    }
    assert forall|x: int| 0 <= x < added.len() implies !table_link_keys(db.table_links).contains(
        #[trigger] added[x],
    ) by {
        let at = lemma_batch_link_origin(views, keys, x);
        assert(keys[at.0].fits(views[at.0]));
        let k = keys[at.0].field_ids.len() as int;
        assert(keys[at.0].all()[1 + k + at.1] == keys[at.0].link_ids[at.1]);
        lemma_key_unused(db, keys, at.0, 1 + k + at.1);
        lemma_unused_is_no_key(db, added[x]);
    }
    lemma_fresh_keys_fit(table_link_keys(db.table_links), added);
    assert(table_link_keys(db.table_links + rows) =~= table_link_keys(db.table_links) + added);
}

/// Two links at different places of a batch are not the same link of the same
/// table.
pub proof fn lemma_batch_links_apart(views: Seq<TableView>, keys: Seq<TableKeys>, x: int, y: int)
    requires
        batch_fits(views, keys),
        pairwise_distinct(all_keys(keys)),
        0 <= x < y < batch_link_rows(views, keys).len(),
    ensures
        batch_link_rows(views, keys)[x].id != batch_link_rows(views, keys)[y].id,
    decreases views.len(),
{
    let n = views.len() - 1;
    let before = batch_link_rows(views.drop_last(), keys.drop_last());
    let own = link_rows(keys.last().table_id, keys.last().field_ids, keys.last().link_ids);
    let whole = batch_link_rows(views, keys);
    assert(keys[n].fits(views[n]));
    let k = keys[n].field_ids.len() as int;
    assert forall|r: int| 0 <= r < n implies (#[trigger] keys.drop_last()[r]).fits(
        views.drop_last()[r],
    ) by {
        assert(keys[r].fits(views[r]));
    }
    if y < before.len() {
        lemma_all_keys_prefix(keys, n);
        assert(keys.take(n) =~= keys.drop_last());
        let part = all_keys(keys.drop_last());
        assert forall|i: int, j: int| 0 <= i < j < part.len() implies #[trigger] part[i]
            != #[trigger] part[j] by {
            assert(part[i] == all_keys(keys)[i] && part[j] == all_keys(keys)[j]);
        }
        lemma_batch_links_apart(views.drop_last(), keys.drop_last(), x, y);
    } else if x < before.len() {
        let at = lemma_batch_link_origin(views.drop_last(), keys.drop_last(), x);
        let j = y - before.len();
        assert(keys.drop_last()[at.0] == keys[at.0]);
        assert(keys[at.0].fits(views[at.0]));
        let ka = keys[at.0].field_ids.len() as int;
        assert(keys[at.0].all()[1 + ka + at.1] == keys[at.0].link_ids[at.1]);
        assert(keys[n].all()[1 + k + j] == keys[n].link_ids[j]);
        lemma_keys_differ(keys, at.0, 1 + ka + at.1, n, 1 + k + j);
        assert(whole[y] == own[j]);
    } else {
        let i = x - before.len();
        let j = y - before.len();
        assert(keys[n].all()[1 + k + i] == keys[n].link_ids[i]);
        assert(keys[n].all()[1 + k + j] == keys[n].link_ids[j]);
        lemma_keys_differ(keys, n, 1 + k + i, n, 1 + k + j);
        assert(whole[x] == own[i] && whole[y] == own[j]);
    }
}

/// The table rows of a batch have keys that are new to the database and differ
/// from each other.
pub proof fn lemma_batch_table_keys_fit(db: Database, views: Seq<TableView>, keys: Seq<TableKeys>)
    requires
        db.well_formed(),
        batch_fits(views, keys),
        fresh(db, all_keys(keys)),
    ensures
        table_keys(db.tables + batch_table_rows(views, keys)).no_duplicates(),
{
    let rows = batch_table_rows(views, keys);
    let added = table_keys(rows);
    assert forall|x: int, y: int| 0 <= x < y < added.len() implies #[trigger] added[x]
        != #[trigger] added[y] by {
        assert(keys[x].all()[0] == keys[x].table_id);
        assert(keys[y].all()[0] == keys[y].table_id);
        lemma_keys_differ(keys, x, 0, y, 0);
    }
    assert forall|x: int| 0 <= x < added.len() implies !table_keys(db.tables).contains(
        #[trigger] added[x],
    ) by {
        assert(keys[x].all()[0] == keys[x].table_id);
        lemma_key_unused(db, keys, x, 0);
        lemma_unused_is_no_key(db, added[x]);
    }
    lemma_fresh_keys_fit(table_keys(db.tables), added);
    assert(table_keys(db.tables + rows) =~= table_keys(db.tables) + added);
}

/// Among the links of the first `n` tables of a batch, a read for the table at
/// position `t` finds that table's own fields if it is one of them, and nothing
/// if it is not.
pub proof fn lemma_batch_join(
    after: Database,
    views: Seq<TableView>,
    keys: Seq<TableKeys>,
    n: int,
    t: int,
)
    requires
        batch_fits(views, keys),
        pairwise_distinct(all_keys(keys)),
        0 <= n <= views.len(),
        0 <= t < views.len(),
        field_keys(after.fields).no_duplicates(),
        forall|i: int|
            0 <= i < supplied_fields(views[t]).len() ==> after.fields.contains(
                #[trigger] field_rows(supplied_fields(views[t]), keys[t].field_ids)[i],
            ),
    ensures
        after.joined_over(
            batch_link_rows(views.take(n), keys.take(n)),
            seq![keys[t].table_id],
        ) == if t < n {
            expected_joined(supplied_fields(views[t]), keys[t].field_ids, keys[t].table_id)
        } else {
            Seq::<JoinedField>::empty()
        },
    decreases n,
{
    let wanted = seq![keys[t].table_id];
    if n > 0 {
        let m = n - 1;
        lemma_batch_join(after, views, keys, m, t);
        assert(views.take(n).drop_last() =~= views.take(m));
        assert(keys.take(n).drop_last() =~= keys.take(m));
        assert(keys.take(n).last() == keys[m]);
        let before = batch_link_rows(views.take(m), keys.take(m));
        let own = link_rows(keys[m].table_id, keys[m].field_ids, keys[m].link_ids);
        assert(batch_link_rows(views.take(n), keys.take(n)) == before + own);
        lemma_joined_over_add(after, before, own, wanted);
        assert(keys[m].fits(views[m]));
        assert(keys[t].fits(views[t]));
        if m == t {
            lemma_joined_over_own_links(
                after,
                keys[t].table_id,
                supplied_fields(views[t]),
                keys[t].field_ids,
                keys[t].link_ids,
            );
            assert(Seq::<JoinedField>::empty() + expected_joined(
                supplied_fields(views[t]),
                keys[t].field_ids,
                keys[t].table_id,
            ) =~= expected_joined(supplied_fields(views[t]), keys[t].field_ids, keys[t].table_id));
        } else {
            assert(keys[m].all()[0] == keys[m].table_id);
            assert(keys[t].all()[0] == keys[t].table_id);
            lemma_keys_differ(keys, m, 0, t, 0);
            assert forall|i: int| 0 <= i < own.len() implies match (#[trigger] own[i]).table_id {
                Some(id) => !wanted.contains(id),
                None => true,
            } by {}
            lemma_joined_over_none(after, own, wanted);
            assert(after.joined_over(before, wanted) + Seq::<JoinedField>::empty()
                =~= after.joined_over(before, wanted));
        }
    }
}

/// The state after a batch ran on a database to which its identifiers are new:
/// the planned rows are appended to the three relations and nothing else changes.
pub proof fn lemma_batch_effects_append(db: Database, views: Seq<TableView>, keys: Seq<TableKeys>)
    requires
        db.well_formed(),
        batch_fits(views, keys),
        fresh(db, all_keys(keys)),
    ensures
        db.apply_all(batch_effects(views, keys)) == Ok::<Database, Fault>(
            Database {
                tables: db.tables + batch_table_rows(views, keys),
                fields: db.fields + batch_field_rows(views, keys),
                table_links: db.table_links + batch_link_rows(views, keys),
                diagram_links: db.diagram_links,
            },
        ),
        db.transact(batch_effects(views, keys)).well_formed(),
{
    let tables = batch_table_rows(views, keys);
    let rows = batch_field_rows(views, keys);
    let links = batch_link_rows(views, keys);
    let effects = batch_effects(views, keys);
    lemma_batch_table_keys_fit(db, views, keys);
    lemma_batch_field_keys_fit(db, views, keys);
    lemma_batch_link_keys_fit(db, views, keys);
    let s1 = Database { tables: db.tables + tables, ..db };
    let s2 = Database { fields: db.fields + rows, ..s1 };
    let s3 = Database { table_links: db.table_links + links, ..s2 };
    let e2 = effects.drop_last();
    let e1 = e2.drop_last();
    assert(e1.drop_last() =~= Seq::<Effect>::empty());
    assert(db.apply_all(e1.drop_last()) == Ok::<Database, Fault>(db));
    assert(db.apply_all(e1) == Ok::<Database, Fault>(s1));
    assert(db.apply_all(e2) == Ok::<Database, Fault>(s2));
    assert(db.apply_all(effects) == Ok::<Database, Fault>(s3));
}

/// The links of a batch run parallel to its field rows: the link at a place
/// points to the field at the same place.
pub proof fn lemma_batch_rows_parallel(views: Seq<TableView>, keys: Seq<TableKeys>, x: int)
    requires
        batch_fits(views, keys),
        0 <= x < batch_field_rows(views, keys).len(),
    ensures
        batch_link_rows(views, keys).len() == batch_field_rows(views, keys).len(),
        batch_link_rows(views, keys)[x].field_id == Some(batch_field_rows(views, keys)[x].id),
    decreases views.len(),
{
    let n = views.len() - 1;
    let before = batch_field_rows(views.drop_last(), keys.drop_last());
    let links_before = batch_link_rows(views.drop_last(), keys.drop_last());
    assert(keys[n].fits(views[n]));
    assert forall|r: int| 0 <= r < n implies (#[trigger] keys.drop_last()[r]).fits(
        views.drop_last()[r],
    ) by {
        assert(keys[r].fits(views[r]));
    }
    lemma_batch_rows_same_length(views.drop_last(), keys.drop_last());
    if x < before.len() {
        lemma_batch_rows_parallel(views.drop_last(), keys.drop_last(), x);
    }
}

/// A batch has as many links as field rows.
pub proof fn lemma_batch_rows_same_length(views: Seq<TableView>, keys: Seq<TableKeys>)
    requires
        batch_fits(views, keys),
    ensures
        batch_link_rows(views, keys).len() == batch_field_rows(views, keys).len(),
    decreases views.len(),
{
    if views.len() > 0 {
        let n = views.len() - 1;
        assert(keys[n].fits(views[n]));
        assert forall|r: int| 0 <= r < n implies (#[trigger] keys.drop_last()[r]).fits(
            views.drop_last()[r],
        ) by {
            assert(keys[r].fits(views[r]));
        }
        lemma_batch_rows_same_length(views.drop_last(), keys.drop_last());
    }
}

/// A batch keeps every field linked exactly once.
pub proof fn law_batch_keeps_fields_linked_once(
    db: Database,
    views: Seq<TableView>,
    keys: Seq<TableKeys>,
)
    requires
        db.well_formed(),
        linked_once(db),
        batch_fits(views, keys),
        fresh(db, all_keys(keys)),
    ensures
        linked_once(db.transact(batch_effects(views, keys))),
{
    lemma_batch_effects_append(db, views, keys);
    let after = db.transact(batch_effects(views, keys));
    let rows = batch_field_rows(views, keys);
    let links = batch_link_rows(views, keys);
    lemma_batch_rows_same_length(views, keys);
    assert forall|i: int| 0 <= i < after.fields.len() implies after.table_links.filter(
        points_to((#[trigger] after.fields[i]).id),
    ).len() == 1 by {
        let id = after.fields[i].id;
        let pred = points_to(id);
        Seq::filter_distributes_over_add(db.table_links, links, pred);
        if i < db.fields.len() {
            assert(after.fields[i] == db.fields[i]);
            assert forall|y: int| 0 <= y < links.len() implies !pred(#[trigger] links[y]) by {
                lemma_batch_rows_parallel(views, keys, y);
                let at = lemma_batch_field_origin(views, keys, y);
                assert(keys[at.0].fits(views[at.0]));
                assert(keys[at.0].all()[1 + at.1] == keys[at.0].field_ids[at.1]);
                lemma_key_unused(db, keys, at.0, 1 + at.1);
            }
            lemma_filter_none(links, pred);
            assert(db.table_links.filter(pred) + Seq::<TableLinkRow>::empty()
                =~= db.table_links.filter(pred));
        } else {
            let x = i - db.fields.len();
            assert(after.fields[i] == rows[x]);
            let at = lemma_batch_field_origin(views, keys, x);
            assert(keys[at.0].fits(views[at.0]));
            assert(keys[at.0].all()[1 + at.1] == keys[at.0].field_ids[at.1]);
            lemma_key_unused(db, keys, at.0, 1 + at.1);
            assert forall|j: int| 0 <= j < db.table_links.len() implies !pred(
                #[trigger] db.table_links[j],
            ) by {}
            lemma_filter_none(db.table_links, pred);
            lemma_batch_rows_parallel(views, keys, x);
            assert forall|y: int| 0 <= y < links.len() && y != x implies !pred(
                #[trigger] links[y],
            ) by {
                lemma_batch_rows_parallel(views, keys, y);
                if y < x {
                    lemma_batch_rows_apart(views, keys, y, x);
                } else {
                    lemma_batch_rows_apart(views, keys, x, y);
                }
            }
            lemma_filter_one(links, pred, x);
            assert(Seq::<TableLinkRow>::empty() + seq![links[x]] =~= seq![links[x]]);
        }
    }
}

/// After a batch ran on a database to which its identifiers are new, each of its
/// tables has exactly its own fields, in their order and with their attributes;
/// and no field identifier of one table is a field identifier of another.
pub proof fn law_batch_keeps_tables_apart(
    db: Database,
    views: Seq<TableView>,
    keys: Seq<TableKeys>,
)
    requires
        db.well_formed(),
        batch_fits(views, keys),
        fresh(db, all_keys(keys)),
    ensures
        ({
            let after = db.transact(batch_effects(views, keys));
            &&& after.well_formed()
            &&& forall|t: int|
                0 <= t < views.len() ==> after.fields_of_table((#[trigger] keys[t]).table_id)
                    == expected_joined(
                    supplied_fields(views[t]),
                    keys[t].field_ids,
                    keys[t].table_id,
                )
        }),
        forall|s: int, t: int, i: int, j: int|
            0 <= s < keys.len() && 0 <= t < keys.len() && s != t && 0 <= i
                < keys[s].field_ids.len() && 0 <= j < keys[t].field_ids.len()
                ==> #[trigger] keys[s].field_ids[i] != #[trigger] keys[t].field_ids[j],
{
    let n = views.len() as int;
    let rows = batch_field_rows(views, keys);
    let links = batch_link_rows(views, keys);
    lemma_batch_effects_append(db, views, keys);
    let after = db.transact(batch_effects(views, keys));
    assert forall|t: int| 0 <= t < views.len() implies after.fields_of_table(
        (#[trigger] keys[t]).table_id,
    ) == expected_joined(supplied_fields(views[t]), keys[t].field_ids, keys[t].table_id) by {
        let wanted = seq![keys[t].table_id];
        assert(keys[t].all()[0] == keys[t].table_id);
        lemma_key_unused(db, keys, t, 0);
        assert forall|i: int| 0 <= i < db.table_links.len() implies match (
        #[trigger] db.table_links[i]).table_id {
            Some(id) => !wanted.contains(id),
            None => true,
        } by {}
        lemma_joined_over_none(after, db.table_links, wanted);
        lemma_joined_over_add(after, db.table_links, links, wanted);
        assert forall|i: int| 0 <= i < supplied_fields(views[t]).len() implies after.fields.contains(
            #[trigger] field_rows(supplied_fields(views[t]), keys[t].field_ids)[i],
        ) by {
            lemma_batch_field_present(views, keys, t, i);
            let row = field_rows(supplied_fields(views[t]), keys[t].field_ids)[i];
            let p = choose|p: int| 0 <= p < rows.len() && rows[p] == row;
            assert(after.fields[db.fields.len() + p] == row);
        }
        assert(views.take(n) =~= views);
        assert(keys.take(n) =~= keys);
        lemma_batch_join(after, views, keys, n, t);
        assert(Seq::<JoinedField>::empty() + expected_joined(
            supplied_fields(views[t]),
            keys[t].field_ids,
            keys[t].table_id,
        ) =~= expected_joined(supplied_fields(views[t]), keys[t].field_ids, keys[t].table_id));
    }
    assert forall|s: int, t: int, i: int, j: int|
        0 <= s < keys.len() && 0 <= t < keys.len() && s != t && 0 <= i < keys[s].field_ids.len()
            && 0 <= j < keys[t].field_ids.len() implies #[trigger] keys[s].field_ids[i]
        != #[trigger] keys[t].field_ids[j] by {
        assert(keys[s].all()[1 + i] == keys[s].field_ids[i]);
        assert(keys[t].all()[1 + j] == keys[t].field_ids[j]);
        lemma_keys_differ(keys, s, 1 + i, t, 1 + j);
    }
}

} // verus!
