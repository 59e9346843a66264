//! The invariant of the field relation: every field row has exactly one link
//! that points to it. Every plan of the engine keeps it.

use crate::entity::model::TableLinkRow;
use crate::entity::vo::table_vo::TableView;
use crate::laws::{fresh, lemma_insert_effects_append, lemma_update_effects_state};
use crate::seqs::{lemma_filter_membership, lemma_filter_none, lemma_filter_one, lemma_filter_twice};
use crate::store::{
    diagram_link_not_of, field_is, field_not_among, joined, joined_keys, link_not_of,
    table_is_not, Database, Effect, Fault,
};
use crate::tables::{
    delete_effects, field_rows, insert_effects, link_rows, supplied_fields, update_effects,
    TableKeys,
};
use crate::text::Text;
use vstd::prelude::*;

verus! {

/// The links that point to field `field_id`.
pub open spec fn points_to(field_id: Text) -> spec_fn(TableLinkRow) -> bool {
    |link: TableLinkRow| link.field_id == Some(field_id)
}

/// Every field row has exactly one link that points to it.
pub open spec fn linked_once(db: Database) -> bool {
    forall|i: int|
        0 <= i < db.fields.len() ==> db.table_links.filter(
            points_to((#[trigger] db.fields[i]).id),
        ).len() == 1
}

/// A read of a table's fields misses none: a field that a link binds to the
/// table is among the rows read.
pub proof fn lemma_join_complete(
    db: Database,
    links: Seq<TableLinkRow>,
    table_id: Text,
    j: int,
    k: int,
)
    requires
        0 <= j < links.len(),
        0 <= k < db.fields.len(),
        links[j].table_id == Some(table_id),
        links[j].field_id == Some(db.fields[k].id),
    ensures
        joined_keys(db.joined_over(links, seq![table_id])).contains(db.fields[k].id),
    decreases links.len(),
{
    let wanted = seq![table_id];
    let before = db.joined_over(links.drop_last(), wanted);
    let part = db.joined_by(links.last(), wanted);
    let whole = db.joined_over(links, wanted);
    let id = db.fields[k].id;
    if j == links.len() - 1 {
        assert(wanted[0] == table_id);
        let kept = db.fields.filter(field_is(id));
        assert(db.fields.contains(db.fields[k]));
        lemma_filter_membership(db.fields, field_is(id), db.fields[k]);
        let m = choose|m: int| 0 <= m < kept.len() && kept[m] == db.fields[k];
        assert(part[m] == joined(db.fields[k], table_id));
        assert(whole[before.len() + m] == part[m]);
        assert(joined_keys(whole)[before.len() + m] == id);
    } else {
        assert(links.drop_last()[j] == links[j]);
        lemma_join_complete(db, links.drop_last(), table_id, j, k);
        let p = choose|p: int| 0 <= p < before.len() && joined_keys(before)[p] == id;
        assert(whole[p] == before[p]);
        assert(joined_keys(whole)[p] == id);
    }
}

/// A read never returns an orphan: every row it returns is a field that some
/// link binds to the table under which the row is returned.
pub proof fn law_orphans_are_never_read(
    db: Database,
    links: Seq<TableLinkRow>,
    table_ids: Seq<Text>,
    i: int,
)
    requires
        0 <= i < db.joined_over(links, table_ids).len(),
    ensures
        exists|j: int|
            0 <= j < links.len() && (#[trigger] links[j]).table_id == Some(
                db.joined_over(links, table_ids)[i].table_id,
            ) && links[j].field_id == Some(db.joined_over(links, table_ids)[i].id),
    decreases links.len(),
{
    if links.len() > 0 {
        let before = db.joined_over(links.drop_last(), table_ids);
        let row = db.joined_over(links, table_ids)[i];
        if i < before.len() {
            law_orphans_are_never_read(db, links.drop_last(), table_ids, i);
            let j = choose|j: int|
                0 <= j < links.drop_last().len() && (#[trigger] links.drop_last()[j]).table_id
                    == Some(row.table_id) && links.drop_last()[j].field_id == Some(row.id);
            assert(links[j] == links.drop_last()[j]);
        } else {
            let link = links.last();
            let part = db.joined_by(link, table_ids);
            let m = i - before.len();
            assert(row == part[m]);
            let field_id = link.field_id->0;
            let kept = db.fields.filter(field_is(field_id));
            assert(kept.contains(kept[m]));
            lemma_filter_membership(db.fields, field_is(field_id), kept[m]);
            assert(links[links.len() - 1] == link);
        }
    }
}

/// A field that is not among those read for a table, and has exactly one link,
/// keeps that link when the table's links are deleted.
proof fn lemma_link_survives(db: Database, table_id: Text, k: int)
    requires
        0 <= k < db.fields.len(),
        db.table_links.filter(points_to(db.fields[k].id)).len() == 1,
        !joined_keys(db.fields_of_table(table_id)).contains(db.fields[k].id),
    ensures
        db.table_links.filter(link_not_of(table_id)).filter(points_to(db.fields[k].id)).len()
            == 1,
{
    let id = db.fields[k].id;
    assert forall|j: int|
        0 <= j < db.table_links.len() && points_to(id)(
            #[trigger] db.table_links[j],
        ) implies link_not_of(table_id)(db.table_links[j]) by {
        if db.table_links[j].table_id == Some(table_id) {
            lemma_join_complete(db, db.table_links, table_id, j, k);
        }
    }
    lemma_filter_twice(db.table_links, link_not_of(table_id), points_to(id));
}

/// Adding a table keeps every field linked exactly once.
pub proof fn law_add_keeps_fields_linked_once(db: Database, view: TableView, keys: TableKeys)
    requires
        db.well_formed(),
        linked_once(db),
        keys.fits(view),
        fresh(db, keys.all()),
    ensures
        linked_once(db.transact(insert_effects(view, keys))),
{
    lemma_insert_effects_append(db, view, keys);
    let after = db.transact(insert_effects(view, keys));
    let fields = supplied_fields(view);
    let k = fields.len() as int;
    let all = keys.all();
    let rows = field_rows(fields, keys.field_ids);
    let links = link_rows(keys.table_id, keys.field_ids, keys.link_ids);
    assert forall|m: int| 0 <= m < k implies all[1 + m] == keys.field_ids[m] by {}
    assert forall|i: int| 0 <= i < after.fields.len() implies after.table_links.filter(
        points_to((#[trigger] after.fields[i]).id),
    ).len() == 1 by {
        let id = after.fields[i].id;
        let pred = points_to(id);
        Seq::filter_distributes_over_add(db.table_links, links, pred);
        if i < db.fields.len() {
            assert(after.fields[i] == db.fields[i]);
            assert forall|m: int| 0 <= m < links.len() implies !pred(#[trigger] links[m]) by {
                assert(db.unused(all[1 + m]));
            }
            lemma_filter_none(links, pred);
            assert(db.table_links.filter(pred) + Seq::<TableLinkRow>::empty()
                =~= db.table_links.filter(pred));
        } else {
            let n = i - db.fields.len();
            assert(after.fields[i] == rows[n]);
            assert(db.unused(all[1 + n]));
            assert forall|j: int| 0 <= j < db.table_links.len() implies !pred(
                #[trigger] db.table_links[j],
            ) by {}
            lemma_filter_none(db.table_links, pred);
            assert forall|m: int| 0 <= m < links.len() && m != n implies !pred(
                #[trigger] links[m],
            ) by {
                if m < n {
                    assert(all[1 + m] != all[1 + n]);
                } else {
                    assert(all[1 + n] != all[1 + m]);
                }
            }
            lemma_filter_one(links, pred, n);
            assert(Seq::<TableLinkRow>::empty() + seq![links[n]] =~= seq![links[n]]);
        }
    }
}

/// Updating a table keeps every field linked exactly once.
pub proof fn law_update_keeps_fields_linked_once(
    db: Database,
    view: TableView,
    field_ids: Seq<Text>,
    link_ids: Seq<Text>,
)
    requires
        db.well_formed(),
        linked_once(db),
        view.fields is Some,
        field_ids.len() == supplied_fields(view).len(),
        link_ids.len() == supplied_fields(view).len(),
        fresh(db, field_ids + link_ids),
    ensures
        linked_once(
            db.transact(update_effects(view, db.fields_of_table(view.id), field_ids, link_ids)),
        ),
{
    let existing = db.fields_of_table(view.id);
    let gone = joined_keys(existing);
    let effects = update_effects(view, existing, field_ids, link_ids);
    let after = db.transact(effects);
    if db.apply_all(effects) is Ok {
        lemma_update_effects_state(db, view, field_ids, link_ids);
        let fields = supplied_fields(view);
        let k = fields.len() as int;
        let both = field_ids + link_ids;
        let kept_fields = db.fields.filter(field_not_among(gone));
        let kept_links = db.table_links.filter(link_not_of(view.id));
        let rows = field_rows(fields, field_ids);
        let links = link_rows(view.id, field_ids, link_ids);
        assert forall|m: int| 0 <= m < k implies both[m] == field_ids[m] by {}
        assert forall|i: int| 0 <= i < after.fields.len() implies after.table_links.filter(
            points_to((#[trigger] after.fields[i]).id),
        ).len() == 1 by {
            let id = after.fields[i].id;
            let pred = points_to(id);
            Seq::filter_distributes_over_add(kept_links, links, pred);
            if i < kept_fields.len() {
                let row = kept_fields[i];
                assert(after.fields[i] == row);
                assert(kept_fields.contains(row));
                lemma_filter_membership(db.fields, field_not_among(gone), row);
                let p = choose|p: int| 0 <= p < db.fields.len() && db.fields[p] == row;
                lemma_link_survives(db, view.id, p);
                assert forall|m: int| 0 <= m < links.len() implies !pred(#[trigger] links[m]) by {
                    assert(db.unused(both[m]));
                }
                lemma_filter_none(links, pred);
                assert(kept_links.filter(pred) + Seq::<TableLinkRow>::empty()
                    =~= kept_links.filter(pred));
            } else {
                let n = i - kept_fields.len();
                assert(after.fields[i] == rows[n]);
                assert(db.unused(both[n]));
                assert forall|j: int| 0 <= j < kept_links.len() implies !pred(
                    #[trigger] kept_links[j],
                ) by {
                    let link = kept_links[j];
                    assert(kept_links.contains(link));
                    lemma_filter_membership(db.table_links, link_not_of(view.id), link);
                    let q = choose|q: int| 0 <= q < db.table_links.len() && db.table_links[q] == link;
                    assert(db.table_links[q].field_id != Some(both[n]));
                }
                lemma_filter_none(kept_links, pred);
                assert forall|m: int| 0 <= m < links.len() && m != n implies !pred(
                    #[trigger] links[m],
                ) by {
                    if m < n {
                        assert(both[m] != both[n]);
                    } else {
                        assert(both[n] != both[m]);
                    }
                }
                lemma_filter_one(links, pred, n);
                assert(Seq::<TableLinkRow>::empty() + seq![links[n]] =~= seq![links[n]]);
            }
        }
    }
}

/// Deleting a table keeps every field linked exactly once.
pub proof fn law_delete_keeps_fields_linked_once(db: Database, table_id: Text)
    requires
        linked_once(db),
    ensures
        linked_once(db.transact(delete_effects(table_id, db.fields_of_table(table_id)))),
{
    let linked = db.fields_of_table(table_id);
    let gone = joined_keys(linked);
    let effects = delete_effects(table_id, linked);
    let s1 = Database { tables: db.tables.filter(table_is_not(table_id)), ..db };
    let s2 = Database { table_links: db.table_links.filter(link_not_of(table_id)), ..s1 };
    let s3 = Database {
        diagram_links: db.diagram_links.filter(diagram_link_not_of(table_id)),
        ..s2
    };
    let s4 = Database { fields: db.fields.filter(field_not_among(gone)), ..s3 };
    let e3 = effects.drop_last();
    let e2 = e3.drop_last();
    let e1 = e2.drop_last();
    assert(e1.drop_last() =~= Seq::<Effect>::empty());
    assert(db.apply_all(e1.drop_last()) == Ok::<Database, Fault>(db));
    assert(db.apply_all(e1) == Ok::<Database, Fault>(s1));
    assert(db.apply_all(e2) == Ok::<Database, Fault>(s2));
    assert(db.apply_all(e3) == Ok::<Database, Fault>(s3));
    assert(db.apply_all(effects) == Ok::<Database, Fault>(s4));
    let after = db.transact(effects);
    assert(after == s4);
    assert forall|i: int| 0 <= i < after.fields.len() implies after.table_links.filter(
        points_to((#[trigger] after.fields[i]).id),
    ).len() == 1 by {
        let row = after.fields[i];
        assert(after.fields.contains(row));
        lemma_filter_membership(db.fields, field_not_among(gone), row);
        let p = choose|p: int| 0 <= p < db.fields.len() && db.fields[p] == row;
        lemma_link_survives(db, table_id, p);
    }
}

} // verus!
