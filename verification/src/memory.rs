//! An in-memory store that keeps the four relations in vectors and performs the
//! engine's writes and reads exactly as the mathematical model says.

use crate::entity::change::Change;
use crate::entity::dto::{FieldWithTable, JoinedField};
use crate::entity::model::{
    DiagramLinkModel, DiagramLinkRow, FieldModel, FieldRow, TableLinkModel, TableLinkRow,
    TableModel, TableRow,
};
use crate::entity::vo::table_vo::TableChange;
use crate::seqs::{lemma_filter_keeps_unique, lemma_filter_step};
use crate::store::{
    diagram_link_key, diagram_link_keys, diagram_link_not_of, field_is, field_key, field_keys,
    field_not_among, joined, joined_under, link_not_of, patched, table_is_not, table_key,
    table_keys, table_link_key, table_link_keys, Database, Effect, Fault, Write,
};
use crate::text::clone_opt_text;
use vstd::prelude::*;

verus! {

/// The four relations, held in memory.
#[derive(Debug, PartialEq, Eq)]
pub struct MemoryStore {
    tables: Vec<TableModel>,
    fields: Vec<FieldModel>,
    table_links: Vec<TableLinkModel>,
    diagram_links: Vec<DiagramLinkModel>,
}

impl View for MemoryStore {
    type V = Database;

    closed spec fn view(&self) -> Database {
        Database {
            tables: self.tables.deep_view(),
            fields: self.fields.deep_view(),
            table_links: self.table_links.deep_view(),
            diagram_links: self.diagram_links.deep_view(),
        }
    }
}

/// The position of the first of the first `upto` strings that reads like `id`.
fn position(list: &Vec<String>, upto: usize, id: &String) -> (found: Option<usize>)
    requires
        upto <= list.len(),
    ensures
        match found {
            Some(p) => p < upto && list[p as int]@ == id@,
            None => forall|i: int| 0 <= i < upto ==> (#[trigger] list[i])@ != id@,
        },
{
    let mut i: usize = 0;
    while i < upto
        invariant
            i <= upto <= list.len(),
            forall|j: int| 0 <= j < i ==> (#[trigger] list[j])@ != id@,
        decreases upto - i,
    {
        if list[i] == *id {
            return Some(i);
        }
        i = i + 1;
    }
    None
}

/// Whether `id` is one of `list`.
fn among(list: &Vec<String>, id: &String) -> (found: bool)
    ensures
        found == list.deep_view().contains(id@),
{
    match position(list, list.len(), id) {
        Some(p) => {
            assert(list.deep_view()[p as int] == id@);
            true
        },
        None => {
            assert forall|i: int| 0 <= i < list.deep_view().len() implies list.deep_view()[i]
                != id@ by {
                assert(list.deep_view()[i] == list[i]@);
            }
            false
        },
    }
}

/// Whether the keys `added` can join the keys `existing` without any key
/// occurring twice.
fn keys_fit(existing: &Vec<String>, added: &Vec<String>) -> (fit: bool)
    requires
        existing.deep_view().no_duplicates(),
    ensures
        fit == (existing.deep_view() + added.deep_view()).no_duplicates(),
{
    let ghost old_keys = existing.deep_view();
    let ghost new_keys = added.deep_view();
    let ghost all = old_keys + new_keys;
    let mut j: usize = 0;
    while j < added.len()
        invariant
            j <= added.len(),
            old_keys == existing.deep_view(),
            new_keys == added.deep_view(),
            all == old_keys + new_keys,
            old_keys.no_duplicates(),
            (old_keys + new_keys.take(j as int)).no_duplicates(),
        decreases added.len() - j,
    {
        let ghost so_far = old_keys + new_keys.take(j as int);
        match position(existing, existing.len(), &added[j]) {
            Some(p) => {
                proof {
                    assert(all[p as int] == existing[p as int]@);
                    assert(all[old_keys.len() + j] == added[j as int]@);
                }
                return false;
            },
            None => {},
        }
        match position(added, j, &added[j]) {
            Some(p) => {
                proof {
                    assert(all[old_keys.len() + p] == added[p as int]@);
                    assert(all[old_keys.len() + j] == added[j as int]@);
                }
                return false;
            },
            None => {},
        }
        proof {
            let next = old_keys + new_keys.take(j + 1);
            assert(next =~= so_far.push(new_keys[j as int]));
            assert forall|a: int, b: int|
                0 <= a < next.len() && 0 <= b < next.len() && a != b implies next[a]
                != next[b] by {
                if a < so_far.len() && b < so_far.len() {
                    assert(next[a] == so_far[a] && next[b] == so_far[b]);
                } else {
                    let m = if a < so_far.len() {
                        a
                    } else {
                        b
                    };
                    assert(next[m] == so_far[m]);
                    if m < old_keys.len() {
                        assert(so_far[m] == existing[m]@);
                    } else {
                        assert(so_far[m] == added[m - old_keys.len()]@);
                    }
                }
            }
        }
        j = j + 1;
    }
    assert(new_keys.take(added.len() as int) =~= new_keys);
    true
}

/// The keys of table rows.
fn keys_of_tables(rows: &Vec<TableModel>) -> (keys: Vec<String>)
    ensures
        keys.deep_view() == table_keys(rows.deep_view()),
{
    let mut keys: Vec<String> = Vec::new();
    let mut i: usize = 0;
    while i < rows.len()
        invariant
            i <= rows.len(),
            keys.len() == i,
            forall|j: int| 0 <= j < i ==> (#[trigger] keys[j])@ == rows[j]@.id,
        decreases rows.len() - i,
    {
        keys.push(rows[i].id.clone());
        i = i + 1;
    }
    assert(keys.deep_view() =~= table_keys(rows.deep_view()));
    keys
}

/// The keys of field rows.
fn keys_of_fields(rows: &Vec<FieldModel>) -> (keys: Vec<String>)
    ensures
        keys.deep_view() == field_keys(rows.deep_view()),
{
    let mut keys: Vec<String> = Vec::new();
    let mut i: usize = 0;
    while i < rows.len()
        invariant
            i <= rows.len(),
            keys.len() == i,
            forall|j: int| 0 <= j < i ==> (#[trigger] keys[j])@ == rows[j]@.id,
        decreases rows.len() - i,
    {
        keys.push(rows[i].id.clone());
        i = i + 1;
    }
    assert(keys.deep_view() =~= field_keys(rows.deep_view()));
    keys
}

/// The keys of table-field links.
fn keys_of_table_links(rows: &Vec<TableLinkModel>) -> (keys: Vec<String>)
    ensures
        keys.deep_view() == table_link_keys(rows.deep_view()),
{
    let mut keys: Vec<String> = Vec::new();
    let mut i: usize = 0;
    while i < rows.len()
        invariant
            i <= rows.len(),
            keys.len() == i,
            forall|j: int| 0 <= j < i ==> (#[trigger] keys[j])@ == rows[j]@.id,
        decreases rows.len() - i,
    {
        keys.push(rows[i].id.clone());
        i = i + 1;
    }
    assert(keys.deep_view() =~= table_link_keys(rows.deep_view()));
    keys
}

/// The keys of diagram links.
fn keys_of_diagram_links(rows: &Vec<DiagramLinkModel>) -> (keys: Vec<String>)
    ensures
        keys.deep_view() == diagram_link_keys(rows.deep_view()),
{
    let mut keys: Vec<String> = Vec::new();
    let mut i: usize = 0;
    while i < rows.len()
        invariant
            i <= rows.len(),
            keys.len() == i,
            forall|j: int| 0 <= j < i ==> (#[trigger] keys[j])@ == rows[j]@.id,
        decreases rows.len() - i,
    {
        keys.push(rows[i].id.clone());
        i = i + 1;
    }
    assert(keys.deep_view() =~= diagram_link_keys(rows.deep_view()));
    keys
}

/// Appends copies of `rows` to `target`.
fn extend_tables(target: &mut Vec<TableModel>, rows: &Vec<TableModel>)
    ensures
        final(target).deep_view() == old(target).deep_view() + rows.deep_view(),
{
    let ghost before = target.deep_view();
    let mut i: usize = 0;
    while i < rows.len()
        invariant
            i <= rows.len(),
            target.deep_view() == before + rows.deep_view().take(i as int),
        decreases rows.len() - i,
    {
        let ghost so_far = target.deep_view();
        target.push(rows[i].clone());
        i = i + 1;
        assert(target.deep_view() =~= so_far.push(rows[i - 1]@));
        assert(target.deep_view() =~= before + rows.deep_view().take(i as int));
    }
    assert(rows.deep_view().take(rows.len() as int) =~= rows.deep_view());
}

/// Appends copies of `rows` to `target`.
fn extend_fields(target: &mut Vec<FieldModel>, rows: &Vec<FieldModel>)
    ensures
        final(target).deep_view() == old(target).deep_view() + rows.deep_view(),
{
    let ghost before = target.deep_view();
    let mut i: usize = 0;
    while i < rows.len()
        invariant
            i <= rows.len(),
            target.deep_view() == before + rows.deep_view().take(i as int),
        decreases rows.len() - i,
    {
        let ghost so_far = target.deep_view();
        target.push(rows[i].clone());
        i = i + 1;
        assert(target.deep_view() =~= so_far.push(rows[i - 1]@));
        assert(target.deep_view() =~= before + rows.deep_view().take(i as int));
    }
    assert(rows.deep_view().take(rows.len() as int) =~= rows.deep_view());
}

/// Appends copies of `rows` to `target`.
fn extend_table_links(target: &mut Vec<TableLinkModel>, rows: &Vec<TableLinkModel>)
    ensures
        final(target).deep_view() == old(target).deep_view() + rows.deep_view(),
{
    let ghost before = target.deep_view();
    let mut i: usize = 0;
    while i < rows.len()
        invariant
            i <= rows.len(),
            target.deep_view() == before + rows.deep_view().take(i as int),
        decreases rows.len() - i,
    {
        let ghost so_far = target.deep_view();
        target.push(rows[i].clone());
        i = i + 1;
        assert(target.deep_view() =~= so_far.push(rows[i - 1]@));
        assert(target.deep_view() =~= before + rows.deep_view().take(i as int));
    }
    assert(rows.deep_view().take(rows.len() as int) =~= rows.deep_view());
}

/// Appends copies of `rows` to `target`.
fn extend_diagram_links(target: &mut Vec<DiagramLinkModel>, rows: &Vec<DiagramLinkModel>)
    ensures
        final(target).deep_view() == old(target).deep_view() + rows.deep_view(),
{
    let ghost before = target.deep_view();
    let mut i: usize = 0;
    while i < rows.len()
        invariant
            i <= rows.len(),
            target.deep_view() == before + rows.deep_view().take(i as int),
        decreases rows.len() - i,
    {
        let ghost so_far = target.deep_view();
        target.push(rows[i].clone());
        i = i + 1;
        assert(target.deep_view() =~= so_far.push(rows[i - 1]@));
        assert(target.deep_view() =~= before + rows.deep_view().take(i as int));
    }
    assert(rows.deep_view().take(rows.len() as int) =~= rows.deep_view());
}

/// The value of a text attribute after a change.
fn changed_text(change: &Change<String>, current: &Option<String>) -> (value: Option<String>)
    ensures
        value.deep_view() == change.deep_view().applied(current.deep_view()),
{
    match change {
        Change::Unchanged => clone_opt_text(current),
        Change::SetTo(text) => Some(text.clone()),
    }
}

/// The value of a flag after a change.
fn changed_flag(change: &Change<bool>, current: Option<bool>) -> (value: Option<bool>)
    ensures
        value == change.applied(current),
{
    match change {
        Change::Unchanged => current,
        Change::SetTo(flag) => Some(*flag),
    }
}

/// The row after an update, by the rule of `patched`.
fn patched_row(change: &TableChange, row: &TableModel) -> (next: TableModel)
    ensures
        next@ == patched(change@)(row@),
{
    if row.id == change.id {
        TableModel {
            id: row.id.clone(),
            name: changed_text(&change.name, &row.name),
            color: changed_text(&change.color, &row.color),
            comment: changed_text(&change.comment, &row.comment),
            locked: changed_flag(&change.locked, row.locked),
            x: changed_text(&change.x, &row.x),
            y: changed_text(&change.y, &row.y),
        }
    } else {
        row.clone()
    }
}

/// Whether an optional reference names `id`.
fn names(reference: &Option<String>, id: &String) -> (yes: bool)
    ensures
        yes == (reference.deep_view() == Some(id@)),
{
    match reference {
        Some(text) => *text == *id,
        None => false,
    }
}

/// The joined row of a field under table `table_id`.
fn joined_row(field: &FieldModel, table_id: &String) -> (row: FieldWithTable)
    ensures
        row@ == joined(field@, table_id@),
{
    FieldWithTable {
        id: field.id.clone(),
        check: clone_opt_text(&field.check),
        comment: clone_opt_text(&field.comment),
        default: clone_opt_text(&field.default),
        increment: field.increment,
        not_null: field.not_null,
        primary: field.primary,
        size: field.size,
        field_type: clone_opt_text(&field.field_type),
        unique: field.unique,
        table_id: table_id.clone(),
        name: clone_opt_text(&field.name),
    }
}

/// A list of writes that fails on a prefix fails on the whole with the same fault.
pub proof fn lemma_apply_all_stops(db: Database, effects: Seq<Effect>, n: int)
    requires
        0 <= n <= effects.len(),
        db.apply_all(effects.take(n)) is Err,
    ensures
        db.apply_all(effects) == db.apply_all(effects.take(n)),
    decreases effects.len(),
{
    if n == effects.len() {
        assert(effects.take(n) =~= effects);
    } else {
        assert(effects.drop_last().take(n) =~= effects.take(n));
        lemma_apply_all_stops(db, effects.drop_last(), n);
    }
}

impl MemoryStore {
    /// A store without rows.
    pub fn new() -> (store: Self)
        ensures
            store@ == Database::empty(),
            store@.well_formed(),
    {
        let store = MemoryStore {
            tables: Vec::new(),
            fields: Vec::new(),
            table_links: Vec::new(),
            diagram_links: Vec::new(),
        };
        assert(store.tables.deep_view() =~= Seq::<TableRow>::empty());
        assert(store.fields.deep_view() =~= Seq::<FieldRow>::empty());
        assert(store.table_links.deep_view() =~= Seq::<TableLinkRow>::empty());
        assert(store.diagram_links.deep_view() =~= Seq::<DiagramLinkRow>::empty());
        store
    }

    /// The table rows, in the order in which they were inserted.
    pub fn tables(&self) -> (rows: &Vec<TableModel>)
        ensures
            rows.deep_view() == self@.tables,
    {
        &self.tables
    }

    /// The field rows, in the order in which they were inserted.
    pub fn fields(&self) -> (rows: &Vec<FieldModel>)
        ensures
            rows.deep_view() == self@.fields,
    {
        &self.fields
    }

    /// The table-field links, in the order in which they were inserted.
    pub fn table_links(&self) -> (rows: &Vec<TableLinkModel>)
        ensures
            rows.deep_view() == self@.table_links,
    {
        &self.table_links
    }

    /// The diagram links, in the order in which they were inserted.
    pub fn diagram_links(&self) -> (rows: &Vec<DiagramLinkModel>)
        ensures
            rows.deep_view() == self@.diagram_links,
    {
        &self.diagram_links
    }

    /// A copy of the store.
    pub fn snapshot(&self) -> (copy: Self)
        ensures
            copy@ == self@,
    {
        let mut tables: Vec<TableModel> = Vec::new();
        extend_tables(&mut tables, &self.tables);
        let mut fields: Vec<FieldModel> = Vec::new();
        extend_fields(&mut fields, &self.fields);
        let mut table_links: Vec<TableLinkModel> = Vec::new();
        extend_table_links(&mut table_links, &self.table_links);
        let mut diagram_links: Vec<DiagramLinkModel> = Vec::new();
        extend_diagram_links(&mut diagram_links, &self.diagram_links);
        let copy = MemoryStore { tables, fields, table_links, diagram_links };
        assert(copy.tables.deep_view() =~= self.tables.deep_view());
        assert(copy.fields.deep_view() =~= self.fields.deep_view());
        assert(copy.table_links.deep_view() =~= self.table_links.deep_view());
        assert(copy.diagram_links.deep_view() =~= self.diagram_links.deep_view());
        copy
    }

    fn update_table(&mut self, change: &TableChange) -> (result: Result<(), Fault>)
        requires
            old(self)@.well_formed(),
        ensures
            final(self)@.well_formed(),
            match old(self)@.apply(Effect::UpdateTable(change@)) {
                Ok(next) => result is Ok && final(self)@ == next,
                Err(fault) => result == Err::<(), Fault>(fault) && final(self)@ == old(self)@,
            },
    {
        let keys = keys_of_tables(&self.tables);
        if !among(&keys, &change.id) {
            return Err(Fault::NotFound);
        }
        let ghost before = self.tables.deep_view();
        let mut next: Vec<TableModel> = Vec::new();
        let mut i: usize = 0;
        while i < self.tables.len()
            invariant
                i <= self.tables.len(),
                next.len() == i,
                before == self.tables.deep_view(),
                forall|j: int| 0 <= j < i ==> (#[trigger] next[j])@ == patched(change@)(before[j]),
            decreases self.tables.len() - i,
        {
            next.push(patched_row(change, &self.tables[i]));
            i = i + 1;
        }
        assert(next.deep_view() =~= before.map_values(patched(change@)));
        assert(table_keys(next.deep_view()) =~= table_keys(before));
        self.tables = next;
        Ok(())
    }

    fn delete_table(&mut self, id: &String)
        requires
            old(self)@.well_formed(),
        ensures
            final(self)@.well_formed(),
            Ok::<Database, Fault>(final(self)@) == old(self)@.apply(Effect::DeleteTable(id@)),
    {
        let ghost before = self.tables.deep_view();
        let ghost pred = table_is_not(id@);
        let mut kept: Vec<TableModel> = Vec::new();
        let mut i: usize = 0;
        assert(before.take(0) =~= Seq::<TableRow>::empty());
        assert(kept.deep_view() =~= Seq::<TableRow>::empty());
        while i < self.tables.len()
            invariant
                i <= self.tables.len(),
                before == self.tables.deep_view(),
                pred == table_is_not(id@),
                kept.deep_view() == before.take(i as int).filter(pred),
            decreases self.tables.len() - i,
        {
            let ghost so_far = kept.deep_view();
            proof {
                lemma_filter_step(before, i as int, pred);
            }
            if self.tables[i].id != *id {
                kept.push(self.tables[i].clone());
                assert(kept.deep_view() =~= so_far.push(before[i as int]));
            }
            i = i + 1;
        }
        proof {
            assert(before.take(self.tables.len() as int) =~= before);
            lemma_filter_keeps_unique(before, pred, table_key());
        }
        self.tables = kept;
    }

    fn delete_table_links_of(&mut self, table_id: &String)
        requires
            old(self)@.well_formed(),
        ensures
            final(self)@.well_formed(),
            Ok::<Database, Fault>(final(self)@) == old(self)@.apply(
                Effect::DeleteTableLinksOf(table_id@),
            ),
    {
        let ghost before = self.table_links.deep_view();
        let ghost pred = link_not_of(table_id@);
        let mut kept: Vec<TableLinkModel> = Vec::new();
        let mut i: usize = 0;
        assert(before.take(0) =~= Seq::<TableLinkRow>::empty());
        assert(kept.deep_view() =~= Seq::<TableLinkRow>::empty());
        while i < self.table_links.len()
            invariant
                i <= self.table_links.len(),
                before == self.table_links.deep_view(),
                pred == link_not_of(table_id@),
                kept.deep_view() == before.take(i as int).filter(pred),
            decreases self.table_links.len() - i,
        {
            let ghost so_far = kept.deep_view();
            proof {
                lemma_filter_step(before, i as int, pred);
            }
            if !names(&self.table_links[i].table_id, table_id) {
                kept.push(self.table_links[i].clone());
                assert(kept.deep_view() =~= so_far.push(before[i as int]));
            }
            i = i + 1;
        }
        proof {
            assert(before.take(self.table_links.len() as int) =~= before);
            lemma_filter_keeps_unique(before, pred, table_link_key());
        }
        self.table_links = kept;
    }

    fn delete_diagram_links_of(&mut self, table_id: &String)
        requires
            old(self)@.well_formed(),
        ensures
            final(self)@.well_formed(),
            Ok::<Database, Fault>(final(self)@) == old(self)@.apply(
                Effect::DeleteDiagramLinksOf(table_id@),
            ),
    {
        let ghost before = self.diagram_links.deep_view();
        let ghost pred = diagram_link_not_of(table_id@);
        let mut kept: Vec<DiagramLinkModel> = Vec::new();
        let mut i: usize = 0;
        assert(before.take(0) =~= Seq::<DiagramLinkRow>::empty());
        assert(kept.deep_view() =~= Seq::<DiagramLinkRow>::empty());
        while i < self.diagram_links.len()
            invariant
                i <= self.diagram_links.len(),
                before == self.diagram_links.deep_view(),
                pred == diagram_link_not_of(table_id@),
                kept.deep_view() == before.take(i as int).filter(pred),
            decreases self.diagram_links.len() - i,
        {
            let ghost so_far = kept.deep_view();
            proof {
                lemma_filter_step(before, i as int, pred);
            }
            if !names(&self.diagram_links[i].table_id, table_id) {
                kept.push(self.diagram_links[i].clone());
                assert(kept.deep_view() =~= so_far.push(before[i as int]));
            }
            i = i + 1;
        }
        proof {
            assert(before.take(self.diagram_links.len() as int) =~= before);
            lemma_filter_keeps_unique(before, pred, diagram_link_key());
        }
        self.diagram_links = kept;
    }

    fn delete_fields(&mut self, ids: &Vec<String>)
        requires
            old(self)@.well_formed(),
        ensures
            final(self)@.well_formed(),
            Ok::<Database, Fault>(final(self)@) == old(self)@.apply(
                Effect::DeleteFields(ids.deep_view()),
            ),
    {
        let ghost before = self.fields.deep_view();
        let ghost pred = field_not_among(ids.deep_view());
        let mut kept: Vec<FieldModel> = Vec::new();
        let mut i: usize = 0;
        assert(before.take(0) =~= Seq::<FieldRow>::empty());
        assert(kept.deep_view() =~= Seq::<FieldRow>::empty());
        while i < self.fields.len()
            invariant
                i <= self.fields.len(),
                before == self.fields.deep_view(),
                pred == field_not_among(ids.deep_view()),
                kept.deep_view() == before.take(i as int).filter(pred),
            decreases self.fields.len() - i,
        {
            let ghost so_far = kept.deep_view();
            proof {
                lemma_filter_step(before, i as int, pred);
            }
            if !among(ids, &self.fields[i].id) {
                kept.push(self.fields[i].clone());
                assert(kept.deep_view() =~= so_far.push(before[i as int]));
            }
            i = i + 1;
        }
        proof {
            assert(before.take(self.fields.len() as int) =~= before);
            lemma_filter_keeps_unique(before, pred, field_key());
        }
        self.fields = kept;
    }

    /// Whether a link binds table `table_id` to diagram `diagram_id`.
    fn diagram_holds(&self, diagram_id: &String, table_id: &String) -> (held: bool)
        ensures
            held == self@.diagram_holds(diagram_id@, table_id@),
    {
        let ghost links = self.diagram_links.deep_view();
        let mut i: usize = 0;
        while i < self.diagram_links.len()
            invariant
                i <= self.diagram_links.len(),
                links == self.diagram_links.deep_view(),
                forall|j: int|
                    0 <= j < i ==> !((#[trigger] links[j]).diagram_id == Some(diagram_id@)
                        && links[j].table_id == Some(table_id@)),
            decreases self.diagram_links.len() - i,
        {
            let link = &self.diagram_links[i];
            assert(links[i as int] == link@);
            if names(&link.diagram_id, diagram_id) && names(&link.table_id, table_id) {
                return true;
            }
            i = i + 1;
        }
        false
    }

    /// The tables of a diagram.
    pub fn tables_of_diagram(&self, diagram_id: &String) -> (rows: Vec<TableModel>)
        ensures
            rows.deep_view() == self@.tables_of_diagram(diagram_id@),
    {
        let ghost all = self.tables.deep_view();
        let ghost pred = self@.held_by(diagram_id@);
        let mut rows: Vec<TableModel> = Vec::new();
        let mut i: usize = 0;
        assert(all.take(0) =~= Seq::<TableRow>::empty());
        assert(rows.deep_view() =~= Seq::<TableRow>::empty());
        while i < self.tables.len()
            invariant
                i <= self.tables.len(),
                all == self.tables.deep_view(),
                pred == self@.held_by(diagram_id@),
                rows.deep_view() == all.take(i as int).filter(pred),
            decreases self.tables.len() - i,
        {
            let ghost so_far = rows.deep_view();
            proof {
                lemma_filter_step(all, i as int, pred);
            }
            if self.diagram_holds(diagram_id, &self.tables[i].id) {
                rows.push(self.tables[i].clone());
                assert(rows.deep_view() =~= so_far.push(all[i as int]));
            }
            i = i + 1;
        }
        assert(all.take(self.tables.len() as int) =~= all);
        rows
    }

    /// Appends to `rows` what one link contributes to a read for `table_ids`.
    fn join_link(&self, rows: &mut Vec<FieldWithTable>, link: &TableLinkModel, table_ids: &Vec<String>)
        ensures
            final(rows).deep_view() == old(rows).deep_view() + self@.joined_by(
                link@,
                table_ids.deep_view(),
            ),
    {
        let ghost base = rows.deep_view();
        let ghost all = self.fields.deep_view();
        match (&link.table_id, &link.field_id) {
            (Some(table_id), Some(field_id)) => {
                if among(table_ids, table_id) {
                    let ghost pred = field_is(field_id@);
                    let ghost under = joined_under(table_id@);
                    let mut j: usize = 0;
                    assert(all.take(0) =~= Seq::<FieldRow>::empty());
                    assert(all.take(0).filter(pred) =~= Seq::<FieldRow>::empty()) by {
                        reveal(Seq::filter);
                    }
                    assert(base + all.take(0).filter(pred).map_values(under) =~= base);
                    while j < self.fields.len()
                        invariant
                            j <= self.fields.len(),
                            all == self.fields.deep_view(),
                            pred == field_is(field_id@),
                            under == joined_under(table_id@),
                            rows.deep_view() == base + all.take(j as int).filter(pred).map_values(
                                under,
                            ),
                        decreases self.fields.len() - j,
                    {
                        let ghost so_far = rows.deep_view();
                        let ghost kept = all.take(j as int).filter(pred);
                        proof {
                            lemma_filter_step(all, j as int, pred);
                        }
                        if self.fields[j].id == *field_id {
                            rows.push(joined_row(&self.fields[j], table_id));
                            proof {
                                assert(rows.deep_view() =~= so_far.push(under(all[j as int])));
                                assert(kept.push(all[j as int]).map_values(under)
                                    =~= kept.map_values(under).push(under(all[j as int])));
                                assert(rows.deep_view() =~= base + kept.push(
                                    all[j as int],
                                ).map_values(under));
                            }
                        }
                        j = j + 1;
                    }
                    assert(all.take(self.fields.len() as int) =~= all);
                } else {
                    assert(base + Seq::<JoinedField>::empty() =~= base);
                }
            },
            _ => {
                assert(base + Seq::<JoinedField>::empty() =~= base);
            },
        }
    }

    /// The fields of the given tables, each with the table that a link binds it
    /// to.
    pub fn fields_of_tables(&self, table_ids: &Vec<String>) -> (rows: Vec<FieldWithTable>)
        ensures
            rows.deep_view() == self@.fields_of_tables(table_ids.deep_view()),
    {
        let ghost links = self.table_links.deep_view();
        let ghost wanted = table_ids.deep_view();
        let mut rows: Vec<FieldWithTable> = Vec::new();
        let mut i: usize = 0;
        assert(links.take(0) =~= Seq::<TableLinkRow>::empty());
        assert(rows.deep_view() =~= Seq::<JoinedField>::empty());
        while i < self.table_links.len()
            invariant
                i <= self.table_links.len(),
                links == self.table_links.deep_view(),
                wanted == table_ids.deep_view(),
                rows.deep_view() == self@.joined_over(links.take(i as int), wanted),
            decreases self.table_links.len() - i,
        {
            proof {
                assert(links.take(i + 1).drop_last() =~= links.take(i as int));
                assert(links.take(i + 1).last() == links[i as int]);
            }
            self.join_link(&mut rows, &self.table_links[i], table_ids);
            i = i + 1;
        }
        assert(links.take(self.table_links.len() as int) =~= links);
        rows
    }

    /// The fields linked to one table.
    pub fn fields_of_table(&self, table_id: &String) -> (rows: Vec<FieldWithTable>)
        ensures
            rows.deep_view() == self@.fields_of_table(table_id@),
    {
        let mut wanted: Vec<String> = Vec::new();
        wanted.push(table_id.clone());
        assert(wanted.deep_view() =~= seq![table_id@]);
        self.fields_of_tables(&wanted)
    }

    /// Runs the writes inside one transaction: all of them take effect, or, where
    /// one is refused, none does and the fault is reported.
    pub fn transact(&mut self, writes: &Vec<Write>) -> (result: Result<(), Fault>)
        requires
            old(self)@.well_formed(),
        ensures
            final(self)@.well_formed(),
            final(self)@ == old(self)@.transact(writes.deep_view()),
            match old(self)@.apply_all(writes.deep_view()) {
                Ok(_) => result is Ok,
                Err(fault) => result == Err::<(), Fault>(fault),
            },
    {
        let ghost start = self@;
        let ghost effects = writes.deep_view();
        let mut work = self.snapshot();
        let mut i: usize = 0;
        assert(effects.take(0) =~= Seq::<Effect>::empty());
        while i < writes.len()
            invariant
                i <= writes.len(),
                effects == writes.deep_view(),
                start == self@,
                start == old(self)@,
                start.well_formed(),
                work@.well_formed(),
                start.apply_all(effects.take(i as int)) == Ok::<Database, Fault>(work@),
            decreases writes.len() - i,
        {
            proof {
                assert(effects.take(i + 1).drop_last() =~= effects.take(i as int));
                assert(effects.take(i + 1).last() == writes[i as int].deep_view());
            }
            match work.apply(&writes[i]) {
                Ok(()) => {},
                Err(fault) => {
                    proof {
                        lemma_apply_all_stops(start, effects, i + 1);
                    }
                    return Err(fault);
                },
            }
            i = i + 1;
        }
        assert(effects.take(writes.len() as int) =~= effects);
        *self = work;
        Ok(())
    }

    /// Performs one write, or refuses it and changes nothing.
    pub fn apply(&mut self, write: &Write) -> (result: Result<(), Fault>)
        requires
            old(self)@.well_formed(),
        ensures
            final(self)@.well_formed(),
            match old(self)@.apply(write.deep_view()) {
                Ok(next) => result is Ok && final(self)@ == next,
                Err(fault) => result == Err::<(), Fault>(fault) && final(self)@ == old(self)@,
            },
    {
        match write {
            Write::InsertTables(rows) => {
                let existing = keys_of_tables(&self.tables);
                let added = keys_of_tables(rows);
                assert(table_keys(self.tables.deep_view() + rows.deep_view()) =~= table_keys(
                    self.tables.deep_view(),
                ) + table_keys(rows.deep_view()));
                if keys_fit(&existing, &added) {
                    extend_tables(&mut self.tables, rows);
                    Ok(())
                } else {
                    Err(Fault::Conflict)
                }
            },
            Write::InsertFields(rows) => {
                let existing = keys_of_fields(&self.fields);
                let added = keys_of_fields(rows);
                assert(field_keys(self.fields.deep_view() + rows.deep_view()) =~= field_keys(
                    self.fields.deep_view(),
                ) + field_keys(rows.deep_view()));
                if keys_fit(&existing, &added) {
                    extend_fields(&mut self.fields, rows);
                    Ok(())
                } else {
                    Err(Fault::Conflict)
                }
            },
            Write::InsertTableLinks(rows) => {
                let existing = keys_of_table_links(&self.table_links);
                let added = keys_of_table_links(rows);
                assert(table_link_keys(self.table_links.deep_view() + rows.deep_view())
                    =~= table_link_keys(self.table_links.deep_view()) + table_link_keys(
                    rows.deep_view(),
                ));
                if keys_fit(&existing, &added) {
                    extend_table_links(&mut self.table_links, rows);
                    Ok(())
                } else {
                    Err(Fault::Conflict)
                }
            },
            Write::InsertDiagramLinks(rows) => {
                let existing = keys_of_diagram_links(&self.diagram_links);
                let added = keys_of_diagram_links(rows);
                assert(diagram_link_keys(self.diagram_links.deep_view() + rows.deep_view())
                    =~= diagram_link_keys(self.diagram_links.deep_view()) + diagram_link_keys(
                    rows.deep_view(),
                ));
                if keys_fit(&existing, &added) {
                    extend_diagram_links(&mut self.diagram_links, rows);
                    Ok(())
                } else {
                    Err(Fault::Conflict)
                }
            },
            Write::UpdateTable(change) => self.update_table(change),
            Write::DeleteTable(id) => {
                self.delete_table(id);
                Ok(())
            },
            Write::DeleteTableLinksOf(table_id) => {
                self.delete_table_links_of(table_id);
                Ok(())
            },
            Write::DeleteDiagramLinksOf(table_id) => {
                self.delete_diagram_links_of(table_id);
                Ok(())
            },
            Write::DeleteFields(ids) => {
                self.delete_fields(ids);
                Ok(())
            },
        }
    }
}

} // verus!
