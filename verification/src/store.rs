//! The relational state that the engine writes to and reads from, as mathematics:
//! four relations, the writes that change them and the two joined reads.

use crate::entity::dto::JoinedField;
use crate::entity::model::{
    DiagramLinkModel, DiagramLinkRow, FieldModel, FieldRow, TableLinkModel, TableLinkRow,
    TableModel, TableRow,
};
use crate::entity::vo::table_vo::{TableChange, TablePatch};
use crate::text::Text;
use vstd::prelude::*;

verus! {

/// Why storage refuses a write.
#[derive(Debug, PartialEq, Eq, Clone, Copy)]
pub enum Fault {
    /// A row to insert carries a primary key that is already taken.
    Conflict,
    /// The row to update does not exist.
    NotFound,
}

/// One write, by what it holds.
pub enum Effect {
    InsertTables(Seq<TableRow>),
    InsertFields(Seq<FieldRow>),
    InsertTableLinks(Seq<TableLinkRow>),
    InsertDiagramLinks(Seq<DiagramLinkRow>),
    UpdateTable(TablePatch),
    DeleteTable(Text),
    DeleteTableLinksOf(Text),
    DeleteDiagramLinksOf(Text),
    DeleteFields(Seq<Text>),
}

/// One write that the engine asks storage to perform.
#[derive(Debug, PartialEq, Eq)]
pub enum Write {
    /// Insert these table rows in one statement.
    InsertTables(Vec<TableModel>),
    /// Insert these field rows in one statement.
    InsertFields(Vec<FieldModel>),
    /// Insert these table-field links in one statement.
    InsertTableLinks(Vec<TableLinkModel>),
    /// Insert these diagram links in one statement.
    InsertDiagramLinks(Vec<DiagramLinkModel>),
    /// Change the attributes of one table row.
    UpdateTable(TableChange),
    /// Delete the table row with this identifier.
    DeleteTable(String),
    /// Delete every table-field link of this table.
    DeleteTableLinksOf(String),
    /// Delete every diagram link of this table.
    DeleteDiagramLinksOf(String),
    /// Delete the field rows with these identifiers.
    DeleteFields(Vec<String>),
}

impl DeepView for Write {
    type V = Effect;

    open spec fn deep_view(&self) -> Effect {
        match self {
            Write::InsertTables(rows) => Effect::InsertTables(rows.deep_view()),
            Write::InsertFields(rows) => Effect::InsertFields(rows.deep_view()),
            Write::InsertTableLinks(rows) => Effect::InsertTableLinks(rows.deep_view()),
            Write::InsertDiagramLinks(rows) => Effect::InsertDiagramLinks(rows.deep_view()),
            Write::UpdateTable(change) => Effect::UpdateTable(change@),
            Write::DeleteTable(id) => Effect::DeleteTable(id@),
            Write::DeleteTableLinksOf(id) => Effect::DeleteTableLinksOf(id@),
            Write::DeleteDiagramLinksOf(id) => Effect::DeleteDiagramLinksOf(id@),
            Write::DeleteFields(ids) => Effect::DeleteFields(ids.deep_view()),
        }
    }
}

/// The rows of the four relations, each in the order in which storage lists them.
pub struct Database {
    pub tables: Seq<TableRow>,
    pub fields: Seq<FieldRow>,
    pub table_links: Seq<TableLinkRow>,
    pub diagram_links: Seq<DiagramLinkRow>,
}

/// The key of a table row.
pub open spec fn table_key() -> spec_fn(TableRow) -> Text {
    |r: TableRow| r.id
}

/// The key of a field row.
pub open spec fn field_key() -> spec_fn(FieldRow) -> Text {
    |r: FieldRow| r.id
}

/// The key of a table-field link.
pub open spec fn table_link_key() -> spec_fn(TableLinkRow) -> Text {
    |r: TableLinkRow| r.id
}

/// The key of a diagram link.
pub open spec fn diagram_link_key() -> spec_fn(DiagramLinkRow) -> Text {
    |r: DiagramLinkRow| r.id
}

/// The keys of table rows, row by row.
pub open spec fn table_keys(rows: Seq<TableRow>) -> Seq<Text> {
    rows.map_values(table_key())
}

/// The keys of field rows, row by row.
pub open spec fn field_keys(rows: Seq<FieldRow>) -> Seq<Text> {
    rows.map_values(field_key())
}

/// The keys of table-field links, row by row.
pub open spec fn table_link_keys(rows: Seq<TableLinkRow>) -> Seq<Text> {
    rows.map_values(table_link_key())
}

/// The keys of diagram links, row by row.
pub open spec fn diagram_link_keys(rows: Seq<DiagramLinkRow>) -> Seq<Text> {
    rows.map_values(diagram_link_key())
}

/// The identifiers of the fields that a joined read returned.
pub open spec fn joined_keys(rows: Seq<JoinedField>) -> Seq<Text> {
    rows.map_values(|r: JoinedField| r.id)
}

/// The table rows other than the one with key `id`.
pub open spec fn table_is_not(id: Text) -> spec_fn(TableRow) -> bool {
    |r: TableRow| r.id != id
}

/// The table-field links that do not belong to table `table_id`.
pub open spec fn link_not_of(table_id: Text) -> spec_fn(TableLinkRow) -> bool {
    |l: TableLinkRow| l.table_id != Some(table_id)
}

/// The diagram links that do not name table `table_id`.
pub open spec fn diagram_link_not_of(table_id: Text) -> spec_fn(DiagramLinkRow) -> bool {
    |l: DiagramLinkRow| l.table_id != Some(table_id)
}

/// The field rows whose key is none of `ids`.
pub open spec fn field_not_among(ids: Seq<Text>) -> spec_fn(FieldRow) -> bool {
    |r: FieldRow| !ids.contains(r.id)
}

/// The field rows with key `id`.
pub open spec fn field_is(id: Text) -> spec_fn(FieldRow) -> bool {
    |r: FieldRow| r.id == id
}

/// The row after an update: the row that the patch names takes the changes, any
/// other stays as it is.
pub open spec fn patched(patch: TablePatch) -> spec_fn(TableRow) -> TableRow {
    |r: TableRow|
        if r.id == patch.id {
            TableRow { id: r.id, attrs: patch.apply(r.attrs) }
        } else {
            r
        }
}

/// The joined row of a field under table `table_id`.
pub open spec fn joined_under(table_id: Text) -> spec_fn(FieldRow) -> JoinedField {
    |r: FieldRow| joined(r, table_id)
}

/// The joined row of a field under the table that a link binds it to.
pub open spec fn joined(field: FieldRow, table_id: Text) -> JoinedField {
    JoinedField { id: field.id, table_id, attrs: field.attrs }
}

impl Database {
    /// A database without rows.
    pub open spec fn empty() -> Database {
        Database {
            tables: Seq::empty(),
            fields: Seq::empty(),
            table_links: Seq::empty(),
            diagram_links: Seq::empty(),
        }
    }

    /// Primary keys are unique within each relation.
    pub open spec fn well_formed(self) -> bool {
        &&& table_keys(self.tables).no_duplicates()
        &&& field_keys(self.fields).no_duplicates()
        &&& table_link_keys(self.table_links).no_duplicates()
        &&& diagram_link_keys(self.diagram_links).no_duplicates()
    }

    /// The identifier `id` occurs nowhere: neither as a key nor as a reference.
    pub open spec fn unused(self, id: Text) -> bool {
        &&& forall|i: int| 0 <= i < self.tables.len() ==> (#[trigger] self.tables[i]).id != id
        &&& forall|i: int| 0 <= i < self.fields.len() ==> (#[trigger] self.fields[i]).id != id
        &&& forall|i: int|
            0 <= i < self.table_links.len() ==> {
                &&& (#[trigger] self.table_links[i]).id != id
                &&& self.table_links[i].table_id != Some(id)
                &&& self.table_links[i].field_id != Some(id)
            }
        &&& forall|i: int|
            0 <= i < self.diagram_links.len() ==> {
                &&& (#[trigger] self.diagram_links[i]).id != id
                &&& self.diagram_links[i].table_id != Some(id)
            }
    }

    /// The state after one write, or the fault with which storage refuses it.
    /// An insert is refused when a key would occur twice; an update when its row
    /// is missing; a delete removes what matches and never fails.
    pub open spec fn apply(self, effect: Effect) -> Result<Database, Fault> {
        match effect {
            Effect::InsertTables(rows) => {
                if table_keys(self.tables + rows).no_duplicates() {
                    Ok(Database { tables: self.tables + rows, ..self })
                } else {
                    Err(Fault::Conflict)
                }
            },
            Effect::InsertFields(rows) => {
                if field_keys(self.fields + rows).no_duplicates() {
                    Ok(Database { fields: self.fields + rows, ..self })
                } else {
                    Err(Fault::Conflict)
                }
            },
            Effect::InsertTableLinks(rows) => {
                if table_link_keys(self.table_links + rows).no_duplicates() {
                    Ok(Database { table_links: self.table_links + rows, ..self })
                } else {
                    Err(Fault::Conflict)
                }
            },
            Effect::InsertDiagramLinks(rows) => {
                if diagram_link_keys(self.diagram_links + rows).no_duplicates() {
                    Ok(Database { diagram_links: self.diagram_links + rows, ..self })
                } else {
                    Err(Fault::Conflict)
                }
            },
            Effect::UpdateTable(patch) => {
                if table_keys(self.tables).contains(patch.id) {
                    Ok(Database { tables: self.tables.map_values(patched(patch)), ..self })
                } else {
                    Err(Fault::NotFound)
                }
            },
            Effect::DeleteTable(id) => Ok(
                Database { tables: self.tables.filter(table_is_not(id)), ..self },
            ),
            Effect::DeleteTableLinksOf(table_id) => Ok(
                Database { table_links: self.table_links.filter(link_not_of(table_id)), ..self },
            ),
            Effect::DeleteDiagramLinksOf(table_id) => Ok(
                Database {
                    diagram_links: self.diagram_links.filter(diagram_link_not_of(table_id)),
                    ..self
                },
            ),
            Effect::DeleteFields(ids) => Ok(
                Database { fields: self.fields.filter(field_not_among(ids)), ..self },
            ),
        }
    }

    /// The state after a list of writes in order, or the first fault.
    pub open spec fn apply_all(self, effects: Seq<Effect>) -> Result<Database, Fault>
        decreases effects.len(),
    {
        if effects.len() == 0 {
            Ok(self)
        } else {
            match self.apply_all(effects.drop_last()) {
                Ok(state) => state.apply(effects.last()),
                Err(fault) => Err(fault),
            }
        }
    }

    /// What is visible after the writes ran inside one transaction: all of them,
    /// or, where one was refused, none.
    pub open spec fn transact(self, effects: Seq<Effect>) -> Database {
        match self.apply_all(effects) {
            Ok(state) => state,
            Err(_) => self,
        }
    }

    /// A link binds table `table_id` to diagram `diagram_id`.
    pub open spec fn diagram_holds(self, diagram_id: Text, table_id: Text) -> bool {
        exists|i: int|
            0 <= i < self.diagram_links.len() && (#[trigger] self.diagram_links[i]).diagram_id
                == Some(diagram_id) && self.diagram_links[i].table_id == Some(table_id)
    }

    /// The tables of a diagram: the table rows that a diagram link binds to it.
    /// Where no table is bound twice to one diagram, this is the inner join of the
    /// two relations.
    pub open spec fn tables_of_diagram(self, diagram_id: Text) -> Seq<TableRow> {
        self.tables.filter(self.held_by(diagram_id))
    }

    /// The table rows that a link binds to diagram `diagram_id`.
    pub open spec fn held_by(self, diagram_id: Text) -> spec_fn(TableRow) -> bool {
        |r: TableRow| self.diagram_holds(diagram_id, r.id)
    }

    /// The joined rows that one link contributes to a read for `table_ids`: the
    /// fields it points to, if it binds them to one of those tables.
    pub open spec fn joined_by(self, link: TableLinkRow, table_ids: Seq<Text>) -> Seq<JoinedField> {
        match (link.table_id, link.field_id) {
            (Some(table_id), Some(field_id)) => {
                if table_ids.contains(table_id) {
                    self.fields.filter(field_is(field_id)).map_values(joined_under(table_id))
                } else {
                    Seq::empty()
                }
            },
            _ => Seq::empty(),
        }
    }

    /// The inner join of fields and table links over the first links of the
    /// relation, kept to the tables in `table_ids`.
    pub open spec fn joined_over(self, links: Seq<TableLinkRow>, table_ids: Seq<Text>) -> Seq<
        JoinedField,
    >
        decreases links.len(),
    {
        if links.len() == 0 {
            Seq::empty()
        } else {
            self.joined_over(links.drop_last(), table_ids) + self.joined_by(links.last(), table_ids)
        }
    }

    /// The fields of the given tables, each with the table that a link binds it to:
    /// the inner join of fields and table links, in the order of the links.
    pub open spec fn fields_of_tables(self, table_ids: Seq<Text>) -> Seq<JoinedField> {
        self.joined_over(self.table_links, table_ids)
    }

    /// The fields linked to one table.
    pub open spec fn fields_of_table(self, table_id: Text) -> Seq<JoinedField> {
        self.fields_of_tables(seq![table_id])
    }
}

} // verus!
