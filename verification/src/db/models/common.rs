//! Statements as text: what every record contributes and how the four kinds of
//! statement are put together from it.

use crate::text::Text;
use vstd::prelude::*;

verus! {

/// Something that yields the four statements that act on it.
pub trait Model {
    fn get_insert_sql(&self) -> String;

    fn get_update_sql(&self) -> String;

    fn get_delete_sql(&self) -> String;

    fn get_select_sql(&self) -> String;
}

/// The parts of a statement: the relation, a column list, a value list, a
/// condition and an ordering.
#[derive(Debug, PartialEq, Eq)]
pub struct CommonModel {
    pub table_name: String,
    pub columns: String,
    pub values: String,
    pub where_clause: String,
    pub order_by: String,
}

/// What the parts of a statement hold.
pub struct StatementParts {
    pub table_name: Text,
    pub columns: Text,
    pub values: Text,
    pub where_clause: Text,
    pub order_by: Text,
}

impl View for CommonModel {
    type V = StatementParts;

    open spec fn view(&self) -> StatementParts {
        StatementParts {
            table_name: self.table_name@,
            columns: self.columns@,
            values: self.values@,
            where_clause: self.where_clause@,
            order_by: self.order_by@,
        }
    }
}

impl StatementParts {
    /// The condition of a statement: the one given, or one that holds of every
    /// row where none is given.
    pub open spec fn condition(self) -> Text {
        if self.where_clause.len() == 0 {
            "1=1"@
        } else {
            self.where_clause
        }
    }

    /// The ordering of a statement: the one given, or by `id` where none is given.
    pub open spec fn ordering(self) -> Text {
        if self.order_by.len() == 0 {
            "id"@
        } else {
            self.order_by
        }
    }

    pub open spec fn insert_sql(self) -> Text {
        "INSERT INTO "@ + self.table_name + " ("@ + self.columns + ") VALUES ("@ + self.values
            + ")"@
    }

    /// The update statement. Its condition is the value list: that is where the
    /// caller of an update puts it.
    pub open spec fn update_sql(self) -> Text {
        "UPDATE "@ + self.table_name + " SET "@ + self.columns + " WHERE "@ + self.values
    }

    pub open spec fn delete_sql(self) -> Text {
        "DELETE FROM "@ + self.table_name + " WHERE "@ + self.condition()
    }

    pub open spec fn select_sql(self) -> Text {
        "SELECT "@ + self.columns + " FROM "@ + self.table_name + " WHERE "@ + self.condition()
            + " ORDER BY "@ + self.ordering()
    }
}

impl CommonModel {
    /// The parts of a statement, as given.
    pub fn new(
        table_name: String,
        columns: String,
        values: String,
        where_clause: String,
        order_by: String,
    ) -> (model: Self)
        ensures
            model == (CommonModel { table_name, columns, values, where_clause, order_by }),
    {
        CommonModel { table_name, columns, values, where_clause, order_by }
    }
}

impl Model for CommonModel {
    fn get_insert_sql(&self) -> (sql: String)
        ensures
            sql@ == self@.insert_sql(),
    {
        let mut sql = String::from_str("INSERT INTO ");
        sql.append(self.table_name.as_str());
        sql.append(" (");
        sql.append(self.columns.as_str());
        sql.append(") VALUES (");
        sql.append(self.values.as_str());
        sql.append(")");
        sql
    }

    fn get_update_sql(&self) -> (sql: String)
        ensures
            sql@ == self@.update_sql(),
    {
        let mut sql = String::from_str("UPDATE ");
        sql.append(self.table_name.as_str());
        sql.append(" SET ");
        sql.append(self.columns.as_str());
        sql.append(" WHERE ");
        sql.append(self.values.as_str());
        sql
    }

    fn get_delete_sql(&self) -> (sql: String)
        ensures
            sql@ == self@.delete_sql(),
    {
        let mut sql = String::from_str("DELETE FROM ");
        sql.append(self.table_name.as_str());
        sql.append(" WHERE ");
        if self.where_clause.as_str().is_empty() {
            sql.append("1=1");
        } else {
            sql.append(self.where_clause.as_str());
        }
        sql
    }

    fn get_select_sql(&self) -> (sql: String)
        ensures
            sql@ == self@.select_sql(),
    {
        let mut sql = String::from_str("SELECT ");
        sql.append(self.columns.as_str());
        sql.append(" FROM ");
        sql.append(self.table_name.as_str());
        sql.append(" WHERE ");
        if self.where_clause.as_str().is_empty() {
            sql.append("1=1");
        } else {
            sql.append(self.where_clause.as_str());
        }
        sql.append(" ORDER BY ");
        if self.order_by.as_str().is_empty() {
            sql.append("id");
        } else {
            sql.append(self.order_by.as_str());
        }
        sql
    }
}

/// What a record contributes to its statements.
pub trait BusinessModel {
    /// The columns of the record, separated by commas.
    fn get_columns(&self) -> String;

    /// The values of the record, in the order of its columns.
    fn get_values(&self) -> String;

    /// The column by which records of this kind are listed.
    fn get_order_by(&self) -> String;
}

/// Any record can be turned into the parts of a statement on a relation.
pub trait ToCommonModel {
    fn to_common_model(self, table_name: String, where_clause: String) -> CommonModel;
}

impl<T: BusinessModel> ToCommonModel for T {
    fn to_common_model(self, table_name: String, where_clause: String) -> (model: CommonModel)
        ensures
            model.table_name == table_name,
            model.where_clause == where_clause,
            call_ensures(T::get_columns, (&self,), model.columns),
            call_ensures(T::get_values, (&self,), model.values),
            call_ensures(T::get_order_by, (&self,), model.order_by),
    {
        let columns = self.get_columns();
        let values = self.get_values();
        let order_by = self.get_order_by();
        CommonModel::new(table_name, columns, values, where_clause, order_by)
    }
}

} // verus!
