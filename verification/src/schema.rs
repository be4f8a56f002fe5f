//! What is read of a server's schemas on a refresh, gathered into the
//! records that the metadata store keeps.
use crate::db::{new_id, refresh_server_schema};
use crate::records::{Column, Index, Schema, Table};
use crate::rows::StoreError;
use vstd::prelude::*;

verus! {

/// The schemas of one server with their tables, columns and indexes, as
/// they are read one after the other.
pub struct SchemaSnapshot {
    pub schemas: Vec<Schema>,
    pub tables: Vec<Table>,
    pub columns: Vec<Column>,
    pub indexes: Vec<Index>,
}

/// The flag that the store keeps for a column of which the server says
/// `is_nullable`: one where it says `YES`, zero otherwise.
pub open spec fn nullable_of(is_nullable: Seq<char>) -> i32 {
    if is_nullable == "YES"@ {
        1
    } else {
        0
    }
}

/// Computes [`nullable_of`].
pub fn nullable_flag(is_nullable: &str) -> (flag: i32)
    ensures
        flag == nullable_of(is_nullable@),
{
    if String::from_str(is_nullable) == String::from_str("YES") {
        1
    } else {
        0
    }
}

impl SchemaSnapshot {
    /// A snapshot that holds nothing yet.
    pub fn new() -> (snapshot: SchemaSnapshot)
        ensures
            snapshot.schemas@.len() == 0,
            snapshot.tables@.len() == 0,
            snapshot.columns@.len() == 0,
            snapshot.indexes@.len() == 0,
    {
        SchemaSnapshot {
            schemas: Vec::new(),
            tables: Vec::new(),
            columns: Vec::new(),
            indexes: Vec::new(),
        }
    }

    /// Adds the schema `name` of the server `server_id`, seen at `now`,
    /// under a fresh id, and returns the id.
    pub fn add_schema(&mut self, server_id: &str, name: &str, now: i64) -> (id: String)
        ensures
            final(self).schemas@.len() == old(self).schemas@.len() + 1,
            final(self).schemas@.drop_last() == old(self).schemas@,
            final(self).schemas@.last().id@ == id@,
            final(self).schemas@.last().server_id@ == server_id@,
            final(self).schemas@.last().name@ == name@,
            final(self).schemas@.last().last_updated == now,
            final(self).tables == old(self).tables,
            final(self).columns == old(self).columns,
            final(self).indexes == old(self).indexes,
    {
        let id = new_id();
        self.schemas.push(
            Schema {
                id: id.clone(),
                server_id: String::from_str(server_id),
                name: String::from_str(name),
                last_updated: now,
            },
        );
        id
    }

    /// Adds the table `name` of the schema `schema_id`, of the type
    /// `table_type`, under a fresh id, and returns the id.
    pub fn add_table(&mut self, schema_id: &str, name: &str, table_type: &str) -> (id: String)
        ensures
            final(self).tables@.len() == old(self).tables@.len() + 1,
            final(self).tables@.drop_last() == old(self).tables@,
            final(self).tables@.last().id@ == id@,
            final(self).tables@.last().schema_id@ == schema_id@,
            final(self).tables@.last().name@ == name@,
            final(self).tables@.last().type_@ == table_type@,
            final(self).schemas == old(self).schemas,
            final(self).columns == old(self).columns,
            final(self).indexes == old(self).indexes,
    {
        let id = new_id();
        self.tables.push(
            Table {
                id: id.clone(),
                schema_id: String::from_str(schema_id),
                name: String::from_str(name),
                type_: String::from_str(table_type),
            },
        );
        id
    }

    /// Adds the column `name` of the table `table_id`, of the type
    /// `data_type`, under a fresh id. `is_nullable` is what the server says
    /// of it: see [`nullable_of`].
    pub fn add_column(&mut self, table_id: &str, name: &str, data_type: &str, is_nullable: &str)
        ensures
            final(self).columns@.len() == old(self).columns@.len() + 1,
            final(self).columns@.drop_last() == old(self).columns@,
            final(self).columns@.last().table_id@ == table_id@,
            final(self).columns@.last().name@ == name@,
            final(self).columns@.last().data_type@ == data_type@,
            final(self).columns@.last().nullable == nullable_of(is_nullable@),
            final(self).schemas == old(self).schemas,
            final(self).tables == old(self).tables,
            final(self).indexes == old(self).indexes,
    {
        self.columns.push(
            Column {
                id: new_id(),
                table_id: String::from_str(table_id),
                name: String::from_str(name),
                data_type: String::from_str(data_type),
                nullable: nullable_flag(is_nullable),
            },
        );
    }

    /// Adds the index `name` of the table `table_id`, defined by
    /// `definition`, under a fresh id.
    pub fn add_index(&mut self, table_id: &str, name: &str, definition: &str)
        ensures
            final(self).indexes@.len() == old(self).indexes@.len() + 1,
            final(self).indexes@.drop_last() == old(self).indexes@,
            final(self).indexes@.last().table_id@ == table_id@,
            final(self).indexes@.last().name@ == name@,
            final(self).indexes@.last().definition@ == definition@,
            final(self).schemas == old(self).schemas,
            final(self).tables == old(self).tables,
            final(self).columns == old(self).columns,
    {
        self.indexes.push(
            Index {
                id: new_id(),
                table_id: String::from_str(table_id),
                name: String::from_str(name),
                definition: String::from_str(definition),
            },
        );
    }

    /// Puts the snapshot in the place of what the store holds of the
    /// schemas of the server `server_id`, or changes nothing.
    pub fn store(&self, conn: &rusqlite::Connection, server_id: &str) -> (r: Result<
        (),
        StoreError,
    >)
        ensures
            r is Err ==> r->Err_0 is Database,
    {
        refresh_server_schema(
            conn,
            server_id,
            self.schemas.as_slice(),
            self.tables.as_slice(),
            self.columns.as_slice(),
            self.indexes.as_slice(),
        )
    }
}

/// The indexes of the table `table_id` as records, each under a fresh id:
/// one for each name and definition of `found`, in order.
pub fn index_records(table_id: &str, found: &Vec<(String, String)>) -> (indexes: Vec<Index>)
    ensures
        indexes@.len() == found@.len(),
        forall|i: int|
            0 <= i < found@.len() ==> (#[trigger] indexes@[i]).table_id@ == table_id@
                && indexes@[i].name@ == found@[i].0@ && indexes@[i].definition@ == found@[i].1@,
{
    let mut indexes: Vec<Index> = Vec::new();
    let mut i: usize = 0;
    while i < found.len()
        invariant
            i <= found@.len(),
            indexes@.len() == i,
            forall|j: int|
                0 <= j < i ==> (#[trigger] indexes@[j]).table_id@ == table_id@ && indexes@[j].name@
                    == found@[j].0@ && indexes@[j].definition@ == found@[j].1@,
        decreases found@.len() - i,
    {
        indexes.push(
            Index {
                id: new_id(),
                table_id: String::from_str(table_id),
                name: found[i].0.clone(),
                definition: found[i].1.clone(),
            },
        );
        i += 1;
    }
    indexes
}

} // verus!
