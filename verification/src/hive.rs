//! The Hive Metastore client: table schemas for drift detection.
use vstd::prelude::*;
use crate::schema::{Schema, SchemaSource, SourceView, source_view};
use crate::text::copy_str;

verus! {

pub struct HiveMetastoreClient {
    pub host: String,
    pub port: u16,
    pub database: String,
}

impl HiveMetastoreClient {
    pub fn new(host: &str, port: u16, database: &str) -> (c: Self)
        ensures
            c.host@ == host@,
            c.port == port,
            c.database@ == database@,
    {
        HiveMetastoreClient { host: copy_str(host), port, database: copy_str(database) }
    }

    /// The default connection: the given host on the Metastore port 9083.
    pub fn from_config(host: &str, database: &str) -> (c: Self)
        ensures
            c.host@ == host@,
            c.port == 9083,
            c.database@ == database@,
    {
        Self::new(host, 9083, database)
    }

    /// The schema of `table`. No Metastore protocol is spoken yet, so the
    /// schema has no field; its source names the database and the table.
    pub fn get_table_schema(&self, table: &str) -> (r: Result<Schema, String>)
        ensures
            r matches Ok(s) && s.fields@.len() == 0 && source_view(s.source) == (SourceView::Hive {
                database: self.database@,
                table: table@,
            }),
    {
        Ok(
            Schema {
                fields: Vec::new(),
                source: SchemaSource::Hive { database: self.database.clone(), table: copy_str(table) },
            },
        )
    }

    /// The tables of the database. No Metastore protocol is spoken yet, so the list is empty.
    pub fn list_tables(&self) -> (r: Result<Vec<String>, String>)
        ensures
            r matches Ok(v) && v@.len() == 0,
    {
        Ok(Vec::new())
    }
}

} // verus!
