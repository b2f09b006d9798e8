use vstd::prelude::*;

verus! {

/// Collects the settings of a database-backed message memory. The
/// database handle lives with the driver crate, outside this one; only
/// the table choice is kept here.
#[derive(Debug, Clone)]
pub struct SurrealDbMemoryBuilder {
    pub table: Option<String>,
}

impl Default for SurrealDbMemoryBuilder {
    fn default() -> (r: SurrealDbMemoryBuilder)
        ensures
            r.table is None,
    {
        SurrealDbMemoryBuilder { table: None }
    }
}

impl SurrealDbMemoryBuilder {
    /// Choose the table messages are kept in.
    pub fn with_table(self, table: String) -> (r: SurrealDbMemoryBuilder)
        ensures
            r.table matches Some(t) && t@ == table@,
    {
        SurrealDbMemoryBuilder { table: Some(table) }
    }
}

} // verus!
