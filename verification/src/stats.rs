//! Query-result and statistics structures: what the graph store hands back,
//! held as plain values.

use vstd::prelude::*;

use crate::strmap::StrMap;

verus! {

/// Node and edge counts read back from the graph store.
#[derive(Debug, Clone, Copy, PartialEq, Eq, Structural)]
pub struct ImportStatistics {
    /// Binary nodes in the store.
    pub binaries: usize,
    /// Function nodes in the store.
    pub functions: usize,
    /// String nodes in the store.
    pub strings: usize,
    /// Library nodes in the store.
    pub libraries: usize,
    /// CALLS edges in the store.
    pub calls_relationships: usize,
}

/// One function as a query result row.
#[derive(Debug, Clone)]
pub struct FunctionInfo {
    /// Derived identifier.
    pub uid: String,
    /// Function name.
    pub name: String,
    /// Address, when known.
    pub address: Option<String>,
}

/// The callees and callers of one function, within a queried depth.
#[derive(Debug, Clone)]
pub struct CallGraph {
    /// Functions reachable from the queried function.
    pub callees: Vec<FunctionInfo>,
    /// Functions that reach the queried function.
    pub callers: Vec<FunctionInfo>,
}

/// One cross-reference: a call edge reported relative to an address.
#[derive(Debug, Clone)]
pub struct Xref {
    /// Calling function name.
    pub from_function: String,
    /// Called function name.
    pub to_function: String,
    /// Call-site offset.
    pub offset: String,
}

/// Whole-database counts.
#[derive(Debug)]
pub struct DatabaseStats {
    /// All nodes.
    pub node_count: i64,
    /// All relationships.
    pub relationship_count: i64,
    /// Node count per label.
    pub label_counts: StrMap<i64>,
}

impl DatabaseStats {
    pub fn new() -> (r: DatabaseStats)
        ensures
            r.node_count == 0,
            r.relationship_count == 0,
            r.label_counts@ == Map::<Seq<char>, i64>::empty(),
    {
        DatabaseStats { node_count: 0, relationship_count: 0, label_counts: StrMap::new() }
    }
}

impl Default for DatabaseStats {
    fn default() -> (r: DatabaseStats)
        ensures
            r.node_count == 0,
            r.relationship_count == 0,
            r.label_counts@ == Map::<Seq<char>, i64>::empty(),
    {
        DatabaseStats::new()
    }
}

} // verus!
