//! The edge model: the relationship kinds the graph carries between
//! binaries, functions, strings and libraries.

use vstd::prelude::*;
use vstd::string::StringExecFns;

use crate::text::ci_seq_eq;
use crate::text::ci_eq_str;

verus! {

/// A CONTAINS edge by endpoint keys: a binary contains a function.
#[derive(Debug, Clone)]
pub struct ContainsRelationship {
    pub from_uid: String,
    pub to_uid: String,
}

/// A CALLS edge by endpoint keys, with its call site.
#[derive(Debug, Clone)]
pub struct CallsRelationship {
    pub from_uid: String,
    pub to_uid: String,
    pub call_site: String,
}

/// How a call transfers control.
#[derive(Debug, Clone, Copy, PartialEq, Eq, Structural)]
pub enum CallType {
    /// Direct call.
    Direct,
    /// Indirect call.
    Indirect,
    /// Virtual call.
    Virtual,
    /// Tail call.
    Tail,
}

/// The call type a token names, compared case-insensitively; an unknown
/// token means a direct call — a deliberate leniency, not an error.
pub open spec fn spec_call_type(s: Seq<char>) -> CallType {
    if ci_seq_eq(s, seq!['d', 'i', 'r', 'e', 'c', 't']) {
        CallType::Direct
    } else if ci_seq_eq(s, seq!['i', 'n', 'd', 'i', 'r', 'e', 'c', 't']) {
        CallType::Indirect
    } else if ci_seq_eq(s, seq!['v', 'i', 'r', 't', 'u', 'a', 'l']) {
        CallType::Virtual
    } else if ci_seq_eq(s, seq!['t', 'a', 'i', 'l']) {
        CallType::Tail
    } else {
        CallType::Direct
    }
}

impl CallType {
    /// Classifies a call-type token; unknown tokens default to `Direct`.
    pub fn from_token(s: &str) -> (t: CallType)
        ensures
            t == spec_call_type(s@),
    {
        proof {
            reveal_strlit("direct");
            reveal_strlit("indirect");
            reveal_strlit("virtual");
            reveal_strlit("tail");
            assert("direct"@ =~= seq!['d', 'i', 'r', 'e', 'c', 't']);
            assert("indirect"@ =~= seq!['i', 'n', 'd', 'i', 'r', 'e', 'c', 't']);
            assert("virtual"@ =~= seq!['v', 'i', 'r', 't', 'u', 'a', 'l']);
            assert("tail"@ =~= seq!['t', 'a', 'i', 'l']);
        }
        if ci_eq_str(s, "direct") {
            CallType::Direct
        } else if ci_eq_str(s, "indirect") {
            CallType::Indirect
        } else if ci_eq_str(s, "virtual") {
            CallType::Virtual
        } else if ci_eq_str(s, "tail") {
            CallType::Tail
        } else {
            CallType::Direct
        }
    }
}

/// How a data reference touches its target.
#[derive(Debug, Clone, Copy, PartialEq, Eq, Structural)]
pub enum RefType {
    /// Memory read.
    Read,
    /// Load effective address.
    Lea,
    /// Push onto the stack.
    Push,
    /// Data move.
    Mov,
}

/// Edge payload for Binary —CONTAINS→ Function.
#[derive(Debug, Clone)]
pub struct Contains {
    /// Relationship tag, fixed as `CONTAINS`.
    pub rel_type: String,
}

impl Contains {
    pub fn new() -> (r: Contains)
        ensures
            r.rel_type@ == "CONTAINS"@,
    {
        Contains { rel_type: String::from_str("CONTAINS") }
    }
}

impl Default for Contains {
    fn default() -> (r: Contains)
        ensures
            r.rel_type@ == "CONTAINS"@,
    {
        Contains::new()
    }
}

/// Edge payload for Binary —IMPORTS→ Library.
#[derive(Debug, Clone)]
pub struct Imports {
    /// Relationship tag, fixed as `IMPORTS`.
    pub rel_type: String,
}

impl Imports {
    pub fn new() -> (r: Imports)
        ensures
            r.rel_type@ == "IMPORTS"@,
    {
        Imports { rel_type: String::from_str("IMPORTS") }
    }
}

impl Default for Imports {
    fn default() -> (r: Imports)
        ensures
            r.rel_type@ == "IMPORTS"@,
    {
        Imports::new()
    }
}

/// Edge payload for Function —CALLS→ Function: the call site offset and the
/// call type ride on the edge.
#[derive(Debug, Clone)]
pub struct Calls {
    /// Relationship tag, fixed as `CALLS`.
    pub rel_type: String,
    /// Offset of the call instruction, as a hex string.
    pub offset: String,
    /// How the call transfers control.
    pub call_type: CallType,
}

impl Calls {
    pub fn new(offset: String, call_type: CallType) -> (r: Calls)
        ensures
            r.rel_type@ == "CALLS"@,
            r.offset == offset,
            r.call_type == call_type,
    {
        Calls { rel_type: String::from_str("CALLS"), offset, call_type }
    }
}

/// Edge payload for a thunk resolving to its target.
#[derive(Debug, Clone)]
pub struct ResolvesTo {
    /// Relationship tag, fixed as `RESOLVES_TO`.
    pub rel_type: String,
}

impl ResolvesTo {
    pub fn new() -> (r: ResolvesTo)
        ensures
            r.rel_type@ == "RESOLVES_TO"@,
    {
        ResolvesTo { rel_type: String::from_str("RESOLVES_TO") }
    }
}

impl Default for ResolvesTo {
    fn default() -> (r: ResolvesTo)
        ensures
            r.rel_type@ == "RESOLVES_TO"@,
    {
        ResolvesTo::new()
    }
}

/// Edge payload for a data reference, with its offset and kind.
#[derive(Debug, Clone)]
pub struct References {
    /// Relationship tag, fixed as `REFERENCES`.
    pub rel_type: String,
    /// Offset of the referencing instruction, as a hex string.
    pub offset: String,
    /// How the reference touches its target.
    pub ref_type: RefType,
}

/// Edge payload for Binary —HAS_STRING→ String.
#[derive(Debug, Clone)]
pub struct HasString {
    /// Relationship tag, fixed as `HAS_STRING`.
    pub rel_type: String,
}

impl HasString {
    pub fn new() -> (r: HasString)
        ensures
            r.rel_type@ == "HAS_STRING"@,
    {
        HasString { rel_type: String::from_str("HAS_STRING") }
    }
}

impl Default for HasString {
    fn default() -> (r: HasString)
        ensures
            r.rel_type@ == "HAS_STRING"@,
    {
        HasString::new()
    }
}

/// Edge payload for Function —BELONGS_TO→ Library.
#[derive(Debug, Clone)]
pub struct BelongsTo {
    /// Relationship tag, fixed as `BELONGS_TO`.
    pub rel_type: String,
}

impl BelongsTo {
    pub fn new() -> (r: BelongsTo)
        ensures
            r.rel_type@ == "BELONGS_TO"@,
    {
        BelongsTo { rel_type: String::from_str("BELONGS_TO") }
    }
}

impl Default for BelongsTo {
    fn default() -> (r: BelongsTo)
        ensures
            r.rel_type@ == "BELONGS_TO"@,
    {
        BelongsTo::new()
    }
}

} // verus!
