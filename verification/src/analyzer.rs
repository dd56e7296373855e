//! The cross-reference query engine's assembly logic.
//!
//! Traversal execution lives in the external graph store; what comes back
//! are rows of plain values. This module turns those rows into the typed
//! results — call paths, call sequences, recursion reports, upward chains,
//! caller sequences, and the aggregated context — and supplies the
//! documented single-node fallback when a traversal finds nothing.

use vstd::prelude::*;
use vstd::string::StringExecFns;

use crate::call_path::CallContextAnalysis;
use crate::call_path::CallPath;
use crate::call_path::CallPathNode;
use crate::call_path::CallSequence;
use crate::call_path::CallerSequence;
use crate::call_path::EnhancedCallGraph;
use crate::call_path::UpwardCallChain;
use crate::call_path::UpwardCallNode;
use crate::stats::FunctionInfo;
use crate::text::push_char;
use crate::text::repr_radix;
use crate::text::u64_to_dec;

verus! {

/// One row of a variable-length-path query: the node names and addresses
/// along the path, and the call-site offset of each edge.
#[derive(Debug, Clone)]
pub struct PathRow {
    /// Function names along the path.
    pub node_names: Vec<String>,
    /// Addresses along the path.
    pub node_addresses: Vec<String>,
    /// Call-site offset per edge.
    pub call_offsets: Vec<String>,
}

/// One row of a direct-call query.
#[derive(Debug, Clone)]
pub struct SequenceRow {
    /// Calling function name.
    pub caller: String,
    /// Called function name.
    pub callee: String,
    /// Call-site offset.
    pub call_site: String,
}

/// One row of a direct-caller query, with both endpoints.
#[derive(Debug, Clone)]
pub struct CallerRow {
    /// Calling function name.
    pub caller_name: String,
    /// Calling function address.
    pub caller_address: String,
    /// Called function name.
    pub callee_name: String,
    /// Called function address.
    pub callee_address: String,
    /// Call-site offset.
    pub call_site: String,
}

/// How a recursion was found.
#[derive(Debug, Clone, Copy, PartialEq, Eq, Structural)]
pub enum RecursiveCallType {
    /// A direct self-loop.
    Direct,
    /// A cycle through other functions.
    Indirect,
}

/// One recursion report: the function, how the cycle was found, and its
/// length.
#[derive(Debug, Clone)]
pub struct RecursiveCall {
    /// The recursive function's name.
    pub function_name: String,
    /// Direct self-loop or longer cycle.
    pub call_type: RecursiveCallType,
    /// Cycle length: 1 for a self-loop.
    pub depth: usize,
}

/// One step of a downward path row, as the assembled node must render it:
/// the id is `{name}_{position}`, a missing address renders as `N/A`, the
/// call site is the offset of the edge into the step, and the tag is
/// `Direct`.
pub open spec fn spec_path_node_matches(row: PathRow, i: int, node: CallPathNode) -> bool {
    &&& node.name@ == row.node_names@[i]@
    &&& node.id@ == row.node_names@[i]@ + seq!['_'] + repr_radix(i as nat, 10)
    &&& node.depth == i
    &&& node.address is Some
    &&& node.address.unwrap()@ == (if i < row.node_addresses@.len() {
        row.node_addresses@[i]@
    } else {
        "N/A"@
    })
    &&& if i > 0 && i - 1 < row.call_offsets@.len() {
        node.call_site is Some && node.call_site.unwrap()@ == row.call_offsets@[i - 1]@
    } else {
        node.call_site is None
    }
    &&& node.call_type@ == "Direct"@
}

/// The assembled path one nonempty row denotes, numbered by its position
/// among all rows.
pub open spec fn spec_path_matches(row: PathRow, counter: nat, p: CallPath) -> bool {
    &&& p.id@ == "path_"@ + repr_radix(counter, 10)
    &&& p.nodes@.len() == row.node_names@.len()
    &&& forall|i: int|
        0 <= i < p.nodes@.len() ==> spec_path_node_matches(row, i, #[trigger] p.nodes@[i])
    &&& p.length == row.node_names@.len() - 1
}

/// The assembled paths are exactly the rows with nodes, in order; a row
/// without nodes contributes nothing but still advances the numbering.
pub open spec fn spec_paths_match(rows: Seq<PathRow>, out: Seq<CallPath>) -> bool
    decreases rows.len(),
{
    if rows.len() == 0 {
        out.len() == 0
    } else if rows.last().node_names@.len() > 0 {
        &&& out.len() > 0
        &&& spec_path_matches(rows.last(), rows.len() as nat, out.last())
        &&& spec_paths_match(rows.drop_last(), out.drop_last())
    } else {
        spec_paths_match(rows.drop_last(), out)
    }
}

/// Some row carries at least one node.
pub open spec fn spec_any_path_row(rows: Seq<PathRow>) -> bool {
    exists|j: int| 0 <= j < rows.len() && (#[trigger] rows[j]).node_names@.len() > 0
}

/// The synthetic single-node path that stands for "no paths found": the
/// function itself, as a documented fallback, not an error.
pub open spec fn spec_fallback_path(name: Seq<char>, p: CallPath) -> bool {
    &&& p.id@ == "single_path"@
    &&& p.length == 0
    &&& p.nodes@.len() == 1
    &&& p.nodes@[0].id@ == "single_node"@
    &&& p.nodes@[0].name@ == name
    &&& p.nodes@[0].address is Some
    &&& p.nodes@[0].address.unwrap()@ == "0x1000"@
    &&& p.nodes@[0].depth == 0
    &&& p.nodes@[0].call_site is None
    &&& p.nodes@[0].call_type@ == "Entry"@
}

/// Builds a node identifier `{name}_{position}`.
fn node_id(name: &String, i: usize) -> (r: String)
    ensures
        r@ == name@ + seq!['_'] + repr_radix(i as nat, 10),
{
    let mut id = name.clone();
    push_char(&mut id, '_');
    let num = u64_to_dec(i as u64);
    id.append(num.as_str());
    proof {
        assert(id@ =~= name@ + seq!['_'] + repr_radix(i as nat, 10));
    }
    id
}

/// Assembles downward call paths from traversal rows: one path per row
/// with nodes, in row order; when no row has nodes, the single synthetic
/// path for the queried function.
#[verifier::loop_isolation(false)]
pub fn build_call_paths(function_name: &str, rows: &Vec<PathRow>) -> (r: Vec<CallPath>)
    ensures
        spec_any_path_row(rows@) ==> spec_paths_match(rows@, r@),
        !spec_any_path_row(rows@) ==> r@.len() == 1 && spec_fallback_path(function_name@, r@[0]),
{
    let n: usize = rows.len();
    let mut paths: Vec<CallPath> = Vec::new();
    let mut ri: usize = 0;
    proof {
        assert(rows@.take(0) =~= Seq::<PathRow>::empty());
    }
    while ri < n
        invariant
            ri <= n,
            spec_paths_match(rows@.take(ri as int), paths@),
            paths@.len() == 0 <==> (forall|j: int|
                0 <= j < ri ==> (#[trigger] rows@[j]).node_names@.len() == 0),
        decreases n - ri,
    {
        proof {
            assert(rows@.take(ri as int + 1).drop_last() =~= rows@.take(ri as int));
            assert(rows@.take(ri as int + 1).last() == rows@[ri as int]);
        }
        let row = &rows[ri];
        let names_len: usize = row.node_names.len();
        if names_len > 0 {
            let mut id = String::from_str("path_");
            let num = u64_to_dec((ri + 1) as u64);
            id.append(num.as_str());
            proof {
                assert(id@ =~= "path_"@ + repr_radix((ri + 1) as nat, 10));
            }
            let mut path = CallPath::new(id);
            let mut i: usize = 0;
            while i < names_len
                invariant
                    i <= names_len,
                    names_len == row.node_names@.len(),
                    row == rows@[ri as int],
                    path.id@ == "path_"@ + repr_radix((ri + 1) as nat, 10),
                    path.nodes@.len() == i,
                    forall|k: int|
                        0 <= k < i ==> spec_path_node_matches(
                            rows@[ri as int],
                            k,
                            #[trigger] path.nodes@[k],
                        ),
                    i > 0 ==> path.length == i - 1,
                decreases names_len - i,
            {
                let address: String = if i < row.node_addresses.len() {
                    row.node_addresses[i].clone()
                } else {
                    String::from_str("N/A")
                };
                let call_site: Option<String> = if i > 0 && i - 1 < row.call_offsets.len() {
                    Some(row.call_offsets[i - 1].clone())
                } else {
                    None
                };
                let node = CallPathNode::new(
                    node_id(&row.node_names[i], i),
                    row.node_names[i].clone(),
                    Some(address),
                    i,
                    call_site,
                    String::from_str("Direct"),
                );
                path.add_node(node);
                i = i + 1;
            }
            proof {
                assert(spec_path_matches(rows@[ri as int], (ri + 1) as nat, path));
            }
            let ghost old_paths = paths@;
            paths.push(path);
            proof {
                assert(paths@.drop_last() =~= old_paths);
            }
        }
        ri = ri + 1;
    }
    proof {
        assert(rows@.take(n as int) =~= rows@);
    }
    if paths.len() == 0 {
        let mut path = CallPath::new(String::from_str("single_path"));
        path.add_node(
            CallPathNode::new(
                String::from_str("single_node"),
                String::from_str(function_name),
                Some(String::from_str("0x1000")),
                0,
                None,
                String::from_str("Entry"),
            ),
        );
        let mut out: Vec<CallPath> = Vec::new();
        out.push(path);
        proof {
            if spec_any_path_row(rows@) {
                let j0 = choose|j: int|
                    0 <= j < rows@.len() && (#[trigger] rows@[j]).node_names@.len() > 0;
                assert(false);
            }
        }
        return out;
    }
    proof {
        if !spec_any_path_row(rows@) {
            assert(forall|j: int|
                0 <= j < rows@.len() ==> (#[trigger] rows@[j]).node_names@.len() == 0);
            assert(paths@.len() == 0);
        }
    }
    paths
}

/// One step of an upward chain row: like a path step, but the call site is
/// the offset of the edge out of the step and the tag is `Upward`.
pub open spec fn spec_upward_node_matches(row: PathRow, i: int, node: UpwardCallNode) -> bool {
    &&& node.name@ == row.node_names@[i]@
    &&& node.id@ == row.node_names@[i]@ + seq!['_'] + repr_radix(i as nat, 10)
    &&& node.depth == i
    &&& node.address is Some
    &&& node.address.unwrap()@ == (if i < row.node_addresses@.len() {
        row.node_addresses@[i]@
    } else {
        "N/A"@
    })
    &&& if i < row.node_names@.len() - 1 && i < row.call_offsets@.len() {
        node.call_site is Some && node.call_site.unwrap()@ == row.call_offsets@[i]@
    } else {
        node.call_site is None
    }
    &&& node.call_type@ == "Upward"@
}

/// The assembled chain one nonempty row denotes.
pub open spec fn spec_chain_matches(row: PathRow, counter: nat, c: UpwardCallChain) -> bool {
    &&& c.id@ == "upward_chain_"@ + repr_radix(counter, 10)
    &&& c.nodes@.len() == row.node_names@.len()
    &&& forall|i: int|
        0 <= i < c.nodes@.len() ==> spec_upward_node_matches(row, i, #[trigger] c.nodes@[i])
    &&& c.length == row.node_names@.len() - 1
}

/// The assembled chains are exactly the rows with nodes, in order.
pub open spec fn spec_chains_match(rows: Seq<PathRow>, out: Seq<UpwardCallChain>) -> bool
    decreases rows.len(),
{
    if rows.len() == 0 {
        out.len() == 0
    } else if rows.last().node_names@.len() > 0 {
        &&& out.len() > 0
        &&& spec_chain_matches(rows.last(), rows.len() as nat, out.last())
        &&& spec_chains_match(rows.drop_last(), out.drop_last())
    } else {
        spec_chains_match(rows.drop_last(), out)
    }
}

/// The synthetic single-node chain that stands for "no callers found".
pub open spec fn spec_fallback_chain(name: Seq<char>, c: UpwardCallChain) -> bool {
    &&& c.id@ == "single_upward_chain"@
    &&& c.length == 0
    &&& c.nodes@.len() == 1
    &&& c.nodes@[0].id@ == "single_node"@
    &&& c.nodes@[0].name@ == name
    &&& c.nodes@[0].address is Some
    &&& c.nodes@[0].address.unwrap()@ == "0x1000"@
    &&& c.nodes@[0].depth == 0
    &&& c.nodes@[0].call_site is None
    &&& c.nodes@[0].call_type@ == "Root"@
}

/// Assembles upward call chains from reverse-traversal rows, with the same
/// shape and fallback as downward paths.
#[verifier::loop_isolation(false)]
pub fn build_upward_chains(function_name: &str, rows: &Vec<PathRow>) -> (r: Vec<UpwardCallChain>)
    ensures
        spec_any_path_row(rows@) ==> spec_chains_match(rows@, r@),
        !spec_any_path_row(rows@) ==> r@.len() == 1 && spec_fallback_chain(function_name@, r@[0]),
{
    let n: usize = rows.len();
    let mut chains: Vec<UpwardCallChain> = Vec::new();
    let mut ri: usize = 0;
    proof {
        assert(rows@.take(0) =~= Seq::<PathRow>::empty());
    }
    while ri < n
        invariant
            ri <= n,
            spec_chains_match(rows@.take(ri as int), chains@),
            chains@.len() == 0 <==> (forall|j: int|
                0 <= j < ri ==> (#[trigger] rows@[j]).node_names@.len() == 0),
        decreases n - ri,
    {
        proof {
            assert(rows@.take(ri as int + 1).drop_last() =~= rows@.take(ri as int));
            assert(rows@.take(ri as int + 1).last() == rows@[ri as int]);
        }
        let row = &rows[ri];
        let names_len: usize = row.node_names.len();
        if names_len > 0 {
            let mut id = String::from_str("upward_chain_");
            let num = u64_to_dec((ri + 1) as u64);
            id.append(num.as_str());
            proof {
                assert(id@ =~= "upward_chain_"@ + repr_radix((ri + 1) as nat, 10));
            }
            let mut chain = UpwardCallChain::new(id);
            let mut i: usize = 0;
            while i < names_len
                invariant
                    i <= names_len,
                    names_len == row.node_names@.len(),
                    row == rows@[ri as int],
                    chain.id@ == "upward_chain_"@ + repr_radix((ri + 1) as nat, 10),
                    chain.nodes@.len() == i,
                    forall|k: int|
                        0 <= k < i ==> spec_upward_node_matches(
                            rows@[ri as int],
                            k,
                            #[trigger] chain.nodes@[k],
                        ),
                    i > 0 ==> chain.length == i - 1,
                decreases names_len - i,
            {
                let address: String = if i < row.node_addresses.len() {
                    row.node_addresses[i].clone()
                } else {
                    String::from_str("N/A")
                };
                let call_site: Option<String> = if i < names_len - 1 && i < row.call_offsets.len() {
                    Some(row.call_offsets[i].clone())
                } else {
                    None
                };
                let node = UpwardCallNode::new(
                    node_id(&row.node_names[i], i),
                    row.node_names[i].clone(),
                    Some(address),
                    i,
                    call_site,
                    String::from_str("Upward"),
                );
                chain.add_node(node);
                i = i + 1;
            }
            proof {
                assert(spec_chain_matches(rows@[ri as int], (ri + 1) as nat, chain));
            }
            let ghost old_chains = chains@;
            chains.push(chain);
            proof {
                assert(chains@.drop_last() =~= old_chains);
            }
        }
        ri = ri + 1;
    }
    proof {
        assert(rows@.take(n as int) =~= rows@);
    }
    if chains.len() == 0 {
        let mut chain = UpwardCallChain::new(String::from_str("single_upward_chain"));
        chain.add_node(
            UpwardCallNode::new(
                String::from_str("single_node"),
                String::from_str(function_name),
                Some(String::from_str("0x1000")),
                0,
                None,
                String::from_str("Root"),
            ),
        );
        let mut out: Vec<UpwardCallChain> = Vec::new();
        out.push(chain);
        proof {
            if spec_any_path_row(rows@) {
                let j0 = choose|j: int|
                    0 <= j < rows@.len() && (#[trigger] rows@[j]).node_names@.len() > 0;
                assert(false);
            }
        }
        return out;
    }
    proof {
        if !spec_any_path_row(rows@) {
            assert(forall|j: int|
                0 <= j < rows@.len() ==> (#[trigger] rows@[j]).node_names@.len() == 0);
            assert(chains@.len() == 0);
        }
    }
    chains
}

/// Numbers the direct outgoing calls of a function: the store hands the
/// rows back ordered by call-site offset, and each row becomes a sequence
/// entry numbered from 1 in that order.
#[verifier::loop_isolation(false)]
pub fn build_call_sequences(rows: &Vec<SequenceRow>) -> (r: Vec<CallSequence>)
    ensures
        r@.len() == rows@.len(),
        forall|i: int|
            0 <= i < rows@.len() ==> {
                &&& (#[trigger] r@[i]).caller == rows@[i].caller
                &&& r@[i].callee == rows@[i].callee
                &&& r@[i].call_site == rows@[i].call_site
                &&& r@[i].order == i + 1
                &&& r@[i].id@ == "seq_"@ + repr_radix((i + 1) as nat, 10)
            },
{
    let n: usize = rows.len();
    let mut out: Vec<CallSequence> = Vec::new();
    let mut i: usize = 0;
    while i < n
        invariant
            i <= n,
            n == rows@.len(),
            out@.len() == i,
            forall|k: int|
                0 <= k < i ==> {
                    &&& (#[trigger] out@[k]).caller == rows@[k].caller
                    &&& out@[k].callee == rows@[k].callee
                    &&& out@[k].call_site == rows@[k].call_site
                    &&& out@[k].order == k + 1
                    &&& out@[k].id@ == "seq_"@ + repr_radix((k + 1) as nat, 10)
                },
        decreases n - i,
    {
        let mut id = String::from_str("seq_");
        let num = u64_to_dec((i + 1) as u64);
        id.append(num.as_str());
        proof {
            assert(id@ =~= "seq_"@ + repr_radix((i + 1) as nat, 10));
        }
        let row = &rows[i];
        out.push(
            CallSequence::new(
                id,
                row.caller.clone(),
                row.callee.clone(),
                i + 1,
                row.call_site.clone(),
            ),
        );
        i = i + 1;
    }
    out
}

/// Numbers the direct callers of a function, in the call-site order the
/// store hands the rows back, from 1.
#[verifier::loop_isolation(false)]
pub fn build_caller_sequences(rows: &Vec<CallerRow>) -> (r: Vec<CallerSequence>)
    ensures
        r@.len() == rows@.len(),
        forall|i: int|
            0 <= i < rows@.len() ==> {
                &&& (#[trigger] r@[i]).caller_name == rows@[i].caller_name
                &&& r@[i].caller_address == rows@[i].caller_address
                &&& r@[i].callee_name == rows@[i].callee_name
                &&& r@[i].callee_address == rows@[i].callee_address
                &&& r@[i].call_site == rows@[i].call_site
                &&& r@[i].order == i + 1
                &&& r@[i].id@ == "caller_seq_"@ + repr_radix((i + 1) as nat, 10)
            },
{
    let n: usize = rows.len();
    let mut out: Vec<CallerSequence> = Vec::new();
    let mut i: usize = 0;
    while i < n
        invariant
            i <= n,
            n == rows@.len(),
            out@.len() == i,
            forall|k: int|
                0 <= k < i ==> {
                    &&& (#[trigger] out@[k]).caller_name == rows@[k].caller_name
                    &&& out@[k].caller_address == rows@[k].caller_address
                    &&& out@[k].callee_name == rows@[k].callee_name
                    &&& out@[k].callee_address == rows@[k].callee_address
                    &&& out@[k].call_site == rows@[k].call_site
                    &&& out@[k].order == k + 1
                    &&& out@[k].id@ == "caller_seq_"@ + repr_radix((k + 1) as nat, 10)
                },
        decreases n - i,
    {
        let mut id = String::from_str("caller_seq_");
        let num = u64_to_dec((i + 1) as u64);
        id.append(num.as_str());
        proof {
            assert(id@ =~= "caller_seq_"@ + repr_radix((i + 1) as nat, 10));
        }
        let row = &rows[i];
        out.push(
            CallerSequence::new(
                id,
                row.caller_name.clone(),
                row.caller_address.clone(),
                row.callee_name.clone(),
                row.callee_address.clone(),
                i + 1,
                row.call_site.clone(),
            ),
        );
        i = i + 1;
    }
    out
}

/// Combines the two independent recursion queries: every direct self-loop
/// as a depth-1 direct recursion, then every cycle with its length as an
/// indirect recursion. The two sets are reported side by side, never
/// deduplicated against each other.
#[verifier::loop_isolation(false)]
pub fn build_recursive_calls(direct: &Vec<String>, indirect: &Vec<(String, usize)>) -> (r: Vec<
    RecursiveCall,
>)
    ensures
        r@.len() == direct@.len() + indirect@.len(),
        forall|i: int|
            0 <= i < direct@.len() ==> {
                &&& (#[trigger] r@[i]).function_name == direct@[i]
                &&& r@[i].call_type == RecursiveCallType::Direct
                &&& r@[i].depth == 1
            },
        forall|i: int|
            0 <= i < indirect@.len() ==> {
                &&& (#[trigger] r@[direct@.len() + i]).function_name == indirect@[i].0
                &&& r@[direct@.len() + i].call_type == RecursiveCallType::Indirect
                &&& r@[direct@.len() + i].depth == indirect@[i].1
            },
{
    let mut out: Vec<RecursiveCall> = Vec::new();
    let nd: usize = direct.len();
    let mut i: usize = 0;
    while i < nd
        invariant
            i <= nd,
            nd == direct@.len(),
            out@.len() == i,
            forall|k: int|
                0 <= k < i ==> {
                    &&& (#[trigger] out@[k]).function_name == direct@[k]
                    &&& out@[k].call_type == RecursiveCallType::Direct
                    &&& out@[k].depth == 1
                },
        decreases nd - i,
    {
        out.push(
            RecursiveCall {
                function_name: direct[i].clone(),
                call_type: RecursiveCallType::Direct,
                depth: 1,
            },
        );
        i = i + 1;
    }
    let ni: usize = indirect.len();
    let mut j: usize = 0;
    while j < ni
        invariant
            j <= ni,
            ni == indirect@.len(),
            nd == direct@.len(),
            out@.len() == nd + j,
            forall|k: int|
                0 <= k < nd ==> {
                    &&& (#[trigger] out@[k]).function_name == direct@[k]
                    &&& out@[k].call_type == RecursiveCallType::Direct
                    &&& out@[k].depth == 1
                },
            forall|k: int|
                0 <= k < j ==> {
                    &&& (#[trigger] out@[nd + k]).function_name == indirect@[k].0
                    &&& out@[nd + k].call_type == RecursiveCallType::Indirect
                    &&& out@[nd + k].depth == indirect@[k].1
                },
        decreases ni - j,
    {
        out.push(
            RecursiveCall {
                function_name: indirect[j].0.clone(),
                call_type: RecursiveCallType::Indirect,
                depth: indirect[j].1,
            },
        );
        j = j + 1;
    }
    out
}

/// Aggregates one function's upward chains, downward paths and caller
/// sequences into a context report with derived insight lines.
pub fn assemble_call_context(
    function_name: String,
    upward_chains: Vec<UpwardCallChain>,
    downward_paths: Vec<CallPath>,
    caller_sequences: Vec<CallerSequence>,
) -> (r: CallContextAnalysis)
    ensures
        r.function_name == function_name,
        r.upward_chains == upward_chains,
        r.downward_paths == downward_paths,
        r.caller_sequences == caller_sequences,
        r.context_insights@.len() == (if caller_sequences@.len() > 0 {
            2int
        } else {
            1int
        }),
        r.context_insights@[0]@ == crate::call_path::spec_context_insight(
            function_name@,
            upward_chains@.len(),
            downward_paths@.len(),
        ),
        caller_sequences@.len() > 0 ==> r.context_insights@[1]@
            == crate::call_path::spec_callers_insight(caller_sequences@.len()),
{
    let mut analysis = CallContextAnalysis {
        function_name,
        upward_chains,
        downward_paths,
        caller_sequences,
        context_insights: Vec::new(),
    };
    analysis.generate_context_insights();
    analysis
}

/// The frequency map a list of per-callee counts denotes.
pub open spec fn spec_freq_map(entries: Seq<(String, i64)>) -> Map<Seq<char>, i64>
    decreases entries.len(),
{
    if entries.len() == 0 {
        Map::empty()
    } else {
        spec_freq_map(entries.drop_last()).insert(entries.last().0@, entries.last().1)
    }
}

/// Combines distinct callees, the full set of call paths, and per-callee
/// direct-call frequencies into one exportable graph.
#[verifier::loop_isolation(false)]
pub fn assemble_enhanced_call_graph(
    callees: Vec<FunctionInfo>,
    call_paths: Vec<CallPath>,
    frequencies: Vec<(String, i64)>,
) -> (r: EnhancedCallGraph)
    ensures
        r.callees == callees,
        r.call_paths == call_paths,
        r.call_frequencies@ == spec_freq_map(frequencies@),
{
    let mut graph = EnhancedCallGraph {
        callees,
        call_paths,
        call_frequencies: crate::strmap::StrMap::new(),
    };
    let n: usize = frequencies.len();
    let mut i: usize = 0;
    proof {
        assert(frequencies@.take(0) =~= Seq::<(String, i64)>::empty());
    }
    while i < n
        invariant
            i <= n,
            n == frequencies@.len(),
            graph.callees == callees,
            graph.call_paths == call_paths,
            graph.call_frequencies@ == spec_freq_map(frequencies@.take(i as int)),
        decreases n - i,
    {
        proof {
            assert(frequencies@.take(i as int + 1).drop_last() =~= frequencies@.take(i as int));
            assert(frequencies@.take(i as int + 1).last() == frequencies@[i as int]);
        }
        graph.set_call_frequency(frequencies[i].0.clone(), frequencies[i].1);
        i = i + 1;
    }
    proof {
        assert(frequencies@.take(n as int) =~= frequencies@);
    }
    graph
}

} // verus!
