//! Call-path structures: the results the cross-reference queries assemble —
//! downward call paths, ordered call sequences, upward chains, caller
//! sequences, and the aggregated call-context summary.

use vstd::prelude::*;
use vstd::string::StringExecFns;

use crate::text::repr_radix;
use crate::text::u64_to_dec;

verus! {

/// One step of a downward call path.
#[derive(Debug, Clone)]
pub struct CallPathNode {
    /// Display identifier of the step.
    pub id: String,
    /// Function name.
    pub name: String,
    /// Function address, when known.
    pub address: Option<String>,
    /// Distance from the start of the path.
    pub depth: usize,
    /// Call-site offset of the edge into this step, absent at the start.
    pub call_site: Option<String>,
    /// Call-type tag of the edge into this step.
    pub call_type: String,
}

impl CallPathNode {
    pub fn new(
        id: String,
        name: String,
        address: Option<String>,
        depth: usize,
        call_site: Option<String>,
        call_type: String,
    ) -> (n: CallPathNode)
        ensures
            n.id == id,
            n.name == name,
            n.address == address,
            n.depth == depth,
            n.call_site == call_site,
            n.call_type == call_type,
    {
        CallPathNode { id, name, address, depth, call_site, call_type }
    }
}

/// One downward call path: its steps in order and its final depth.
#[derive(Debug, Clone)]
pub struct CallPath {
    /// Display identifier of the path.
    pub id: String,
    /// The steps, outward from the start function.
    pub nodes: Vec<CallPathNode>,
    /// Depth of the last step.
    pub length: usize,
}

impl CallPath {
    pub fn new(id: String) -> (p: CallPath)
        ensures
            p.id == id,
            p.nodes@.len() == 0,
            p.length == 0,
    {
        CallPath { id, nodes: Vec::new(), length: 0 }
    }

    /// Appends a step; the path's length follows the step's depth.
    pub fn add_node(&mut self, node: CallPathNode)
        ensures
            final(self).id == old(self).id,
            final(self).nodes@ == old(self).nodes@.push(node),
            final(self).length == node.depth,
    {
        self.length = node.depth;
        self.nodes.push(node);
    }

    /// The first step: the function the path starts from.
    pub fn entry_function(&self) -> (r: Option<&CallPathNode>)
        ensures
            match r {
                Some(n) => self.nodes@.len() > 0 && *n == self.nodes@[0],
                None => self.nodes@.len() == 0,
            },
    {
        if self.nodes.len() > 0 {
            Some(&self.nodes[0])
        } else {
            None
        }
    }
}

/// One direct outgoing call, numbered by call-site order.
#[derive(Debug, Clone)]
pub struct CallSequence {
    /// Display identifier of the entry.
    pub id: String,
    /// Calling function name.
    pub caller: String,
    /// Called function name.
    pub callee: String,
    /// Position in call-site order, starting at 1.
    pub order: usize,
    /// Call-site offset.
    pub call_site: String,
}

impl CallSequence {
    pub fn new(id: String, caller: String, callee: String, order: usize, call_site: String) -> (s:
        CallSequence)
        ensures
            s.id == id,
            s.caller == caller,
            s.callee == callee,
            s.order == order,
            s.call_site == call_site,
    {
        CallSequence { id, caller, callee, order, call_site }
    }
}

/// One step of an upward call chain.
#[derive(Debug, Clone)]
pub struct UpwardCallNode {
    /// Display identifier of the step.
    pub id: String,
    /// Function name.
    pub name: String,
    /// Function address, when known.
    pub address: Option<String>,
    /// Distance from the chain's start.
    pub depth: usize,
    /// Call-site offset of the edge out of this step, absent at the end.
    pub call_site: Option<String>,
    /// Call-type tag.
    pub call_type: String,
}

impl UpwardCallNode {
    pub fn new(
        id: String,
        name: String,
        address: Option<String>,
        depth: usize,
        call_site: Option<String>,
        call_type: String,
    ) -> (n: UpwardCallNode)
        ensures
            n.id == id,
            n.name == name,
            n.address == address,
            n.depth == depth,
            n.call_site == call_site,
            n.call_type == call_type,
    {
        UpwardCallNode { id, name, address, depth, call_site, call_type }
    }
}

/// One upward call chain: who transitively reaches a target function.
#[derive(Debug, Clone)]
pub struct UpwardCallChain {
    /// Display identifier of the chain.
    pub id: String,
    /// The steps, from the farthest caller toward the target.
    pub nodes: Vec<UpwardCallNode>,
    /// Depth of the last step.
    pub length: usize,
}

impl UpwardCallChain {
    pub fn new(id: String) -> (c: UpwardCallChain)
        ensures
            c.id == id,
            c.nodes@.len() == 0,
            c.length == 0,
    {
        UpwardCallChain { id, nodes: Vec::new(), length: 0 }
    }

    /// Appends a step; the chain's length follows the step's depth.
    pub fn add_node(&mut self, node: UpwardCallNode)
        ensures
            final(self).id == old(self).id,
            final(self).nodes@ == old(self).nodes@.push(node),
            final(self).length == node.depth,
    {
        self.length = node.depth;
        self.nodes.push(node);
    }

    /// The first step of the chain.
    pub fn target_function(&self) -> (r: Option<&UpwardCallNode>)
        ensures
            match r {
                Some(n) => self.nodes@.len() > 0 && *n == self.nodes@[0],
                None => self.nodes@.len() == 0,
            },
    {
        if self.nodes.len() > 0 {
            Some(&self.nodes[0])
        } else {
            None
        }
    }
}

/// One direct incoming call, numbered by call-site order, with both
/// endpoints' names and addresses.
#[derive(Debug, Clone)]
pub struct CallerSequence {
    /// Display identifier of the entry.
    pub id: String,
    /// Calling function name.
    pub caller_name: String,
    /// Calling function address.
    pub caller_address: String,
    /// Called function name.
    pub callee_name: String,
    /// Called function address.
    pub callee_address: String,
    /// Position in call-site order, starting at 1.
    pub order: usize,
    /// Call-site offset.
    pub call_site: String,
}

impl CallerSequence {
    pub fn new(
        id: String,
        caller_name: String,
        caller_address: String,
        callee_name: String,
        callee_address: String,
        order: usize,
        call_site: String,
    ) -> (s: CallerSequence)
        ensures
            s.id == id,
            s.caller_name == caller_name,
            s.caller_address == caller_address,
            s.callee_name == callee_name,
            s.callee_address == callee_address,
            s.order == order,
            s.call_site == call_site,
    {
        CallerSequence { id, caller_name, caller_address, callee_name, callee_address, order, call_site }
    }
}

/// The first insight line of a context summary: how many upward chains and
/// downward paths a function has.
pub open spec fn spec_context_insight(name: Seq<char>, chains: nat, paths: nat) -> Seq<char> {
    "Function '"@ + name + "' has "@ + repr_radix(chains, 10) + " upward call chains and "@
        + repr_radix(paths, 10) + " downward call paths"@
}

/// The second insight line: how many distinct callers reach the function.
pub open spec fn spec_callers_insight(callers: nat) -> Seq<char> {
    "Function is called by "@ + repr_radix(callers, 10) + " different callers"@
}

/// The aggregated call context of one function: its upward chains, its
/// downward paths, its direct callers, and derived insight lines.
#[derive(Debug, Clone)]
pub struct CallContextAnalysis {
    /// The function the context is about.
    pub function_name: String,
    /// Chains of functions that reach it.
    pub upward_chains: Vec<UpwardCallChain>,
    /// Paths of functions it reaches.
    pub downward_paths: Vec<CallPath>,
    /// Its direct callers in call-site order.
    pub caller_sequences: Vec<CallerSequence>,
    /// Derived natural-language insight lines.
    pub context_insights: Vec<String>,
}

impl CallContextAnalysis {
    pub fn new(function_name: String) -> (c: CallContextAnalysis)
        ensures
            c.function_name == function_name,
            c.upward_chains@.len() == 0,
            c.downward_paths@.len() == 0,
            c.caller_sequences@.len() == 0,
            c.context_insights@.len() == 0,
    {
        CallContextAnalysis {
            function_name,
            upward_chains: Vec::new(),
            downward_paths: Vec::new(),
            caller_sequences: Vec::new(),
            context_insights: Vec::new(),
        }
    }

    pub fn add_upward_chain(&mut self, chain: UpwardCallChain)
        ensures
            final(self).upward_chains@ == old(self).upward_chains@.push(chain),
            final(self).function_name == old(self).function_name,
            final(self).downward_paths == old(self).downward_paths,
            final(self).caller_sequences == old(self).caller_sequences,
            final(self).context_insights == old(self).context_insights,
    {
        self.upward_chains.push(chain);
    }

    pub fn add_downward_path(&mut self, path: CallPath)
        ensures
            final(self).downward_paths@ == old(self).downward_paths@.push(path),
            final(self).function_name == old(self).function_name,
            final(self).upward_chains == old(self).upward_chains,
            final(self).caller_sequences == old(self).caller_sequences,
            final(self).context_insights == old(self).context_insights,
    {
        self.downward_paths.push(path);
    }

    pub fn add_caller_sequence(&mut self, sequence: CallerSequence)
        ensures
            final(self).caller_sequences@ == old(self).caller_sequences@.push(sequence),
            final(self).function_name == old(self).function_name,
            final(self).upward_chains == old(self).upward_chains,
            final(self).downward_paths == old(self).downward_paths,
            final(self).context_insights == old(self).context_insights,
    {
        self.caller_sequences.push(sequence);
    }

    /// Derives the insight lines: always the chain/path count line, and the
    /// caller count line when the function has callers at all.
    pub fn generate_context_insights(&mut self)
        ensures
            final(self).function_name == old(self).function_name,
            final(self).upward_chains == old(self).upward_chains,
            final(self).downward_paths == old(self).downward_paths,
            final(self).caller_sequences == old(self).caller_sequences,
            final(self).context_insights@.len() == old(self).context_insights@.len() + (
            if old(self).caller_sequences@.len() > 0 {
                2int
            } else {
                1int
            }),
            final(self).context_insights@[old(self).context_insights@.len() as int]@
                == spec_context_insight(
                old(self).function_name@,
                old(self).upward_chains@.len(),
                old(self).downward_paths@.len(),
            ),
            old(self).caller_sequences@.len() > 0 ==> final(self).context_insights@[old(
                self,
            ).context_insights@.len() as int + 1]@ == spec_callers_insight(
                old(self).caller_sequences@.len(),
            ),
    {
        let mut line = String::from_str("Function '");
        line.append(self.function_name.as_str());
        line.append("' has ");
        let chains = u64_to_dec(self.upward_chains.len() as u64);
        line.append(chains.as_str());
        line.append(" upward call chains and ");
        let paths = u64_to_dec(self.downward_paths.len() as u64);
        line.append(paths.as_str());
        line.append(" downward call paths");
        proof {
            assert(line@ =~= spec_context_insight(
                self.function_name@,
                self.upward_chains@.len(),
                self.downward_paths@.len(),
            ));
        }
        self.context_insights.push(line);
        if self.caller_sequences.len() > 0 {
            let mut second = String::from_str("Function is called by ");
            let callers = u64_to_dec(self.caller_sequences.len() as u64);
            second.append(callers.as_str());
            second.append(" different callers");
            proof {
                assert(second@ =~= spec_callers_insight(self.caller_sequences@.len()));
            }
            self.context_insights.push(second);
        }
    }
}

/// A combined export of one function's call surroundings: distinct callees
/// within depth, the full set of call paths, and per-callee direct-call
/// frequencies.
#[derive(Debug)]
pub struct EnhancedCallGraph {
    /// Distinct callees reachable within the queried depth.
    pub callees: Vec<crate::stats::FunctionInfo>,
    /// Every call path found.
    pub call_paths: Vec<CallPath>,
    /// Direct-call count per callee name.
    pub call_frequencies: crate::strmap::StrMap<i64>,
}

impl EnhancedCallGraph {
    pub fn new() -> (g: EnhancedCallGraph)
        ensures
            g.callees@.len() == 0,
            g.call_paths@.len() == 0,
            g.call_frequencies@ == Map::<Seq<char>, i64>::empty(),
    {
        EnhancedCallGraph {
            callees: Vec::new(),
            call_paths: Vec::new(),
            call_frequencies: crate::strmap::StrMap::new(),
        }
    }

    pub fn add_call_path(&mut self, path: CallPath)
        ensures
            final(self).call_paths@ == old(self).call_paths@.push(path),
            final(self).callees == old(self).callees,
            final(self).call_frequencies == old(self).call_frequencies,
    {
        self.call_paths.push(path);
    }

    pub fn set_call_frequency(&mut self, callee_name: String, frequency: i64)
        ensures
            final(self).call_frequencies@ == old(self).call_frequencies@.insert(
                callee_name@,
                frequency,
            ),
            final(self).callees == old(self).callees,
            final(self).call_paths == old(self).call_paths,
    {
        self.call_frequencies.insert(callee_name, frequency);
    }
}

} // verus!
