//! Rule evaluation results. A Rego engine evaluates a rule document's
//! `data.kr0ki.violations` against the semantic graph; this module turns
//! what the engine reported (or its failure) into the rule's outcome.
use vstd::prelude::*;

use crate::text::{join, push_str};

verus! {

/// One violation an evaluated rule reported.
#[derive(Debug, Clone, PartialEq, Eq)]
pub struct ViolationEntry {
    pub element_id: String,
    pub reason: String,
}

/// Whether a rule holds.
#[derive(Debug, Clone, PartialEq, Eq)]
pub enum Disposition {
    Satisfied,
    Violated { reason: String },
    Unknown,
}

/// A rule's outcome: its disposition and the graph nodes (`node:{id}`)
/// that witness it.
#[derive(Debug, Clone, PartialEq, Eq)]
pub struct RuleOutcome {
    pub disposition: Disposition,
    pub evidence_nodes: Vec<String>,
}

/// The Rego backend: evaluation runs an embedded engine; its report is
/// turned into an outcome here.
pub struct RegorusBackend;

/// `{element_id}: {reason}`.
pub open spec fn entry_line(e: ViolationEntry) -> Seq<char> {
    e.element_id@ + ": "@ + e.reason@
}

/// The outcome of an engine report: `None` (the policy did not load, the
/// input did not serialize, evaluation failed or timed out, or the result
/// was not a list of violations) is unknown; no violations is satisfied;
/// otherwise violated, with every entry's line joined by `; ` as the
/// reason and one `node:{element_id}` per entry as evidence.
pub open spec fn outcome_spec(entries: Option<Seq<ViolationEntry>>) -> (Option<Option<Seq<char>>>, Seq<Seq<char>>) {
    match entries {
        None => (None, Seq::empty()),
        Some(es) => if es.len() == 0 {
            (Some(None), Seq::empty())
        } else {
            (
                Some(Some(join(es.map_values(|e: ViolationEntry| entry_line(e)), "; "@))),
                es.map_values(|e: ViolationEntry| "node:"@ + e.element_id@),
            )
        },
    }
}

/// `(disposition, evidence)` of an outcome: `None` unknown, `Some(None)`
/// satisfied, `Some(Some(reason))` violated.
pub open spec fn outcome_view(o: RuleOutcome) -> (Option<Option<Seq<char>>>, Seq<Seq<char>>) {
    (
        match o.disposition {
            Disposition::Unknown => None,
            Disposition::Satisfied => Some(None),
            Disposition::Violated { reason } => Some(Some(reason@)),
        },
        o.evidence_nodes@.map_values(|s: String| s@),
    )
}

impl RegorusBackend {
    /// The outcome of what the engine reported (see [`outcome_spec`]).
    pub fn outcome_of(&self, entries: Option<&[ViolationEntry]>) -> (r: RuleOutcome)
        ensures
            outcome_view(r) == outcome_spec(match entries {
                Some(es) => Some(es@),
                None => None,
            }),
    {
        match entries {
            None => {
                let r = RuleOutcome { disposition: Disposition::Unknown, evidence_nodes: Vec::new() };
                assert(outcome_view(r).1 =~= Seq::<Seq<char>>::empty());
                r
            },
            Some(es) => {
                if es.len() == 0 {
                    let r = RuleOutcome { disposition: Disposition::Satisfied, evidence_nodes: Vec::new() };
                    assert(outcome_view(r).1 =~= Seq::<Seq<char>>::empty());
                    return r;
                }
                let ghost lines = es@.map_values(|e: ViolationEntry| entry_line(e));
                let mut reason = String::new();
                let mut nodes: Vec<String> = Vec::new();
                let mut i: usize = 0;
                while i < es.len()
                    invariant
                        i <= es@.len(),
                        lines == es@.map_values(|e: ViolationEntry| entry_line(e)),
                        reason@ == join(lines.take(i as int), "; "@),
                        nodes@.len() == i,
                        nodes@.map_values(|s: String| s@) == es@.take(i as int).map_values(|e: ViolationEntry| "node:"@ + e.element_id@),
                    decreases es@.len() - i,
                {
                    proof { crate::text::lemma_join_step(lines, "; "@, i as int); }
                    if i > 0 {
                        push_str(&mut reason, "; ");
                    }
                    push_str(&mut reason, es[i].element_id.as_str());
                    push_str(&mut reason, ": ");
                    push_str(&mut reason, es[i].reason.as_str());
                    let mut node = String::new();
                    push_str(&mut node, "node:");
                    push_str(&mut node, es[i].element_id.as_str());
                    let ghost before = nodes@;
                    let ghost nv = node@;
                    nodes.push(node);
                    proof {
                        assert(lines[i as int] == entry_line(es@[i as int]));
                        if i > 0 {
                            assert(reason@ =~= join(lines.take(i as int), "; "@) + "; "@ + lines[i as int]);
                        } else {
                            assert(reason@ =~= lines[i as int]);
                        }
                        assert(es@.take(i + 1) =~= es@.take(i as int).push(es@[i as int]));
                        assert(nodes@[i as int]@ == nv);
                        assert(nv =~= "node:"@ + es@[i as int].element_id@);
                        assert(nodes@.map_values(|s: String| s@) =~= before.map_values(|s: String| s@).push("node:"@ + es@[i as int].element_id@));
                        assert(nodes@.map_values(|s: String| s@) =~= es@.take(i + 1).map_values(|e: ViolationEntry| "node:"@ + e.element_id@));
                    }
                    i = i + 1;
                }
                assert(lines.take(lines.len() as int) =~= lines);
                assert(es@.take(es@.len() as int) =~= es@);
                RuleOutcome { disposition: Disposition::Violated { reason }, evidence_nodes: nodes }
            },
        }
    }
}

} // verus!
