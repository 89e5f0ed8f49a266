//! Rule documents: `RuleDocument` elements of a model snapshot carrying
//! Rego policy source in their `rego` member. Element ids are whatever the
//! model server assigned; no prefix is assumed.
use vstd::prelude::*;

use crate::json::{as_str, jstr, member_get};
use crate::model::{Element, ModelSnapshot};
use crate::ontology::ElementId;
use crate::text::{flat_map, lemma_flat_map_step, str_eq};

verus! {

/// The policy language a rule document is written in.
#[derive(Debug, Clone, Copy, PartialEq, Eq, Structural)]
pub enum RuleBackendKind {
    Rego,
}

/// A rule document.
#[derive(Debug, Clone, PartialEq, Eq)]
pub struct RuleDoc {
    pub id: ElementId,
    pub name: String,
    pub rego_source: String,
    pub backend: RuleBackendKind,
}

/// `(id, name, rego source)` of a rule document.
pub open spec fn rule_doc_view(d: RuleDoc) -> (Seq<char>, Seq<char>, Seq<char>) {
    (d.id.view_id(), d.name@, d.rego_source@)
}

/// The rule document an element is: a `RuleDocument` with a string `rego`
/// member, named by its name or else its id. Anything else is none.
pub open spec fn rule_doc_of(el: Element) -> Seq<(Seq<char>, Seq<char>, Seq<char>)> {
    if el.ty@ == "RuleDocument"@ {
        match jstr(member_get(el.fields@, "rego"@)) {
            Some(rego) => seq![(el.id@, match el.name {
                Some(n) => n@,
                None => el.id@,
            }, rego)],
            None => Seq::empty(),
        }
    } else {
        Seq::empty()
    }
}

/// Every rule document of the snapshot, in element order; a
/// `RuleDocument` without a string `rego` member is skipped.
pub fn extract_rule_docs(snapshot: &ModelSnapshot) -> (r: Vec<RuleDoc>)
    ensures
        r@.map_values(|d: RuleDoc| rule_doc_view(d)) == flat_map(snapshot.elements@, |el: Element| rule_doc_of(el)),
        forall|i: int| 0 <= i < r@.len() ==> (#[trigger] r@[i]).backend == RuleBackendKind::Rego,
{
    let ghost els = snapshot.elements@;
    let ghost f = |el: Element| rule_doc_of(el);
    let mut out: Vec<RuleDoc> = Vec::new();
    let mut i: usize = 0;
    assert(out@.map_values(|d: RuleDoc| rule_doc_view(d)) =~= flat_map(els.take(0), f));
    while i < snapshot.elements.len()
        invariant
            i <= els.len(),
            els == snapshot.elements@,
            f == (|el: Element| rule_doc_of(el)),
            out@.map_values(|d: RuleDoc| rule_doc_view(d)) == flat_map(els.take(i as int), f),
            forall|k: int| 0 <= k < out@.len() ==> (#[trigger] out@[k]).backend == RuleBackendKind::Rego,
        decreases els.len() - i,
    {
        proof { lemma_flat_map_step(els, i as int, f); }
        let el = &snapshot.elements[i];
        let ghost before = out@;
        if str_eq(el.ty(), "RuleDocument") {
            match as_str(el.get("rego")) {
                Some(rego) => {
                    let name = match el.name() {
                        Some(n) => n.to_owned(),
                        None => el.id().to_owned(),
                    };
                    out.push(RuleDoc {
                        id: ElementId::new(el.id()),
                        name,
                        rego_source: rego.to_owned(),
                        backend: RuleBackendKind::Rego,
                    });
                },
                None => {},
            }
        }
        assert(out@.map_values(|d: RuleDoc| rule_doc_view(d)) =~= before.map_values(|d: RuleDoc| rule_doc_view(d)) + f(els[i as int]));
        i = i + 1;
    }
    assert(els.take(els.len() as int) =~= els);
    out
}

} // verus!
