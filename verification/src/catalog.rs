//! Intent-first diagram-type catalog.
//!
//! Every entry has a distinct, addressable `id` and intent-oriented
//! `use_cases` drawn from a controlled vocabulary, so browsing and
//! discovery both go intent -> type.
use vstd::prelude::*;

use crate::text::{join, push_joined, push_str, str_eq};

verus! {

/// One catalog entry.
#[derive(Debug, Clone, Copy)]
pub struct DiagramType {
    /// Addressable name, stable across releases (deep links: `?type=<id>`).
    pub id: &'static str,
    /// Render format the sample renders through.
    pub syntax: &'static str,
    /// Type-specific playbook fixture rendered in this card.
    pub example_id: &'static str,
    /// Human name shown on the card.
    pub name: &'static str,
    /// Intent tags from the controlled vocabulary.
    pub use_cases: &'static [&'static str],
    /// One sentence: when to choose this type.
    pub blurb: &'static str,
    /// Sample prompt for the gallery's Agent button (names the type).
    pub sample_prompt: &'static str,
}

/// The value a catalog entry denotes.
#[verifier::ext_equal]
pub struct TypeSpec {
    pub id: Seq<char>,
    pub syntax: Seq<char>,
    pub example_id: Seq<char>,
    pub name: Seq<char>,
    pub use_cases: Seq<Seq<char>>,
    pub blurb: Seq<char>,
    pub sample_prompt: Seq<char>,
}

impl DiagramType {
    pub open spec fn view_spec(&self) -> TypeSpec {
        TypeSpec {
            id: self.id@,
            syntax: self.syntax@,
            example_id: self.example_id@,
            name: self.name@,
            use_cases: self.use_cases@.map_values(|u: &str| u@),
            blurb: self.blurb@,
            sample_prompt: self.sample_prompt@,
        }
    }
}

pub open spec fn types_view(v: Seq<DiagramType>) -> Seq<TypeSpec> {
    v.map_values(|t: DiagramType| t.view_spec())
}

/// The controlled intent vocabulary, in gallery order.
pub open spec fn use_cases_spec() -> Seq<Seq<char>> {
    seq!["process flow"@, "interaction"@, "data model"@, "network"@, "state machine"@, "architecture"@, "chart"@, "sketch"@, "timeline"@, "hardware"@]
}

/// The full taxonomy, in the gallery's default order.
pub open spec fn catalog_spec() -> Seq<TypeSpec> {
    seq![
        TypeSpec {
            id: "flowchart"@,
            syntax: "d2"@,
            example_id: "d2-rust-flow"@,
            name: "Flowchart"@,
            use_cases: seq!["process flow"@, "sketch"@],
            blurb: "Steps and decision branches in a process, drawn as boxes and arrows."@,
            sample_prompt: "Draw a flowchart of the process I'm about to describe. Ask me about the steps and decision points first."@,
        },
        TypeSpec {
            id: "activity"@,
            syntax: "plantuml"@,
            example_id: "plantuml-activity"@,
            name: "Activity diagram"@,
            use_cases: seq!["process flow"@],
            blurb: "A workflow with branches, merges, and swimlanes for who does what."@,
            sample_prompt: "Draw an activity diagram (PlantUML) of the workflow I describe. Ask me about the steps, decisions, and who performs them first."@,
        },
        TypeSpec {
            id: "use-case"@,
            syntax: "plantuml"@,
            example_id: "plantuml-use-case"@,
            name: "Use case diagram"@,
            use_cases: seq!["process flow"@, "interaction"@],
            blurb: "Actors outside a system boundary and the goals they can achieve."@,
            sample_prompt: "Draw a use case diagram (PlantUML) for the system I describe. Ask me about the actors and their goals first."@,
        },
        TypeSpec {
            id: "state"@,
            syntax: "plantuml"@,
            example_id: "plantuml-state"@,
            name: "State machine"@,
            use_cases: seq!["state machine"@, "process flow"@],
            blurb: "The states one thing can be in and the events that move it between them."@,
            sample_prompt: "Draw a state machine diagram (PlantUML) for the thing I describe. Ask me about its states and transitions first."@,
        },
        TypeSpec {
            id: "sequence"@,
            syntax: "plantuml"@,
            example_id: "plantuml-sequence"@,
            name: "Sequence diagram"@,
            use_cases: seq!["interaction"@, "process flow"@],
            blurb: "Who talks to whom, in what order, over time — request/response flows."@,
            sample_prompt: "Draw a sequence diagram (PlantUML) of the interaction I describe. Ask me about the participants and the order of messages first."@,
        },
        TypeSpec {
            id: "component"@,
            syntax: "plantuml"@,
            example_id: "plantuml-component"@,
            name: "Component diagram"@,
            use_cases: seq!["architecture"@],
            blurb: "Software building blocks and the interfaces between them."@,
            sample_prompt: "Draw a component diagram (PlantUML) of the system I describe. Ask me about the components and their interfaces first."@,
        },
        TypeSpec {
            id: "c4-context"@,
            syntax: "c4plantuml"@,
            example_id: "c4-context"@,
            name: "C4 context diagram"@,
            use_cases: seq!["architecture"@],
            blurb: "Your system as a box in the middle, surrounded by users and dependencies."@,
            sample_prompt: "Draw a C4 context diagram (C4-PlantUML) for the system I describe. Ask me about the system, its users, and external dependencies first."@,
        },
        TypeSpec {
            id: "class"@,
            syntax: "plantuml"@,
            example_id: "plantuml-class"@,
            name: "Class diagram"@,
            use_cases: seq!["data model"@, "architecture"@],
            blurb: "Types, their fields, and inheritance/association relationships."@,
            sample_prompt: "Draw a class diagram (PlantUML) for the domain I describe. Ask me about the classes and their relationships first."@,
        },
        TypeSpec {
            id: "erd"@,
            syntax: "plantuml"@,
            example_id: "plantuml-erd"@,
            name: "Entity-relationship diagram"@,
            use_cases: seq!["data model"@],
            blurb: "Database entities and how they reference each other (1:N, M:N)."@,
            sample_prompt: "Draw an entity-relationship diagram (PlantUML) for the data I describe. Ask me about the entities and their relationships first."@,
        },
        TypeSpec {
            id: "dbml"@,
            syntax: "dbml"@,
            example_id: "dbml-cache-entry"@,
            name: "Database schema (DBML)"@,
            use_cases: seq!["data model"@],
            blurb: "Tables, columns, and foreign keys in a database-flavoured notation."@,
            sample_prompt: "Draw a DBML database schema for the data model I describe. Ask me about the tables, columns, and foreign keys first."@,
        },
        TypeSpec {
            id: "chart"@,
            syntax: "vegalite"@,
            example_id: "vegalite-cache-outcomes"@,
            name: "Data chart (Vega-Lite)"@,
            use_cases: seq!["chart"@],
            blurb: "Bars, lines, and points for quantitative data."@,
            sample_prompt: "Draw a Vega-Lite chart for the data I describe. Ask me about the data shape and the comparison I want to show first."@,
        },
        TypeSpec {
            id: "network"@,
            syntax: "nwdiag"@,
            example_id: "nwdiag-topology"@,
            name: "Network diagram"@,
            use_cases: seq!["network"@],
            blurb: "Segments, nodes, and addresses — how machines connect."@,
            sample_prompt: "Draw a network diagram (nwdiag) of the infrastructure I describe. Ask me about the segments, nodes, and addressing first."@,
        },
        TypeSpec {
            id: "k8s-topology"@,
            syntax: "k8s-topology"@,
            example_id: "k8s-topology-web-service"@,
            name: "Kubernetes topology"@,
            use_cases: seq!["network"@, "architecture"@],
            blurb: "How workloads and services in a cluster relate, from a manifest."@,
            sample_prompt: "Render the Kubernetes topology (k8s-topology) for the manifest I provide. Ask me for the manifest first if I haven't pasted one."@,
        },
        TypeSpec {
            id: "rack"@,
            syntax: "rackdiag"@,
            example_id: "rackdiag-deployment"@,
            name: "Rack diagram"@,
            use_cases: seq!["hardware"@, "network"@],
            blurb: "Server racks with units stacked in order."@,
            sample_prompt: "Draw a rack diagram (rackdiag) of the hardware I describe. Ask me about the rack units first."@,
        },
        TypeSpec {
            id: "packet"@,
            syntax: "packetdiag"@,
            example_id: "packetdiag-cache-key"@,
            name: "Packet structure"@,
            use_cases: seq!["hardware"@],
            blurb: "Byte-level packet or register layouts."@,
            sample_prompt: "Draw a packet structure diagram (packetdiag) for the protocol I describe. Ask me about the fields and widths first."@,
        },
        TypeSpec {
            id: "wiring"@,
            syntax: "wireviz"@,
            example_id: "wireviz-harness"@,
            name: "Wiring diagram"@,
            use_cases: seq!["hardware"@],
            blurb: "Cables and pin-to-pin connections between connectors."@,
            sample_prompt: "Draw a wiring diagram (WireViz) for the harness I describe. Ask me about the connectors and cables first."@,
        },
        TypeSpec {
            id: "bytefield"@,
            syntax: "bytefield"@,
            example_id: "bytefield-cache-key"@,
            name: "Bytefield"@,
            use_cases: seq!["hardware"@],
            blurb: "Memory and protocol layouts, byte by byte."@,
            sample_prompt: "Draw a bytefield diagram for the layout I describe. Ask me about the fields and byte boundaries first."@,
        },
        TypeSpec {
            id: "block"@,
            syntax: "blockdiag"@,
            example_id: "blockdiag-pipeline"@,
            name: "Block diagram"@,
            use_cases: seq!["sketch"@, "architecture"@],
            blurb: "Simple labelled blocks and arrows — the whiteboard classic."@,
            sample_prompt: "Draw a block diagram (blockdiag) of what I describe. Ask me about the blocks and connections first."@,
        },
        TypeSpec {
            id: "sketch"@,
            syntax: "ditaa"@,
            example_id: "ditaa-artifact-flow"@,
            name: "ASCII sketch (ditaa)"@,
            use_cases: seq!["sketch"@],
            blurb: "Hand-drawn look from ASCII-art boxes."@,
            sample_prompt: "Turn my ASCII sketch into a ditaa diagram. Ask me to paste the ASCII first."@,
        },
        TypeSpec {
            id: "svgbob"@,
            syntax: "svgbob"@,
            example_id: "svgbob-ascii-pipeline"@,
            name: "ASCII diagram (svgbob)"@,
            use_cases: seq!["sketch"@],
            blurb: "Crisp rendering of ASCII-art diagrams."@,
            sample_prompt: "Render my ASCII art with svgbob. Ask me to paste the ASCII first."@,
        },
        TypeSpec {
            id: "timing"@,
            syntax: "plantuml"@,
            example_id: "plantuml-timing"@,
            name: "Timing diagram"@,
            use_cases: seq!["timeline"@, "state machine"@],
            blurb: "Signal levels and state over a shared time axis."@,
            sample_prompt: "Draw a timing diagram (PlantUML) for the signals I describe. Ask me about the signals and their timing first."@,
        },
        TypeSpec {
            id: "wavedrom"@,
            syntax: "wavedrom"@,
            example_id: "wavedrom-cache-timing"@,
            name: "Waveform (WaveDrom)"@,
            use_cases: seq!["timeline"@, "hardware"@],
            blurb: "Digital signal waveforms with clock edges."@,
            sample_prompt: "Draw a WaveDrom waveform for the signals I describe. Ask me about the signal names and clock cycles first."@,
        },
        TypeSpec {
            id: "gantt"@,
            syntax: "plantuml"@,
            example_id: "plantuml-gantt"@,
            name: "Gantt chart"@,
            use_cases: seq!["timeline"@, "process flow"@],
            blurb: "Tasks on a calendar with dependencies and milestones."@,
            sample_prompt: "Draw a Gantt chart (PlantUML) for the plan I describe. Ask me about the tasks, durations, and dependencies first."@,
        },
        TypeSpec {
            id: "deployment"@,
            syntax: "plantuml"@,
            example_id: "plantuml-deployment"@,
            name: "Deployment diagram"@,
            use_cases: seq!["architecture"@, "network"@],
            blurb: "Artifacts placed on nodes — what runs where."@,
            sample_prompt: "Draw a deployment diagram (PlantUML) for the system I describe. Ask me about the nodes and artifacts first."@,
        }
    ]
}

/// Controlled vocabulary for intent tags.
pub fn use_cases() -> (v: Vec<&'static str>)
    ensures
        v@.map_values(|u: &str| u@) == use_cases_spec(),
{
    let v: Vec<&'static str> = vec!["process flow", "interaction", "data model", "network", "state machine", "architecture", "chart", "sketch", "timeline", "hardware"];
    assert(v@.map_values(|u: &str| u@) =~= use_cases_spec());
    v
}

/// The full taxonomy.
pub fn types() -> (v: Vec<DiagramType>)
    ensures
        types_view(v@) == catalog_spec(),
{
    let v: Vec<DiagramType> = vec![
        DiagramType {
            id: "flowchart",
            syntax: "d2",
            example_id: "d2-rust-flow",
            name: "Flowchart",
            use_cases: &["process flow", "sketch"],
            blurb: "Steps and decision branches in a process, drawn as boxes and arrows.",
            sample_prompt: "Draw a flowchart of the process I'm about to describe. Ask me about the steps and decision points first.",
        },
        DiagramType {
            id: "activity",
            syntax: "plantuml",
            example_id: "plantuml-activity",
            name: "Activity diagram",
            use_cases: &["process flow"],
            blurb: "A workflow with branches, merges, and swimlanes for who does what.",
            sample_prompt: "Draw an activity diagram (PlantUML) of the workflow I describe. Ask me about the steps, decisions, and who performs them first.",
        },
        DiagramType {
            id: "use-case",
            syntax: "plantuml",
            example_id: "plantuml-use-case",
            name: "Use case diagram",
            use_cases: &["process flow", "interaction"],
            blurb: "Actors outside a system boundary and the goals they can achieve.",
            sample_prompt: "Draw a use case diagram (PlantUML) for the system I describe. Ask me about the actors and their goals first.",
        },
        DiagramType {
            id: "state",
            syntax: "plantuml",
            example_id: "plantuml-state",
            name: "State machine",
            use_cases: &["state machine", "process flow"],
            blurb: "The states one thing can be in and the events that move it between them.",
            sample_prompt: "Draw a state machine diagram (PlantUML) for the thing I describe. Ask me about its states and transitions first.",
        },
        DiagramType {
            id: "sequence",
            syntax: "plantuml",
            example_id: "plantuml-sequence",
            name: "Sequence diagram",
            use_cases: &["interaction", "process flow"],
            blurb: "Who talks to whom, in what order, over time — request/response flows.",
            sample_prompt: "Draw a sequence diagram (PlantUML) of the interaction I describe. Ask me about the participants and the order of messages first.",
        },
        DiagramType {
            id: "component",
            syntax: "plantuml",
            example_id: "plantuml-component",
            name: "Component diagram",
            use_cases: &["architecture"],
            blurb: "Software building blocks and the interfaces between them.",
            sample_prompt: "Draw a component diagram (PlantUML) of the system I describe. Ask me about the components and their interfaces first.",
        },
        DiagramType {
            id: "c4-context",
            syntax: "c4plantuml",
            example_id: "c4-context",
            name: "C4 context diagram",
            use_cases: &["architecture"],
            blurb: "Your system as a box in the middle, surrounded by users and dependencies.",
            sample_prompt: "Draw a C4 context diagram (C4-PlantUML) for the system I describe. Ask me about the system, its users, and external dependencies first.",
        },
        DiagramType {
            id: "class",
            syntax: "plantuml",
            example_id: "plantuml-class",
            name: "Class diagram",
            use_cases: &["data model", "architecture"],
            blurb: "Types, their fields, and inheritance/association relationships.",
            sample_prompt: "Draw a class diagram (PlantUML) for the domain I describe. Ask me about the classes and their relationships first.",
        },
        DiagramType {
            id: "erd",
            syntax: "plantuml",
            example_id: "plantuml-erd",
            name: "Entity-relationship diagram",
            use_cases: &["data model"],
            blurb: "Database entities and how they reference each other (1:N, M:N).",
            sample_prompt: "Draw an entity-relationship diagram (PlantUML) for the data I describe. Ask me about the entities and their relationships first.",
        },
        DiagramType {
            id: "dbml",
            syntax: "dbml",
            example_id: "dbml-cache-entry",
            name: "Database schema (DBML)",
            use_cases: &["data model"],
            blurb: "Tables, columns, and foreign keys in a database-flavoured notation.",
            sample_prompt: "Draw a DBML database schema for the data model I describe. Ask me about the tables, columns, and foreign keys first.",
        },
        DiagramType {
            id: "chart",
            syntax: "vegalite",
            example_id: "vegalite-cache-outcomes",
            name: "Data chart (Vega-Lite)",
            use_cases: &["chart"],
            blurb: "Bars, lines, and points for quantitative data.",
            sample_prompt: "Draw a Vega-Lite chart for the data I describe. Ask me about the data shape and the comparison I want to show first.",
        },
        DiagramType {
            id: "network",
            syntax: "nwdiag",
            example_id: "nwdiag-topology",
            name: "Network diagram",
            use_cases: &["network"],
            blurb: "Segments, nodes, and addresses — how machines connect.",
            sample_prompt: "Draw a network diagram (nwdiag) of the infrastructure I describe. Ask me about the segments, nodes, and addressing first.",
        },
        DiagramType {
            id: "k8s-topology",
            syntax: "k8s-topology",
            example_id: "k8s-topology-web-service",
            name: "Kubernetes topology",
            use_cases: &["network", "architecture"],
            blurb: "How workloads and services in a cluster relate, from a manifest.",
            sample_prompt: "Render the Kubernetes topology (k8s-topology) for the manifest I provide. Ask me for the manifest first if I haven't pasted one.",
        },
        DiagramType {
            id: "rack",
            syntax: "rackdiag",
            example_id: "rackdiag-deployment",
            name: "Rack diagram",
            use_cases: &["hardware", "network"],
            blurb: "Server racks with units stacked in order.",
            sample_prompt: "Draw a rack diagram (rackdiag) of the hardware I describe. Ask me about the rack units first.",
        },
        DiagramType {
            id: "packet",
            syntax: "packetdiag",
            example_id: "packetdiag-cache-key",
            name: "Packet structure",
            use_cases: &["hardware"],
            blurb: "Byte-level packet or register layouts.",
            sample_prompt: "Draw a packet structure diagram (packetdiag) for the protocol I describe. Ask me about the fields and widths first.",
        },
        DiagramType {
            id: "wiring",
            syntax: "wireviz",
            example_id: "wireviz-harness",
            name: "Wiring diagram",
            use_cases: &["hardware"],
            blurb: "Cables and pin-to-pin connections between connectors.",
            sample_prompt: "Draw a wiring diagram (WireViz) for the harness I describe. Ask me about the connectors and cables first.",
        },
        DiagramType {
            id: "bytefield",
            syntax: "bytefield",
            example_id: "bytefield-cache-key",
            name: "Bytefield",
            use_cases: &["hardware"],
            blurb: "Memory and protocol layouts, byte by byte.",
            sample_prompt: "Draw a bytefield diagram for the layout I describe. Ask me about the fields and byte boundaries first.",
        },
        DiagramType {
            id: "block",
            syntax: "blockdiag",
            example_id: "blockdiag-pipeline",
            name: "Block diagram",
            use_cases: &["sketch", "architecture"],
            blurb: "Simple labelled blocks and arrows — the whiteboard classic.",
            sample_prompt: "Draw a block diagram (blockdiag) of what I describe. Ask me about the blocks and connections first.",
        },
        DiagramType {
            id: "sketch",
            syntax: "ditaa",
            example_id: "ditaa-artifact-flow",
            name: "ASCII sketch (ditaa)",
            use_cases: &["sketch"],
            blurb: "Hand-drawn look from ASCII-art boxes.",
            sample_prompt: "Turn my ASCII sketch into a ditaa diagram. Ask me to paste the ASCII first.",
        },
        DiagramType {
            id: "svgbob",
            syntax: "svgbob",
            example_id: "svgbob-ascii-pipeline",
            name: "ASCII diagram (svgbob)",
            use_cases: &["sketch"],
            blurb: "Crisp rendering of ASCII-art diagrams.",
            sample_prompt: "Render my ASCII art with svgbob. Ask me to paste the ASCII first.",
        },
        DiagramType {
            id: "timing",
            syntax: "plantuml",
            example_id: "plantuml-timing",
            name: "Timing diagram",
            use_cases: &["timeline", "state machine"],
            blurb: "Signal levels and state over a shared time axis.",
            sample_prompt: "Draw a timing diagram (PlantUML) for the signals I describe. Ask me about the signals and their timing first.",
        },
        DiagramType {
            id: "wavedrom",
            syntax: "wavedrom",
            example_id: "wavedrom-cache-timing",
            name: "Waveform (WaveDrom)",
            use_cases: &["timeline", "hardware"],
            blurb: "Digital signal waveforms with clock edges.",
            sample_prompt: "Draw a WaveDrom waveform for the signals I describe. Ask me about the signal names and clock cycles first.",
        },
        DiagramType {
            id: "gantt",
            syntax: "plantuml",
            example_id: "plantuml-gantt",
            name: "Gantt chart",
            use_cases: &["timeline", "process flow"],
            blurb: "Tasks on a calendar with dependencies and milestones.",
            sample_prompt: "Draw a Gantt chart (PlantUML) for the plan I describe. Ask me about the tasks, durations, and dependencies first.",
        },
        DiagramType {
            id: "deployment",
            syntax: "plantuml",
            example_id: "plantuml-deployment",
            name: "Deployment diagram",
            use_cases: &["architecture", "network"],
            blurb: "Artifacts placed on nodes — what runs where.",
            sample_prompt: "Draw a deployment diagram (PlantUML) for the system I describe. Ask me about the nodes and artifacts first.",
        }
    ];
    assert(types_view(v@) =~~= catalog_spec());
    v
}

/// Whether `tag` is among `tags`.
fn has_tag(tags: &[&str], tag: &str) -> (r: bool)
    ensures
        r == tags@.map_values(|u: &str| u@).contains(tag@),
{
    let ghost tv = tags@.map_values(|u: &str| u@);
    let mut i: usize = 0;
    while i < tags.len()
        invariant
            i <= tags@.len(),
            tv == tags@.map_values(|u: &str| u@),
            forall|k: int| 0 <= k < i ==> tv[k] != tag@,
        decreases tags@.len() - i,
    {
        if str_eq(tags[i], tag) {
            assert(tv[i as int] == tag@);
            return true;
        }
        i = i + 1;
    }
    assert(!tv.contains(tag@)) by {
        if tv.contains(tag@) {
            let k = choose|k: int| 0 <= k < tv.len() && tv[k] == tag@;
        }
    }
    false
}

/// The entries tagged with `tag`, in catalog order.
pub open spec fn types_with_tag(ts: Seq<TypeSpec>, tag: Seq<char>) -> Seq<TypeSpec>
    decreases ts.len(),
{
    if ts.len() == 0 {
        Seq::empty()
    } else if ts.last().use_cases.contains(tag) {
        types_with_tag(ts.drop_last(), tag).push(ts.last())
    } else {
        types_with_tag(ts.drop_last(), tag)
    }
}

/// Whether some entry is tagged with `tag`.
pub open spec fn tag_used(tag: Seq<char>) -> bool {
    exists|i: int| 0 <= i < catalog_spec().len() && catalog_spec()[i].use_cases.contains(tag)
}

/// The vocabulary entries satisfying `tag_used`, in vocabulary order.
pub open spec fn used_tags(tags: Seq<Seq<char>>) -> Seq<Seq<char>>
    decreases tags.len(),
{
    if tags.len() == 0 {
        Seq::empty()
    } else if tag_used(tags.last()) {
        used_tags(tags.drop_last()).push(tags.last())
    } else {
        used_tags(tags.drop_last())
    }
}

/// The first entry with this id, if any.
pub open spec fn first_with_id(ts: Seq<TypeSpec>, id: Seq<char>) -> Option<TypeSpec>
    decreases ts.len(),
{
    if ts.len() == 0 {
        None
    } else if ts[0].id == id {
        Some(ts[0])
    } else {
        first_with_id(ts.drop_first(), id)
    }
}

/// Every entry tagged `tag`, in catalog order.
pub fn by_use_case(tag: &str) -> (r: Vec<DiagramType>)
    ensures
        types_view(r@) == types_with_tag(catalog_spec(), tag@),
{
    let all = types();
    let mut out: Vec<DiagramType> = Vec::new();
    let mut i: usize = 0;
    while i < all.len()
        invariant
            i <= all@.len(),
            types_view(all@) == catalog_spec(),
            types_view(out@) == types_with_tag(types_view(all@).take(i as int), tag@),
        decreases all@.len() - i,
    {
        let t = all[i];
        let ghost prev = types_view(all@).take(i as int);
        assert(types_view(all@).take(i + 1).drop_last() =~= prev);
        assert(types_view(all@).take(i + 1).last() == t.view_spec());
        if has_tag(t.use_cases, tag) {
            out.push(t);
            assert(types_view(out@) =~= types_view(out@.drop_last()).push(t.view_spec()));
        }
        i = i + 1;
    }
    assert(types_view(all@).take(all@.len() as int) =~= types_view(all@));
    out
}

/// The entry with this id, if any.
pub fn by_id(id: &str) -> (r: Option<DiagramType>)
    ensures
        match r {
            Some(t) => first_with_id(catalog_spec(), id@) == Some(t.view_spec()),
            None => first_with_id(catalog_spec(), id@) is None,
        },
{
    let all = types();
    let ghost tv = types_view(all@);
    assert(tv.skip(0) =~= tv);
    let mut i: usize = 0;
    while i < all.len()
        invariant
            i <= all@.len(),
            tv == types_view(all@),
            tv == catalog_spec(),
            first_with_id(tv, id@) == first_with_id(tv.skip(i as int), id@),
        decreases all@.len() - i,
    {
        let t = all[i];
        assert(tv.skip(i as int)[0] == t.view_spec());
        assert(tv.skip(i as int).drop_first() =~= tv.skip(i + 1));
        if str_eq(t.id, id) {
            return Some(t);
        }
        i = i + 1;
    }
    assert(tv.skip(all@.len() as int) =~= Seq::<TypeSpec>::empty());
    None
}

/// Whether any entry carries `tag`.
fn any_type_has(all: &Vec<DiagramType>, tag: &str) -> (r: bool)
    requires
        types_view(all@) == catalog_spec(),
    ensures
        r == tag_used(tag@),
{
    let mut i: usize = 0;
    while i < all.len()
        invariant
            i <= all@.len(),
            types_view(all@) == catalog_spec(),
            forall|k: int| 0 <= k < i ==> !catalog_spec()[k].use_cases.contains(tag@),
        decreases all@.len() - i,
    {
        let t = all[i];
        assert(catalog_spec()[i as int] == t.view_spec());
        if has_tag(t.use_cases, tag) {
            return true;
        }
        i = i + 1;
    }
    false
}

/// The vocabulary tags actually used by some entry, in vocabulary order
/// (the gallery shows exactly these, so no filter is ever empty).
pub fn used_use_cases() -> (r: Vec<&'static str>)
    ensures
        r@.map_values(|u: &str| u@) == used_tags(use_cases_spec()),
{
    let all = types();
    let tags = use_cases();
    let ghost tv = tags@.map_values(|u: &str| u@);
    let mut out: Vec<&'static str> = Vec::new();
    let mut i: usize = 0;
    while i < tags.len()
        invariant
            i <= tags@.len(),
            types_view(all@) == catalog_spec(),
            tv == tags@.map_values(|u: &str| u@),
            tv == use_cases_spec(),
            out@.map_values(|u: &str| u@) == used_tags(tv.take(i as int)),
        decreases tags@.len() - i,
    {
        let tag = tags[i];
        assert(tv.take(i + 1).drop_last() =~= tv.take(i as int));
        if any_type_has(&all, tag) {
            out.push(tag);
            assert(out@.map_values(|u: &str| u@) =~= out@.drop_last().map_values(|u: &str| u@).push(tag@));
        }
        i = i + 1;
    }
    assert(tv.take(tags@.len() as int) =~= tv);
    out
}

/// The ids of entries, in order.
pub open spec fn ids_of(ts: Seq<TypeSpec>) -> Seq<Seq<char>> {
    ts.map_values(|t: TypeSpec| t.id)
}

/// One guide line: `- {tag}: {ids joined by ", "}`.
pub open spec fn guide_line(tag: Seq<char>) -> Seq<char> {
    "- "@ + tag + ": "@ + join(ids_of(types_with_tag(catalog_spec(), tag)), ", "@) + "\n"@
}

pub open spec fn guide_header() -> Seq<char> {
    "DIAGRAM TYPE VOCABULARY for discovery questions — map the user's intent to these families, then recommend a type by id:\n"@
}

/// The discovery guide: the header, then one line per vocabulary tag.
pub open spec fn discovery_guide_spec() -> Seq<char> {
    guide_header() + crate::text::concat_map(use_cases_spec(), |t: Seq<char>| guide_line(t))
}

fn push_guide_line(out: &mut String, tag: &str)
    ensures
        final(out)@ == old(out)@ + guide_line(tag@),
{
    let matching = by_use_case(tag);
    let mut ids: Vec<&str> = Vec::new();
    let mut k: usize = 0;
    while k < matching.len()
        invariant
            k <= matching@.len(),
            ids@.len() == k,
            forall|j: int| 0 <= j < k ==> (#[trigger] ids@[j])@ == matching@[j].id@,
        decreases matching@.len() - k,
    {
        ids.push(matching[k].id);
        k = k + 1;
    }
    assert(ids@.map_values(|p: &str| p@) =~= ids_of(types_view(matching@)));
    push_str(out, "- ");
    push_str(out, tag);
    push_str(out, ": ");
    push_joined(out, &ids, ", ");
    push_str(out, "\n");
    assert(out@ =~= old(out)@ + guide_line(tag@));
}

/// The type-discovery series as agent-consumable text: the intent
/// vocabulary and one line per use case listing the matching type ids.
pub fn discovery_guide() -> (r: String)
    ensures
        r@ == discovery_guide_spec(),
{
    let tags = use_cases();
    let ghost tv = tags@.map_values(|u: &str| u@);
    let ghost f = |t: Seq<char>| guide_line(t);
    let mut out = String::new();
    push_str(&mut out, "DIAGRAM TYPE VOCABULARY for discovery questions — map the user's intent to these families, then recommend a type by id:\n");
    let ghost head = out@;
    let mut i: usize = 0;
    while i < tags.len()
        invariant
            i <= tags@.len(),
            tv == tags@.map_values(|u: &str| u@),
            tv == use_cases_spec(),
            f == (|t: Seq<char>| guide_line(t)),
            out@ == head + crate::text::concat_map(tv.take(i as int), f),
        decreases tags@.len() - i,
    {
        let tag = tags[i];
        proof { crate::text::lemma_concat_map_step(tv, i as int, f); }
        push_guide_line(&mut out, tag);
        i = i + 1;
    }
    assert(tv.take(tags@.len() as int) =~= tv);
    out
}

} // verus!

verus! {

pub open spec fn id_key(s: Seq<char>) -> (nat, char, char) {
    (s.len(), s[0], s[1])
}

/// Law: catalog ids are unique, so every deep link resolves to one entry.
pub proof fn law_catalog_ids_unique()
    ensures
        forall|i: int, j: int| 0 <= i < j < catalog_spec().len() ==> catalog_spec()[i].id != catalog_spec()[j].id,
{
    reveal_strlit("flowchart");
    reveal_strlit("activity");
    reveal_strlit("use-case");
    reveal_strlit("state");
    reveal_strlit("sequence");
    reveal_strlit("component");
    reveal_strlit("c4-context");
    reveal_strlit("class");
    reveal_strlit("erd");
    reveal_strlit("dbml");
    reveal_strlit("chart");
    reveal_strlit("network");
    reveal_strlit("k8s-topology");
    reveal_strlit("rack");
    reveal_strlit("packet");
    reveal_strlit("wiring");
    reveal_strlit("bytefield");
    reveal_strlit("block");
    reveal_strlit("sketch");
    reveal_strlit("svgbob");
    reveal_strlit("timing");
    reveal_strlit("wavedrom");
    reveal_strlit("gantt");
    reveal_strlit("deployment");
    assert(id_key(catalog_spec()[0].id) == (9nat, 'f', 'l'));
    assert(id_key(catalog_spec()[1].id) == (8nat, 'a', 'c'));
    assert(id_key(catalog_spec()[2].id) == (8nat, 'u', 's'));
    assert(id_key(catalog_spec()[3].id) == (5nat, 's', 't'));
    assert(id_key(catalog_spec()[4].id) == (8nat, 's', 'e'));
    assert(id_key(catalog_spec()[5].id) == (9nat, 'c', 'o'));
    assert(id_key(catalog_spec()[6].id) == (10nat, 'c', '4'));
    assert(id_key(catalog_spec()[7].id) == (5nat, 'c', 'l'));
    assert(id_key(catalog_spec()[8].id) == (3nat, 'e', 'r'));
    assert(id_key(catalog_spec()[9].id) == (4nat, 'd', 'b'));
    assert(id_key(catalog_spec()[10].id) == (5nat, 'c', 'h'));
    assert(id_key(catalog_spec()[11].id) == (7nat, 'n', 'e'));
    assert(id_key(catalog_spec()[12].id) == (12nat, 'k', '8'));
    assert(id_key(catalog_spec()[13].id) == (4nat, 'r', 'a'));
    assert(id_key(catalog_spec()[14].id) == (6nat, 'p', 'a'));
    assert(id_key(catalog_spec()[15].id) == (6nat, 'w', 'i'));
    assert(id_key(catalog_spec()[16].id) == (9nat, 'b', 'y'));
    assert(id_key(catalog_spec()[17].id) == (5nat, 'b', 'l'));
    assert(id_key(catalog_spec()[18].id) == (6nat, 's', 'k'));
    assert(id_key(catalog_spec()[19].id) == (6nat, 's', 'v'));
    assert(id_key(catalog_spec()[20].id) == (6nat, 't', 'i'));
    assert(id_key(catalog_spec()[21].id) == (8nat, 'w', 'a'));
    assert(id_key(catalog_spec()[22].id) == (5nat, 'g', 'a'));
    assert(id_key(catalog_spec()[23].id) == (10nat, 'd', 'e'));
    assert forall|i: int, j: int| 0 <= i < j < catalog_spec().len() implies catalog_spec()[i].id != catalog_spec()[j].id by {
        if catalog_spec()[i].id == catalog_spec()[j].id {
            assert(id_key(catalog_spec()[i].id) == id_key(catalog_spec()[j].id));
        }
    }
}

/// Law: every entry is tagged, and only with tags from the controlled vocabulary.
pub proof fn law_catalog_tags_in_vocabulary()
    ensures
        forall|i: int| 0 <= i < catalog_spec().len() ==> catalog_spec()[i].use_cases.len() > 0,
        forall|i: int, j: int| 0 <= i < catalog_spec().len() && 0 <= j < catalog_spec()[i].use_cases.len()
            ==> use_cases_spec().contains(#[trigger] catalog_spec()[i].use_cases[j]),
{
    assert(use_cases_spec()[0] == catalog_spec()[0].use_cases[0]);
    assert(use_cases_spec()[7] == catalog_spec()[0].use_cases[1]);
    assert(use_cases_spec()[0] == catalog_spec()[1].use_cases[0]);
    assert(use_cases_spec()[0] == catalog_spec()[2].use_cases[0]);
    assert(use_cases_spec()[1] == catalog_spec()[2].use_cases[1]);
    assert(use_cases_spec()[4] == catalog_spec()[3].use_cases[0]);
    assert(use_cases_spec()[0] == catalog_spec()[3].use_cases[1]);
    assert(use_cases_spec()[1] == catalog_spec()[4].use_cases[0]);
    assert(use_cases_spec()[0] == catalog_spec()[4].use_cases[1]);
    assert(use_cases_spec()[5] == catalog_spec()[5].use_cases[0]);
    assert(use_cases_spec()[5] == catalog_spec()[6].use_cases[0]);
    assert(use_cases_spec()[2] == catalog_spec()[7].use_cases[0]);
    assert(use_cases_spec()[5] == catalog_spec()[7].use_cases[1]);
    assert(use_cases_spec()[2] == catalog_spec()[8].use_cases[0]);
    assert(use_cases_spec()[2] == catalog_spec()[9].use_cases[0]);
    assert(use_cases_spec()[6] == catalog_spec()[10].use_cases[0]);
    assert(use_cases_spec()[3] == catalog_spec()[11].use_cases[0]);
    assert(use_cases_spec()[3] == catalog_spec()[12].use_cases[0]);
    assert(use_cases_spec()[5] == catalog_spec()[12].use_cases[1]);
    assert(use_cases_spec()[9] == catalog_spec()[13].use_cases[0]);
    assert(use_cases_spec()[3] == catalog_spec()[13].use_cases[1]);
    assert(use_cases_spec()[9] == catalog_spec()[14].use_cases[0]);
    assert(use_cases_spec()[9] == catalog_spec()[15].use_cases[0]);
    assert(use_cases_spec()[9] == catalog_spec()[16].use_cases[0]);
    assert(use_cases_spec()[7] == catalog_spec()[17].use_cases[0]);
    assert(use_cases_spec()[5] == catalog_spec()[17].use_cases[1]);
    assert(use_cases_spec()[7] == catalog_spec()[18].use_cases[0]);
    assert(use_cases_spec()[7] == catalog_spec()[19].use_cases[0]);
    assert(use_cases_spec()[8] == catalog_spec()[20].use_cases[0]);
    assert(use_cases_spec()[4] == catalog_spec()[20].use_cases[1]);
    assert(use_cases_spec()[8] == catalog_spec()[21].use_cases[0]);
    assert(use_cases_spec()[9] == catalog_spec()[21].use_cases[1]);
    assert(use_cases_spec()[8] == catalog_spec()[22].use_cases[0]);
    assert(use_cases_spec()[0] == catalog_spec()[22].use_cases[1]);
    assert(use_cases_spec()[5] == catalog_spec()[23].use_cases[0]);
    assert(use_cases_spec()[3] == catalog_spec()[23].use_cases[1]);
}

proof fn lemma_tag_used_nonempty(ts: Seq<TypeSpec>, tag: Seq<char>, i: int)
    requires
        0 <= i < ts.len(),
        ts[i].use_cases.contains(tag),
    ensures
        types_with_tag(ts, tag).len() > 0,
    decreases ts.len(),
{
    if i < ts.len() - 1 {
        assert(ts.drop_last()[i] == ts[i]);
        lemma_tag_used_nonempty(ts.drop_last(), tag, i);
    }
}

/// Law: every tag the gallery offers as a filter selects at least one entry.
pub proof fn law_used_tags_select_something(tag: Seq<char>)
    requires
        used_tags(use_cases_spec()).contains(tag),
    ensures
        types_with_tag(catalog_spec(), tag).len() > 0,
{
    lemma_used_tags_are_used(use_cases_spec(), tag);
    let i = choose|i: int| 0 <= i < catalog_spec().len() && catalog_spec()[i].use_cases.contains(tag);
    lemma_tag_used_nonempty(catalog_spec(), tag, i);
}

proof fn lemma_used_tags_are_used(tags: Seq<Seq<char>>, tag: Seq<char>)
    requires
        used_tags(tags).contains(tag),
    ensures
        tag_used(tag),
    decreases tags.len(),
{
    if tags.len() > 0 {
        let u = used_tags(tags.drop_last());
        if tag_used(tags.last()) && tag == tags.last() {
        } else {
            if tag_used(tags.last()) {
                let k = choose|k: int| 0 <= k < u.push(tags.last()).len() && u.push(tags.last())[k] == tag;
                assert(u[k] == tag);
            }
            lemma_used_tags_are_used(tags.drop_last(), tag);
        }
    }
}

proof fn lemma_types_with_tag_members(ts: Seq<TypeSpec>, tag: Seq<char>, x: TypeSpec)
    ensures
        types_with_tag(ts, tag).contains(x) <==> (ts.contains(x) && x.use_cases.contains(tag)),
    decreases ts.len(),
{
    if ts.len() > 0 {
        let init = ts.drop_last();
        lemma_types_with_tag_members(init, tag, x);
        let prev = types_with_tag(init, tag);
        if ts.contains(x) && x != ts.last() {
            let k = choose|k: int| 0 <= k < ts.len() && ts[k] == x;
            assert(init[k] == x);
        }
        if init.contains(x) {
            let k = choose|k: int| 0 <= k < init.len() && init[k] == x;
            assert(ts[k] == x);
        }
        if ts.last().use_cases.contains(tag) {
            if prev.push(ts.last()).contains(x) && x != ts.last() {
                let k = choose|k: int| 0 <= k < prev.push(ts.last()).len() && prev.push(ts.last())[k] == x;
                assert(prev[k] == x);
            }
            if prev.contains(x) {
                let k = choose|k: int| 0 <= k < prev.len() && prev[k] == x;
                assert(prev.push(ts.last())[k] == x);
            }
            assert(prev.push(ts.last())[prev.len() as int] == ts.last());
        }
        assert(ts[ts.len() - 1] == ts.last());
    }
}

proof fn lemma_used_tags_members(tags: Seq<Seq<char>>, t: Seq<char>)
    ensures
        used_tags(tags).contains(t) <==> (tags.contains(t) && tag_used(t)),
    decreases tags.len(),
{
    if tags.len() > 0 {
        let init = tags.drop_last();
        lemma_used_tags_members(init, t);
        let prev = used_tags(init);
        if tags.contains(t) && t != tags.last() {
            let k = choose|k: int| 0 <= k < tags.len() && tags[k] == t;
            assert(init[k] == t);
        }
        if init.contains(t) {
            let k = choose|k: int| 0 <= k < init.len() && init[k] == t;
            assert(tags[k] == t);
        }
        if tag_used(tags.last()) {
            if prev.push(tags.last()).contains(t) && t != tags.last() {
                let k = choose|k: int| 0 <= k < prev.push(tags.last()).len() && prev.push(tags.last())[k] == t;
                assert(prev[k] == t);
            }
            if prev.contains(t) {
                let k = choose|k: int| 0 <= k < prev.len() && prev[k] == t;
                assert(prev.push(tags.last())[k] == t);
            }
            assert(prev.push(tags.last())[prev.len() as int] == tags.last());
        }
        assert(tags[tags.len() - 1] == tags.last());
    }
}

/// What the gallery filters give: `by_use_case(tag)` holds exactly the
/// catalog entries tagged `tag` (in catalog order, see its contract), and
/// `used_use_cases()` exactly the vocabulary tags some entry carries.
pub proof fn law_filters_select_exactly(tag: Seq<char>, x: TypeSpec)
    ensures
        types_with_tag(catalog_spec(), tag).contains(x) <==> (catalog_spec().contains(x) && x.use_cases.contains(tag)),
        used_tags(use_cases_spec()).contains(tag) <==> (use_cases_spec().contains(tag) && tag_used(tag)),
{
    lemma_types_with_tag_members(catalog_spec(), tag, x);
    lemma_used_tags_members(use_cases_spec(), tag);
}

} // verus!
