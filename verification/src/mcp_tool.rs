//! The MCP-callable capabilities the server exposes, and how each maps onto
//! an HTTP request: method, path template, and where each named argument
//! lands (path placeholder, query parameter, or raw body).
use vstd::prelude::*;

use crate::json::{json_is, json_member, json_str, json_str_array, JsonValue, JsonView};

verus! {

/// One callable capability exposed over both HTTP and MCP.
#[derive(Debug, Clone, Copy, PartialEq, Eq, Structural)]
pub enum McpTool {
    RenderDiagram,
    ListFormats,
    RenderKubeDiagram,
    RenderK8sTopology,
    RenderSysmlV2Snapshot,
    ListModelProjects,
    ListModelCommits,
    GetModelSnapshot,
    QueryModelElements,
    GetModelRoots,
    QueryModelRelationships,
    QueryModelGraph,
}

#[derive(Debug, Clone, Copy, PartialEq, Eq, Structural)]
pub enum HttpMethod {
    Get,
    Post,
}

/// Where in the HTTP request a `tools/call` argument by this name lands.
#[derive(Debug, Clone, Copy, PartialEq, Eq, Structural)]
pub enum ArgPlacement {
    /// Substituted into the path template at `{name}`.
    Path,
    /// Becomes a `?name=value` query parameter.
    Query,
    /// This argument's string value becomes the entire raw request body.
    Body,
}

#[derive(Debug, Clone, Copy)]
pub struct ArgBinding {
    pub name: &'static str,
    pub placement: ArgPlacement,
}

#[derive(Debug, Clone, Copy)]
pub struct HttpBinding {
    pub method: HttpMethod,
    pub path_template: &'static str,
    pub args: &'static [ArgBinding],
}

/// The value an HTTP binding denotes.
#[verifier::ext_equal]
pub struct BindingSpec {
    pub method: HttpMethod,
    pub path_template: Seq<char>,
    pub args: Seq<(Seq<char>, ArgPlacement)>,
}

impl HttpBinding {
    pub open spec fn view_spec(&self) -> BindingSpec {
        BindingSpec {
            method: self.method,
            path_template: self.path_template@,
            args: self.args@.map_values(|a: ArgBinding| (a.name@, a.placement)),
        }
    }
}

pub open spec fn tool_name(t: McpTool) -> Seq<char> {
    match t {
        McpTool::RenderDiagram => "render_diagram"@,
        McpTool::ListFormats => "list_formats"@,
        McpTool::RenderKubeDiagram => "render_kubernetes_manifest"@,
        McpTool::RenderK8sTopology => "render_kubernetes_topology"@,
        McpTool::RenderSysmlV2Snapshot => "render_sysmlv2_snapshot"@,
        McpTool::ListModelProjects => "list_model_projects"@,
        McpTool::ListModelCommits => "list_model_commits"@,
        McpTool::GetModelSnapshot => "get_model_snapshot"@,
        McpTool::QueryModelElements => "query_model_elements"@,
        McpTool::GetModelRoots => "get_model_roots"@,
        McpTool::QueryModelRelationships => "query_model_relationships"@,
        McpTool::QueryModelGraph => "query_model_graph"@,
    }
}

pub open spec fn tool_description(t: McpTool) -> Seq<char> {
    match t {
        McpTool::RenderDiagram => "Render supported diagram source through the local kr0ki service."@,
        McpTool::ListFormats => "List formats currently supported by the local kr0ki service."@,
        McpTool::RenderKubeDiagram => "Render Kubernetes manifest YAML through the internal KubeDiagrams worker."@,
        McpTool::RenderK8sTopology => "Render Kubernetes manifest YAML through kr0ki's own recognizer -> UFO graph -> SysML v2 relation -> D2 pipeline (docs/PATTERNS-kubernetes.md), not the vendored KubeDiagrams tool."@,
        McpTool::RenderSysmlV2Snapshot => "Render a validated SysML v2 project commit from the configured model server."@,
        McpTool::ListModelProjects => "List SysML v2 projects on the configured model server."@,
        McpTool::ListModelCommits => "List commits (immutable model snapshots) for a project."@,
        McpTool::GetModelSnapshot => "Fetch the full content-hashed element and root set for a project/commit."@,
        McpTool::QueryModelElements => "List every element in a project/commit."@,
        McpTool::GetModelRoots => "List the root element ids of a project/commit."@,
        McpTool::QueryModelRelationships => "List a model element's relationships (in/out/both direction)."@,
        McpTool::QueryModelGraph => "Query kr0ki-server's in-memory RDF graph (bounded query shapes, not SPARQL)."@,
    }
}

pub open spec fn tool_binding(t: McpTool) -> BindingSpec {
    match t {
        McpTool::RenderDiagram => BindingSpec { method: HttpMethod::Post, path_template: "/render/{format}"@, args: seq![("format"@, ArgPlacement::Path), ("source"@, ArgPlacement::Body), ("output"@, ArgPlacement::Query)] },
        McpTool::ListFormats => BindingSpec { method: HttpMethod::Get, path_template: "/formats"@, args: seq![] },
        McpTool::RenderKubeDiagram => BindingSpec { method: HttpMethod::Post, path_template: "/render/kubediagram"@, args: seq![("manifest"@, ArgPlacement::Body), ("output"@, ArgPlacement::Query)] },
        McpTool::RenderK8sTopology => BindingSpec { method: HttpMethod::Post, path_template: "/render/k8s-topology"@, args: seq![("manifest"@, ArgPlacement::Body), ("output"@, ArgPlacement::Query)] },
        McpTool::RenderSysmlV2Snapshot => BindingSpec { method: HttpMethod::Post, path_template: "/render/sysmlv2/projects/{project_id}/commits/{commit_id}"@, args: seq![("project_id"@, ArgPlacement::Path), ("commit_id"@, ArgPlacement::Path), ("output"@, ArgPlacement::Query)] },
        McpTool::ListModelProjects => BindingSpec { method: HttpMethod::Get, path_template: "/model/projects"@, args: seq![] },
        McpTool::ListModelCommits => BindingSpec { method: HttpMethod::Get, path_template: "/model/projects/{project_id}/commits"@, args: seq![("project_id"@, ArgPlacement::Path)] },
        McpTool::GetModelSnapshot => BindingSpec { method: HttpMethod::Get, path_template: "/model/projects/{project_id}/commits/{commit_id}/snapshot"@, args: seq![("project_id"@, ArgPlacement::Path), ("commit_id"@, ArgPlacement::Path)] },
        McpTool::QueryModelElements => BindingSpec { method: HttpMethod::Get, path_template: "/model/projects/{project_id}/commits/{commit_id}/elements"@, args: seq![("project_id"@, ArgPlacement::Path), ("commit_id"@, ArgPlacement::Path)] },
        McpTool::GetModelRoots => BindingSpec { method: HttpMethod::Get, path_template: "/model/projects/{project_id}/commits/{commit_id}/roots"@, args: seq![("project_id"@, ArgPlacement::Path), ("commit_id"@, ArgPlacement::Path)] },
        McpTool::QueryModelRelationships => BindingSpec { method: HttpMethod::Get, path_template: "/model/projects/{project_id}/commits/{commit_id}/elements/{element_id}/relationships"@, args: seq![("project_id"@, ArgPlacement::Path), ("commit_id"@, ArgPlacement::Path), ("element_id"@, ArgPlacement::Path), ("direction"@, ArgPlacement::Query)] },
        McpTool::QueryModelGraph => BindingSpec { method: HttpMethod::Get, path_template: "/model/graph/query"@, args: seq![("shape"@, ArgPlacement::Query), ("subject"@, ArgPlacement::Query)] },
    }
}

/// The `{name}` placeholders of a path template from position `i` on, left
/// to right: `open` is the name read so far inside an unclosed `{`.
pub open spec fn placeholders_from(t: Seq<char>, i: int, open: Option<Seq<char>>) -> Seq<Seq<char>>
    decreases t.len() - i,
{
    if i < 0 || i >= t.len() {
        Seq::empty()
    } else {
        let c = t[i];
        match open {
            None => if c == '{' { placeholders_from(t, i + 1, Some(Seq::empty())) } else { placeholders_from(t, i + 1, None) },
            Some(name) => if c == '}' {
                seq![name] + placeholders_from(t, i + 1, None)
            } else {
                placeholders_from(t, i + 1, Some(name.push(c)))
            },
        }
    }
}

pub open spec fn placeholders(template: Seq<char>) -> Seq<Seq<char>> {
    placeholders_from(template, 0, None)
}

/// The names of the arguments placed in the path, in order.
pub open spec fn path_arg_names(args: Seq<(Seq<char>, ArgPlacement)>) -> Seq<Seq<char>>
    decreases args.len(),
{
    if args.len() == 0 {
        Seq::empty()
    } else {
        let rest = path_arg_names(args.drop_last());
        if args.last().1 == ArgPlacement::Path { rest.push(args.last().0) } else { rest }
    }
}

/// How many arguments become the request body.
pub open spec fn body_arg_count(args: Seq<(Seq<char>, ArgPlacement)>) -> nat
    decreases args.len(),
{
    if args.len() == 0 {
        0
    } else {
        body_arg_count(args.drop_last()) + if args.last().1 == ArgPlacement::Body { 1nat } else { 0nat }
    }
}

pub open spec fn arg_names(args: Seq<(Seq<char>, ArgPlacement)>) -> Seq<Seq<char>> {
    args.map_values(|a: (Seq<char>, ArgPlacement)| a.0)
}

/// A binding is well formed: its path arguments are exactly the `{name}`
/// placeholders of its path template, in order; no two arguments share a
/// name; at most one argument is the request body, and only a `POST` has one.
pub open spec fn binding_well_formed(b: BindingSpec) -> bool {
    &&& path_arg_names(b.args) == placeholders(b.path_template)
    &&& arg_names(b.args).no_duplicates()
    &&& body_arg_count(b.args) <= 1
    &&& body_arg_count(b.args) == 1 ==> b.method == HttpMethod::Post
}

/// `{name}` occurs in `t` at position `p`.
pub open spec fn placeholder_at(t: Seq<char>, name: Seq<char>, p: int) -> bool {
    &&& 0 <= p
    &&& p + name.len() + 2 <= t.len()
    &&& t.subrange(p, p + name.len() + 2) == seq!['{'] + name + seq!['}']
}

/// The template contains the text `{name}`.
pub open spec fn has_placeholder(t: Seq<char>, name: Seq<char>) -> bool {
    exists|p: int| placeholder_at(t, name, p)
}

pub open spec fn no_brace(s: Seq<char>) -> bool {
    forall|k: int| 0 <= k < s.len() ==> s[k] != '{' && s[k] != '}'
}

/// Braces in `t` from position `i` on pair up without nesting (`open`: a
/// `{` is waiting for its `}`).
pub open spec fn braces_ok(t: Seq<char>, i: int, open: bool) -> bool
    decreases t.len() - i,
{
    if i < 0 || i >= t.len() {
        !open
    } else if !open {
        if t[i] == '}' {
            false
        } else {
            braces_ok(t, i + 1, t[i] == '{')
        }
    } else {
        if t[i] == '{' {
            false
        } else {
            braces_ok(t, i + 1, t[i] != '}')
        }
    }
}

proof fn lemma_placeholder_chars(t: Seq<char>, name: Seq<char>, p: int)
    requires
        placeholder_at(t, name, p),
    ensures
        t[p] == '{',
        t[p + name.len() + 1] == '}',
        forall|m: int| 0 <= m < name.len() ==> t[p + 1 + m] == #[trigger] name[m],
{
    let w = seq!['{'] + name + seq!['}'];
    assert(t[p] == t.subrange(p, p + name.len() + 2)[0]);
    assert(w[0] == '{');
    assert(t[p + name.len() + 1] == t.subrange(p, p + name.len() + 2)[(name.len() + 1) as int]);
    assert(w[(name.len() + 1) as int] == '}');
    assert forall|m: int| 0 <= m < name.len() implies t[p + 1 + m] == #[trigger] name[m] by {
        assert(t[p + 1 + m] == t.subrange(p, p + name.len() + 2)[1 + m]);
        assert(w[1 + m] == name[m]);
    }
}

/// Inside an open placeholder: the scan reads up to the closing `}`.
proof fn lemma_open_scan(t: Seq<char>, j: int, acc: Seq<char>) -> (k: int)
    requires
        0 <= j,
        braces_ok(t, j, true),
    ensures
        j <= k < t.len(),
        t[k] == '}',
        forall|m: int| j <= m < k ==> t[m] != '{' && t[m] != '}',
        placeholders_from(t, j, Some(acc)) == seq![acc + t.subrange(j, k)] + placeholders_from(t, k + 1, None),
        braces_ok(t, k + 1, false),
    decreases t.len() - j,
{
    if t[j] == '}' {
        assert(t.subrange(j, j) =~= Seq::<char>::empty());
        assert(acc + t.subrange(j, j) =~= acc);
        j
    } else {
        let k = lemma_open_scan(t, j + 1, acc.push(t[j]));
        assert(acc.push(t[j]) + t.subrange(j + 1, k) =~= acc + t.subrange(j, k));
        k
    }
}

/// With balanced braces and a brace-free name, `{name}` occurs from
/// position `i` on exactly when the scan from `i` reads `name` as a
/// placeholder.
proof fn lemma_placeholder_scan(t: Seq<char>, i: int, name: Seq<char>)
    requires
        0 <= i,
        braces_ok(t, i, false),
        no_brace(name),
    ensures
        (exists|p: int| i <= p && placeholder_at(t, name, p)) <==> placeholders_from(t, i, None).contains(name),
    decreases t.len() - i,
{
    if i >= t.len() {
        if exists|p: int| i <= p && placeholder_at(t, name, p) {
            let p = choose|p: int| i <= p && placeholder_at(t, name, p);
        }
    } else if t[i] == '{' {
        let k = lemma_open_scan(t, i + 1, Seq::empty());
        lemma_placeholder_scan(t, k + 1, name);
        let first = Seq::<char>::empty() + t.subrange(i + 1, k);
        assert(first =~= t.subrange(i + 1, k));
        let rest = placeholders_from(t, k + 1, None);
        assert(placeholders_from(t, i, None) == seq![first] + rest);
        if exists|p: int| i <= p && placeholder_at(t, name, p) {
            let p = choose|p: int| i <= p && placeholder_at(t, name, p);
            lemma_placeholder_chars(t, name, p);
            if p == i {
                let q = p + name.len() + 1;
                if q < k {
                    assert(t[q] == '}');
                } else if q > k {
                    assert(t[p + 1 + (k - p - 1)] == name[k - p - 1]);
                } else {
                    assert forall|m: int| 0 <= m < name.len() implies name[m] == t.subrange(i + 1, k)[m] by {
                        assert(t[p + 1 + m] == name[m]);
                    }
                    assert(name =~= t.subrange(i + 1, k));
                    assert((seq![first] + rest)[0] == name);
                }
            } else if p < k {
                assert(t[p] == '{');
            } else if p == k {
                assert(t[p] == '{');
            } else {
                assert(rest.contains(name));
                let m = choose|m: int| 0 <= m < rest.len() && rest[m] == name;
                assert((seq![first] + rest)[m + 1] == name);
            }
        }
        if placeholders_from(t, i, None).contains(name) {
            let m = choose|m: int| 0 <= m < (seq![first] + rest).len() && (seq![first] + rest)[m] == name;
            if m == 0 {
                assert(name == t.subrange(i + 1, k));
                assert(t.subrange(i, i + name.len() + 2) =~= seq!['{'] + name + seq!['}']);
                assert(placeholder_at(t, name, i));
            } else {
                assert(rest[m - 1] == name);
                assert(rest.contains(name));
                let p = choose|p: int| k + 1 <= p && placeholder_at(t, name, p);
                assert(i <= p && placeholder_at(t, name, p));
            }
        }
    } else {
        lemma_placeholder_scan(t, i + 1, name);
        assert(placeholders_from(t, i, None) == placeholders_from(t, i + 1, None));
        if exists|p: int| i <= p && placeholder_at(t, name, p) {
            let p = choose|p: int| i <= p && placeholder_at(t, name, p);
            lemma_placeholder_chars(t, name, p);
            assert(p != i);
            assert(i + 1 <= p && placeholder_at(t, name, p));
        }
        if placeholders_from(t, i + 1, None).contains(name) {
            let p = choose|p: int| i + 1 <= p && placeholder_at(t, name, p);
            assert(i <= p && placeholder_at(t, name, p));
        }
    }
}

/// A binding's text is plain: the template's braces pair up without
/// nesting and no argument name holds a brace.
pub open spec fn binding_text_ok(b: BindingSpec) -> bool {
    &&& braces_ok(b.path_template, 0, false)
    &&& forall|i: int| 0 <= i < b.args.len() ==> no_brace(#[trigger] b.args[i].0)
}

proof fn lemma_path_names_member(args: Seq<(Seq<char>, ArgPlacement)>, name: Seq<char>)
    ensures
        path_arg_names(args).contains(name) <==> exists|j: int| 0 <= j < args.len() && (#[trigger] args[j]).0 == name
            && args[j].1 == ArgPlacement::Path,
    decreases args.len(),
{
    if args.len() > 0 {
        let init = args.drop_last();
        lemma_path_names_member(init, name);
        let prev = path_arg_names(init);
        if exists|j: int| 0 <= j < args.len() && (#[trigger] args[j]).0 == name && args[j].1 == ArgPlacement::Path {
            let j = choose|j: int| 0 <= j < args.len() && (#[trigger] args[j]).0 == name && args[j].1 == ArgPlacement::Path;
            if j < args.len() - 1 {
                assert(init[j] == args[j]);
                let m = choose|m: int| 0 <= m < prev.len() && prev[m] == name;
                if args.last().1 == ArgPlacement::Path {
                    assert(prev.push(args.last().0)[m] == name);
                }
            } else {
                assert(prev.push(args.last().0)[prev.len() as int] == name);
            }
        }
        if path_arg_names(args).contains(name) {
            if args.last().1 == ArgPlacement::Path && args.last().0 == name {
                assert(args[args.len() - 1] == args.last());
            } else {
                if args.last().1 == ArgPlacement::Path {
                    let m = choose|m: int| 0 <= m < prev.push(args.last().0).len() && prev.push(args.last().0)[m] == name;
                    assert(prev[m] == name);
                }
                let j = choose|j: int| 0 <= j < init.len() && (#[trigger] init[j]).0 == name && init[j].1 == ArgPlacement::Path;
                assert(args[j] == init[j]);
            }
        }
    }
}

/// The substring form of the binding law: for every tool, an argument is
/// placed in the path exactly when the path template contains the text
/// `{name}` of its name, and every `{name}` (of a brace-free name) in the
/// template names a path argument.
pub proof fn law_path_args_are_the_template_placeholders(t: McpTool, name: Seq<char>, i: int)
    requires
        0 <= i < tool_binding(t).args.len(),
    ensures
        tool_binding(t).args[i].1 == ArgPlacement::Path
            <==> has_placeholder(tool_binding(t).path_template, tool_binding(t).args[i].0),
        has_placeholder(tool_binding(t).path_template, name) && no_brace(name)
            ==> exists|j: int| 0 <= j < tool_binding(t).args.len() && (#[trigger] tool_binding(t).args[j]).0 == name
                && tool_binding(t).args[j].1 == ArgPlacement::Path,
{
    let b = tool_binding(t);
    law_binding_is_well_formed(t);
    match t {
        McpTool::RenderDiagram => lemma_binding_text_render_diagram(),
        McpTool::ListFormats => lemma_binding_text_list_formats(),
        McpTool::RenderKubeDiagram => lemma_binding_text_render_kube_diagram(),
        McpTool::RenderK8sTopology => lemma_binding_text_render_k8s_topology(),
        McpTool::RenderSysmlV2Snapshot => lemma_binding_text_render_sysml_v2_snapshot(),
        McpTool::ListModelProjects => lemma_binding_text_list_model_projects(),
        McpTool::ListModelCommits => lemma_binding_text_list_model_commits(),
        McpTool::GetModelSnapshot => lemma_binding_text_get_model_snapshot(),
        McpTool::QueryModelElements => lemma_binding_text_query_model_elements(),
        McpTool::GetModelRoots => lemma_binding_text_get_model_roots(),
        McpTool::QueryModelRelationships => lemma_binding_text_query_model_relationships(),
        McpTool::QueryModelGraph => lemma_binding_text_query_model_graph(),
    }
    let own = b.args[i].0;
    lemma_placeholder_scan(b.path_template, 0, own);
    lemma_path_names_member(b.args, own);
    if exists|j: int| 0 <= j < b.args.len() && (#[trigger] b.args[j]).0 == own && b.args[j].1 == ArgPlacement::Path {
        let j = choose|j: int| 0 <= j < b.args.len() && (#[trigger] b.args[j]).0 == own && b.args[j].1 == ArgPlacement::Path;
        assert(arg_names(b.args)[j] == arg_names(b.args)[i]);
    }
    assert(b.args[i] == b.args[i]);
    if has_placeholder(b.path_template, name) && no_brace(name) {
        lemma_placeholder_scan(b.path_template, 0, name);
        lemma_path_names_member(b.args, name);
        let p = choose|p: int| placeholder_at(b.path_template, name, p);
        assert(0 <= p && placeholder_at(b.path_template, name, p));
    }
    if b.args[i].1 == ArgPlacement::Path {
        assert(0 <= i < b.args.len() && b.args[i].0 == own && b.args[i].1 == ArgPlacement::Path);
    }
    if has_placeholder(b.path_template, own) {
        let p = choose|p: int| placeholder_at(b.path_template, own, p);
        assert(0 <= p && placeholder_at(b.path_template, own, p));
    }
}

proof fn lemma_binding_text_render_diagram()
    ensures
        binding_text_ok(tool_binding(McpTool::RenderDiagram)),
{
    let b = tool_binding(McpTool::RenderDiagram);
    reveal_strlit("/render/{format}");
    reveal_strlit("format");
    reveal_strlit("output");
    reveal_strlit("source");
    reveal_with_fuel(braces_ok, 18);
    assert(braces_ok(b.path_template, 0, false));
    assert forall|i: int| 0 <= i < b.args.len() implies no_brace(#[trigger] b.args[i].0) by {
        if i == 0 { assert(b.args[i].0 == "format"@); }
        if i == 1 { assert(b.args[i].0 == "source"@); }
        if i == 2 { assert(b.args[i].0 == "output"@); }
    }
}

proof fn lemma_binding_text_list_formats()
    ensures
        binding_text_ok(tool_binding(McpTool::ListFormats)),
{
    let b = tool_binding(McpTool::ListFormats);
    reveal_strlit("/formats");
    reveal_with_fuel(braces_ok, 10);
    assert(braces_ok(b.path_template, 0, false));
}

proof fn lemma_binding_text_render_kube_diagram()
    ensures
        binding_text_ok(tool_binding(McpTool::RenderKubeDiagram)),
{
    let b = tool_binding(McpTool::RenderKubeDiagram);
    reveal_strlit("/render/kubediagram");
    reveal_strlit("manifest");
    reveal_strlit("output");
    reveal_with_fuel(braces_ok, 21);
    assert(braces_ok(b.path_template, 0, false));
    assert forall|i: int| 0 <= i < b.args.len() implies no_brace(#[trigger] b.args[i].0) by {
        if i == 0 { assert(b.args[i].0 == "manifest"@); }
        if i == 1 { assert(b.args[i].0 == "output"@); }
    }
}

proof fn lemma_binding_text_render_k8s_topology()
    ensures
        binding_text_ok(tool_binding(McpTool::RenderK8sTopology)),
{
    let b = tool_binding(McpTool::RenderK8sTopology);
    reveal_strlit("/render/k8s-topology");
    reveal_strlit("manifest");
    reveal_strlit("output");
    reveal_with_fuel(braces_ok, 22);
    assert(braces_ok(b.path_template, 0, false));
    assert forall|i: int| 0 <= i < b.args.len() implies no_brace(#[trigger] b.args[i].0) by {
        if i == 0 { assert(b.args[i].0 == "manifest"@); }
        if i == 1 { assert(b.args[i].0 == "output"@); }
    }
}

proof fn lemma_binding_text_render_sysml_v2_snapshot()
    ensures
        binding_text_ok(tool_binding(McpTool::RenderSysmlV2Snapshot)),
{
    let b = tool_binding(McpTool::RenderSysmlV2Snapshot);
    reveal_strlit("/render/sysmlv2/projects/{project_id}/commits/{commit_id}");
    reveal_strlit("commit_id");
    reveal_strlit("output");
    reveal_strlit("project_id");
    reveal_with_fuel(braces_ok, 59);
    assert(braces_ok(b.path_template, 0, false));
    assert forall|i: int| 0 <= i < b.args.len() implies no_brace(#[trigger] b.args[i].0) by {
        if i == 0 { assert(b.args[i].0 == "project_id"@); }
        if i == 1 { assert(b.args[i].0 == "commit_id"@); }
        if i == 2 { assert(b.args[i].0 == "output"@); }
    }
}

proof fn lemma_binding_text_list_model_projects()
    ensures
        binding_text_ok(tool_binding(McpTool::ListModelProjects)),
{
    let b = tool_binding(McpTool::ListModelProjects);
    reveal_strlit("/model/projects");
    reveal_with_fuel(braces_ok, 17);
    assert(braces_ok(b.path_template, 0, false));
}

proof fn lemma_binding_text_list_model_commits()
    ensures
        binding_text_ok(tool_binding(McpTool::ListModelCommits)),
{
    let b = tool_binding(McpTool::ListModelCommits);
    reveal_strlit("/model/projects/{project_id}/commits");
    reveal_strlit("project_id");
    reveal_with_fuel(braces_ok, 38);
    assert(braces_ok(b.path_template, 0, false));
    assert forall|i: int| 0 <= i < b.args.len() implies no_brace(#[trigger] b.args[i].0) by {
        if i == 0 { assert(b.args[i].0 == "project_id"@); }
    }
}

proof fn lemma_binding_text_get_model_snapshot()
    ensures
        binding_text_ok(tool_binding(McpTool::GetModelSnapshot)),
{
    let b = tool_binding(McpTool::GetModelSnapshot);
    reveal_strlit("/model/projects/{project_id}/commits/{commit_id}/snapshot");
    reveal_strlit("commit_id");
    reveal_strlit("project_id");
    reveal_with_fuel(braces_ok, 59);
    assert(braces_ok(b.path_template, 0, false));
    assert forall|i: int| 0 <= i < b.args.len() implies no_brace(#[trigger] b.args[i].0) by {
        if i == 0 { assert(b.args[i].0 == "project_id"@); }
        if i == 1 { assert(b.args[i].0 == "commit_id"@); }
    }
}

proof fn lemma_binding_text_query_model_elements()
    ensures
        binding_text_ok(tool_binding(McpTool::QueryModelElements)),
{
    let b = tool_binding(McpTool::QueryModelElements);
    reveal_strlit("/model/projects/{project_id}/commits/{commit_id}/elements");
    reveal_strlit("commit_id");
    reveal_strlit("project_id");
    reveal_with_fuel(braces_ok, 59);
    assert(braces_ok(b.path_template, 0, false));
    assert forall|i: int| 0 <= i < b.args.len() implies no_brace(#[trigger] b.args[i].0) by {
        if i == 0 { assert(b.args[i].0 == "project_id"@); }
        if i == 1 { assert(b.args[i].0 == "commit_id"@); }
    }
}

proof fn lemma_binding_text_get_model_roots()
    ensures
        binding_text_ok(tool_binding(McpTool::GetModelRoots)),
{
    let b = tool_binding(McpTool::GetModelRoots);
    reveal_strlit("/model/projects/{project_id}/commits/{commit_id}/roots");
    reveal_strlit("commit_id");
    reveal_strlit("project_id");
    reveal_with_fuel(braces_ok, 56);
    assert(braces_ok(b.path_template, 0, false));
    assert forall|i: int| 0 <= i < b.args.len() implies no_brace(#[trigger] b.args[i].0) by {
        if i == 0 { assert(b.args[i].0 == "project_id"@); }
        if i == 1 { assert(b.args[i].0 == "commit_id"@); }
    }
}

proof fn lemma_binding_text_query_model_relationships()
    ensures
        binding_text_ok(tool_binding(McpTool::QueryModelRelationships)),
{
    let b = tool_binding(McpTool::QueryModelRelationships);
    reveal_strlit("/model/projects/{project_id}/commits/{commit_id}/elements/{element_id}/relationships");
    reveal_strlit("commit_id");
    reveal_strlit("direction");
    reveal_strlit("element_id");
    reveal_strlit("project_id");
    reveal_with_fuel(braces_ok, 86);
    assert(braces_ok(b.path_template, 0, false));
    assert forall|i: int| 0 <= i < b.args.len() implies no_brace(#[trigger] b.args[i].0) by {
        if i == 0 { assert(b.args[i].0 == "project_id"@); }
        if i == 1 { assert(b.args[i].0 == "commit_id"@); }
        if i == 2 { assert(b.args[i].0 == "element_id"@); }
        if i == 3 { assert(b.args[i].0 == "direction"@); }
    }
}

proof fn lemma_binding_text_query_model_graph()
    ensures
        binding_text_ok(tool_binding(McpTool::QueryModelGraph)),
{
    let b = tool_binding(McpTool::QueryModelGraph);
    reveal_strlit("/model/graph/query");
    reveal_strlit("shape");
    reveal_strlit("subject");
    reveal_with_fuel(braces_ok, 20);
    assert(braces_ok(b.path_template, 0, false));
    assert forall|i: int| 0 <= i < b.args.len() implies no_brace(#[trigger] b.args[i].0) by {
        if i == 0 { assert(b.args[i].0 == "shape"@); }
        if i == 1 { assert(b.args[i].0 == "subject"@); }
    }
}

/// Every tool's HTTP binding is well formed (see [`binding_well_formed`]),
/// so a bridge can place every argument of a `tools/call` by its name.
pub proof fn law_binding_is_well_formed(t: McpTool)
    ensures
        binding_well_formed(tool_binding(t)),
{
    match t {
        McpTool::RenderDiagram => lemma_binding_well_formed_render_diagram(),
        McpTool::ListFormats => lemma_binding_well_formed_list_formats(),
        McpTool::RenderKubeDiagram => lemma_binding_well_formed_render_kube_diagram(),
        McpTool::RenderK8sTopology => lemma_binding_well_formed_render_k8s_topology(),
        McpTool::RenderSysmlV2Snapshot => lemma_binding_well_formed_render_sysml_v2_snapshot(),
        McpTool::ListModelProjects => lemma_binding_well_formed_list_model_projects(),
        McpTool::ListModelCommits => lemma_binding_well_formed_list_model_commits(),
        McpTool::GetModelSnapshot => lemma_binding_well_formed_get_model_snapshot(),
        McpTool::QueryModelElements => lemma_binding_well_formed_query_model_elements(),
        McpTool::GetModelRoots => lemma_binding_well_formed_get_model_roots(),
        McpTool::QueryModelRelationships => lemma_binding_well_formed_query_model_relationships(),
        McpTool::QueryModelGraph => lemma_binding_well_formed_query_model_graph(),
    }
}

proof fn lemma_binding_well_formed_render_diagram()
    ensures
        binding_well_formed(tool_binding(McpTool::RenderDiagram)),
{
    let b = tool_binding(McpTool::RenderDiagram);
    reveal_strlit("/render/{format}");
    reveal_strlit("format");
    reveal_strlit("output");
    reveal_strlit("source");
    reveal_with_fuel(placeholders_from, 18);
    reveal_with_fuel(path_arg_names, 4);
    reveal_with_fuel(body_arg_count, 4);
    assert(placeholders(b.path_template) =~~= seq!["format"@]);
    assert(path_arg_names(b.args) =~~= seq!["format"@]);
    let names = arg_names(b.args);
    assert(names =~= seq!["format"@, "source"@, "output"@]);
    assert("format"@[0] != "source"@[0]);
    assert("format"@[0] != "output"@[0]);
    assert("source"@[0] != "output"@[0]);
    assert(names.no_duplicates());
}

proof fn lemma_binding_well_formed_list_formats()
    ensures
        binding_well_formed(tool_binding(McpTool::ListFormats)),
{
    let b = tool_binding(McpTool::ListFormats);
    reveal_strlit("/formats");
    reveal_with_fuel(placeholders_from, 10);
    reveal_with_fuel(path_arg_names, 1);
    reveal_with_fuel(body_arg_count, 1);
    assert(placeholders(b.path_template) =~~= Seq::<Seq<char>>::empty());
    assert(path_arg_names(b.args) =~~= Seq::<Seq<char>>::empty());
}

proof fn lemma_binding_well_formed_render_kube_diagram()
    ensures
        binding_well_formed(tool_binding(McpTool::RenderKubeDiagram)),
{
    let b = tool_binding(McpTool::RenderKubeDiagram);
    reveal_strlit("/render/kubediagram");
    reveal_strlit("manifest");
    reveal_strlit("output");
    reveal_with_fuel(placeholders_from, 21);
    reveal_with_fuel(path_arg_names, 3);
    reveal_with_fuel(body_arg_count, 3);
    assert(placeholders(b.path_template) =~~= Seq::<Seq<char>>::empty());
    assert(path_arg_names(b.args) =~~= Seq::<Seq<char>>::empty());
    let names = arg_names(b.args);
    assert(names =~= seq!["manifest"@, "output"@]);
    assert("manifest"@[0] != "output"@[0]);
    assert(names.no_duplicates());
}

proof fn lemma_binding_well_formed_render_k8s_topology()
    ensures
        binding_well_formed(tool_binding(McpTool::RenderK8sTopology)),
{
    let b = tool_binding(McpTool::RenderK8sTopology);
    reveal_strlit("/render/k8s-topology");
    reveal_strlit("manifest");
    reveal_strlit("output");
    reveal_with_fuel(placeholders_from, 22);
    reveal_with_fuel(path_arg_names, 3);
    reveal_with_fuel(body_arg_count, 3);
    assert(placeholders(b.path_template) =~~= Seq::<Seq<char>>::empty());
    assert(path_arg_names(b.args) =~~= Seq::<Seq<char>>::empty());
    let names = arg_names(b.args);
    assert(names =~= seq!["manifest"@, "output"@]);
    assert("manifest"@[0] != "output"@[0]);
    assert(names.no_duplicates());
}

proof fn lemma_binding_well_formed_render_sysml_v2_snapshot()
    ensures
        binding_well_formed(tool_binding(McpTool::RenderSysmlV2Snapshot)),
{
    let b = tool_binding(McpTool::RenderSysmlV2Snapshot);
    reveal_strlit("/render/sysmlv2/projects/{project_id}/commits/{commit_id}");
    reveal_strlit("commit_id");
    reveal_strlit("output");
    reveal_strlit("project_id");
    reveal_with_fuel(placeholders_from, 59);
    reveal_with_fuel(path_arg_names, 4);
    reveal_with_fuel(body_arg_count, 4);
    assert(placeholders(b.path_template) =~~= seq!["project_id"@, "commit_id"@]);
    assert(path_arg_names(b.args) =~~= seq!["project_id"@, "commit_id"@]);
    let names = arg_names(b.args);
    assert(names =~= seq!["project_id"@, "commit_id"@, "output"@]);
    assert("project_id"@[0] != "commit_id"@[0]);
    assert("project_id"@[0] != "output"@[0]);
    assert("commit_id"@[0] != "output"@[0]);
    assert(names.no_duplicates());
}

proof fn lemma_binding_well_formed_list_model_projects()
    ensures
        binding_well_formed(tool_binding(McpTool::ListModelProjects)),
{
    let b = tool_binding(McpTool::ListModelProjects);
    reveal_strlit("/model/projects");
    reveal_with_fuel(placeholders_from, 17);
    reveal_with_fuel(path_arg_names, 1);
    reveal_with_fuel(body_arg_count, 1);
    assert(placeholders(b.path_template) =~~= Seq::<Seq<char>>::empty());
    assert(path_arg_names(b.args) =~~= Seq::<Seq<char>>::empty());
}

proof fn lemma_binding_well_formed_list_model_commits()
    ensures
        binding_well_formed(tool_binding(McpTool::ListModelCommits)),
{
    let b = tool_binding(McpTool::ListModelCommits);
    reveal_strlit("/model/projects/{project_id}/commits");
    reveal_strlit("project_id");
    reveal_with_fuel(placeholders_from, 38);
    reveal_with_fuel(path_arg_names, 2);
    reveal_with_fuel(body_arg_count, 2);
    assert(placeholders(b.path_template) =~~= seq!["project_id"@]);
    assert(path_arg_names(b.args) =~~= seq!["project_id"@]);
    let names = arg_names(b.args);
    assert(names =~= seq!["project_id"@]);
    assert(names.no_duplicates());
}

proof fn lemma_binding_well_formed_get_model_snapshot()
    ensures
        binding_well_formed(tool_binding(McpTool::GetModelSnapshot)),
{
    let b = tool_binding(McpTool::GetModelSnapshot);
    reveal_strlit("/model/projects/{project_id}/commits/{commit_id}/snapshot");
    reveal_strlit("commit_id");
    reveal_strlit("project_id");
    reveal_with_fuel(placeholders_from, 59);
    reveal_with_fuel(path_arg_names, 3);
    reveal_with_fuel(body_arg_count, 3);
    assert(placeholders(b.path_template) =~~= seq!["project_id"@, "commit_id"@]);
    assert(path_arg_names(b.args) =~~= seq!["project_id"@, "commit_id"@]);
    let names = arg_names(b.args);
    assert(names =~= seq!["project_id"@, "commit_id"@]);
    assert("project_id"@[0] != "commit_id"@[0]);
    assert(names.no_duplicates());
}

proof fn lemma_binding_well_formed_query_model_elements()
    ensures
        binding_well_formed(tool_binding(McpTool::QueryModelElements)),
{
    let b = tool_binding(McpTool::QueryModelElements);
    reveal_strlit("/model/projects/{project_id}/commits/{commit_id}/elements");
    reveal_strlit("commit_id");
    reveal_strlit("project_id");
    reveal_with_fuel(placeholders_from, 59);
    reveal_with_fuel(path_arg_names, 3);
    reveal_with_fuel(body_arg_count, 3);
    assert(placeholders(b.path_template) =~~= seq!["project_id"@, "commit_id"@]);
    assert(path_arg_names(b.args) =~~= seq!["project_id"@, "commit_id"@]);
    let names = arg_names(b.args);
    assert(names =~= seq!["project_id"@, "commit_id"@]);
    assert("project_id"@[0] != "commit_id"@[0]);
    assert(names.no_duplicates());
}

proof fn lemma_binding_well_formed_get_model_roots()
    ensures
        binding_well_formed(tool_binding(McpTool::GetModelRoots)),
{
    let b = tool_binding(McpTool::GetModelRoots);
    reveal_strlit("/model/projects/{project_id}/commits/{commit_id}/roots");
    reveal_strlit("commit_id");
    reveal_strlit("project_id");
    reveal_with_fuel(placeholders_from, 56);
    reveal_with_fuel(path_arg_names, 3);
    reveal_with_fuel(body_arg_count, 3);
    assert(placeholders(b.path_template) =~~= seq!["project_id"@, "commit_id"@]);
    assert(path_arg_names(b.args) =~~= seq!["project_id"@, "commit_id"@]);
    let names = arg_names(b.args);
    assert(names =~= seq!["project_id"@, "commit_id"@]);
    assert("project_id"@[0] != "commit_id"@[0]);
    assert(names.no_duplicates());
}

proof fn lemma_binding_well_formed_query_model_relationships()
    ensures
        binding_well_formed(tool_binding(McpTool::QueryModelRelationships)),
{
    let b = tool_binding(McpTool::QueryModelRelationships);
    reveal_strlit("/model/projects/{project_id}/commits/{commit_id}/elements/{element_id}/relationships");
    reveal_strlit("commit_id");
    reveal_strlit("direction");
    reveal_strlit("element_id");
    reveal_strlit("project_id");
    reveal_with_fuel(placeholders_from, 86);
    reveal_with_fuel(path_arg_names, 5);
    reveal_with_fuel(body_arg_count, 5);
    assert(placeholders(b.path_template) =~~= seq!["project_id"@, "commit_id"@, "element_id"@]);
    assert(path_arg_names(b.args) =~~= seq!["project_id"@, "commit_id"@, "element_id"@]);
    let names = arg_names(b.args);
    assert(names =~= seq!["project_id"@, "commit_id"@, "element_id"@, "direction"@]);
    assert("project_id"@[0] != "commit_id"@[0]);
    assert("project_id"@[0] != "element_id"@[0]);
    assert("project_id"@[0] != "direction"@[0]);
    assert("commit_id"@[0] != "element_id"@[0]);
    assert("commit_id"@[0] != "direction"@[0]);
    assert("element_id"@[0] != "direction"@[0]);
    assert(names.no_duplicates());
}

proof fn lemma_binding_well_formed_query_model_graph()
    ensures
        binding_well_formed(tool_binding(McpTool::QueryModelGraph)),
{
    let b = tool_binding(McpTool::QueryModelGraph);
    reveal_strlit("/model/graph/query");
    reveal_strlit("shape");
    reveal_strlit("subject");
    reveal_with_fuel(placeholders_from, 20);
    reveal_with_fuel(path_arg_names, 3);
    reveal_with_fuel(body_arg_count, 3);
    assert(placeholders(b.path_template) =~~= Seq::<Seq<char>>::empty());
    assert(path_arg_names(b.args) =~~= Seq::<Seq<char>>::empty());
    let names = arg_names(b.args);
    assert(names =~= seq!["shape"@, "subject"@]);
    assert("shape"@[1] != "subject"@[1]);
    assert(names.no_duplicates());
}

impl McpTool {
    /// Every tool, in declaration order.
    pub fn all() -> (v: Vec<McpTool>)
        ensures
            v@.len() == 12,
            forall|t: McpTool| v@.contains(t),
            v@.no_duplicates(),
    {
        let v = vec![
            McpTool::RenderDiagram,
            McpTool::ListFormats,
            McpTool::RenderKubeDiagram,
            McpTool::RenderK8sTopology,
            McpTool::RenderSysmlV2Snapshot,
            McpTool::ListModelProjects,
            McpTool::ListModelCommits,
            McpTool::GetModelSnapshot,
            McpTool::QueryModelElements,
            McpTool::GetModelRoots,
            McpTool::QueryModelRelationships,
            McpTool::QueryModelGraph,
        ];
        assert forall|t: McpTool| v@.contains(t) by {
            match t {
                McpTool::RenderDiagram => { assert(v@[0] == t); }
                McpTool::ListFormats => { assert(v@[1] == t); }
                McpTool::RenderKubeDiagram => { assert(v@[2] == t); }
                McpTool::RenderK8sTopology => { assert(v@[3] == t); }
                McpTool::RenderSysmlV2Snapshot => { assert(v@[4] == t); }
                McpTool::ListModelProjects => { assert(v@[5] == t); }
                McpTool::ListModelCommits => { assert(v@[6] == t); }
                McpTool::GetModelSnapshot => { assert(v@[7] == t); }
                McpTool::QueryModelElements => { assert(v@[8] == t); }
                McpTool::GetModelRoots => { assert(v@[9] == t); }
                McpTool::QueryModelRelationships => { assert(v@[10] == t); }
                McpTool::QueryModelGraph => { assert(v@[11] == t); }
            }
        }
        v
    }

    pub fn name(self) -> (r: &'static str)
        ensures
            r@ == tool_name(self),
    {
        match self {
            McpTool::RenderDiagram => "render_diagram",
            McpTool::ListFormats => "list_formats",
            McpTool::RenderKubeDiagram => "render_kubernetes_manifest",
            McpTool::RenderK8sTopology => "render_kubernetes_topology",
            McpTool::RenderSysmlV2Snapshot => "render_sysmlv2_snapshot",
            McpTool::ListModelProjects => "list_model_projects",
            McpTool::ListModelCommits => "list_model_commits",
            McpTool::GetModelSnapshot => "get_model_snapshot",
            McpTool::QueryModelElements => "query_model_elements",
            McpTool::GetModelRoots => "get_model_roots",
            McpTool::QueryModelRelationships => "query_model_relationships",
            McpTool::QueryModelGraph => "query_model_graph",
        }
    }

    pub fn description(self) -> (r: &'static str)
        ensures
            r@ == tool_description(self),
    {
        match self {
            McpTool::RenderDiagram => "Render supported diagram source through the local kr0ki service.",
            McpTool::ListFormats => "List formats currently supported by the local kr0ki service.",
            McpTool::RenderKubeDiagram => "Render Kubernetes manifest YAML through the internal KubeDiagrams worker.",
            McpTool::RenderK8sTopology => "Render Kubernetes manifest YAML through kr0ki's own recognizer -> UFO graph -> SysML v2 relation -> D2 pipeline (docs/PATTERNS-kubernetes.md), not the vendored KubeDiagrams tool.",
            McpTool::RenderSysmlV2Snapshot => "Render a validated SysML v2 project commit from the configured model server.",
            McpTool::ListModelProjects => "List SysML v2 projects on the configured model server.",
            McpTool::ListModelCommits => "List commits (immutable model snapshots) for a project.",
            McpTool::GetModelSnapshot => "Fetch the full content-hashed element and root set for a project/commit.",
            McpTool::QueryModelElements => "List every element in a project/commit.",
            McpTool::GetModelRoots => "List the root element ids of a project/commit.",
            McpTool::QueryModelRelationships => "List a model element's relationships (in/out/both direction).",
            McpTool::QueryModelGraph => "Query kr0ki-server's in-memory RDF graph (bounded query shapes, not SPARQL).",
        }
    }

    pub fn http_binding(self) -> (r: HttpBinding)
        ensures
            r.view_spec() == tool_binding(self),
    {
        let r = match self {
            McpTool::RenderDiagram => HttpBinding { method: HttpMethod::Post, path_template: "/render/{format}", args: &[ArgBinding { name: "format", placement: ArgPlacement::Path }, ArgBinding { name: "source", placement: ArgPlacement::Body }, ArgBinding { name: "output", placement: ArgPlacement::Query }] },
            McpTool::ListFormats => HttpBinding { method: HttpMethod::Get, path_template: "/formats", args: &[] },
            McpTool::RenderKubeDiagram => HttpBinding { method: HttpMethod::Post, path_template: "/render/kubediagram", args: &[ArgBinding { name: "manifest", placement: ArgPlacement::Body }, ArgBinding { name: "output", placement: ArgPlacement::Query }] },
            McpTool::RenderK8sTopology => HttpBinding { method: HttpMethod::Post, path_template: "/render/k8s-topology", args: &[ArgBinding { name: "manifest", placement: ArgPlacement::Body }, ArgBinding { name: "output", placement: ArgPlacement::Query }] },
            McpTool::RenderSysmlV2Snapshot => HttpBinding { method: HttpMethod::Post, path_template: "/render/sysmlv2/projects/{project_id}/commits/{commit_id}", args: &[ArgBinding { name: "project_id", placement: ArgPlacement::Path }, ArgBinding { name: "commit_id", placement: ArgPlacement::Path }, ArgBinding { name: "output", placement: ArgPlacement::Query }] },
            McpTool::ListModelProjects => HttpBinding { method: HttpMethod::Get, path_template: "/model/projects", args: &[] },
            McpTool::ListModelCommits => HttpBinding { method: HttpMethod::Get, path_template: "/model/projects/{project_id}/commits", args: &[ArgBinding { name: "project_id", placement: ArgPlacement::Path }] },
            McpTool::GetModelSnapshot => HttpBinding { method: HttpMethod::Get, path_template: "/model/projects/{project_id}/commits/{commit_id}/snapshot", args: &[ArgBinding { name: "project_id", placement: ArgPlacement::Path }, ArgBinding { name: "commit_id", placement: ArgPlacement::Path }] },
            McpTool::QueryModelElements => HttpBinding { method: HttpMethod::Get, path_template: "/model/projects/{project_id}/commits/{commit_id}/elements", args: &[ArgBinding { name: "project_id", placement: ArgPlacement::Path }, ArgBinding { name: "commit_id", placement: ArgPlacement::Path }] },
            McpTool::GetModelRoots => HttpBinding { method: HttpMethod::Get, path_template: "/model/projects/{project_id}/commits/{commit_id}/roots", args: &[ArgBinding { name: "project_id", placement: ArgPlacement::Path }, ArgBinding { name: "commit_id", placement: ArgPlacement::Path }] },
            McpTool::QueryModelRelationships => HttpBinding { method: HttpMethod::Get, path_template: "/model/projects/{project_id}/commits/{commit_id}/elements/{element_id}/relationships", args: &[ArgBinding { name: "project_id", placement: ArgPlacement::Path }, ArgBinding { name: "commit_id", placement: ArgPlacement::Path }, ArgBinding { name: "element_id", placement: ArgPlacement::Path }, ArgBinding { name: "direction", placement: ArgPlacement::Query }] },
            McpTool::QueryModelGraph => HttpBinding { method: HttpMethod::Get, path_template: "/model/graph/query", args: &[ArgBinding { name: "shape", placement: ArgPlacement::Query }, ArgBinding { name: "subject", placement: ArgPlacement::Query }] },
        };
        assert(r.view_spec() =~~= tool_binding(self));
        r
    }
}

pub open spec fn tool_name_key(s: Seq<char>) -> (nat, char, char, char) {
    (s.len(), s[0], s[s.len() - 1], s[s.len() - 3])
}

pub open spec fn tool_key(t: McpTool) -> (nat, char, char, char) {
    match t {
        McpTool::RenderDiagram => (14nat, 'r', 'm', 'r'),
        McpTool::ListFormats => (12nat, 'l', 's', 'a'),
        McpTool::RenderKubeDiagram => (26nat, 'r', 't', 'e'),
        McpTool::RenderK8sTopology => (26nat, 'r', 'y', 'o'),
        McpTool::RenderSysmlV2Snapshot => (23nat, 'r', 't', 'h'),
        McpTool::ListModelProjects => (19nat, 'l', 's', 'c'),
        McpTool::ListModelCommits => (18nat, 'l', 's', 'i'),
        McpTool::GetModelSnapshot => (18nat, 'g', 't', 'h'),
        McpTool::QueryModelElements => (20nat, 'q', 's', 'n'),
        McpTool::GetModelRoots => (15nat, 'g', 's', 'o'),
        McpTool::QueryModelRelationships => (25nat, 'q', 's', 'i'),
        McpTool::QueryModelGraph => (17nat, 'q', 'h', 'a'),
    }
}

/// Law: tool names are unique, so a `tools/call` name dispatches to exactly
/// one capability.
pub proof fn law_tool_names_unique(a: McpTool, b: McpTool)
    ensures
        tool_name(a) == tool_name(b) <==> a == b,
{
    reveal_strlit("render_diagram");
    reveal_strlit("list_formats");
    reveal_strlit("render_kubernetes_manifest");
    reveal_strlit("render_kubernetes_topology");
    reveal_strlit("render_sysmlv2_snapshot");
    reveal_strlit("list_model_projects");
    reveal_strlit("list_model_commits");
    reveal_strlit("get_model_snapshot");
    reveal_strlit("query_model_elements");
    reveal_strlit("get_model_roots");
    reveal_strlit("query_model_relationships");
    reveal_strlit("query_model_graph");
    assert(tool_name_key(tool_name(a)) == tool_key(a)) by { match a { _ => {} } }
    assert(tool_name_key(tool_name(b)) == tool_key(b)) by { match b { _ => {} } }
}

// ---------------------------------------------------------------------
// MCP manifests: input schema and HTTP binding as JSON
// ---------------------------------------------------------------------
//
// Object members are listed in key order, the order in which a JSON
// serializer with sorted maps writes them; array elements keep their order.

/// A JSON array of strings.
pub open spec fn strs(xs: Seq<&str>) -> JsonView {
    JsonView::Arr(xs.map_values(|s: &str| JsonView::Str(s@)))
}

/// A string property with a description.
pub open spec fn prop_described(desc: Seq<char>) -> JsonView {
    JsonView::Obj(seq![("description"@, JsonView::Str(desc)), ("type"@, JsonView::Str("string"@))])
}

/// A string property with no further constraint.
pub open spec fn prop_plain() -> JsonView {
    JsonView::Obj(seq![("type"@, JsonView::Str("string"@))])
}

/// A string property restricted to `values`, optionally with a default.
pub open spec fn prop_enum(values: Seq<&str>, default: Option<Seq<char>>) -> JsonView {
    match default {
        Some(d) => JsonView::Obj(seq![("default"@, JsonView::Str(d)), ("enum"@, strs(values)), ("type"@, JsonView::Str("string"@))]),
        None => JsonView::Obj(seq![("enum"@, strs(values)), ("type"@, JsonView::Str("string"@))]),
    }
}

/// An object schema with the given properties and required names (no
/// `required` member when none is required).
pub open spec fn object_schema(required: Seq<&str>, props: Seq<(Seq<char>, JsonView)>) -> JsonView {
    if required.len() == 0 {
        JsonView::Obj(seq![("properties"@, JsonView::Obj(props)), ("type"@, JsonView::Str("object"@))])
    } else {
        JsonView::Obj(seq![("properties"@, JsonView::Obj(props)), ("required"@, strs(required)), ("type"@, JsonView::Str("object"@))])
    }
}

/// The MCP `inputSchema` of each tool.
pub open spec fn tool_schema(t: McpTool) -> JsonView {
    let svg_png = prop_enum(seq!["svg", "png"], Some("svg"@));
    match t {
        McpTool::RenderDiagram => object_schema(seq!["format", "source"], seq![
            ("format"@, prop_described("kr0ki diagram format slug."@)),
            ("output"@, svg_png),
            ("source"@, prop_described("UTF-8 diagram source."@)),
        ]),
        McpTool::ListFormats => object_schema(seq![], seq![]),
        McpTool::RenderKubeDiagram => object_schema(seq!["manifest"], seq![
            ("manifest"@, prop_described("Kubernetes YAML manifest bundle."@)),
            ("output"@, prop_enum(seq!["svg", "dot_json"], Some("svg"@))),
        ]),
        McpTool::RenderK8sTopology => object_schema(seq!["manifest"], seq![
            ("manifest"@, prop_described("Kubernetes multi-doc YAML manifest bundle."@)),
            ("output"@, svg_png),
        ]),
        McpTool::RenderSysmlV2Snapshot => object_schema(seq!["project_id", "commit_id"], seq![
            ("commit_id"@, prop_described("Immutable SysML v2 commit id."@)),
            ("output"@, svg_png),
            ("project_id"@, prop_described("SysML v2 project id."@)),
        ]),
        McpTool::ListModelProjects => object_schema(seq![], seq![]),
        McpTool::ListModelCommits => object_schema(seq!["project_id"], seq![
            ("project_id"@, prop_described("SysML v2 project id."@)),
        ]),
        McpTool::GetModelSnapshot | McpTool::QueryModelElements | McpTool::GetModelRoots => object_schema(
            seq!["project_id", "commit_id"],
            seq![("commit_id"@, prop_plain()), ("project_id"@, prop_plain())],
        ),
        McpTool::QueryModelRelationships => object_schema(seq!["project_id", "commit_id", "element_id"], seq![
            ("commit_id"@, prop_plain()),
            ("direction"@, prop_enum(seq!["in", "out", "both"], Some("both"@))),
            ("element_id"@, prop_plain()),
            ("project_id"@, prop_plain()),
        ]),
        McpTool::QueryModelGraph => object_schema(seq!["shape"], seq![
            ("shape"@, prop_enum(seq!["triples_about", "related_via"], None)),
            ("subject"@, prop_described("Element id (IRI local name) to query about."@)),
        ]),
    }
}

/// The value of the first member named `key` from position `i` on.
pub open spec fn view_member_from(ms: Seq<(Seq<char>, JsonView)>, key: Seq<char>, i: int) -> Option<JsonView>
    decreases ms.len() - i,
{
    if i < 0 || i >= ms.len() {
        None
    } else if ms[i].0 == key {
        Some(ms[i].1)
    } else {
        view_member_from(ms, key, i + 1)
    }
}

/// The member named `key` of an object.
pub open spec fn view_member(v: JsonView, key: Seq<char>) -> Option<JsonView> {
    match v {
        JsonView::Obj(ms) => view_member_from(ms, key, 0),
        _ => None,
    }
}

/// The names listed under a schema's `required` (none when absent).
pub open spec fn schema_required(v: JsonView) -> Seq<Seq<char>> {
    match view_member(v, "required"@) {
        Some(JsonView::Arr(xs)) => xs.map_values(|x: JsonView| match x {
            JsonView::Str(name) => name,
            _ => Seq::empty(),
        }),
        _ => Seq::empty(),
    }
}

/// The keys of a schema's `properties` object.
pub open spec fn schema_property_keys(v: JsonView) -> Seq<Seq<char>> {
    match view_member(v, "properties"@) {
        Some(JsonView::Obj(ps)) => ps.map_values(|p: (Seq<char>, JsonView)| p.0),
        _ => Seq::empty(),
    }
}

/// A tool's input schema and its HTTP binding agree: the schema is an
/// object schema whose `properties` is an object; every name it requires is
/// one of its properties and is placed by an argument of the binding; and
/// every argument of the binding is a property of the schema.
pub open spec fn schema_matches_binding(s: JsonView, b: BindingSpec) -> bool {
    &&& view_member(s, "type"@) == Some(JsonView::Str("object"@))
    &&& view_member(s, "properties"@) matches Some(JsonView::Obj(_))
    &&& forall|i: int| 0 <= i < schema_required(s).len() ==> arg_names(b.args).contains(#[trigger] schema_required(s)[i])
    &&& forall|i: int| 0 <= i < schema_required(s).len() ==> schema_property_keys(s).contains(#[trigger] schema_required(s)[i])
    &&& forall|i: int| 0 <= i < b.args.len() ==> schema_property_keys(s).contains(#[trigger] b.args[i].0)
}

proof fn lemma_object_schema_reads()
    ensures
        forall|r: Seq<&str>, p: Seq<(Seq<char>, JsonView)>| {
            &&& view_member(#[trigger] object_schema(r, p), "type"@) == Some(JsonView::Str("object"@))
            &&& view_member(object_schema(r, p), "properties"@) == Some(JsonView::Obj(p))
            &&& schema_required(object_schema(r, p)) == r.map_values(|x: &str| x@)
            &&& schema_property_keys(object_schema(r, p)) == p.map_values(|m: (Seq<char>, JsonView)| m.0)
        },
{
    reveal_strlit("properties");
    reveal_strlit("required");
    reveal_strlit("type");
    reveal_with_fuel(view_member_from, 4);
    assert forall|r: Seq<&str>, p: Seq<(Seq<char>, JsonView)>| {
        &&& view_member(#[trigger] object_schema(r, p), "type"@) == Some(JsonView::Str("object"@))
        &&& view_member(object_schema(r, p), "properties"@) == Some(JsonView::Obj(p))
        &&& schema_required(object_schema(r, p)) == r.map_values(|x: &str| x@)
        &&& schema_property_keys(object_schema(r, p)) == p.map_values(|m: (Seq<char>, JsonView)| m.0)
    } by {
        assert("properties"@[0] != "required"@[0]);
        assert("properties"@[0] != "type"@[0]);
        assert("required"@[0] != "type"@[0]);
        assert(schema_required(object_schema(r, p)) =~= r.map_values(|x: &str| x@));
        assert(schema_property_keys(object_schema(r, p)) =~= p.map_values(|m: (Seq<char>, JsonView)| m.0));
    }
}

/// Every tool's input schema agrees with its HTTP binding (see
/// [`schema_matches_binding`]): a `tools/call` that meets the schema
/// supplies every argument the binding needs a place for, and the binding
/// places nothing the schema does not describe.
pub proof fn law_schema_matches_binding(t: McpTool)
    ensures
        schema_matches_binding(tool_schema(t), tool_binding(t)),
{
    match t {
        McpTool::RenderDiagram => lemma_schema_matches_binding_render_diagram(),
        McpTool::ListFormats => lemma_schema_matches_binding_list_formats(),
        McpTool::RenderKubeDiagram => lemma_schema_matches_binding_render_kube_diagram(),
        McpTool::RenderK8sTopology => lemma_schema_matches_binding_render_k8s_topology(),
        McpTool::RenderSysmlV2Snapshot => lemma_schema_matches_binding_render_sysml_v2_snapshot(),
        McpTool::ListModelProjects => lemma_schema_matches_binding_list_model_projects(),
        McpTool::ListModelCommits => lemma_schema_matches_binding_list_model_commits(),
        McpTool::GetModelSnapshot => lemma_schema_matches_binding_get_model_snapshot(),
        McpTool::QueryModelElements => lemma_schema_matches_binding_query_model_elements(),
        McpTool::GetModelRoots => lemma_schema_matches_binding_get_model_roots(),
        McpTool::QueryModelRelationships => lemma_schema_matches_binding_query_model_relationships(),
        McpTool::QueryModelGraph => lemma_schema_matches_binding_query_model_graph(),
    }
}

proof fn lemma_schema_matches_binding_render_diagram()
    ensures
        schema_matches_binding(tool_schema(McpTool::RenderDiagram), tool_binding(McpTool::RenderDiagram)),
{
    let s = tool_schema(McpTool::RenderDiagram);
    let b = tool_binding(McpTool::RenderDiagram);
    reveal_strlit("format");
    reveal_strlit("output");
    reveal_strlit("source");
    lemma_object_schema_reads();
    let names = arg_names(b.args);
    assert(names =~= seq!["format"@, "source"@, "output"@]);
    let keys = schema_property_keys(s);
    assert(keys =~= seq!["format"@, "output"@, "source"@]);
    assert(schema_required(s) =~= seq!["format"@, "source"@]);
    assert(names[0] == "format"@);
    assert(names[1] == "source"@);
    assert(keys[0] == "format"@);
    assert(keys[2] == "source"@);
    assert(keys[1] == "output"@);
}

proof fn lemma_schema_matches_binding_list_formats()
    ensures
        schema_matches_binding(tool_schema(McpTool::ListFormats), tool_binding(McpTool::ListFormats)),
{
    let s = tool_schema(McpTool::ListFormats);
    let b = tool_binding(McpTool::ListFormats);
    lemma_object_schema_reads();
    let names = arg_names(b.args);
    assert(names =~= Seq::<Seq<char>>::empty());
    let keys = schema_property_keys(s);
    assert(keys =~= Seq::<Seq<char>>::empty());
    assert(schema_required(s) =~= Seq::<Seq<char>>::empty());
}

proof fn lemma_schema_matches_binding_render_kube_diagram()
    ensures
        schema_matches_binding(tool_schema(McpTool::RenderKubeDiagram), tool_binding(McpTool::RenderKubeDiagram)),
{
    let s = tool_schema(McpTool::RenderKubeDiagram);
    let b = tool_binding(McpTool::RenderKubeDiagram);
    reveal_strlit("manifest");
    reveal_strlit("output");
    lemma_object_schema_reads();
    let names = arg_names(b.args);
    assert(names =~= seq!["manifest"@, "output"@]);
    let keys = schema_property_keys(s);
    assert(keys =~= seq!["manifest"@, "output"@]);
    assert(schema_required(s) =~= seq!["manifest"@]);
    assert(names[0] == "manifest"@);
    assert(keys[0] == "manifest"@);
    assert(keys[1] == "output"@);
}

proof fn lemma_schema_matches_binding_render_k8s_topology()
    ensures
        schema_matches_binding(tool_schema(McpTool::RenderK8sTopology), tool_binding(McpTool::RenderK8sTopology)),
{
    let s = tool_schema(McpTool::RenderK8sTopology);
    let b = tool_binding(McpTool::RenderK8sTopology);
    reveal_strlit("manifest");
    reveal_strlit("output");
    lemma_object_schema_reads();
    let names = arg_names(b.args);
    assert(names =~= seq!["manifest"@, "output"@]);
    let keys = schema_property_keys(s);
    assert(keys =~= seq!["manifest"@, "output"@]);
    assert(schema_required(s) =~= seq!["manifest"@]);
    assert(names[0] == "manifest"@);
    assert(keys[0] == "manifest"@);
    assert(keys[1] == "output"@);
}

proof fn lemma_schema_matches_binding_render_sysml_v2_snapshot()
    ensures
        schema_matches_binding(tool_schema(McpTool::RenderSysmlV2Snapshot), tool_binding(McpTool::RenderSysmlV2Snapshot)),
{
    let s = tool_schema(McpTool::RenderSysmlV2Snapshot);
    let b = tool_binding(McpTool::RenderSysmlV2Snapshot);
    reveal_strlit("commit_id");
    reveal_strlit("output");
    reveal_strlit("project_id");
    lemma_object_schema_reads();
    let names = arg_names(b.args);
    assert(names =~= seq!["project_id"@, "commit_id"@, "output"@]);
    let keys = schema_property_keys(s);
    assert(keys =~= seq!["commit_id"@, "output"@, "project_id"@]);
    assert(schema_required(s) =~= seq!["project_id"@, "commit_id"@]);
    assert(names[0] == "project_id"@);
    assert(names[1] == "commit_id"@);
    assert(keys[2] == "project_id"@);
    assert(keys[0] == "commit_id"@);
    assert(keys[1] == "output"@);
}

proof fn lemma_schema_matches_binding_list_model_projects()
    ensures
        schema_matches_binding(tool_schema(McpTool::ListModelProjects), tool_binding(McpTool::ListModelProjects)),
{
    let s = tool_schema(McpTool::ListModelProjects);
    let b = tool_binding(McpTool::ListModelProjects);
    lemma_object_schema_reads();
    let names = arg_names(b.args);
    assert(names =~= Seq::<Seq<char>>::empty());
    let keys = schema_property_keys(s);
    assert(keys =~= Seq::<Seq<char>>::empty());
    assert(schema_required(s) =~= Seq::<Seq<char>>::empty());
}

proof fn lemma_schema_matches_binding_list_model_commits()
    ensures
        schema_matches_binding(tool_schema(McpTool::ListModelCommits), tool_binding(McpTool::ListModelCommits)),
{
    let s = tool_schema(McpTool::ListModelCommits);
    let b = tool_binding(McpTool::ListModelCommits);
    reveal_strlit("project_id");
    lemma_object_schema_reads();
    let names = arg_names(b.args);
    assert(names =~= seq!["project_id"@]);
    let keys = schema_property_keys(s);
    assert(keys =~= seq!["project_id"@]);
    assert(schema_required(s) =~= seq!["project_id"@]);
    assert(names[0] == "project_id"@);
    assert(keys[0] == "project_id"@);
}

proof fn lemma_schema_matches_binding_get_model_snapshot()
    ensures
        schema_matches_binding(tool_schema(McpTool::GetModelSnapshot), tool_binding(McpTool::GetModelSnapshot)),
{
    let s = tool_schema(McpTool::GetModelSnapshot);
    let b = tool_binding(McpTool::GetModelSnapshot);
    reveal_strlit("commit_id");
    reveal_strlit("project_id");
    lemma_object_schema_reads();
    let names = arg_names(b.args);
    assert(names =~= seq!["project_id"@, "commit_id"@]);
    let keys = schema_property_keys(s);
    assert(keys =~= seq!["commit_id"@, "project_id"@]);
    assert(schema_required(s) =~= seq!["project_id"@, "commit_id"@]);
    assert(names[0] == "project_id"@);
    assert(names[1] == "commit_id"@);
    assert(keys[1] == "project_id"@);
    assert(keys[0] == "commit_id"@);
}

proof fn lemma_schema_matches_binding_query_model_elements()
    ensures
        schema_matches_binding(tool_schema(McpTool::QueryModelElements), tool_binding(McpTool::QueryModelElements)),
{
    let s = tool_schema(McpTool::QueryModelElements);
    let b = tool_binding(McpTool::QueryModelElements);
    reveal_strlit("commit_id");
    reveal_strlit("project_id");
    lemma_object_schema_reads();
    let names = arg_names(b.args);
    assert(names =~= seq!["project_id"@, "commit_id"@]);
    let keys = schema_property_keys(s);
    assert(keys =~= seq!["commit_id"@, "project_id"@]);
    assert(schema_required(s) =~= seq!["project_id"@, "commit_id"@]);
    assert(names[0] == "project_id"@);
    assert(names[1] == "commit_id"@);
    assert(keys[1] == "project_id"@);
    assert(keys[0] == "commit_id"@);
}

proof fn lemma_schema_matches_binding_get_model_roots()
    ensures
        schema_matches_binding(tool_schema(McpTool::GetModelRoots), tool_binding(McpTool::GetModelRoots)),
{
    let s = tool_schema(McpTool::GetModelRoots);
    let b = tool_binding(McpTool::GetModelRoots);
    reveal_strlit("commit_id");
    reveal_strlit("project_id");
    lemma_object_schema_reads();
    let names = arg_names(b.args);
    assert(names =~= seq!["project_id"@, "commit_id"@]);
    let keys = schema_property_keys(s);
    assert(keys =~= seq!["commit_id"@, "project_id"@]);
    assert(schema_required(s) =~= seq!["project_id"@, "commit_id"@]);
    assert(names[0] == "project_id"@);
    assert(names[1] == "commit_id"@);
    assert(keys[1] == "project_id"@);
    assert(keys[0] == "commit_id"@);
}

proof fn lemma_schema_matches_binding_query_model_relationships()
    ensures
        schema_matches_binding(tool_schema(McpTool::QueryModelRelationships), tool_binding(McpTool::QueryModelRelationships)),
{
    let s = tool_schema(McpTool::QueryModelRelationships);
    let b = tool_binding(McpTool::QueryModelRelationships);
    reveal_strlit("commit_id");
    reveal_strlit("direction");
    reveal_strlit("element_id");
    reveal_strlit("project_id");
    lemma_object_schema_reads();
    let names = arg_names(b.args);
    assert(names =~= seq!["project_id"@, "commit_id"@, "element_id"@, "direction"@]);
    let keys = schema_property_keys(s);
    assert(keys =~= seq!["commit_id"@, "direction"@, "element_id"@, "project_id"@]);
    assert(schema_required(s) =~= seq!["project_id"@, "commit_id"@, "element_id"@]);
    assert(names[0] == "project_id"@);
    assert(names[1] == "commit_id"@);
    assert(names[2] == "element_id"@);
    assert(keys[3] == "project_id"@);
    assert(keys[0] == "commit_id"@);
    assert(keys[2] == "element_id"@);
    assert(keys[1] == "direction"@);
}

proof fn lemma_schema_matches_binding_query_model_graph()
    ensures
        schema_matches_binding(tool_schema(McpTool::QueryModelGraph), tool_binding(McpTool::QueryModelGraph)),
{
    let s = tool_schema(McpTool::QueryModelGraph);
    let b = tool_binding(McpTool::QueryModelGraph);
    reveal_strlit("shape");
    reveal_strlit("subject");
    lemma_object_schema_reads();
    let names = arg_names(b.args);
    assert(names =~= seq!["shape"@, "subject"@]);
    let keys = schema_property_keys(s);
    assert(keys =~= seq!["shape"@, "subject"@]);
    assert(schema_required(s) =~= seq!["shape"@]);
    assert(names[0] == "shape"@);
    assert(keys[0] == "shape"@);
    assert(keys[1] == "subject"@);
}

pub open spec fn method_name(m: HttpMethod) -> Seq<char> {
    match m {
        HttpMethod::Get => "GET"@,
        HttpMethod::Post => "POST"@,
    }
}

pub open spec fn placement_name(p: ArgPlacement) -> Seq<char> {
    match p {
        ArgPlacement::Path => "path"@,
        ArgPlacement::Query => "query"@,
        ArgPlacement::Body => "body"@,
    }
}

pub open spec fn arg_json(a: (Seq<char>, ArgPlacement)) -> JsonView {
    JsonView::Obj(seq![("name"@, JsonView::Str(a.0)), ("placement"@, JsonView::Str(placement_name(a.1)))])
}

/// An HTTP binding as JSON: its arguments, method and path template.
pub open spec fn binding_json(b: BindingSpec) -> JsonView {
    JsonView::Obj(seq![
        ("args"@, JsonView::Arr(b.args.map_values(|a: (Seq<char>, ArgPlacement)| arg_json(a)))),
        ("method"@, JsonView::Str(method_name(b.method))),
        ("pathTemplate"@, JsonView::Str(b.path_template)),
    ])
}

/// A tool's manifest entry: description, HTTP binding, input schema, name.
pub open spec fn tool_manifest(t: McpTool) -> JsonView {
    JsonView::Obj(seq![
        ("description"@, JsonView::Str(tool_description(t))),
        ("httpBinding"@, binding_json(tool_binding(t))),
        ("inputSchema"@, tool_schema(t)),
        ("name"@, JsonView::Str(tool_name(t))),
    ])
}

fn str_array_value(items: Vec<&str>) -> (r: JsonValue)
    ensures
        json_is(r, strs(items@)),
{
    json_str_array(items.as_slice())
}

fn prop_described_value(desc: &str) -> (r: JsonValue)
    ensures
        json_is(r, prop_described(desc@)),
{
    let d = json_member("description", json_str(desc), Ghost(JsonView::Str(desc@)));
    let t = json_member("type", json_str("string"), Ghost(JsonView::Str("string"@)));
    let r = JsonValue::Object(vec![d, t]);
    assert(json_is(r, prop_described(desc@)));
    r
}

fn prop_plain_value() -> (r: JsonValue)
    ensures
        json_is(r, prop_plain()),
{
    let t = json_member("type", json_str("string"), Ghost(JsonView::Str("string"@)));
    let r = JsonValue::Object(vec![t]);
    assert(json_is(r, prop_plain()));
    r
}

fn prop_enum_value(values: Vec<&str>, default: Option<&str>) -> (r: JsonValue)
    ensures
        json_is(r, prop_enum(values@, match default { Some(d) => Some(d@), None => None })),
{
    let ghost vs = values@;
    let e = json_member("enum", str_array_value(values), Ghost(strs(vs)));
    let t = json_member("type", json_str("string"), Ghost(JsonView::Str("string"@)));
    match default {
        Some(d) => {
            let dm = json_member("default", json_str(d), Ghost(JsonView::Str(d@)));
            let r = JsonValue::Object(vec![dm, e, t]);
            assert(json_is(r, prop_enum(vs, Some(d@))));
            r
        },
        None => {
            let r = JsonValue::Object(vec![e, t]);
            assert(json_is(r, prop_enum(vs, None)));
            r
        },
    }
}

/// The members `ms` hold exactly the members `jm`.
pub open spec fn members_are(ms: Seq<(String, JsonValue)>, jm: Seq<(Seq<char>, JsonView)>) -> bool {
    ms.len() == jm.len() && forall|i: int| 0 <= i < jm.len() ==> (#[trigger] ms[i]).0@ == jm[i].0 && json_is(ms[i].1, jm[i].1)
}

fn object_schema_value(
    required: Vec<&str>,
    props: Vec<(String, JsonValue)>,
    Ghost(jp): Ghost<Seq<(Seq<char>, JsonView)>>,
) -> (r: JsonValue)
    requires
        members_are(props@, jp),
    ensures
        json_is(r, object_schema(required@, jp)),
{
    let ghost req = required@;
    let p = json_member("properties", JsonValue::Object(props), Ghost(JsonView::Obj(jp)));
    let t = json_member("type", json_str("object"), Ghost(JsonView::Str("object"@)));
    if required.len() == 0 {
        let r = JsonValue::Object(vec![p, t]);
        assert(json_is(r, object_schema(req, jp)));
        r
    } else {
        let q = json_member("required", str_array_value(required), Ghost(strs(req)));
        let r = JsonValue::Object(vec![p, q, t]);
        assert(json_is(r, object_schema(req, jp)));
        r
    }
}

fn schema_render_diagram() -> (r: JsonValue)
    ensures
        json_is(r, tool_schema(McpTool::RenderDiagram)),
{
    let m0 = json_member("format", prop_described_value("kr0ki diagram format slug."), Ghost(prop_described("kr0ki diagram format slug."@)));
    let m1 = json_member("output", prop_enum_value(vec!["svg", "png"], Some("svg")), Ghost(prop_enum(seq!["svg", "png"], Some("svg"@))));
    let m2 = json_member("source", prop_described_value("UTF-8 diagram source."), Ghost(prop_described("UTF-8 diagram source."@)));
    let props = vec![m0, m1, m2];
    let ghost jp = seq![("format"@, prop_described("kr0ki diagram format slug."@)), ("output"@, prop_enum(seq!["svg", "png"], Some("svg"@))), ("source"@, prop_described("UTF-8 diagram source."@))];
    assert(members_are(props@, jp));
    let req = vec!["format", "source"];
    assert(req@ =~= seq!["format", "source"]);
    assert(object_schema(req@, jp) == tool_schema(McpTool::RenderDiagram));
    object_schema_value(req, props, Ghost(jp))
}

fn schema_render_kube_diagram() -> (r: JsonValue)
    ensures
        json_is(r, tool_schema(McpTool::RenderKubeDiagram)),
{
    let m0 = json_member("manifest", prop_described_value("Kubernetes YAML manifest bundle."), Ghost(prop_described("Kubernetes YAML manifest bundle."@)));
    let m1 = json_member("output", prop_enum_value(vec!["svg", "dot_json"], Some("svg")), Ghost(prop_enum(seq!["svg", "dot_json"], Some("svg"@))));
    let props = vec![m0, m1];
    let ghost jp = seq![("manifest"@, prop_described("Kubernetes YAML manifest bundle."@)), ("output"@, prop_enum(seq!["svg", "dot_json"], Some("svg"@)))];
    assert(members_are(props@, jp));
    let req = vec!["manifest"];
    assert(req@ =~= seq!["manifest"]);
    assert(object_schema(req@, jp) == tool_schema(McpTool::RenderKubeDiagram));
    object_schema_value(req, props, Ghost(jp))
}

fn schema_render_k8s_topology() -> (r: JsonValue)
    ensures
        json_is(r, tool_schema(McpTool::RenderK8sTopology)),
{
    let m0 = json_member("manifest", prop_described_value("Kubernetes multi-doc YAML manifest bundle."), Ghost(prop_described("Kubernetes multi-doc YAML manifest bundle."@)));
    let m1 = json_member("output", prop_enum_value(vec!["svg", "png"], Some("svg")), Ghost(prop_enum(seq!["svg", "png"], Some("svg"@))));
    let props = vec![m0, m1];
    let ghost jp = seq![("manifest"@, prop_described("Kubernetes multi-doc YAML manifest bundle."@)), ("output"@, prop_enum(seq!["svg", "png"], Some("svg"@)))];
    assert(members_are(props@, jp));
    let req = vec!["manifest"];
    assert(req@ =~= seq!["manifest"]);
    assert(object_schema(req@, jp) == tool_schema(McpTool::RenderK8sTopology));
    object_schema_value(req, props, Ghost(jp))
}

fn schema_render_sysml_v2_snapshot() -> (r: JsonValue)
    ensures
        json_is(r, tool_schema(McpTool::RenderSysmlV2Snapshot)),
{
    let m0 = json_member("commit_id", prop_described_value("Immutable SysML v2 commit id."), Ghost(prop_described("Immutable SysML v2 commit id."@)));
    let m1 = json_member("output", prop_enum_value(vec!["svg", "png"], Some("svg")), Ghost(prop_enum(seq!["svg", "png"], Some("svg"@))));
    let m2 = json_member("project_id", prop_described_value("SysML v2 project id."), Ghost(prop_described("SysML v2 project id."@)));
    let props = vec![m0, m1, m2];
    let ghost jp = seq![("commit_id"@, prop_described("Immutable SysML v2 commit id."@)), ("output"@, prop_enum(seq!["svg", "png"], Some("svg"@))), ("project_id"@, prop_described("SysML v2 project id."@))];
    assert(members_are(props@, jp));
    let req = vec!["project_id", "commit_id"];
    assert(req@ =~= seq!["project_id", "commit_id"]);
    assert(object_schema(req@, jp) == tool_schema(McpTool::RenderSysmlV2Snapshot));
    object_schema_value(req, props, Ghost(jp))
}

fn schema_list_model_commits() -> (r: JsonValue)
    ensures
        json_is(r, tool_schema(McpTool::ListModelCommits)),
{
    let m0 = json_member("project_id", prop_described_value("SysML v2 project id."), Ghost(prop_described("SysML v2 project id."@)));
    let props = vec![m0];
    let ghost jp = seq![("project_id"@, prop_described("SysML v2 project id."@))];
    assert(members_are(props@, jp));
    let req = vec!["project_id"];
    assert(req@ =~= seq!["project_id"]);
    assert(object_schema(req@, jp) == tool_schema(McpTool::ListModelCommits));
    object_schema_value(req, props, Ghost(jp))
}

fn schema_model_snapshot() -> (r: JsonValue)
    ensures
        json_is(r, tool_schema(McpTool::GetModelSnapshot)),
{
    let m0 = json_member("commit_id", prop_plain_value(), Ghost(prop_plain()));
    let m1 = json_member("project_id", prop_plain_value(), Ghost(prop_plain()));
    let props = vec![m0, m1];
    let ghost jp = seq![("commit_id"@, prop_plain()), ("project_id"@, prop_plain())];
    assert(members_are(props@, jp));
    let req = vec!["project_id", "commit_id"];
    assert(req@ =~= seq!["project_id", "commit_id"]);
    assert(object_schema(req@, jp) == tool_schema(McpTool::GetModelSnapshot));
    object_schema_value(req, props, Ghost(jp))
}

fn schema_query_model_relationships() -> (r: JsonValue)
    ensures
        json_is(r, tool_schema(McpTool::QueryModelRelationships)),
{
    let m0 = json_member("commit_id", prop_plain_value(), Ghost(prop_plain()));
    let m1 = json_member("direction", prop_enum_value(vec!["in", "out", "both"], Some("both")), Ghost(prop_enum(seq!["in", "out", "both"], Some("both"@))));
    let m2 = json_member("element_id", prop_plain_value(), Ghost(prop_plain()));
    let m3 = json_member("project_id", prop_plain_value(), Ghost(prop_plain()));
    let props = vec![m0, m1, m2, m3];
    let ghost jp = seq![("commit_id"@, prop_plain()), ("direction"@, prop_enum(seq!["in", "out", "both"], Some("both"@))), ("element_id"@, prop_plain()), ("project_id"@, prop_plain())];
    assert(members_are(props@, jp));
    let req = vec!["project_id", "commit_id", "element_id"];
    assert(req@ =~= seq!["project_id", "commit_id", "element_id"]);
    assert(object_schema(req@, jp) == tool_schema(McpTool::QueryModelRelationships));
    object_schema_value(req, props, Ghost(jp))
}

fn schema_query_model_graph() -> (r: JsonValue)
    ensures
        json_is(r, tool_schema(McpTool::QueryModelGraph)),
{
    let m0 = json_member("shape", prop_enum_value(vec!["triples_about", "related_via"], None), Ghost(prop_enum(seq!["triples_about", "related_via"], None)));
    let m1 = json_member("subject", prop_described_value("Element id (IRI local name) to query about."), Ghost(prop_described("Element id (IRI local name) to query about."@)));
    let props = vec![m0, m1];
    let ghost jp = seq![("shape"@, prop_enum(seq!["triples_about", "related_via"], None)), ("subject"@, prop_described("Element id (IRI local name) to query about."@))];
    assert(members_are(props@, jp));
    let req = vec!["shape"];
    assert(req@ =~= seq!["shape"]);
    assert(object_schema(req@, jp) == tool_schema(McpTool::QueryModelGraph));
    object_schema_value(req, props, Ghost(jp))
}

fn schema_no_arguments() -> (r: JsonValue)
    ensures
        json_is(r, object_schema(seq![], seq![])),
{
    let props: Vec<(String, JsonValue)> = Vec::new();
    let req: Vec<&str> = Vec::new();
    assert(req@ =~= seq![]);
    object_schema_value(req, props, Ghost(Seq::empty()))
}

impl McpTool {
    /// The MCP `inputSchema` of this tool: a JSON Schema object naming each
    /// argument, which are required, and the allowed output values.
    pub fn input_schema(self) -> (r: JsonValue)
        ensures
            json_is(r, tool_schema(self)),
    {
        match self {
            McpTool::RenderDiagram => schema_render_diagram(),
            McpTool::ListFormats | McpTool::ListModelProjects => schema_no_arguments(),
            McpTool::RenderKubeDiagram => schema_render_kube_diagram(),
            McpTool::RenderK8sTopology => schema_render_k8s_topology(),
            McpTool::RenderSysmlV2Snapshot => schema_render_sysml_v2_snapshot(),
            McpTool::ListModelCommits => schema_list_model_commits(),
            McpTool::GetModelSnapshot | McpTool::QueryModelElements | McpTool::GetModelRoots => schema_model_snapshot(),
            McpTool::QueryModelRelationships => schema_query_model_relationships(),
            McpTool::QueryModelGraph => schema_query_model_graph(),
        }
    }
}

fn method_str(m: HttpMethod) -> (r: &'static str)
    ensures
        r@ == method_name(m),
{
    match m {
        HttpMethod::Get => "GET",
        HttpMethod::Post => "POST",
    }
}

fn placement_str(p: ArgPlacement) -> (r: &'static str)
    ensures
        r@ == placement_name(p),
{
    match p {
        ArgPlacement::Path => "path",
        ArgPlacement::Query => "query",
        ArgPlacement::Body => "body",
    }
}

fn arg_value(a: ArgBinding) -> (r: JsonValue)
    ensures
        json_is(r, arg_json((a.name@, a.placement))),
{
    let n = json_member("name", json_str(a.name), Ghost(JsonView::Str(a.name@)));
    let p = json_member("placement", json_str(placement_str(a.placement)), Ghost(JsonView::Str(placement_name(a.placement))));
    let r = JsonValue::Object(vec![n, p]);
    assert(json_is(r, arg_json((a.name@, a.placement))));
    r
}

fn binding_value(b: HttpBinding) -> (r: JsonValue)
    ensures
        json_is(r, binding_json(b.view_spec())),
{
    let ghost bs = b.view_spec();
    let ghost ja = bs.args.map_values(|a: (Seq<char>, ArgPlacement)| arg_json(a));
    let mut args: Vec<JsonValue> = Vec::new();
    let mut i: usize = 0;
    while i < b.args.len()
        invariant
            i <= b.args@.len(),
            bs == b.view_spec(),
            ja == bs.args.map_values(|a: (Seq<char>, ArgPlacement)| arg_json(a)),
            args@.len() == i,
            forall|k: int| 0 <= k < i ==> json_is(#[trigger] args@[k], ja[k]),
        decreases b.args@.len() - i,
    {
        args.push(arg_value(b.args[i]));
        i = i + 1;
    }
    let a = json_member("args", JsonValue::Array(args), Ghost(JsonView::Arr(ja)));
    let m = json_member("method", json_str(method_str(b.method)), Ghost(JsonView::Str(method_name(b.method))));
    let t = json_member("pathTemplate", json_str(b.path_template), Ghost(JsonView::Str(b.path_template@)));
    let r = JsonValue::Object(vec![a, m, t]);
    assert(json_is(r, binding_json(bs)));
    r
}

impl McpTool {
    /// The tool's manifest entry as served to the MCP bridge: its name,
    /// description, input schema and HTTP binding.
    pub fn to_manifest_json(self) -> (r: JsonValue)
        ensures
            json_is(r, tool_manifest(self)),
    {
        let d = json_member("description", json_str(self.description()), Ghost(JsonView::Str(tool_description(self))));
        let h = json_member("httpBinding", binding_value(self.http_binding()), Ghost(binding_json(tool_binding(self))));
        let i = json_member("inputSchema", self.input_schema(), Ghost(tool_schema(self)));
        let n = json_member("name", json_str(self.name()), Ghost(JsonView::Str(tool_name(self))));
        let r = JsonValue::Object(vec![d, h, i, n]);
        assert(json_is(r, tool_manifest(self)));
        r
    }
}

} // verus!
