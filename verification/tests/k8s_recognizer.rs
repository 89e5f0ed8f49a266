use kr0ki_core::json::JsonValue;
use kr0ki_core::k8s_recognizer::{builtin_rules, element_id, pod_spec_path, KubernetesRecognizer, SimpleFieldRule};
use kr0ki_core::ontology::{ElementId, SourceAnchor, UfoRelation};
use kr0ki_core::sysgraph::UfoStereotype;

fn conv(v: &serde_json::Value) -> JsonValue {
    match v {
        serde_json::Value::Null => JsonValue::Null,
        serde_json::Value::Bool(b) => JsonValue::Bool(*b),
        serde_json::Value::Number(n) => JsonValue::Number(n.to_string()),
        serde_json::Value::String(s) => JsonValue::Str(s.clone()),
        serde_json::Value::Array(a) => JsonValue::Array(a.iter().map(conv).collect()),
        serde_json::Value::Object(o) => JsonValue::Object(o.iter().map(|(k, v)| (k.clone(), conv(v))).collect()),
    }
}

fn manifest(text: &str) -> JsonValue {
    conv(&serde_json::from_str::<serde_json::Value>(text).expect("valid JSON"))
}

fn id(s: &str) -> ElementId {
    ElementId::new(s)
}

#[test]
fn storage_class_reference_lifts_to_scoped_by() {
    let pvc = manifest(r#"{
        "apiVersion": "v1", "kind": "PersistentVolumeClaim",
        "metadata": { "name": "data", "namespace": "ns1" },
        "spec": { "storageClassName": "fast", "volumeName": "pv-1" }
    }"#);
    let rec = KubernetesRecognizer::new();
    let edges = rec.recognize(std::slice::from_ref(&pvc));
    let sc = edges
        .iter()
        .find(|e| e.relation == UfoRelation::ScopedBy)
        .expect("scoped_by edge");
    assert_eq!(sc.target, id("k8s:-/StorageClass/fast"));
    let bind = edges
        .iter()
        .find(|e| e.relation == UfoRelation::Binds)
        .expect("binds edge");
    assert_eq!(bind.target, id("k8s:-/PersistentVolume/pv-1"));
}

#[test]
fn owner_reference_lifts_to_has_part_from_owner_to_owned() {
    let rs = manifest(r#"{
        "apiVersion": "apps/v1", "kind": "ReplicaSet",
        "metadata": {
            "name": "web-abc123", "namespace": "ns1",
            "ownerReferences": [{ "kind": "Deployment", "name": "web", "apiVersion": "apps/v1" }]
        }
    }"#);
    let edges = KubernetesRecognizer::new().recognize(std::slice::from_ref(&rs));
    assert_eq!(edges.len(), 1);
    assert_eq!(edges[0].relation, UfoRelation::HasPart);
    assert_eq!(edges[0].source, id("k8s:ns1/Deployment/web"));
    assert_eq!(edges[0].target, id("k8s:ns1/ReplicaSet/web-abc123"));
}

#[test]
fn hpa_scale_target_lifts_to_controls() {
    let hpa = manifest(r#"{
        "apiVersion": "autoscaling/v2", "kind": "HorizontalPodAutoscaler",
        "metadata": { "name": "web-hpa", "namespace": "ns1" },
        "spec": { "scaleTargetRef": { "apiVersion": "apps/v1", "kind": "Deployment", "name": "web" } }
    }"#);
    let edges = KubernetesRecognizer::new().recognize(std::slice::from_ref(&hpa));
    assert_eq!(edges.len(), 1);
    assert_eq!(edges[0].relation, UfoRelation::Controls);
    assert_eq!(edges[0].target, id("k8s:ns1/Deployment/web"));
}

#[test]
fn role_binding_lifts_role_ref_and_subjects_to_authorized_by() {
    let rb = manifest(r#"{
        "apiVersion": "rbac.authorization.k8s.io/v1", "kind": "RoleBinding",
        "metadata": { "name": "rb1", "namespace": "ns1" },
        "roleRef": { "kind": "Role", "name": "viewer", "apiGroup": "rbac.authorization.k8s.io" },
        "subjects": [{ "kind": "ServiceAccount", "name": "sa1" }]
    }"#);
    let edges = KubernetesRecognizer::new().recognize(std::slice::from_ref(&rb));
    assert_eq!(edges.len(), 2);
    assert!(edges.iter().all(|e| e.relation == UfoRelation::AuthorizedBy));
    assert!(edges.iter().any(|e| e.target == id("k8s:ns1/Role/viewer")));
    assert!(edges.iter().any(|e| e.target == id("k8s:ns1/ServiceAccount/sa1")));
}

#[test]
fn pod_service_account_and_volumes_and_env_and_runtime_class_and_node() {
    let pod = manifest(r#"{
        "apiVersion": "v1", "kind": "Pod",
        "metadata": { "name": "web-1", "namespace": "ns1" },
        "spec": {
            "serviceAccountName": "sa1",
            "runtimeClassName": "gvisor",
            "nodeName": "node-7",
            "volumes": [
                { "name": "cfg", "configMap": { "name": "app-cfg" } },
                { "name": "sec", "secret": { "secretName": "app-secret" } }
            ],
            "containers": [{
                "name": "app",
                "envFrom": [{ "configMapRef": { "name": "env-cfg" } }],
                "env": [{ "name": "X", "valueFrom": { "secretKeyRef": { "name": "x-secret" } } }]
            }]
        }
    }"#);
    let edges = KubernetesRecognizer::new().recognize(std::slice::from_ref(&pod));
    let has = |relation: UfoRelation, target: &str| {
        edges
            .iter()
            .any(|e| e.relation == relation && e.target == id(target))
    };
    assert!(has(UfoRelation::Binds, "k8s:ns1/ServiceAccount/sa1"));
    assert!(has(UfoRelation::ScopedBy, "k8s:-/RuntimeClass/gvisor"));
    assert!(has(UfoRelation::HostedBy, "k8s:-/Node/node-7"));
    assert!(has(UfoRelation::Requires, "k8s:ns1/ConfigMap/app-cfg"));
    assert!(has(UfoRelation::Requires, "k8s:ns1/Secret/app-secret"));
    assert!(has(UfoRelation::Requires, "k8s:ns1/ConfigMap/env-cfg"));
    assert!(has(UfoRelation::Requires, "k8s:ns1/Secret/x-secret"));
}

#[test]
fn service_selector_matches_pods_by_label_in_same_namespace() {
    let svc = manifest(r#"{
        "apiVersion": "v1", "kind": "Service",
        "metadata": { "name": "web", "namespace": "ns1" },
        "spec": { "selector": { "app": "web" } }
    }"#);
    let pod_match = manifest(r#"{
        "apiVersion": "v1", "kind": "Pod",
        "metadata": { "name": "web-1", "namespace": "ns1", "labels": { "app": "web", "extra": "x" } }
    }"#);
    let pod_other_ns = manifest(r#"{
        "apiVersion": "v1", "kind": "Pod",
        "metadata": { "name": "web-2", "namespace": "ns2", "labels": { "app": "web" } }
    }"#);
    let pod_no_match = manifest(r#"{
        "apiVersion": "v1", "kind": "Pod",
        "metadata": { "name": "db-1", "namespace": "ns1", "labels": { "app": "db" } }
    }"#);
    let manifests = vec![svc, pod_match, pod_other_ns, pod_no_match];
    let edges = KubernetesRecognizer::new().recognize(&manifests);
    let selects: Vec<_> = edges
        .iter()
        .filter(|e| e.relation == UfoRelation::Selects)
        .collect();
    assert_eq!(selects.len(), 1);
    assert_eq!(selects[0].target, id("k8s:ns1/Pod/web-1"));
}

#[test]
fn crd_extension_point_adds_a_rule_without_touching_builtins() {
    let rec = KubernetesRecognizer::new().with_rule(SimpleFieldRule::new(
        "MyCrd",
        "example.com",
        "spec.clusterRef",
        "Cluster",
        "example.com/v1",
        UfoRelation::ScopedBy,
    ));
    let crd = manifest(r#"{
        "apiVersion": "example.com/v1", "kind": "MyCrd",
        "metadata": { "name": "thing1", "namespace": "ns1" },
        "spec": { "clusterRef": "prod" }
    }"#);
    let edges = rec.recognize(std::slice::from_ref(&crd));
    assert_eq!(edges.len(), 1);
    assert_eq!(edges[0].relation, UfoRelation::ScopedBy);
    assert_eq!(edges[0].target, id("k8s:-/Cluster/prod"));
}

#[test]
fn rule_set_version_changes_when_rules_change_and_is_deterministic() {
    let base = KubernetesRecognizer::new();
    let v1a = base.rule_set_version();
    let v1b = KubernetesRecognizer::new().rule_set_version();
    assert_eq!(v1a, v1b, "same rule set hashes identically every time");
    assert_eq!(v1a.len(), 64);
    assert!(v1a.bytes().all(|c| c.is_ascii_hexdigit()));

    let extended = base.with_rule(SimpleFieldRule::new(
        "MyCrd",
        "example.com",
        "spec.clusterRef",
        "Cluster",
        "example.com/v1",
        UfoRelation::ScopedBy,
    ));
    assert_ne!(
        v1a,
        extended.rule_set_version(),
        "adding a CRD rule must change the version"
    );
}

#[test]
fn manifest_with_no_recognizable_field_yields_no_edges() {
    let cm = manifest(r#"{
        "apiVersion": "v1", "kind": "ConfigMap",
        "metadata": { "name": "plain", "namespace": "ns1" },
        "data": { "k": "v" }
    }"#);
    let edges = KubernetesRecognizer::new().recognize(std::slice::from_ref(&cm));
    assert!(edges.is_empty());
}

fn playbook_demo_manifests() -> Vec<JsonValue> {
    vec![
        manifest(r#"{"apiVersion": "v1", "kind": "ConfigMap",
            "metadata": {"name": "app-config", "namespace": "demo"}, "data": {"LOG_LEVEL": "info"}}"#),
        manifest(r#"{"apiVersion": "apps/v1", "kind": "Deployment",
            "metadata": {"name": "web", "namespace": "demo", "labels": {"app": "web"}},
            "spec": {"replicas": 2, "selector": {"matchLabels": {"app": "web"}},
              "template": {"metadata": {"labels": {"app": "web"}},
                "spec": {"containers": [{"name": "web", "image": "web:latest",
                  "envFrom": [{"configMapRef": {"name": "app-config"}}]}]}}}}"#),
        manifest(r#"{"apiVersion": "v1", "kind": "Service",
            "metadata": {"name": "web", "namespace": "demo"},
            "spec": {"selector": {"app": "web"}, "ports": [{"port": 80}]}}"#),
    ]
}

#[test]
fn recognize_to_sysgraph_has_no_dangling_edges_for_a_self_contained_batch() {
    let manifests = playbook_demo_manifests();
    let graph = KubernetesRecognizer::new().recognize_to_sysgraph(&manifests);
    assert_eq!(graph.nodes.len(), 3);
    assert!(graph.dangling_edges().is_empty());
    assert!(!graph.edges.is_empty());
}

#[test]
fn recognize_to_sysgraph_nodes_are_subkind_of_k8sobject() {
    let manifests = playbook_demo_manifests();
    let graph = KubernetesRecognizer::new().recognize_to_sysgraph(&manifests);
    let deployment = graph
        .node(&id("k8s:demo/Deployment/web"))
        .expect("deployment node");
    assert_eq!(deployment.label.as_deref(), Some("web"));
    assert_eq!(
        deployment.stereotype,
        UfoStereotype::SubKind {
            name: "Deployment".to_string(),
            parent: "K8sObject".to_string(),
        }
    );
}

#[test]
fn recognize_to_sysgraph_reports_a_dangling_edge_for_a_reference_outside_the_batch() {
    let pvc = manifest(r#"{
        "apiVersion": "v1", "kind": "PersistentVolumeClaim",
        "metadata": { "name": "data", "namespace": "ns1" },
        "spec": { "storageClassName": "fast", "volumeName": "pv-1" }
    }"#);
    let graph = KubernetesRecognizer::new().recognize_to_sysgraph(std::slice::from_ref(&pvc));
    assert_eq!(graph.nodes.len(), 1);
    assert_eq!(graph.dangling_edges().len(), 2);
}

#[test]
fn edges_carry_id_and_provenance_of_the_source_manifest() {
    let hpa = manifest(r#"{
        "apiVersion": "autoscaling/v2", "kind": "HorizontalPodAutoscaler",
        "metadata": { "name": "web-hpa", "namespace": "ns1", "uid": "u-1" },
        "spec": { "scaleTargetRef": { "kind": "Deployment", "name": "web" } }
    }"#);
    let edges = KubernetesRecognizer::new().recognize(std::slice::from_ref(&hpa));
    assert_eq!(edges[0].id, "k8s:ns1/HorizontalPodAutoscaler/web-hpa~controls~k8s:ns1/Deployment/web");
    assert_eq!(
        edges[0].provenance,
        vec![SourceAnchor::K8sObject {
            api_version: "autoscaling/v2".into(),
            kind: "HorizontalPodAutoscaler".into(),
            namespace: Some("ns1".into()),
            name: "web-hpa".into(),
            uid: Some("u-1".into()),
        }]
    );
}

#[test]
fn builtin_rules_and_pod_spec_paths() {
    assert_eq!(builtin_rules().len(), 8);
    assert_eq!(pod_spec_path("CronJob", &"batch".chars().collect::<Vec<_>>()), Some("spec.jobTemplate.spec.template.spec"));
    assert_eq!(pod_spec_path("Deployment", &"apps".chars().collect::<Vec<_>>()), Some("spec.template.spec"));
    assert_eq!(pod_spec_path("Deployment", &[]), None);
    assert_eq!(element_id("Node", None, "n1"), id("k8s:-/Node/n1"));
    let v = KubernetesRecognizer::default();
    assert_ne!(v.rule_set_version(), KubernetesRecognizer::new().rule_set_version());
    let more = KubernetesRecognizer::new().with_rules(vec![SimpleFieldRule::new("A", "", "spec.x", "B", "v1", UfoRelation::Binds)]);
    assert_ne!(more.rule_set_version(), KubernetesRecognizer::new().rule_set_version());
}
