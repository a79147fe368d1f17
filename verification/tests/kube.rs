use k3dev::cluster::kube_ops::{
    after_patch, apply_yaml, cleanup_kubeconfig_entries, deployment_ready, get_version,
    keep_polling, list_all_pods, list_ingresses, list_ingressroutes, list_nodes, list_pods,
    read_head, resource_name, rollout_complete, route_of, target_of, AccessNames, ApplyNext,
    DocumentHead, RawContainer, RawNode, RawPod, RawPodFull, RawRule, Rollout,
};

fn strings(v: &[&str]) -> Vec<String> {
    v.iter().map(|s| s.to_string()).collect()
}

fn some(s: &str) -> Option<String> {
    Some(s.to_string())
}

fn pairs(v: &[(&str, &str)]) -> Vec<(String, String)> {
    v.iter().map(|(a, b)| (a.to_string(), b.to_string())).collect()
}

#[test]
fn rollouts_complete() {
    assert!(keep_polling(29, 30));
    assert!(!keep_polling(30, 30));
    assert!(deployment_ready(Some(1)));
    assert!(!deployment_ready(None));
    let r = |d, n| Rollout { desired: d, ready: n, updated: n, available: n };
    assert!(rollout_complete(&r(None, Some(1))));
    assert!(!rollout_complete(&r(Some(2), Some(1))));
    assert!(!rollout_complete(&r(None, None)));
}

#[test]
fn nodes_are_described() {
    let v = list_nodes(&vec![RawNode {
        name: some("n1"),
        conditions: pairs(&[("DiskPressure", "False"), ("Ready", "True")]),
        addresses: pairs(&[("Hostname", "h"), ("InternalIP", "10.0.0.1")]),
        labels: strings(&["x", "node-role.kubernetes.io/master", "node-role.kubernetes.io/control-plane"]),
        kubelet_version: some("v1.33"),
    }]);
    assert_eq!(v[0].status, "Ready");
    assert_eq!(v[0].roles, "master,control-plane");
    assert_eq!(
        v[0].to_wide_string(),
        format!("{:<20} {:<10} {:<15} {:<15} {}", "n1", "Ready", "master,control-plane", "10.0.0.1", "v1.33")
    );
    let bare = list_nodes(&vec![RawNode {
        name: None,
        conditions: vec![],
        addresses: vec![],
        labels: vec![],
        kubelet_version: None,
    }]);
    assert_eq!(bare[0].status, "Unknown");
    assert!(bare[0].to_wide_string().contains("<none>"));
}

#[test]
fn pods_are_described() {
    let v = list_pods(&vec![RawPod {
        name: some("p"),
        phase: some("Running"),
        ready: vec![true, false],
        containers: 2,
    }]);
    assert_eq!(v[0].ready, "1/2");
    assert_eq!(v[0].to_string_line(), format!("{:<50} {:<10} {}", "p", "1/2", "Running"));
    let full = list_all_pods(&vec![RawPodFull {
        name: some("p"),
        namespace: some("n"),
        containers: vec![RawContainer { image: some("i"), ports: vec![80] }],
    }]);
    assert_eq!(full[0].containers[0].ports, vec![80]);
}

#[test]
fn routes_are_read_from_rules() {
    let v = list_ingressroutes(&strings(&[
        "Host(`a.local`) && PathPrefix(`/api`)",
        "Host(`b.local`)",
        "PathPrefix(`/only`)",
    ]));
    assert_eq!(v.len(), 2);
    assert_eq!((v[0].host.as_str(), v[0].path.as_str()), ("a.local", "/api"));
    assert_eq!((v[1].host.as_str(), v[1].path.as_str()), ("b.local", "/"));
    assert!(route_of(None, some("/x")).is_none());
    // The first complete quotation counts.
    let v = list_ingressroutes(&strings(&[
        "Host(``) || Host(`b`)",
        "Host(`a` ) || Host(`c`)",
        "Host(`d\ne`)",
        "Host(`f",
        "HostRegexp(`g`)",
    ]));
    let found: Vec<&str> = v.iter().map(|r| r.host.as_str()).collect();
    assert_eq!(found, vec!["b", "c", "d\ne"]);
    let i = list_ingresses(&vec![
        RawRule { host: some("a"), paths: Some(vec![some("/x"), None]) },
        RawRule { host: None, paths: None },
        RawRule { host: some("b"), paths: None },
    ]);
    assert_eq!(i.len(), 2);
    assert_eq!(i[0].paths, strings(&["/x", "/"]));
    assert_eq!(i[1].paths, strings(&["/"]));
}

#[test]
fn resources_are_named() {
    let r = resource_name("traefik.io/v1alpha1", "IngressRoute");
    assert_eq!(
        (r.group.as_str(), r.version.as_str(), r.plural.as_str()),
        ("traefik.io", "v1alpha1", "ingressroutes")
    );
    let r = resource_name("v1", "Service");
    assert_eq!((r.group.as_str(), r.version.as_str(), r.plural.as_str()), ("", "v1", "services"));
}

#[test]
fn documents_name_their_targets() {
    let t = apply_yaml(
        "apiVersion: apps/v1\nkind: Deployment\nmetadata:\n  name: web\n  namespace: prod\n",
    )
    .unwrap();
    assert_eq!((t.name.as_str(), t.namespace.as_str()), ("web", "prod"));
    assert_eq!(t.resource.plural, "deployments");
    assert!(t.namespaced);
    let t = apply_yaml("apiVersion: v1\nkind: Service\nmetadata:\n  name: web\n").unwrap();
    assert_eq!(t.namespace, "default");
    assert_eq!(apply_yaml("kind: X\n").unwrap_err(), "Missing apiVersion");
    assert_eq!(apply_yaml("apiVersion: v1\n").unwrap_err(), "Missing kind");
    assert_eq!(apply_yaml("apiVersion: v1\nkind: X\n").unwrap_err(), "Missing metadata");
    assert_eq!(
        apply_yaml("apiVersion: v1\nkind: X\nmetadata:\n  a: b\n").unwrap_err(),
        "Missing metadata.name"
    );
    assert!(apply_yaml("a: [\n").is_err());
    assert_eq!(read_head("kind: X\n").unwrap().kind, some("X"));
    let head = DocumentHead {
        api_version: some("v1"),
        kind: some("Pod"),
        metadata: Some((some("p"), None)),
    };
    assert_eq!(target_of(&head, "pod").unwrap().resource.plural, "pods");
}

#[test]
fn patches_lead_to_creation_or_not() {
    assert!(matches!(after_patch(true, None), ApplyNext::Applied));
    assert!(matches!(after_patch(false, Some(404)), ApplyNext::Create));
    assert!(matches!(after_patch(false, Some(500)), ApplyNext::Failed));
    assert_eq!(get_version("1", "33"), "Server Version: v1.33");
}

#[test]
fn a_cleanup_removes_only_its_entries() {
    let a = AccessNames {
        clusters: strings(&["k3d", "other"]),
        contexts: strings(&["other", "k3d"]),
        users: strings(&["k3d"]),
        current_context: some("k3d"),
    };
    let b = cleanup_kubeconfig_entries(&a, "k3d", "k3d", "k3d");
    assert_eq!(b.clusters, strings(&["other"]));
    assert_eq!(b.contexts, strings(&["other"]));
    assert!(b.users.is_empty());
    assert_ne!(b.current_context, some("k3d"));
}
