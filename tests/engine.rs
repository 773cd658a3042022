use kubesess::config::{
    aggregate, build, get, get_path, locate_owner, merge, resolve, set_context, set_namespace,
    KubeConfigs,
};
use kubesess::error::{Error, SetContextError};
use kubesess::model::{Clusters, Context, Contexts, KubeConfig, Users};
use std::collections::HashMap;

fn ctx(name: &str, cluster: &str, user: &str, ns: &str) -> Contexts {
    Contexts {
        context: Context {
            namespace: ns.to_string(),
            cluster: cluster.to_string(),
            user: user.to_string(),
        },
        name: name.to_string(),
    }
}

fn cluster(name: &str, server: &str) -> Clusters {
    let mut attrs = HashMap::new();
    attrs.insert("server".to_string(), serde_yaml::Value::String(server.to_string()));
    attrs.insert("insecure-skip-tls-verify".to_string(), serde_yaml::Value::Bool(true));
    Clusters { cluster: attrs, name: name.to_string() }
}

fn server_of(c: &Clusters) -> String {
    match c.cluster.get("server") {
        Some(serde_yaml::Value::String(s)) => s.clone(),
        _ => String::new(),
    }
}

fn user(name: &str, token: &str) -> Users {
    let mut attrs = HashMap::new();
    attrs.insert(
        "token".to_string(),
        serde_yaml::Value::String(token.to_string()),
    );
    Users { user: attrs, name: name.to_string() }
}

fn config(current: &str, contexts: Vec<Contexts>, clusters: Vec<Clusters>, users: Vec<Users>) -> KubeConfig {
    KubeConfig {
        kind: "Config".to_string(),
        api_version: "v1".to_string(),
        current_context: current.to_string(),
        contexts,
        users,
        clusters,
        extra: HashMap::new(),
    }
}

fn file_a() -> KubeConfig {
    config("", vec![ctx("a", "cA", "uA", "")], vec![cluster("cA", "https://a")], vec![user("uA", "ta")])
}

fn file_b() -> KubeConfig {
    config("b", vec![ctx("b", "cB", "uB", "nsb")], vec![cluster("cB", "https://b")], vec![user("uB", "tb")])
}

fn two_files() -> KubeConfigs {
    aggregate(vec![(file_a(), "fileA".to_string()), (file_b(), "fileB".to_string())])
}

#[test]
fn aggregate_takes_first_declared_active_context() {
    let c = aggregate(vec![
        (config("", vec![], vec![], vec![]), "one".to_string()),
        (config("second", vec![], vec![], vec![]), "two".to_string()),
        (config("third", vec![], vec![], vec![]), "three".to_string()),
    ]);
    assert_eq!(c.config.current_context, "second");
}

#[test]
fn aggregate_without_active_context_is_empty() {
    let c = aggregate(vec![
        (config("", vec![], vec![], vec![]), "one".to_string()),
        (config("", vec![], vec![], vec![]), "two".to_string()),
    ]);
    assert_eq!(c.config.current_context, "");
    let none = aggregate(vec![]);
    assert_eq!(none.config.current_context, "");
    assert!(none.config.contexts.is_empty());
}

#[test]
fn aggregate_keeps_every_entry_in_order() {
    let c = aggregate(vec![
        (file_a(), "fileA".to_string()),
        (file_b(), "fileB".to_string()),
        (file_a(), "fileC".to_string()),
    ]);
    let names: Vec<&str> = c.config.contexts.iter().map(|x| x.name.as_str()).collect();
    assert_eq!(names, vec!["a", "b", "a"]);
    let clusters: Vec<&str> = c.config.clusters.iter().map(|x| x.name.as_str()).collect();
    assert_eq!(clusters, vec!["cA", "cB", "cA"]);
    assert_eq!(c.config.users.len(), 3);
    assert_eq!(c.configs.len(), 3);
    assert_eq!(c.configs[2].1, "fileC");
    assert_eq!(c.config.kind, "");
}

#[test]
fn scenario_two_files_resolves_a() {
    let c = two_files();
    assert_eq!(c.config.current_context, "b");
    let m = resolve(&c, "a", None, None).unwrap();
    assert_eq!(m.current_context, "a");
    assert_eq!(m.contexts.len(), 1);
    assert_eq!(m.contexts[0].name, "a");
    assert_eq!(m.contexts[0].context.cluster, "cA");
    assert_eq!(m.contexts[0].context.namespace, "default");
    assert_eq!(m.clusters, vec![cluster("cA", "https://a")]);
    assert_eq!(m.users, vec![user("uA", "ta")]);
}

#[test]
fn resolution_uses_the_owning_source_only() {
    let first = config("", vec![ctx("x", "shared", "shared-user", "")], vec![cluster("shared", "https://first")], vec![user("shared-user", "t1")]);
    let second = config("", vec![ctx("y", "shared", "shared-user", "")], vec![cluster("shared", "https://second")], vec![user("shared-user", "t2")]);
    let c = aggregate(vec![(first, "f1".to_string()), (second, "f2".to_string())]);
    let m = resolve(&c, "y", None, None).unwrap();
    assert_eq!(server_of(&m.clusters[0]), "https://second");
    assert_eq!(m.users[0], user("shared-user", "t2"));
}

#[test]
fn duplicate_context_names_resolve_to_the_first() {
    let first = config("", vec![ctx("d", "c1", "u1", "one")], vec![cluster("c1", "https://1")], vec![user("u1", "t1")]);
    let second = config("", vec![ctx("d", "c2", "u2", "two")], vec![cluster("c2", "https://2")], vec![user("u2", "t2")]);
    let c = aggregate(vec![(first, "f1".to_string()), (second, "f2".to_string())]);
    let m = resolve(&c, "d", None, None).unwrap();
    assert_eq!(m.contexts[0].context.namespace, "one");
    assert_eq!(m.clusters[0].name, "c1");
    assert_eq!(locate_owner(&c, "d").unwrap(), "f1");
}

#[test]
fn owner_is_the_third_source() {
    let third = config("", vec![ctx("only3", "c3", "u3", "")], vec![cluster("c3", "https://3")], vec![user("u3", "t3")]);
    let c = aggregate(vec![
        (file_a(), "first".to_string()),
        (file_b(), "second".to_string()),
        (third, "third".to_string()),
    ]);
    assert_eq!(locate_owner(&c, "only3").unwrap(), "third");
    assert_eq!(locate_owner(&c, "b").unwrap(), "second");
}

#[test]
fn owner_of_unknown_context_is_not_found() {
    let c = two_files();
    assert_eq!(
        locate_owner(&c, "zzz"),
        Err(SetContextError::KubeContextNotFound { ctx: "zzz".to_string() })
    );
}

#[test]
fn unknown_context_is_not_found() {
    let c = two_files();
    assert_eq!(
        resolve(&c, "missing", None, None),
        Err(SetContextError::KubeContextNotFound { ctx: "missing".to_string() })
    );
    assert!(matches!(
        set_context("missing", "/cache", &c, None),
        Err(SetContextError::KubeContextNotFound { .. })
    ));
}

#[test]
fn missing_cluster_is_reported() {
    let broken = config("", vec![ctx("k", "nocluster", "uA", "")], vec![], vec![user("uA", "ta")]);
    let c = aggregate(vec![(broken.clone(), "f".to_string())]);
    assert_eq!(
        build(&broken.contexts[0], None, &c),
        Err(SetContextError::ClusterNotFound { ctx: "k".to_string(), cluster: "nocluster".to_string() })
    );
}

#[test]
fn missing_credential_is_reported() {
    let broken = config("", vec![ctx("k", "cA", "nouser", "")], vec![cluster("cA", "https://a")], vec![]);
    let c = aggregate(vec![(broken, "f".to_string())]);
    assert_eq!(
        resolve(&c, "k", None, None),
        Err(SetContextError::CredentialNotFound { ctx: "k".to_string(), user: "nouser".to_string() })
    );
}

#[test]
fn namespace_precedence() {
    let c = two_files();
    let m = resolve(&c, "b", Some("given"), Some("cached")).unwrap();
    assert_eq!(m.contexts[0].context.namespace, "given");
    let m = resolve(&c, "b", None, Some("cached")).unwrap();
    assert_eq!(m.contexts[0].context.namespace, "cached");
    let m = resolve(&c, "b", None, None).unwrap();
    assert_eq!(m.contexts[0].context.namespace, "nsb");
    let m = resolve(&c, "a", None, None).unwrap();
    assert_eq!(m.contexts[0].context.namespace, "default");
}

#[test]
fn override_namespace_is_not_carried_over() {
    let c = two_files();
    let first = set_namespace("b", "ns1", "/cache", &c).unwrap();
    assert_eq!(first.config.contexts[0].context.namespace, "ns1");
    assert_eq!(first.path, "/cache/b_ns1");
    let later = set_context("b", "/cache", &c, None).unwrap();
    assert_eq!(later.config.contexts[0].context.namespace, "nsb");
    let later_a = set_context("a", "/cache", &c, None).unwrap();
    assert_eq!(later_a.config.contexts[0].context.namespace, "default");
}

#[test]
fn cache_path_sanitizes_colons() {
    assert_eq!(get_path("cluster:admin_default", "/home/u/.kube/kubesess/cache"), "/home/u/.kube/kubesess/cache/cluster_admin_default");
    assert_eq!(
        get_path("arn:aws:eks:eu:1:cluster/prod_default", "/c"),
        "/c/arn_aws_eks_eu_1_cluster/prod_default"
    );
    assert_eq!(get_path("plain_ns", "/c"), "/c/plain_ns");
}

#[test]
fn cache_entry_for_colon_context() {
    let cfg = config("", vec![ctx("cluster:admin", "cA", "uA", "")], vec![cluster("cA", "https://a")], vec![user("uA", "ta")]);
    let c = aggregate(vec![(cfg, "f".to_string())]);
    let e = set_context("cluster:admin", "/root/.kube/kubesess/cache", &c, None).unwrap();
    assert_eq!(e.path, "/root/.kube/kubesess/cache/cluster_admin_default");
    assert!(e.path.starts_with("/root/.kube/kubesess/cache/"));
    assert_eq!(e.config.current_context, "cluster:admin");
}

#[test]
fn write_gives_entry_and_path() {
    let a = file_a();
    let c = aggregate(vec![(file_a(), "fileA".to_string())]);
    let e = kubesess::config::write(&a.contexts[0], Some("dev"), "/c", &c).unwrap();
    assert_eq!(e.path, "/c/a_dev");
    assert_eq!(e.config.contexts[0].context.namespace, "dev");
    assert_eq!(e.config.kind, "");
}

#[test]
fn writing_twice_gives_the_same_content() {
    let c = two_files();
    let first = set_context("a", "/c", &c, None).unwrap();
    let second = set_context("a", "/c", &c, None).unwrap();
    assert_eq!(first.path, second.path);
    let prior = config("old", vec![], vec![], vec![]);
    let once = merge(Some(prior), first.config);
    let twice = merge(Some(once.clone()), second.config);
    assert_eq!(once, twice);
    assert_eq!(once.kind, "Config");
    assert_eq!(once.api_version, "v1");
    assert_eq!(once.current_context, "a");
}

#[test]
fn merge_without_prior_is_the_fresh_config() {
    let fresh = file_b();
    assert_eq!(merge(None, fresh.clone()), fresh);
    let blank_prior = KubeConfig::default();
    let mut fresh2 = file_b();
    fresh2.kind = String::new();
    let merged = merge(Some(blank_prior), fresh2.clone());
    assert_eq!(merged, fresh2);
}

#[test]
fn only_failing_source_is_an_error() {
    let r = get(vec![(Err("bad yaml".to_string()), "/x".to_string())]);
    assert!(matches!(
        r,
        Err(Error::SourceRead { ref path, ref reason }) if path == "/x" && reason == "bad yaml"
    ));
}

#[test]
fn failing_source_among_others_is_skipped() {
    let r = get(vec![
        (Err("bad".to_string()), "/x".to_string()),
        (Ok(file_b()), "/b".to_string()),
    ])
    .ok()
    .unwrap();
    assert_eq!(r.configs.len(), 1);
    assert_eq!(r.configs[0].1, "/b");
    assert_eq!(r.config.current_context, "b");
    let empty = get(vec![]).ok().unwrap();
    assert!(empty.configs.is_empty());
}

#[test]
fn build_looks_up_in_the_owning_source() {
    let first = config("", vec![ctx("other", "shared", "shared-user", "")], vec![cluster("shared", "https://first")], vec![user("shared-user", "t1")]);
    let second = config("", vec![ctx("mine", "shared", "shared-user", "")], vec![cluster("shared", "https://second")], vec![user("shared-user", "t2")]);
    let c = aggregate(vec![(first, "f1".to_string()), (second.clone(), "f2".to_string())]);
    let m = build(&second.contexts[0], None, &c).unwrap();
    assert_eq!(server_of(&m.clusters[0]), "https://second");
    assert_eq!(m.users[0], user("shared-user", "t2"));
    let e = kubesess::config::write(&second.contexts[0], None, "/c", &c).unwrap();
    assert_eq!(server_of(&e.config.clusters[0]), "https://second");
    assert_eq!(e.path, "/c/mine_default");
}

#[test]
fn build_of_unowned_context_is_not_found() {
    let c = two_files();
    assert_eq!(
        build(&ctx("ghost", "cA", "uA", ""), None, &c),
        Err(SetContextError::KubeContextNotFound { ctx: "ghost".to_string() })
    );
}

#[test]
fn cluster_attributes_are_carried_whole() {
    let c = two_files();
    let m = resolve(&c, "a", None, None).unwrap();
    assert_eq!(
        m.clusters[0].cluster.get("insecure-skip-tls-verify"),
        Some(&serde_yaml::Value::Bool(true))
    );
}

#[test]
fn cache_path_never_leaves_the_root() {
    assert_eq!(get_path("../../etc/x_default", "/c"), "/c/__/__/etc/x_default");
    assert_eq!(get_path("./a/./b_ns", "/c"), "/c/_/a/_/b_ns");
    assert_eq!(get_path("/tmp/x_default", "/c"), "/c//tmp/x_default");
    assert_eq!(get_path("a/.._ns", "/c"), "/c/a/.._ns");
    let cfg = config("", vec![ctx("../up", "cA", "uA", "")], vec![cluster("cA", "https://a")], vec![user("uA", "ta")]);
    let c = aggregate(vec![(cfg, "f".to_string())]);
    let e = set_context("../up", "/c", &c, None).unwrap();
    assert_eq!(e.path, "/c/__/up_default");
}

#[test]
fn merge_keeps_prior_top_level_fields() {
    let mut prior = config("old", vec![ctx("old", "cA", "uA", "")], vec![], vec![]);
    prior.extra.insert("preferences".to_string(), serde_yaml::Value::String("colors".to_string()));
    let fresh = resolve(&two_files(), "b", None, None).unwrap();
    let merged = merge(Some(prior), fresh.clone());
    assert_eq!(merged.extra.get("preferences"), Some(&serde_yaml::Value::String("colors".to_string())));
    assert_eq!(merged.current_context, "b");
    assert_eq!(merged.contexts, fresh.contexts);
    let again = merge(Some(merged.clone()), fresh);
    assert_eq!(again, merged);
}
