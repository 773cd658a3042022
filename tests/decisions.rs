use kubesess::config::{aggregate, KubeConfigs};
use kubesess::error::{Error, SetContextError};
use kubesess::model::{Clusters, Context, Contexts, KubeConfig, Users};
use kubesess::modes::{completions, current_namespace, namespaces_from_listing, Action, Cli, Mode, Session};
use std::collections::HashMap;

fn ctx(name: &str, cluster: &str, user: &str, ns: &str) -> Contexts {
    Contexts {
        context: Context { namespace: ns.to_string(), cluster: cluster.to_string(), user: user.to_string() },
        name: name.to_string(),
    }
}

fn source(current: &str, name: &str, ns: &str) -> KubeConfig {
    let cl = format!("c-{}", name);
    let us = format!("u-{}", name);
    KubeConfig {
        kind: String::new(),
        api_version: String::new(),
        current_context: current.to_string(),
        contexts: vec![ctx(name, &cl, &us, ns)],
        users: vec![Users { user: HashMap::new(), name: us.clone() }],
        clusters: vec![Clusters {
            cluster: HashMap::from([(
                "server".to_string(),
                serde_yaml::Value::String(format!("https://{}", name)),
            )]),
            name: cl.clone(),
        }],
        extra: HashMap::new(),
    }
}

fn all() -> KubeConfigs {
    aggregate(vec![
        (source("", "dev", ""), "/home/u/.kube/dev".to_string()),
        (source("prod", "prod", "web", ), "/home/u/.kube/config".to_string()),
    ])
}

fn session() -> Session {
    let cache = source("dev", "dev", "team");
    let current = aggregate(vec![
        (cache, "/home/u/.kube/kubesess/cache/dev_team".to_string()),
        (source("", "dev", ""), "/home/u/.kube/dev".to_string()),
        (source("prod", "prod", "web"), "/home/u/.kube/config".to_string()),
    ]);
    Session {
        sources: "/home/u/.kube/dev:/home/u/.kube/config".to_string(),
        dest: "/home/u/.kube/kubesess/cache".to_string(),
        all: all(),
        current,
        namespaces: vec!["default".to_string(), "kube-system".to_string(), "team".to_string()],
    }
}

fn cli(mode: Mode, value: Option<&str>, current: bool) -> Cli {
    Cli { mode, value: value.map(|v| v.to_string()), current }
}

fn print_of(r: Result<Action, Error>) -> String {
    match r {
        Ok(Action::Print(s)) => s,
        _ => panic!("expected a line to print"),
    }
}

#[test]
fn context_current_prints_session_context() {
    let s = session();
    let args = cli(Mode::Context, None, true);
    assert_eq!(print_of(args.mode.invoke(&args, &s)), "dev");
}

#[test]
fn default_context_current_prints_first_declared() {
    let s = session();
    let args = cli(Mode::DefaultContext, None, true);
    assert_eq!(print_of(args.mode.invoke(&args, &s)), "prod");
}

#[test]
fn current_without_active_context() {
    let mut s = session();
    s.all = aggregate(vec![(source("", "dev", ""), "/d".to_string())]);
    let args = cli(Mode::DefaultContext, None, true);
    assert_eq!(print_of(args.mode.invoke(&args, &s)), "No current context set");
}

#[test]
fn namespace_current_prints_cached_namespace() {
    let s = session();
    let args = cli(Mode::Namespace, None, true);
    assert_eq!(print_of(args.mode.invoke(&args, &s)), "team");
    assert_eq!(current_namespace(&source("prod", "prod", "")), "default");
    assert_eq!(current_namespace(&source("other", "prod", "web")), "default");
}

#[test]
fn context_without_value_asks_to_pick() {
    let s = session();
    let args = cli(Mode::Context, None, false);
    match args.mode.invoke(&args, &s) {
        Ok(Action::Pick { prompt, options }) => {
            assert_eq!(prompt, "context");
            assert_eq!(options, vec!["dev", "dev", "prod"]);
        }
        _ => panic!("expected a pick"),
    }
    let args = cli(Mode::Namespace, None, false);
    match args.mode.invoke(&args, &s) {
        Ok(Action::Pick { prompt, options }) => {
            assert_eq!(prompt, "namespace");
            assert_eq!(options, s.namespaces);
        }
        _ => panic!("expected a pick"),
    }
}

#[test]
fn context_switch_writes_cache_entry() {
    let s = session();
    let args = cli(Mode::Context, Some("prod"), false);
    match args.mode.invoke(&args, &s) {
        Ok(Action::Switch { entry, line }) => {
            assert_eq!(entry.path, "/home/u/.kube/kubesess/cache/prod_web");
            assert_eq!(entry.config.current_context, "prod");
            assert_eq!(line, "/home/u/.kube/kubesess/cache/prod_web:/home/u/.kube/dev:/home/u/.kube/config");
        }
        _ => panic!("expected a switch"),
    }
}

#[test]
fn context_switch_keeps_cached_namespace() {
    let s = session();
    let args = cli(Mode::Context, Some("dev"), false);
    match args.mode.invoke(&args, &s) {
        Ok(Action::Switch { entry, .. }) => {
            assert_eq!(entry.config.contexts[0].context.namespace, "team");
            assert_eq!(entry.path, "/home/u/.kube/kubesess/cache/dev_team");
        }
        _ => panic!("expected a switch"),
    }
}

#[test]
fn context_switch_to_unknown_fails() {
    let s = session();
    let args = cli(Mode::Context, Some("nope"), false);
    assert!(matches!(
        args.mode.invoke(&args, &s),
        Err(Error::SetContext(SetContextError::KubeContextNotFound { ref ctx })) if ctx == "nope"
    ));
}

#[test]
fn namespace_switch_uses_session_context() {
    let s = session();
    let args = cli(Mode::Namespace, Some("kube-system"), false);
    match args.mode.invoke(&args, &s) {
        Ok(Action::Switch { entry, .. }) => {
            assert_eq!(entry.path, "/home/u/.kube/kubesess/cache/dev_kube-system");
            assert_eq!(entry.config.contexts[0].context.namespace, "kube-system");
        }
        _ => panic!("expected a switch"),
    }
}

#[test]
fn default_context_targets_owning_file() {
    let s = session();
    let args = cli(Mode::DefaultContext, Some("prod"), false);
    match args.mode.invoke(&args, &s) {
        Ok(Action::SetDefaultContext { context, target, line }) => {
            assert_eq!(context, "prod");
            assert_eq!(target, "/home/u/.kube/config");
            assert_eq!(line, "/home/u/.kube/config:/home/u/.kube/dev:/home/u/.kube/config");
        }
        _ => panic!("expected a default switch"),
    }
    let args = cli(Mode::DefaultContext, Some("nope"), false);
    assert!(matches!(args.mode.invoke(&args, &s), Err(Error::SetContext(_))));
}

#[test]
fn default_namespace_targets_owning_file() {
    let s = session();
    let args = cli(Mode::DefaultNamespace, Some("ops"), false);
    match args.mode.invoke(&args, &s) {
        Ok(Action::SetDefaultNamespace { context, namespace, target, entry, .. }) => {
            assert_eq!(context, "dev");
            assert_eq!(namespace, "ops");
            assert_eq!(target, "/home/u/.kube/dev");
            assert_eq!(entry.path, "/home/u/.kube/kubesess/cache/dev_ops");
        }
        _ => panic!("expected a default namespace switch"),
    }
}

#[test]
fn completion_of_contexts_and_namespaces() {
    let s = session();
    let args = cli(Mode::CompletionContext, Some("pr"), false);
    assert_eq!(print_of(args.mode.invoke(&args, &s)), "prod");
    let args = cli(Mode::CompletionContext, None, false);
    assert_eq!(print_of(args.mode.invoke(&args, &s)), "dev prod");
    let args = cli(Mode::CompletionNamespace, Some("k"), false);
    assert_eq!(print_of(args.mode.invoke(&args, &s)), "kube-system");
    assert_eq!(completions(&vec!["ab".to_string(), "b".to_string(), "abc".to_string()], "ab"), "ab abc");
    assert_eq!(completions(&vec!["x".to_string()], "y"), "");
}

#[test]
fn namespace_listing_skips_header() {
    assert_eq!(
        namespaces_from_listing("NAME\ndefault\nkube-system\n"),
        vec!["default".to_string(), "kube-system".to_string()]
    );
    assert_eq!(namespaces_from_listing("NAME\r\nns1\r\nns2"), vec!["ns1".to_string(), "ns2".to_string()]);
    assert_eq!(namespaces_from_listing(""), Vec::<String>::new());
    assert_eq!(namespaces_from_listing("NAME\n"), Vec::<String>::new());
    assert_eq!(namespaces_from_listing("NAME\n\nx\n"), vec!["".to_string(), "x".to_string()]);
}

#[test]
fn namespace_listing_keeps_unterminated_carriage_return() {
    assert_eq!(namespaces_from_listing("h\nfoo\r"), vec!["foo\r".to_string()]);
    assert_eq!(namespaces_from_listing("h\nfoo\r\n"), vec!["foo".to_string()]);
    assert_eq!(namespaces_from_listing("h\r"), Vec::<String>::new());
}
