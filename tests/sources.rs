use kubesess::paths::{current_session, session_cache, session_paths, source_paths};
use kubesess::text::{contains_str, dedup_strings, join_strings, replace_chars, split_on_char, starts_with_str};

fn strings(v: &[&str]) -> Vec<String> {
    v.iter().map(|s| s.to_string()).collect()
}

#[test]
fn source_paths_drop_empty_cache_and_repeats() {
    let r = source_paths(
        "/a:/b::/home/u/.kube/kubesess/cache/x_default:/a",
        strings(&["/home/u/.kube/config", "/b", "/home/u/.kube/extra"]),
    );
    assert_eq!(r, strings(&["/a", "/b", "/home/u/.kube/config", "/home/u/.kube/extra"]));
}

#[test]
fn source_paths_of_empty_search() {
    assert_eq!(source_paths("", vec![]), Vec::<String>::new());
    assert_eq!(source_paths("", strings(&["/d"])), strings(&["/d"]));
}

#[test]
fn session_cache_collects_cache_entries() {
    assert_eq!(session_cache("/a:/h/.kube/kubesess/cache/a_default:/b"), "/h/.kube/kubesess/cache/a_default");
    assert_eq!(session_cache("/a:/b"), "");
    assert_eq!(
        session_cache("/x/kubesess/cache/1:/x/kubesess/cache/2"),
        "/x/kubesess/cache/1:/x/kubesess/cache/2"
    );
}

#[test]
fn current_session_prefers_cache() {
    assert_eq!(current_session("/c/kubesess/cache/a_ns", &strings(&["/a", "/b"])), "/c/kubesess/cache/a_ns");
    assert_eq!(current_session("", &strings(&["/a", "/b"])), "/a");
    assert_eq!(current_session("", &Vec::new()), "");
}

#[test]
fn session_paths_put_current_first() {
    assert_eq!(session_paths(Some("/cache/x"), strings(&["/a", "/b", "/a"])), strings(&["/cache/x", "/a", "/b"]));
    assert_eq!(session_paths(Some(""), strings(&["/a", "", "/b"])), strings(&["/a", "/b"]));
    assert_eq!(session_paths(None, strings(&["/a", "/b"])), strings(&["/a", "/b"]));
    assert_eq!(session_paths(Some("/a"), strings(&["/a", "/b"])), strings(&["/a", "/b"]));
    assert_eq!(session_paths(Some("/c1:/c2"), strings(&["/we:ird"])), strings(&["/c1", "/c2", "/we:ird"]));
}

#[test]
fn split_keeps_empty_pieces() {
    assert_eq!(split_on_char("a::b:", ':'), strings(&["a", "", "b", ""]));
    assert_eq!(split_on_char("", ':'), strings(&[""]));
}

#[test]
fn text_helpers() {
    assert!(contains_str("/h/.kube/kubesess/cache/x", "/kubesess/cache"));
    assert!(!contains_str("/h/.kube/config", "/kubesess/cache"));
    assert!(contains_str("abc", ""));
    assert!(starts_with_str("prod-east", "prod"));
    assert!(!starts_with_str("pr", "prod"));
    assert_eq!(replace_chars("a:b:c", ':', '_'), "a_b_c");
    assert_eq!(join_strings(&strings(&["x", "y", "z"]), ":"), "x:y:z");
    assert_eq!(join_strings(&Vec::new(), ":"), "");
    assert_eq!(dedup_strings(strings(&["q", "r", "q", "s", "r"])), strings(&["q", "r", "s"]));
}
