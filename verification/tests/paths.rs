use kazi::paths::{last_component_of, push_path};
use std::path::{Path, PathBuf};

fn std_push(base: &str, name: &str) -> String {
    let mut p = PathBuf::from(base);
    p.push(name);
    p.to_str().unwrap().to_string()
}

fn std_last(path: &str) -> Option<String> {
    Path::new(path).iter().last().map(|c| c.to_str().unwrap().to_string())
}

#[test]
fn pushing_components() {
    assert_eq!(push_path("/home/me", ".tasks"), "/home/me/.tasks");
    assert_eq!(push_path("/home/me/", ".tasks"), "/home/me/.tasks");
    assert_eq!(push_path("", ".tasks"), ".tasks");
    assert_eq!(push_path("/", "a"), "/a");
    assert_eq!(push_path("/home", "/etc"), "/etc");
    assert_eq!(push_path("/home", ""), "/home/");
}

#[test]
fn pushing_agrees_with_path_buf() {
    for base in ["", "/", "a", "a/", "/x/y", "x//"] {
        for name in ["", "b", "b/c", "/abs", ".md"] {
            assert_eq!(push_path(base, name), std_push(base, name), "{:?} {:?}", base, name);
        }
    }
}

#[test]
fn last_components() {
    assert_eq!(last_component_of("/home/me/proj").as_deref(), Some("proj"));
    assert_eq!(last_component_of("/home/me/proj/").as_deref(), Some("proj"));
    assert_eq!(last_component_of("/").as_deref(), Some("/"));
    assert_eq!(last_component_of(""), None);
    assert_eq!(last_component_of("a/.").as_deref(), Some("a"));
    assert_eq!(last_component_of(".").as_deref(), Some("."));
    assert_eq!(last_component_of("/.").as_deref(), Some("/"));
}

#[test]
fn last_components_agree_with_path_iter() {
    for p in ["", "/", "//", "a", "a/", "a//b", "/a/b/", "/a/./", "./", ".", "./.", "a/..", "..", "/./.", ".//a", "x/./."] {
        assert_eq!(last_component_of(p), std_last(p), "{:?}", p);
    }
}
