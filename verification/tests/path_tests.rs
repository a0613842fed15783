use ebpm::paths::{base_name, component_is_ok, concat_path, join_path, sanitize_path, split_path};

#[test]
fn split_keeps_empty_components() {
    assert_eq!(split_path("a//b"), vec!["a", "", "b"]);
    assert_eq!(split_path(""), vec![""]);
    assert_eq!(split_path("/x"), vec!["", "x"]);
    assert_eq!(split_path("x/"), vec!["x", ""]);
}

#[test]
fn join_is_the_inverse_of_split() {
    for s in ["a/b/c", "", "a//b", "/lead", "trail/"] {
        assert_eq!(join_path(&split_path(s)), s);
    }
}

#[test]
fn sanitize_drops_every_dangerous_component() {
    let parts = sanitize_path("../..//./evil/../name");
    assert_eq!(parts, vec!["evil", "name"]);
    assert!(sanitize_path("/").is_empty());
    assert!(sanitize_path("../..").is_empty());
    assert_eq!(sanitize_path("plain/file.txt"), vec!["plain", "file.txt"]);
}

#[test]
fn component_check_matches_its_meaning() {
    assert!(component_is_ok(&"name".to_string()));
    assert!(component_is_ok(&"...".to_string()));
    assert!(!component_is_ok(&"".to_string()));
    assert!(!component_is_ok(&".".to_string()));
    assert!(!component_is_ok(&"..".to_string()));
    assert!(!component_is_ok(&"a/b".to_string()));
}

#[test]
fn base_name_takes_the_last_component() {
    assert_eq!(base_name("a/b/c.txt"), "c.txt");
    assert_eq!(base_name("solo"), "solo");
    assert_eq!(base_name("dir/"), "");
}

#[test]
fn concat_inserts_one_separator() {
    assert_eq!(concat_path("a/b", "c"), "a/b/c");
    assert_eq!(concat_path("", "x"), "/x");
}
