use jjwt::state::JjwtState;

#[test]
fn get_vars_empty_by_default() {
    let state = JjwtState::default();

    assert!(state.get_vars("any").is_empty());
}

#[test]
fn set_and_get_var() {
    let mut state = JjwtState::default();

    state.set_var("ws", "key", "val");

    assert_eq!(state.get_vars("ws").get("key").unwrap(), "val");
}

#[test]
fn set_var_overwrites() {
    let mut state = JjwtState::default();

    state.set_var("ws", "k", "old");
    state.set_var("ws", "k", "new");

    assert_eq!(state.get_vars("ws").get("k").unwrap(), "new");
}

#[test]
fn remove_var_returns_value() {
    let mut state = JjwtState::default();

    state.set_var("ws", "k", "v");

    assert_eq!(state.remove_var("ws", "k"), Some("v".into()));
}

#[test]
fn remove_var_cleans_up_empty_workspace() {
    let mut state = JjwtState::default();

    state.set_var("ws", "k", "v");
    state.remove_var("ws", "k");

    assert!(!state.vars.contains_key("ws"));
}

#[test]
fn remove_var_missing_workspace() {
    let mut state = JjwtState::default();

    assert_eq!(state.remove_var("nope", "k"), None);
}

#[test]
fn remove_var_missing_key() {
    let mut state = JjwtState::default();

    state.set_var("ws", "a", "1");

    assert_eq!(state.remove_var("ws", "b"), None);
    assert_eq!(state.get_vars("ws").get("a").unwrap(), "1");
}

#[test]
fn set_var_leaves_other_workspaces_alone() {
    let mut state = JjwtState::default();

    state.set_var("one", "k", "1");
    state.set_var("two", "k", "2");

    assert_eq!(state.get_vars("one").get("k").unwrap(), "1");
    assert_eq!(state.get_vars("two").get("k").unwrap(), "2");
}

#[test]
fn delete_var_removes_a_set_variable() {
    let mut state = JjwtState::default();

    state.set_var("ws", "k", "v");
    state.set_var("ws", "other", "w");

    assert_eq!(state.delete_var("ws", "k"), Ok(()));
    assert!(state.get_vars("ws").get("k").is_none());
    assert_eq!(state.get_vars("ws").get("other").unwrap(), "w");
}

#[test]
fn delete_var_refuses_a_missing_variable() {
    let mut state = JjwtState::default();

    state.set_var("ws", "k", "v");

    assert_eq!(state.delete_var("ws", "nope"), Err("variable 'nope' not set for workspace 'ws'".to_string()));
    assert_eq!(state.delete_var("elsewhere", "k"), Err("variable 'k' not set for workspace 'elsewhere'".to_string()));
    assert_eq!(state.get_vars("ws").get("k").unwrap(), "v");
}
