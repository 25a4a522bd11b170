use router::params::PathParams;

#[test]
fn new_params_bind_nothing() {
    let params = PathParams::new();
    assert!(params.entries().is_empty());
    assert_eq!(params.get("id"), None);
}

#[test]
fn bind_adds_a_name() {
    let params = PathParams::new()
        .bind("id".to_string(), "42".to_string())
        .bind("kind".to_string(), "users".to_string());
    assert_eq!(params.get("id"), Some(&"42".to_string()));
    assert_eq!(params.get("kind"), Some(&"users".to_string()));
    assert_eq!(params.get("other"), None);
    assert_eq!(params.entries().len(), 2);
}

#[test]
fn bind_replaces_the_value_of_a_bound_name() {
    let params = PathParams::new()
        .bind("id".to_string(), "1".to_string())
        .bind("kind".to_string(), "users".to_string())
        .bind("id".to_string(), "2".to_string());
    assert_eq!(params.get("id"), Some(&"2".to_string()));
    assert_eq!(params.get("kind"), Some(&"users".to_string()));
    assert_eq!(params.entries().len(), 2);
}
