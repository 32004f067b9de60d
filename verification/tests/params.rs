use lib_api::params::Params;

fn text(s: &str) -> String {
    s.to_string()
}

#[test]
fn new_params_are_empty() {
    let params = Params::new();
    assert!(params.is_empty());
    assert_eq!(params.len(), 0);
    assert_eq!(params.get("id"), None);
    assert!(!params.contains_key("id"));
}

#[test]
fn insert_adds_a_key() {
    let mut params = Params::new();
    params.insert(text("id"), text("1"));
    params.insert(text("title"), text("Dune"));
    assert!(!params.is_empty());
    assert_eq!(params.len(), 2);
    assert_eq!(params.get("id"), Some(&text("1")));
    assert_eq!(params.get("title"), Some(&text("Dune")));
    assert_eq!(params.get("isbn"), None);
    assert!(params.contains_key("title"));
    assert!(!params.contains_key("Title"));
}

#[test]
fn insert_replaces_the_value_of_a_key() {
    let mut params = Params::new();
    params.insert(text("id"), text("1"));
    params.insert(text("age"), text("30"));
    params.insert(text("id"), text("2"));
    assert_eq!(params.len(), 2);
    assert_eq!(params.get("id"), Some(&text("2")));
    assert_eq!(params.entry(0), Some((&text("id"), &text("2"))));
    assert_eq!(params.entry(1), Some((&text("age"), &text("30"))));
    assert_eq!(params.entry(2), None);
}

#[test]
fn keys_are_told_apart_by_every_character() {
    let mut params = Params::new();
    params.insert(text("id"), text("1"));
    params.insert(text("ids"), text("1,2"));
    params.insert(text("idé"), text("x"));
    assert_eq!(params.len(), 3);
    assert_eq!(params.get("ids"), Some(&text("1,2")));
    assert_eq!(params.get("idé"), Some(&text("x")));
    assert_eq!(params.get("i"), None);
}
