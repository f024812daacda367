use pydantic_validators::errors::LocItem;
use pydantic_validators::lookup::{find_key_index, lookup_key, str_eq, InputKey, LookupKey};

fn keys(ks: &[&str]) -> Vec<InputKey> {
    ks.iter().map(|k| InputKey::Str(k.to_string())).collect()
}

#[test]
fn find_key_index_gives_first_position() {
    let mut ks = keys(&["a", "b", "a"]);
    ks.insert(0, InputKey::NotStr(LocItem::I(1)));
    assert_eq!(find_key_index(&ks, "a"), Some(1));
    assert_eq!(find_key_index(&ks, "b"), Some(2));
    assert_eq!(find_key_index(&ks, "c"), None);
}

#[test]
fn lookup_key_tries_alias_then_name() {
    let ks = keys(&["name", "alias"]);
    let lk = LookupKey { key: "alias".to_string(), alt_key: Some("name".to_string()) };
    assert_eq!(lookup_key(&lk, &ks), Some(("alias".to_string(), 1)));
    let ks2 = keys(&["x", "name"]);
    assert_eq!(lookup_key(&lk, &ks2), Some(("name".to_string(), 1)));
    let lk2 = LookupKey { key: "alias".to_string(), alt_key: None };
    assert_eq!(lookup_key(&lk2, &ks2), None);
}

#[test]
fn str_eq_compares_text() {
    assert!(str_eq("abc", "abc"));
    assert!(!str_eq("abc", "abd"));
    assert!(!str_eq("ab", "abc"));
}
