use opa_operator::groups::RoleGroups;
use opa_operator::order::str_precedes;
use opa_operator::property::{PropertyNameKind, RoleGroupConfig};
use opa_operator::roles::Roles;
use opa_operator::string_map::StringMap;

fn keys(map: &StringMap<u32>) -> Vec<&str> {
    map.entries().iter().map(|entry| entry.0.as_str()).collect()
}

#[test]
fn strings_are_ordered_as_std_orders_them() {
    let words = ["", "a", "ab", "b", "B", "config", "config.yaml", "z\u{e9}", "\u{1f980}", "~"];
    for a in words {
        for b in words {
            assert_eq!(str_precedes(a, b), a < b, "{:?} {:?}", a, b);
        }
    }
}

#[test]
fn map_is_walked_in_order_of_its_keys() {
    let mut map = StringMap::new();
    for (key, value) in [("m", 1), ("z", 2), ("a", 3), ("ma", 4), ("", 5)] {
        map.insert(key.to_string(), value);
    }
    assert_eq!(keys(&map), ["", "a", "m", "ma", "z"]);
    assert_eq!(map.get("ma"), Some(&4));
    assert_eq!(map.get("mb"), None);
}

#[test]
fn insert_replaces_what_was_there() {
    let mut map = StringMap::new();
    map.insert("port".to_string(), 1);
    map.insert("port".to_string(), 2);
    assert_eq!(map.get("port"), Some(&2));
    assert_eq!(map.into_entries(), vec![("port".to_string(), 2)]);
}

#[test]
fn order_of_insertion_does_not_matter() {
    let mut a = StringMap::new();
    a.insert("x".to_string(), 1);
    a.insert("y".to_string(), 2);
    let mut b = StringMap::new();
    b.insert("y".to_string(), 2);
    b.insert("x".to_string(), 1);
    assert_eq!(a.into_entries(), b.into_entries());
}

#[test]
fn config_keeps_each_kind_once() {
    let mut first = StringMap::new();
    first.insert("a".to_string(), "1".to_string());
    let mut second = StringMap::new();
    second.insert("b".to_string(), "2".to_string());
    let mut config = RoleGroupConfig::new();
    assert!(config.get(&PropertyNameKind::Env).is_none());
    config.insert(PropertyNameKind::File("x".to_string()), StringMap::new());
    config.insert(PropertyNameKind::Env, first);
    config.insert(PropertyNameKind::Env, second);
    assert_eq!(config.entries().len(), 2);
    let env = config.get(&PropertyNameKind::Env).unwrap();
    assert_eq!(env.get("a"), None);
    assert_eq!(env.get("b"), Some(&"2".to_string()));
    assert!(config.get(&PropertyNameKind::File("x".to_string())).is_some());
    assert!(config.get(&PropertyNameKind::File("y".to_string())).is_none());
    assert!(config.get(&PropertyNameKind::Cli).is_none());
}

#[test]
fn role_keeps_each_group_once() {
    let mut groups = RoleGroups::new();
    assert!(groups.entries().is_empty());
    groups.insert("small".to_string(), 1);
    groups.insert("big".to_string(), 2);
    groups.insert("small".to_string(), 3);
    let mut entries = groups.entries().clone();
    entries.sort();
    assert_eq!(entries, vec![("big".to_string(), 2), ("small".to_string(), 3)]);
}

fn roles(names: &[&str], server: &str) -> Option<Roles> {
    Roles::new(names.iter().map(|name| name.to_string()).collect(), server.to_string())
}

#[test]
fn roles_are_distinct_and_hold_that_of_the_servers() {
    let known = roles(&["proxy", "server"], "server").unwrap();
    assert_eq!(*known.names(), ["proxy", "server"]);
    assert_eq!(known.server(), "server");
    assert!(roles(&["server"], "server").is_some());
    assert!(roles(&[], "server").is_none());
    assert!(roles(&["proxy"], "server").is_none());
    assert!(roles(&["server", "proxy", "server"], "server").is_none());
    assert!(roles(&["proxy", "server", "proxy"], "server").is_none());
}
