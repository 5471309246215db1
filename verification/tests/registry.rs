use iot_ingest::registry::ConnectionRegistry;
use iot_ingest::string_map::StringMap;

#[test]
fn register_and_unregister() {
    let mut registry: ConnectionRegistry<u32> = ConnectionRegistry::new();
    assert!(registry.is_empty());
    assert_eq!(registry.register("10.0.0.1:1000".to_string(), 1), None);
    assert_eq!(registry.register("10.0.0.2:2000".to_string(), 2), None);
    assert_eq!(registry.len(), 2);
    assert!(!registry.is_empty());
    assert!(registry.contains("10.0.0.1:1000"));
    assert_eq!(registry.get("10.0.0.2:2000"), Some(&2));
    assert_eq!(registry.get("10.0.0.3:3000"), None);
    assert_eq!(registry.unregister("10.0.0.1:1000"), Some(1));
    assert_eq!(registry.len(), 1);
    assert!(!registry.contains("10.0.0.1:1000"));
    assert_eq!(registry.address_list(), vec!["10.0.0.2:2000".to_string()]);
}

#[test]
fn unregister_is_idempotent() {
    let mut registry: ConnectionRegistry<&str> = ConnectionRegistry::new();
    registry.register("a:1".to_string(), "socket a");
    registry.register("b:2".to_string(), "socket b");
    assert_eq!(registry.unregister("a:1"), Some("socket a"));
    assert_eq!(registry.unregister("a:1"), None);
    assert_eq!(registry.unregister("never:0"), None);
    assert_eq!(registry.len(), 1);
    assert_eq!(registry.get("b:2"), Some(&"socket b"));
}

#[test]
fn registering_an_address_again_displaces_the_old_handle() {
    let mut registry: ConnectionRegistry<u8> = ConnectionRegistry::new();
    registry.register("a:1".to_string(), 1);
    registry.register("b:2".to_string(), 2);
    assert_eq!(registry.register("a:1".to_string(), 3), Some(1));
    assert_eq!(registry.len(), 2);
    assert_eq!(registry.get("a:1"), Some(&3));
    assert_eq!(registry.address_at(0), "a:1");
    assert_eq!(*registry.handle_at(0), 3);
    assert_eq!(registry.address_at(1), "b:2");
    assert_eq!(*registry.handle_at(1), 2);
}

#[test]
fn addresses_keep_registration_order() {
    let mut registry: ConnectionRegistry<()> = ConnectionRegistry::new();
    for address in ["c:3", "a:1", "b:2"] {
        registry.register(address.to_string(), ());
    }
    assert_eq!(registry.address_list(), vec!["c:3", "a:1", "b:2"]);
    registry.unregister("a:1");
    assert_eq!(registry.address_list(), vec!["c:3", "b:2"]);
}

#[test]
fn string_map_insert_get_remove() {
    let mut map: StringMap<i32> = StringMap::new();
    assert_eq!(map.len(), 0);
    assert_eq!(map.insert("one".to_string(), 1), None);
    assert_eq!(map.insert("two".to_string(), 2), None);
    assert_eq!(map.insert("one".to_string(), 11), Some(1));
    assert_eq!(map.len(), 2);
    assert_eq!(map.get("one"), Some(&11));
    assert_eq!(map.get("two"), Some(&2));
    assert_eq!(map.get("three"), None);
    assert!(map.contains_key("two"));
    assert_eq!(map.key_at(0), "one");
    assert_eq!(*map.value_at(1), 2);
    assert_eq!(map.remove("one"), Some(11));
    assert_eq!(map.remove("one"), None);
    assert_eq!(map.len(), 1);
    assert_eq!(map.key_at(0), "two");
    assert_eq!(map.insert("".to_string(), 0), None);
    assert_eq!(map.get(""), Some(&0));
}
