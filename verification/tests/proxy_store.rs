use neoshell_core::proxy::config::{copy_config, ProxyConfig, ProxyStore, ProxyType};

fn proxy(id: &str, name: &str, port: u16) -> ProxyConfig {
    ProxyConfig {
        id: id.to_string(),
        name: name.to_string(),
        proxy_type: ProxyType::Socks5h,
        host: "10.0.0.1".to_string(),
        port,
        username: None,
        password: None,
    }
}

fn names(store: &ProxyStore) -> Vec<String> {
    store.proxies().iter().map(|p| p.name.clone()).collect()
}

#[test]
fn label_names_each_type() {
    assert_eq!(ProxyType::Socks5h.label(), "SOCKS5H");
    assert_eq!(ProxyType::Http.label(), "HTTP");
}

#[test]
fn add_appends_in_order() {
    let mut store = ProxyStore::with_proxies(Vec::new());
    store.add(proxy("a", "first", 1080));
    store.add(proxy("b", "second", 1081));
    assert_eq!(names(&store), vec!["first", "second"]);
}

#[test]
fn get_after_add_finds_added_proxy() {
    let mut store = ProxyStore::with_proxies(vec![proxy("a", "first", 1080)]);
    store.add(proxy("b", "second", 3128));
    let found = store.get("b").unwrap();
    assert_eq!(found.name, "second");
    assert_eq!(found.port, 3128);
}

#[test]
fn get_after_add_with_same_id_finds_earlier_proxy() {
    let mut store = ProxyStore::with_proxies(vec![proxy("a", "first", 1080)]);
    store.add(proxy("a", "second", 3128));
    assert_eq!(store.get("a").unwrap().name, "first");
    assert_eq!(store.proxies().len(), 2);
}

#[test]
fn get_unknown_id_is_none() {
    let store = ProxyStore::with_proxies(vec![proxy("a", "first", 1080)]);
    assert!(store.get("zzz").is_none());
    assert!(store.get("").is_none());
}

#[test]
fn update_replaces_first_match_only() {
    let mut store = ProxyStore::with_proxies(vec![
        proxy("a", "one", 1),
        proxy("b", "two", 2),
        proxy("b", "three", 3),
    ]);
    store.update(&proxy("b", "changed", 9));
    assert_eq!(names(&store), vec!["one", "changed", "three"]);
    assert_eq!(store.get("b").unwrap().port, 9);
}

#[test]
fn update_of_unknown_id_changes_nothing() {
    let mut store = ProxyStore::with_proxies(vec![proxy("a", "one", 1)]);
    store.update(&proxy("x", "other", 2));
    assert_eq!(names(&store), vec!["one"]);
    assert!(store.get("x").is_none());
}

#[test]
fn update_keeps_all_fields_of_new_config() {
    let mut store = ProxyStore::with_proxies(vec![proxy("a", "one", 1)]);
    let mut p = proxy("a", "auth", 8080);
    p.proxy_type = ProxyType::Http;
    p.username = Some("u".to_string());
    p.password = Some("p".to_string());
    store.update(&p);
    let got = store.get("a").unwrap();
    assert_eq!(got.proxy_type, ProxyType::Http);
    assert_eq!(got.username.as_deref(), Some("u"));
    assert_eq!(got.password.as_deref(), Some("p"));
    assert_eq!(got.port, 8080);
}

#[test]
fn delete_removes_every_proxy_with_id() {
    let mut store = ProxyStore::with_proxies(vec![
        proxy("a", "one", 1),
        proxy("b", "two", 2),
        proxy("a", "three", 3),
        proxy("c", "four", 4),
    ]);
    store.delete("a");
    assert_eq!(names(&store), vec!["two", "four"]);
    assert!(store.get("a").is_none());
    assert_eq!(store.get("c").unwrap().name, "four");
}

#[test]
fn delete_of_unknown_id_keeps_list() {
    let mut store = ProxyStore::with_proxies(vec![proxy("a", "one", 1)]);
    store.delete("b");
    assert_eq!(names(&store), vec!["one"]);
}

#[test]
fn copy_config_is_identical() {
    let mut p = proxy("id", "n", 7);
    p.username = Some("user".to_string());
    let q = copy_config(&p);
    assert_eq!(q.id, "id");
    assert_eq!(q.name, "n");
    assert_eq!(q.port, 7);
    assert_eq!(q.username.as_deref(), Some("user"));
    assert_eq!(q.password, None);
}
