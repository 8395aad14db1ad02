use rtunnel::config::TunnelConfig;
use rtunnel::registry::TunnelRegistry;

fn named(id: &str, name: &str, auto: bool) -> TunnelConfig {
    let mut c = TunnelConfig::with_id(id.to_string());
    c.name = name.to_string();
    c.auto_connect = auto;
    c
}

fn sample() -> TunnelRegistry<u32> {
    TunnelRegistry::new(vec![
        named("a", "Office DB", true),
        named("b", "Home NAS", false),
        named("c", "office web", true),
    ])
}

fn ids(r: &TunnelRegistry<u32>) -> Vec<String> {
    r.config_list().iter().map(|c| c.id.clone()).collect()
}

#[test]
fn creating_appends_a_default_tunnel() {
    let mut r = sample();
    let c = r.create_new();
    assert_eq!(r.len(), 4);
    assert_eq!(r.config_list()[3].id, c.id);
    assert_eq!(c.name, "New Tunnel");
    assert_eq!(r.position(&c.id), Some(3));
}

#[test]
fn saving_replaces_the_tunnel_with_the_same_id() {
    let mut r = sample();
    let mut updated = named("b", "Home NAS 2", true);
    updated.local_port = 9000;
    assert!(r.save_config(updated));
    assert_eq!(r.config_list()[1].name, "Home NAS 2");
    assert_eq!(r.config_list()[1].local_port, 9000);
    assert_eq!(ids(&r), vec!["a", "b", "c"]);
    assert!(!r.save_config(named("zzz", "Nope", false)));
    assert_eq!(r.len(), 3);
}

#[test]
fn toggling_auto_connect() {
    let mut r = sample();
    assert!(r.set_auto_connect(&"b".to_string(), true));
    assert!(r.config_list()[1].auto_connect);
    assert!(!r.set_auto_connect(&"q".to_string(), true));
    assert_eq!(r.auto_connect_ids(), vec!["a", "b", "c"]);
}

#[test]
fn copying_a_tunnel() {
    let mut r = sample();
    assert!(r.copy_tunnel_with_id(&"b".to_string(), "b2".to_string()));
    let copy = &r.config_list()[3];
    assert_eq!(copy.id, "b2");
    assert_eq!(copy.name, "Home NAS (Copy)");
    assert_eq!(ids(&r), vec!["a", "b", "c", "b2"]);
    assert!(r.copy_tunnel(&"a".to_string()));
    let fresh = &r.config_list()[4];
    assert_eq!(fresh.name, "Office DB (Copy)");
    assert_eq!(fresh.id.len(), 36);
    assert!(!r.copy_tunnel(&"missing".to_string()));
    assert_eq!(r.len(), 5);
}

#[test]
fn running_and_stopping() {
    let mut r = sample();
    assert_eq!(r.start_running("missing".to_string(), 7), Err(7));
    assert_eq!(r.start_running("b".to_string(), 1), Ok(None));
    assert!(r.is_running_id(&"b".to_string()));
    assert_eq!(r.running_handle(&"b".to_string()), Some(&1));
    assert_eq!(r.start_running("b".to_string(), 2), Ok(Some(1)));
    assert_eq!(r.running_handle(&"b".to_string()), Some(&2));
    assert_eq!(r.status_counts(), (1, 2));
    assert_eq!(r.stop(&"b".to_string()), Some(2));
    assert!(!r.is_running_id(&"b".to_string()));
    assert_eq!(r.stop(&"b".to_string()), None);
    assert_eq!(r.status_counts(), (0, 3));
}

#[test]
fn deleting_a_running_tunnel() {
    let mut r = sample();
    r.start_running("c".to_string(), 9).unwrap();
    r.start_running("a".to_string(), 4).unwrap();
    let (gone, handle) = r.delete_tunnel(&"c".to_string()).unwrap();
    assert_eq!(gone.name, "office web");
    assert_eq!(handle, Some(9));
    assert_eq!(ids(&r), vec!["a", "b"]);
    assert!(!r.is_running_id(&"c".to_string()));
    assert_eq!(r.status_counts(), (1, 1));
    let (_, none) = r.delete_tunnel(&"b".to_string()).unwrap();
    assert_eq!(none, None);
    assert!(r.delete_tunnel(&"b".to_string()).is_none());
}

#[test]
fn searching_ignores_case() {
    let mut r = sample();
    r.start_running("c".to_string(), 1).unwrap();
    let hits = r.search(&"OFFICE".to_string());
    let found: Vec<(usize, bool)> = hits.iter().map(|h| (h.index, h.running)).collect();
    assert_eq!(found, vec![(0, false), (2, true)]);
    let all = r.search(&"".to_string());
    assert_eq!(all.len(), 3);
    assert!(r.search(&"printer".to_string()).is_empty());
    assert_eq!(r.search(&"nas".to_string())[0].index, 1);
}

#[test]
fn start_up_connections() {
    let r = sample();
    assert_eq!(r.auto_connect_ids(), vec!["a", "c"]);
    let empty: TunnelRegistry<u32> = TunnelRegistry::new(Vec::new());
    assert!(empty.auto_connect_ids().is_empty());
    assert_eq!(empty.status_counts(), (0, 0));
}

#[test]
fn duplicate_ids_find_the_first() {
    let mut r: TunnelRegistry<u32> =
        TunnelRegistry::new(vec![named("x", "one", false), named("x", "two", false)]);
    assert_eq!(r.find(&"x".to_string()).unwrap().name, "one");
    let (gone, _) = r.delete_tunnel(&"x".to_string()).unwrap();
    assert_eq!(gone.name, "one");
    assert_eq!(r.find(&"x".to_string()).unwrap().name, "two");
}

#[test]
fn deleting_a_new_tunnel_restores_the_list() {
    let mut r = sample();
    let before = ids(&r);
    let c = r.create_new();
    assert!(r.delete_tunnel(&c.id).is_some());
    assert_eq!(ids(&r), before);
}

#[test]
fn never_more_running_than_configured() {
    let mut r = sample();
    for (i, id) in ["a", "b", "c", "a", "zz"].iter().enumerate() {
        let _ = r.start_running(id.to_string(), i as u32);
        let (active, stopped) = r.status_counts();
        assert!(active <= r.len());
        assert_eq!(active + stopped, r.len());
    }
    assert_eq!(r.status_counts(), (3, 0));
}
