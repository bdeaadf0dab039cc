use jinx::conf::{resolve_registry, JinxConf, StoredRegistry};
use jinx::error::JinxError;
use jinx::service::JinxService;

fn api() -> JinxService {
    JinxService {
        name: "api".to_string(),
        domain: "api.example.com".to_string(),
        image_name: "api-img".to_string(),
        image_port: 8080,
        image_envs: None,
        image_secrets: None,
        image_volumes: None,
        published_port: None,
        https_redirect: false,
        https: false,
    }
}

#[test]
fn default_registry_has_default_tuning() {
    let c = JinxConf::default();
    assert_eq!(c.nginx_user, "nginx");
    assert_eq!(c.nginx_worker_processes, 1);
    assert_eq!(c.nginx_worker_connections, 1024);
    assert!(c.jinx_services.is_empty());
}

#[test]
fn default_service_fields() {
    let s = JinxService::default();
    assert_eq!(s.name, "None");
    assert_eq!(s.domain, "None");
    assert_eq!(s.image_name, "None");
    assert_eq!(s.image_port, 8080);
    assert!(s.image_envs.is_none() && s.image_secrets.is_none() && s.image_volumes.is_none());
    assert!(s.published_port.is_none());
    assert!(!s.https && !s.https_redirect);
}

#[test]
fn upsert_twice_keeps_one_entry() {
    let mut c = JinxConf::default();
    c.upsert(api());
    assert_eq!(c.jinx_services.len(), 1);
    c.upsert(api());
    assert_eq!(c.jinx_services.len(), 1);
}

#[test]
fn upsert_changed_field_appends_second_entry() {
    let mut c = JinxConf::default();
    c.upsert(api());
    let mut changed = api();
    changed.image_port = 9090;
    c.upsert(changed.clone());
    assert_eq!(c.jinx_services.len(), 2);
    assert!(c.jinx_services[0] == api());
    assert!(c.jinx_services[1] == changed);
    assert!(c.jinx_services.iter().all(|s| s.name == "api"));
}

#[test]
fn upsert_keeps_tuning() {
    let mut c = JinxConf::default();
    c.nginx_worker_processes = 4;
    c.upsert(api());
    assert_eq!(c.nginx_worker_processes, 4);
    assert_eq!(c.nginx_user, "nginx");
}

#[test]
fn contains_service_compares_every_field() {
    let mut c = JinxConf::default();
    c.upsert(api());
    assert!(c.contains_service(&api()));
    let mut other = api();
    other.image_envs = Some(vec!["A:b".to_string()]);
    assert!(!c.contains_service(&other));
}

#[test]
fn equality_of_descriptors() {
    let mut a = api();
    let mut b = api();
    assert!(a == b);
    a.image_volumes = Some(vec!["/a:/b".to_string()]);
    assert!(a != b);
    b.image_volumes = Some(vec!["/a:/b".to_string()]);
    assert!(a == b);
    b.published_port = Some(80);
    assert!(a != b);
}

#[test]
fn validate_rejects_empty_name_and_bad_port() {
    assert!(api().validate().is_ok());
    let mut s = api();
    s.name = String::new();
    assert_eq!(s.validate(), Err(JinxError::Config(String::new())));
    let mut s = api();
    s.image_port = 0;
    assert_eq!(s.validate(), Err(JinxError::Config("api".to_string())));
}

#[test]
fn missing_registry_resolves_to_default() {
    let c = resolve_registry(StoredRegistry::Missing).unwrap();
    assert_eq!(c.nginx_user, "nginx");
    assert!(c.jinx_services.is_empty());
}

#[test]
fn unparsable_registry_is_corrupt() {
    assert!(matches!(resolve_registry(StoredRegistry::Unparsable), Err(JinxError::RegistryCorrupt)));
}

#[test]
fn parsed_registry_is_kept() {
    let mut c = JinxConf::default();
    c.upsert(api());
    let r = resolve_registry(StoredRegistry::Parsed(c)).unwrap();
    assert_eq!(r.jinx_services.len(), 1);
    assert!(r.jinx_services[0] == api());
}
