use jinx::commands::build;
use jinx::conf::JinxConf;
use jinx::error::JinxError;
use jinx::nginx::{
    assemble_nginx_conf, render_template, NGINX_FOOTER, NGINX_HEADER, SERVER_HTTP, SERVER_HTTPS_REDIRECT,
};
use jinx::service::JinxService;

fn service(name: &str, domain: &str, image: &str, port: i64) -> JinxService {
    JinxService {
        name: name.to_string(),
        domain: domain.to_string(),
        image_name: image.to_string(),
        image_port: port,
        image_envs: None,
        image_secrets: None,
        image_volumes: None,
        published_port: None,
        https_redirect: false,
        https: false,
    }
}

#[test]
fn empty_registry_renders_global_section() {
    let text = render_template(&JinxConf::default()).unwrap();
    assert!(text.starts_with("user nginx;\n"));
    assert!(text.contains("worker_processes 1;"));
    assert!(text.contains("worker_connections 1024;"));
    assert!(text.contains("http {\n"));
    assert!(text.ends_with(NGINX_FOOTER));
    assert!(!text.contains("server {"));
    assert!(!text.contains("{{"));
}

#[test]
fn load_scenario_registers_renders_and_builds() {
    let api = service("api", "api.example.com", "api-img", 8080);
    let mut conf = JinxConf::default();
    conf.upsert(api.clone());
    assert_eq!(conf.jinx_services.len(), 1);
    let text = render_template(&conf).unwrap();
    assert!(text.contains("server_name api.example.com;"));
    assert!(text.contains("proxy_pass http://api-img:8080;"));
    assert_eq!(build(&api).tag, "api-img");
    assert_eq!(build(&api).dockerfile, "Dockerfile");
}

#[test]
fn render_is_deterministic() {
    let mut conf = JinxConf::default();
    conf.upsert(service("a", "a.example.com", "a-img", 3000));
    conf.upsert(service("b", "b.example.com", "b-img", 4000));
    let first = render_template(&conf).unwrap();
    let second = render_template(&conf.clone()).unwrap();
    assert_eq!(first, second);
}

#[test]
fn blocks_follow_registry_order() {
    let mut conf = JinxConf::default();
    conf.upsert(service("a", "a.example.com", "a-img", 3000));
    conf.upsert(service("b", "b.example.com", "b-img", 4000));
    let text = render_template(&conf).unwrap();
    let a = text.find("server_name a.example.com;").unwrap();
    let b = text.find("server_name b.example.com;").unwrap();
    assert!(a < b);
    assert!(text.contains("proxy_pass http://b-img:4000;"));
}

#[test]
fn https_service_gets_certificates() {
    let mut s = service("s", "s.example.com", "s-img", 80);
    s.https = true;
    let mut conf = JinxConf::default();
    conf.upsert(s);
    let text = render_template(&conf).unwrap();
    assert!(text.contains("listen 443 ssl;"));
    assert!(text.contains("ssl_certificate /etc/letsencrypt/live/s.example.com/fullchain.pem;"));
    assert!(!text.contains("return 301"));
}

#[test]
fn https_redirect_service_redirects() {
    let mut s = service("s", "s.example.com", "s-img", 80);
    s.https = true;
    s.https_redirect = true;
    let mut conf = JinxConf::default();
    conf.upsert(s);
    let text = render_template(&conf).unwrap();
    assert!(text.contains("return 301 https://$host$request_uri;"));
    assert!(text.contains("proxy_pass http://s-img:80;"));
}

#[test]
fn plain_service_has_no_tls() {
    let mut conf = JinxConf::default();
    conf.upsert(service("s", "s.example.com", "s-img", 80));
    let text = render_template(&conf).unwrap();
    assert!(!text.contains("443"));
}

#[test]
fn assemble_joins_pieces() {
    let r = assemble_nginx_conf(Some("H".to_string()), &vec![Some("a".to_string()), Some("b".to_string())]);
    assert_eq!(r.unwrap(), format!("Hab{}", NGINX_FOOTER));
}

#[test]
fn assemble_fails_on_missing_piece() {
    assert_eq!(assemble_nginx_conf(None, &vec![]), Err(JinxError::Render));
    assert_eq!(
        assemble_nginx_conf(Some("H".to_string()), &vec![Some("a".to_string()), None]),
        Err(JinxError::Render)
    );
}

#[test]
fn redirect_flag_alone_selects_redirect_block() {
    let mut s = service("s", "s.example.com", "s-img", 80);
    s.https_redirect = true;
    let mut conf = JinxConf::default();
    conf.upsert(s);
    let text = render_template(&conf).unwrap();
    assert!(text.contains("return 301 https://$host$request_uri;"));
    assert!(text.contains("listen 443 ssl;"));
}

fn fill(template: &str, rows: &[&str]) -> String {
    let mut out = template.to_string();
    for (k, r) in rows.iter().enumerate() {
        out = out.replace(&format!("{{{{{{this.[{}]}}}}}}", k), r);
    }
    out
}

#[test]
fn rendered_text_is_templates_with_rows_filled_in() {
    let mut conf = JinxConf::default();
    conf.upsert(service("api", "api.example.com", "api-img", 8080));
    let mut r = service("web", "web.example.com", "web-img", 3000);
    r.https_redirect = true;
    conf.upsert(r);
    let expected = format!(
        "{}{}{}{}",
        fill(NGINX_HEADER, &["nginx", "1", "1024"]),
        fill(SERVER_HTTP, &["api.example.com", "api-img", "8080"]),
        fill(SERVER_HTTPS_REDIRECT, &["web.example.com", "web-img", "3000"]),
        NGINX_FOOTER
    );
    assert_eq!(render_template(&conf).unwrap(), expected);
}
