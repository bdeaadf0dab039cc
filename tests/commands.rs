use jinx::cert::run_letsencrypt_container;
use jinx::commands::{handle_args, load, load_next, Command, LoadAction, LoadStage};
use jinx::conf::JinxConf;
use jinx::error::JinxError;
use jinx::service::JinxService;
use jinx::files::{get_jinx_files, jinx_files_for_home, jinx_files_from_home, tar_path};

fn api() -> JinxService {
    JinxService {
        name: "api".to_string(),
        domain: "api.example.com".to_string(),
        image_name: "api-img".to_string(),
        image_port: 8080,
        image_envs: None,
        image_secrets: None,
        image_volumes: None,
        published_port: None,
        https_redirect: false,
        https: false,
    }
}

fn args(v: &[&str]) -> Vec<String> {
    v.iter().map(|s| s.to_string()).collect()
}

#[test]
fn args_select_command() {
    assert_eq!(handle_args(&args(&["jinx", "init"])), Command::Init);
    assert_eq!(handle_args(&args(&["jinx", "load"])), Command::Load);
    assert_eq!(handle_args(&args(&["jinx", "build"])), Command::Build);
    assert_eq!(handle_args(&args(&["jinx", "-v"])), Command::Version);
    assert_eq!(handle_args(&args(&["jinx"])), Command::Help);
    assert_eq!(handle_args(&args(&["jinx", "unknown"])), Command::Help);
}

#[test]
fn help_and_version_win() {
    assert_eq!(handle_args(&args(&["jinx", "load", "-h"])), Command::Help);
    assert_eq!(handle_args(&args(&["jinx", "init", "-v"])), Command::Version);
    assert_eq!(handle_args(&args(&["jinx", "build", "init"])), Command::Init);
}

#[test]
fn load_runs_every_step_in_order() {
    let mut conf = JinxConf::default();
    let (mut stage, mut action) = load(&mut conf, &api()).unwrap();
    assert_eq!(conf.jinx_services.len(), 1);
    let mut actions = vec![action];
    while stage != LoadStage::Done && stage != LoadStage::Failed {
        let next = load_next(stage, true);
        stage = next.0;
        action = next.1;
        actions.push(action);
    }
    assert_eq!(stage, LoadStage::Done);
    assert_eq!(
        actions,
        vec![
            LoadAction::SaveRegistry,
            LoadAction::Pack,
            LoadAction::BuildImage,
            LoadAction::DeployService,
            LoadAction::WriteProxyConfig,
            LoadAction::Finish,
        ]
    );
}

#[test]
fn packaging_failure_aborts_before_runtime() {
    let (stage, _) = load_next(LoadStage::Registering, true);
    assert_eq!(stage, LoadStage::Packaging);
    let (stage, action) = load_next(stage, false);
    assert_eq!((stage, action), (LoadStage::Failed, LoadAction::Abort));
    assert_eq!(load_next(stage, true), (LoadStage::Failed, LoadAction::Abort));
}

#[test]
fn build_failure_aborts_before_deploy() {
    assert_eq!(load_next(LoadStage::Building, false), (LoadStage::Failed, LoadAction::Abort));
    assert_eq!(load_next(LoadStage::Done, false), (LoadStage::Done, LoadAction::Finish));
}

#[test]
fn certificate_run_for_example_com() {
    let files = jinx_files_for_home(&"/home/op".to_string());
    let r = run_letsencrypt_container(&files, &"example.com".to_string());
    assert_eq!(r.image, "certbot/certbot");
    assert_eq!(r.name, "jinx-certbot_certbot");
    assert_eq!(r.ports, args(&["80:80/tcp", "443:443/tcp"]));
    assert_eq!(
        r.volumes,
        vec![format!("{}:/etc/letsencrypt", files.letsencrypt_conf), format!("{}:/var/www/certbot", files.letsencrypt_www)]
    );
    assert!(r.env.is_none());
    let cmd = r.cmd.unwrap();
    assert_eq!(&cmd[4..], &args(&["-d", "example.com", "-d", "www.example.com"])[..]);
    assert_eq!(cmd.iter().filter(|a| a.as_str() == "-d").count(), 2);
    assert_eq!(&cmd[..4], &args(&["certonly", "--register-unsafely-without-email", "--agree-tos", "--standalone"])[..]);
}

#[test]
fn paths_under_home() {
    let f = jinx_files_for_home(&"/home/op".to_string());
    assert_eq!(f.jinx_home, "/home/op/.jinx");
    assert_eq!(f.jinx_conf, "/home/op/.jinx/jinx_conf.json");
    assert_eq!(f.nginx_conf, "/home/op/.jinx/nginx.conf");
    assert_eq!(f.letsencrypt_conf, "/home/op/.jinx/letsencrypt/conf");
    assert_eq!(f.letsencrypt_www, "/home/op/.jinx/letsencrypt/www");
    assert_eq!(tar_path(&f, &"api".to_string()), "/home/op/.jinx/api.jinx.tar.gz");
}

#[test]
fn paths_from_the_environment() {
    match get_jinx_files() {
        Ok(f) => {
            assert!(f.jinx_home.ends_with("/.jinx"));
            assert_eq!(f.jinx_conf, format!("{}/jinx_conf.json", f.jinx_home));
        }
        Err(e) => assert_eq!(e, jinx::error::JinxError::Environment),
    }
}

#[test]
fn load_twice_registers_once() {
    let mut conf = JinxConf::default();
    assert_eq!(load(&mut conf, &api()), Ok((LoadStage::Registering, LoadAction::SaveRegistry)));
    load(&mut conf, &api()).unwrap();
    assert_eq!(conf.jinx_services.len(), 1);
    assert_eq!(conf.nginx_user, "nginx");
}

#[test]
fn load_of_changed_descriptor_appends() {
    let mut conf = JinxConf::default();
    load(&mut conf, &api()).unwrap();
    let mut changed = api();
    changed.domain = "new.example.com".to_string();
    load(&mut conf, &changed).unwrap();
    assert_eq!(conf.jinx_services.len(), 2);
    assert!(conf.jinx_services[0] == api());
    assert!(conf.jinx_services[1] == changed);
}

#[test]
fn load_rejects_invalid_descriptor_and_keeps_registry() {
    let mut conf = JinxConf::default();
    let mut bad = api();
    bad.name = String::new();
    assert_eq!(load(&mut conf, &bad), Err(JinxError::Config(String::new())));
    assert!(conf.jinx_services.is_empty());
}

#[test]
fn no_home_is_an_environment_error() {
    assert!(matches!(jinx_files_from_home(None), Err(JinxError::Environment)));
    let f = jinx_files_from_home(Some("/root".to_string())).unwrap();
    assert_eq!(f.jinx_conf, "/root/.jinx/jinx_conf.json");
}
