use autodcr_bridge::config::{
    config_path, config_path_in, default_module_candidates, default_true, discover_default_module, first_existing,
    log_dir, log_dir_in, pkcs11_init_timeout_secs, Config, HostOs, ProjectPaths, DEFAULT_PKCS11_INIT_TIMEOUT_SECS,
};

#[test]
fn default_config_prompts_for_pin() {
    let c = Config::default();
    assert!(c.prompt_pin);
    assert!(c.pkcs11_module.is_none());
    assert!(c.log_dir.is_none());
    assert_eq!(c.pkcs11_init_timeout_secs, DEFAULT_PKCS11_INIT_TIMEOUT_SECS);
    assert!(default_true());
}

#[test]
fn init_timeout_is_at_least_one_second() {
    let mut c = Config::default();
    c.pkcs11_init_timeout_secs = 0;
    assert_eq!(pkcs11_init_timeout_secs(&c), 1);
    c.pkcs11_init_timeout_secs = 30;
    assert_eq!(pkcs11_init_timeout_secs(&c), 30);
}

#[test]
fn configured_log_dir_wins() {
    let mut c = Config::default();
    c.log_dir = Some("/var/log/bridge".to_string());
    assert_eq!(log_dir(&c).unwrap(), "/var/log/bridge");
    c.log_dir = None;
    if let Ok(p) = log_dir(&c) {
        assert!(p.ends_with("logs"));
    }
    if let Ok(p) = config_path() {
        assert!(p.ends_with("config.toml"));
    }
}

#[test]
fn module_candidates_per_platform() {
    assert!(default_module_candidates(HostOs::MacOs)[0].ends_with(".dylib"));
    assert!(default_module_candidates(HostOs::Windows)[0].ends_with(".dll"));
    assert!(default_module_candidates(HostOs::Other).iter().all(|p| p.ends_with(".so")));
}

#[test]
fn first_existing_candidate_is_chosen() {
    let c: [&'static str; 3] = ["/a.so", "/b.so", "/c.so"];
    assert_eq!(first_existing(&c, &vec![false, true, true]), Some("/b.so"));
    assert_eq!(first_existing(&c, &vec![false, false, false]), None);
}

#[test]
fn discovered_module_is_a_candidate() {
    if let Some(m) = discover_default_module(HostOs::Other) {
        assert!(default_module_candidates(HostOs::Other).contains(&m.as_str()));
    }
}

fn dirs() -> Result<ProjectPaths, String> {
    Ok(ProjectPaths { config_dir: "/home/u/.config/bridge".to_string(), data_local_dir: "/home/u/.local/share/bridge".to_string() })
}

#[test]
fn paths_go_under_the_project_directories() {
    let p = config_path_in(dirs()).unwrap();
    assert!(p.starts_with("/home/u/.config/bridge"));
    assert!(p.ends_with("config.toml"));
    assert_ne!(p, "config.toml");
    let c = Config::default();
    let l = log_dir_in(&c, dirs()).unwrap();
    assert!(l.starts_with("/home/u/.local/share/bridge"));
    assert!(l.ends_with("logs"));
    assert_eq!(config_path_in(Err("no home".to_string())).unwrap_err(), "no home");
    assert_eq!(log_dir_in(&c, Err("no home".to_string())).unwrap_err(), "no home");
    let mut c = Config::default();
    c.log_dir = Some("/var/log/x".to_string());
    assert_eq!(log_dir_in(&c, Err("no home".to_string())).unwrap(), "/var/log/x");
}
