use euthergate::config::{
    bind_address, env_bool, Config, ConfigError, EnvVar, Environment, Location,
};

fn present(text: &str) -> EnvVar {
    EnvVar::Present(text.to_string())
}

fn empty() -> Environment<&'static str> {
    Environment {
        token: EnvVar::Missing,
        secure_cookie: EnvVar::Missing,
        proxy_token: EnvVar::Missing,
        shell: None,
        login_shell: None,
        workdir: None,
        web_root: None,
        desktop_output: EnvVar::Missing,
        desktop_mode: EnvVar::Missing,
        desktop_helper: None,
    }
}

fn default_of(place: Location<&'static str>) -> &'static str {
    match place {
        Location::Default(path) => path,
        Location::Given(_) => panic!("given"),
    }
}

fn given_of(place: Location<&'static str>) -> &'static str {
    match place {
        Location::Given(path) => path,
        Location::Default(_) => panic!("default"),
    }
}

#[test]
fn flags_are_read_in_any_case() {
    let flag = |text: &str| env_bool("F", &present(text), false).ok();
    for text in ["1", "true", "TRUE", "True", "yes", "YeS"] {
        assert_eq!(flag(text), Some(true));
    }
    for text in ["0", "false", "FALSE", "no", "NO"] {
        assert_eq!(flag(text), Some(false));
    }
    for text in ["", "2", "on", " true", "yes!"] {
        let error = env_bool("F", &present(text), true).unwrap_err();
        assert_eq!(error.message(), "F must be true or false");
    }
    assert_eq!(env_bool("F", &EnvVar::Missing, true).ok(), Some(true));
    assert_eq!(env_bool("F", &EnvVar::Missing, false).ok(), Some(false));
    let error = env_bool("F", &EnvVar::NotUnicode("bad".to_string()), true).unwrap_err();
    assert_eq!(error.message(), "bad");
}

#[test]
fn defaults_are_those_of_the_manual() {
    let config = Config::load(empty(), Some(1), Some("/home")).unwrap();
    assert_eq!(config.bind, 1);
    assert_eq!(config.token.len(), 32);
    assert_eq!(config.generated_token, Some(config.token));
    assert!(!config.secure_cookie);
    assert_eq!(config.proxy_token, None);
    assert_eq!(default_of(config.shell), "/bin/sh");
    assert_eq!(config.workdir, "/home");
    assert_eq!(default_of(config.web_root), "web/dist");
    assert_eq!(config.desktop_output, "EUTHERGATE-1");
    assert_eq!(config.desktop_mode, "1280x720@30");
    assert_eq!(default_of(config.desktop_helper), "scripts/webrtc_desktop.py");
    assert_eq!(bind_address(EnvVar::Missing), "127.0.0.1:8787");
    assert_eq!(bind_address(EnvVar::NotUnicode("m".to_string())), "127.0.0.1:8787");
    assert_eq!(bind_address(present("[::1]:80")), "[::1]:80");
}

#[test]
fn settings_come_from_the_environment() {
    let mut environment = empty();
    environment.token = present("secret");
    environment.secure_cookie = present("yes");
    environment.proxy_token = present("oxide");
    environment.login_shell = Some("/bin/zsh");
    environment.workdir = Some("/work");
    environment.web_root = Some("/web");
    environment.desktop_output = present("V-1");
    environment.desktop_mode = present("");
    environment.desktop_helper = Some("/helper");
    let config = Config::load(environment, Some(2), Some("/home")).unwrap();
    assert_eq!(config.token, "secret");
    assert_eq!(config.generated_token, None);
    assert!(config.secure_cookie);
    assert_eq!(config.proxy_token.as_deref(), Some("oxide"));
    assert_eq!(given_of(config.shell), "/bin/zsh");
    assert_eq!(config.workdir, "/work");
    assert_eq!(given_of(config.web_root), "/web");
    assert_eq!(config.desktop_output, "V-1");
    assert_eq!(config.desktop_mode, "");
    assert_eq!(given_of(config.desktop_helper), "/helper");
    let mut environment = empty();
    environment.shell = Some("/bin/fish");
    environment.login_shell = Some("/bin/zsh");
    let config = Config::load(environment, Some(2), Some("/home")).unwrap();
    assert_eq!(given_of(config.shell), "/bin/fish");
}

#[test]
fn empty_tokens_count_as_none() {
    let mut environment = empty();
    environment.token = present("");
    environment.proxy_token = present("");
    let config = Config::assemble(environment, Some(1), Some("/"), "fresh".to_string()).unwrap();
    assert_eq!(config.token, "fresh");
    assert_eq!(config.generated_token.as_deref(), Some("fresh"));
    assert_eq!(config.proxy_token, None);
}

#[test]
fn the_first_wrong_setting_is_reported() {
    let wrong = || {
        let mut environment = empty();
        environment.secure_cookie = present("maybe");
        environment
    };
    let error = Config::<&str, u8>::load(wrong(), None, None).unwrap_err();
    assert!(matches!(error, ConfigError::Bind));
    assert_eq!(error.message(), "EUTHERGATE_BIND must be an IP address and port");
    let error = Config::load(wrong(), Some(1), None).unwrap_err();
    assert_eq!(error.message(), "EUTHERGATE_SECURE_COOKIE must be true or false");
    let mut environment = empty();
    environment.workdir = Some("/work");
    let error = Config::load(environment, Some(1), None).unwrap_err();
    assert!(matches!(error, ConfigError::CurrentDir));
    assert_eq!(error.message(), "could not determine current directory");
}
