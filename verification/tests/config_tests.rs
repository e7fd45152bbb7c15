use ollama_monitor::config::{cfg_for_ollama, invalid_settings, Config, ConfigVars};

fn no_vars() -> ConfigVars {
    ConfigVars {
        ollama_host: None,
        ollama_port: None,
        server_bind: None,
        server_port: None,
        refresh_interval_secs: None,
        gpu_device_index: None,
    }
}

fn config(host: &str, port: u16) -> Config {
    let mut c = Config::default();
    c.ollama_host = host.to_string();
    c.ollama_port = port;
    c
}

#[test]
fn default_values_match_documentation() {
    let c = Config::default();
    assert_eq!(c.ollama_host, "http://127.0.0.1");
    assert_eq!(c.ollama_port, 11434);
    assert_eq!(c.server_bind, "0.0.0.0");
    assert_eq!(c.server_port, 3000);
    assert_eq!(c.refresh_interval_secs, 15);
    assert_eq!(c.gpu_device_index, 0);
}

#[test]
fn load_without_variables_gives_defaults() {
    let c = Config::load(&no_vars());
    let d = Config::default();
    assert_eq!(c.ollama_host, d.ollama_host);
    assert_eq!(c.ollama_port, d.ollama_port);
    assert_eq!(c.server_bind, d.server_bind);
    assert_eq!(c.server_port, d.server_port);
    assert_eq!(c.refresh_interval_secs, d.refresh_interval_secs);
    assert_eq!(c.gpu_device_index, d.gpu_device_index);
}

#[test]
fn load_takes_set_variables() {
    let vars = ConfigVars {
        ollama_host: Some("http://192.168.1.50".to_string()),
        ollama_port: Some("12000".to_string()),
        server_bind: Some("127.0.0.1".to_string()),
        server_port: Some("+8080".to_string()),
        refresh_interval_secs: Some("30".to_string()),
        gpu_device_index: Some("2".to_string()),
    };
    let c = Config::load(&vars);
    assert_eq!(c.ollama_host, "http://192.168.1.50");
    assert_eq!(c.ollama_port, 12000);
    assert_eq!(c.server_bind, "127.0.0.1");
    assert_eq!(c.server_port, 8080);
    assert_eq!(c.refresh_interval_secs, 30);
    assert_eq!(c.gpu_device_index, 2);
}

#[test]
fn load_keeps_defaults_for_invalid_numbers() {
    let vars = ConfigVars {
        ollama_host: None,
        ollama_port: Some("70000".to_string()),
        server_bind: None,
        server_port: Some(" 8080".to_string()),
        refresh_interval_secs: Some("-5".to_string()),
        gpu_device_index: Some("".to_string()),
    };
    let c = Config::load(&vars);
    assert_eq!(c.ollama_port, 11434);
    assert_eq!(c.server_port, 3000);
    assert_eq!(c.refresh_interval_secs, 15);
    assert_eq!(c.gpu_device_index, 0);
}

#[test]
fn base_url_of_default_adds_port() {
    assert_eq!(Config::default().ollama_base_url(), "http://127.0.0.1:11434");
}

#[test]
fn base_url_keeps_complete_url() {
    assert_eq!(config("http://127.0.0.1:59999", 0).ollama_base_url(), "http://127.0.0.1:59999");
    assert_eq!(config("https://ollama.local:443", 11434).ollama_base_url(), "https://ollama.local:443");
}

#[test]
fn base_url_adds_scheme_to_bare_host() {
    assert_eq!(config("192.168.1.50", 11434).ollama_base_url(), "http://192.168.1.50:11434");
    assert_eq!(config("localhost:8000", 11434).ollama_base_url(), "http://localhost:8000");
}

#[test]
fn base_url_with_ipv6_host() {
    assert_eq!(config("http://[::1]", 11434).ollama_base_url(), "http://[::1]:11434");
    assert_eq!(config("http://[::1]:9000", 11434).ollama_base_url(), "http://[::1]:9000");
}

#[test]
fn listen_addr_joins_bind_and_port() {
    assert_eq!(Config::default().listen_addr(), "0.0.0.0:3000");
    let mut c = Config::default();
    c.server_bind = "127.0.0.1".to_string();
    c.server_port = 0;
    assert_eq!(c.listen_addr(), "127.0.0.1:0");
}

#[test]
fn cfg_for_ollama_points_at_mock() {
    let c = cfg_for_ollama("http://127.0.0.1:41234");
    assert_eq!(c.ollama_host, "http://127.0.0.1:41234");
    assert_eq!(c.ollama_port, 0);
    assert_eq!(c.server_bind, "127.0.0.1");
    assert_eq!(c.server_port, 0);
    assert_eq!(c.refresh_interval_secs, 1);
    assert_eq!(c.gpu_device_index, 0);
    assert_eq!(c.ollama_base_url(), "http://127.0.0.1:41234");
}

#[test]
fn base_url_is_stable_when_fed_back() {
    for (host, port) in [("http://127.0.0.1", 11434), ("10.0.0.2", 80), ("https://h:1", 5), ("[::1]", 7)] {
        let once = config(host, port).ollama_base_url();
        let twice = config(&once, port).ollama_base_url();
        assert_eq!(once, twice);
    }
}

#[test]
fn written_port_reads_back() {
    let mut c = Config::default();
    c.server_port = 65535;
    let addr = c.listen_addr();
    let port_text = addr.rsplit(':').next().unwrap().to_string();
    let mut vars = no_vars();
    vars.server_port = Some(port_text);
    assert_eq!(Config::load(&vars).server_port, 65535);
}

#[test]
fn invalid_numbers_are_reported_by_name_and_value() {
    let vars = ConfigVars {
        ollama_host: Some("not checked".to_string()),
        ollama_port: Some("70000".to_string()),
        server_bind: None,
        server_port: Some("8080".to_string()),
        refresh_interval_secs: Some("-5".to_string()),
        gpu_device_index: Some("".to_string()),
    };
    let invalid = invalid_settings(&vars);
    assert_eq!(
        invalid,
        vec![
            ("OLLAMA_PORT".to_string(), "70000".to_string()),
            ("REFRESH_INTERVAL_SECS".to_string(), "-5".to_string()),
            ("GPU_DEVICE_INDEX".to_string(), "".to_string()),
        ]
    );
}

#[test]
fn nothing_reported_for_valid_or_unset_numbers() {
    assert!(invalid_settings(&no_vars()).is_empty());
    let vars = ConfigVars {
        ollama_host: None,
        ollama_port: Some("11435".to_string()),
        server_bind: None,
        server_port: None,
        refresh_interval_secs: Some("30".to_string()),
        gpu_device_index: Some("1".to_string()),
    };
    assert!(invalid_settings(&vars).is_empty());
}
