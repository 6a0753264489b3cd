use vgrep::config::{
    default_chunk_overlap, default_chunk_size, default_context_size, default_embedding_model,
    default_max_file_size, default_max_results, default_reranker_model, default_server_host,
    default_server_port, default_use_reranker, default_watch_debounce_ms, validate_server_host,
    Config, ConfigError, EnvOverrides, HostError, Mode,
};

fn no_env() -> EnvOverrides {
    EnvOverrides {
        host: None,
        port: None,
        chunk_size: None,
        chunk_overlap: None,
        max_file_size: None,
        max_results: None,
        watch_debounce: None,
    }
}

#[test]
fn test_server_host_validation() {
    let mut config = Config::from_env(&no_env());

    // Invalid cases
    assert!(config.set_server_host("".to_string()).is_err());
    assert!(config.set_server_host("   ".to_string()).is_err());
    assert!(config.set_server_host("http://localhost".to_string()).is_err());
    assert!(config.set_server_host("127.0.0.1:8080".to_string()).is_err());
    assert!(config.set_server_host("invalid host!".to_string()).is_err());
    assert!(config.set_server_host("host with space".to_string()).is_err());

    // A valid host passes validation.
    let res = config.set_server_host("localhost".to_string());
    if let Err(e) = &res {
        println!("Failed validation unexpectedly: {:?}", e);
    }
    assert!(res.is_ok());
    assert_eq!(config.server_host, "localhost");
}

#[test]
fn host_errors_name_the_problem() {
    assert_eq!(validate_server_host(""), Err(HostError::Empty));
    assert_eq!(validate_server_host(" \t "), Err(HostError::Empty));
    assert_eq!(validate_server_host("http://localhost"), Err(HostError::HasProtocol));
    assert_eq!(validate_server_host("127.0.0.1:8080"), Err(HostError::HasPort));
    assert_eq!(validate_server_host("host with space"), Err(HostError::InvalidCharacters));
    assert_eq!(validate_server_host("bad\u{7}host"), Err(HostError::InvalidCharacters));
    assert_eq!(validate_server_host("localhost"), Ok(()));
    assert_eq!(validate_server_host("10.0.0.1"), Ok(()));
    // A bracketed IPv6 address is not read for a port.
    assert_eq!(validate_server_host("[::1]"), Ok(()));
    // A colon that is not an address with a port is allowed.
    assert_eq!(validate_server_host("fe80::1"), Ok(()));
}

#[test]
fn refused_host_leaves_config_unchanged() {
    let mut config = Config::from_env(&no_env());
    let before = config.server_host.clone();
    let r = config.set_server_host("http://x".to_string());
    assert!(matches!(r, Err(ConfigError::InvalidHost(HostError::HasProtocol))));
    assert_eq!(config.server_host, before);
}

#[test]
fn defaults_without_environment() {
    let c = Config::from_env(&no_env());
    assert_eq!(c.mode, Mode::Server);
    assert_eq!(c.server_host, "127.0.0.1");
    assert_eq!(c.server_port, 7777);
    assert!(!c.auto_start_server);
    assert_eq!(c.embedding_model, "Qwen3-Embedding-0.6B-Q8_0.gguf");
    assert_eq!(c.reranker_model, "Qwen3-Reranker-0.6B-Q4_K_M.gguf");
    assert!(c.use_reranker);
    assert_eq!(c.models_dir, None);
    assert_eq!(c.chunk_size, 512);
    assert_eq!(c.chunk_overlap, 64);
    assert_eq!(c.max_file_size, 512 * 1024);
    assert_eq!(c.max_results, 10);
    assert!(!c.show_content);
    assert_eq!(c.watch_debounce_ms, 500);
    assert_eq!(c.n_threads, 0);
    assert_eq!(c.context_size, 512);
    assert_eq!(default_embedding_model(), "Qwen3-Embedding-0.6B-Q8_0.gguf");
    assert_eq!(default_reranker_model(), "Qwen3-Reranker-0.6B-Q4_K_M.gguf");
    assert_eq!(default_context_size(), 512);
    assert!(default_use_reranker());
}

#[test]
fn environment_values_override_defaults() {
    let env = EnvOverrides {
        host: Some("0.0.0.0".to_string()),
        port: Some("8080".to_string()),
        chunk_size: Some("+1024".to_string()),
        chunk_overlap: Some("abc".to_string()),
        max_file_size: Some("".to_string()),
        max_results: Some("25".to_string()),
        watch_debounce: Some("-5".to_string()),
    };
    let c = Config::from_env(&env);
    assert_eq!(c.server_host, "0.0.0.0");
    assert_eq!(c.server_port, 8080);
    assert_eq!(c.chunk_size, 1024);
    assert_eq!(c.chunk_overlap, 64);
    assert_eq!(c.max_file_size, 524288);
    assert_eq!(c.max_results, 25);
    assert_eq!(c.watch_debounce_ms, 500);
}

#[test]
fn port_out_of_range_falls_back() {
    assert_eq!(default_server_port(&Some("65535".to_string())), 65535);
    assert_eq!(default_server_port(&Some("65536".to_string())), 7777);
    assert_eq!(default_server_port(&Some("+".to_string())), 7777);
    assert_eq!(default_server_port(&None), 7777);
    assert_eq!(default_server_host(None), "127.0.0.1");
    assert_eq!(default_chunk_size(&Some("007".to_string())), 7);
    assert_eq!(default_chunk_overlap(&None), 64);
    assert_eq!(default_max_file_size(&Some("18446744073709551615".to_string())), u64::MAX);
    assert_eq!(default_max_file_size(&Some("18446744073709551616".to_string())), 524288);
    assert_eq!(default_max_results(&Some(" 5".to_string())), 10);
    assert_eq!(default_watch_debounce_ms(&Some("250".to_string())), 250);
}

#[test]
fn mode_names_read_back() {
    assert_eq!(Mode::parse("server").unwrap(), Mode::Server);
    assert_eq!(Mode::parse("LOCAL").unwrap(), Mode::Local);
    assert_eq!(Mode::parse("Server").unwrap(), Mode::Server);
    assert!(matches!(Mode::parse("remote"), Err(ConfigError::InvalidMode(s)) if s == "remote"));
    for m in [Mode::Server, Mode::Local] {
        assert_eq!(Mode::parse(m.as_str()).unwrap(), m);
    }
    assert_eq!(Mode::Server.as_str(), "server");
    assert_eq!(Mode::Local.as_str(), "local");
    assert_eq!(Mode::default(), Mode::Server);
    let parsed: Mode = "local".parse().unwrap();
    assert_eq!(parsed, Mode::Local);
}

#[test]
fn setters_change_one_value() {
    let mut c = Config::from_env(&no_env());
    c.set_mode(Mode::Local);
    c.set_server_port(9000);
    c.set_embedding_model("e.gguf".to_string());
    c.set_reranker_model("r.gguf".to_string());
    c.set_use_reranker(false);
    c.set_models_dir(Some("/models".to_string()));
    c.set_max_file_size(1);
    c.set_max_results(2);
    c.set_show_content(true);
    c.set_chunk_size(3);
    c.set_chunk_overlap(4);
    c.set_n_threads(5);
    c.set_context_size(6);
    c.set_watch_debounce(7);
    assert_eq!(c.mode, Mode::Local);
    assert_eq!(c.server_port, 9000);
    assert_eq!(c.embedding_model, "e.gguf");
    assert_eq!(c.reranker_model, "r.gguf");
    assert!(!c.use_reranker);
    assert_eq!(c.models_dir, Some("/models".to_string()));
    assert_eq!(c.max_file_size, 1);
    assert_eq!(c.max_results, 2);
    assert!(c.show_content);
    assert_eq!(c.chunk_size, 3);
    assert_eq!(c.chunk_overlap, 4);
    assert_eq!(c.n_threads, 5);
    assert_eq!(c.context_size, 6);
    assert_eq!(c.watch_debounce_ms, 7);
    assert_eq!(c.server_host, "127.0.0.1");
}

#[test]
fn thread_count() {
    let mut c = Config::from_env(&no_env());
    assert_eq!(c.get_n_threads(Some(8)), 8);
    assert_eq!(c.get_n_threads(None), 4);
    c.set_n_threads(3);
    assert_eq!(c.get_n_threads(Some(8)), 3);
}

#[test]
fn paths_under_config_dir() {
    assert_eq!(Config::config_dir_for_home("/home/u"), "/home/u/.vgrep");
    assert_eq!(Config::config_dir_for_home("/home/u/"), "/home/u/.vgrep");
    let mut c = Config::from_env(&no_env());
    assert_eq!(c.models_dir_in("/home/u/.vgrep"), "/home/u/.vgrep/models");
    c.set_models_dir(Some("/opt/models".to_string()));
    assert_eq!(c.models_dir_in("/home/u/.vgrep"), "/opt/models");
    assert_eq!(c.get_models_dir().unwrap(), "/opt/models");
    // A relative model name is looked for under the custom models directory.
    assert_eq!(c.embedding_model_path().unwrap(), "/opt/models/Qwen3-Embedding-0.6B-Q8_0.gguf");
    assert_eq!(c.reranker_model_path().unwrap(), "/opt/models/Qwen3-Reranker-0.6B-Q4_K_M.gguf");
    // An absolute model path that does not exist is also looked for there (join keeps it).
    c.set_embedding_model("/nonexistent/dir/model.gguf".to_string());
    assert_eq!(c.embedding_model_path().unwrap(), "/nonexistent/dir/model.gguf");
    assert!(!c.has_embedding_model());
}

#[test]
fn project_database_names() {
    let h = Config::hash_path("/home/user/project");
    assert_eq!(h.len(), 16);
    assert!(h.chars().all(|c| c.is_ascii_hexdigit() && !c.is_ascii_uppercase()));
    assert_eq!(Config::hash_path(""), "e3b0c44298fc1c14");
    assert_eq!(Config::hash_path("abc"), "ba7816bf8f01cfea");
    let p = Config::project_db_path_in("/home/u/.vgrep", "abc");
    assert_eq!(p, "/home/u/.vgrep/projects/ba7816bf8f01cfea.db");
    assert_ne!(Config::hash_path("/a"), Config::hash_path("/b"));
}

#[test]
fn global_paths_follow_home() {
    match (Config::global_config_dir(), Config::global_config_path()) {
        (Ok(d), Ok(p)) => {
            assert!(d.ends_with(".vgrep"));
            assert_eq!(p, format!("{}/config.json", d));
            let db = Config::get_project_db_path("abc").unwrap();
            assert_eq!(db, format!("{}/projects/ba7816bf8f01cfea.db", d));
            let c = Config::from_env(&no_env());
            assert_eq!(c.get_models_dir().unwrap(), format!("{}/models", d));
        }
        (Err(ConfigError::NoHomeDirectory), Err(ConfigError::NoHomeDirectory)) => {}
        other => panic!("unexpected: {:?}", other),
    }
}

#[test]
fn config_file_lies_in_config_dir() {
    assert_eq!(Config::config_path_in("/home/u/.vgrep"), "/home/u/.vgrep/config.json");
    assert_eq!(Config::config_path_in("/home/u/.vgrep/"), "/home/u/.vgrep/config.json");
}

#[test]
fn models_dir_is_skipped_only_for_an_existing_absolute_file() {
    assert!(!Config::uses_models_dir("/models/m.gguf", true));
    assert!(Config::uses_models_dir("/models/m.gguf", false));
    assert!(Config::uses_models_dir("m.gguf", true));
    assert!(Config::uses_models_dir("m.gguf", false));
}

#[test]
fn existing_absolute_model_is_found() {
    let mut c = Config::from_env(&no_env());
    c.set_models_dir(Some("/nonexistent/models".to_string()));
    assert!(!c.has_reranker_model());
    c.set_reranker_model("/".to_string());
    assert_eq!(c.reranker_model_path().unwrap(), "/");
    assert!(c.has_reranker_model());
}

#[test]
fn error_messages() {
    assert_eq!(HostError::Empty.message(), "Server host cannot be empty");
    assert_eq!(
        HostError::HasProtocol.message(),
        "Server host should not contain protocol (e.g. http://). Use hostname or IP only."
    );
    assert_eq!(
        HostError::HasPort.message(),
        "Server host should not contain port. Set port using server_port configuration."
    );
    assert_eq!(HostError::InvalidCharacters.message(), "Server host contains invalid characters");
    assert_eq!(ConfigError::NoHomeDirectory.message(), "Cannot find home directory");
    assert_eq!(
        ConfigError::InvalidMode("remote".to_string()).message(),
        "Invalid mode: remote. Use 'server' or 'local'"
    );
    assert_eq!(
        ConfigError::InvalidHost(HostError::HasPort).message(),
        HostError::HasPort.message()
    );
    let mut c = Config::from_env(&no_env());
    let e = c.set_server_host("".to_string()).unwrap_err();
    assert_eq!(e.message(), "Server host cannot be empty");
    let e = Mode::parse("remote").unwrap_err();
    assert_eq!(e.message(), "Invalid mode: remote. Use 'server' or 'local'");
}

#[test]
fn existing_absolute_model_path_is_used_as_is() {
    let mut c = Config::from_env(&no_env());
    assert_eq!(c.model_path_given("/x/m.gguf", true).unwrap(), "/x/m.gguf");
    c.set_models_dir(Some("/opt/models".to_string()));
    assert_eq!(c.model_path_given("/x/m.gguf", true).unwrap(), "/x/m.gguf");
    assert_eq!(c.model_path_given("m.gguf", true).unwrap(), "/opt/models/m.gguf");
    assert_eq!(c.model_path_given("m.gguf", false).unwrap(), "/opt/models/m.gguf");
    assert_eq!(c.model_path_given("/x/m.gguf", false).unwrap(), "/x/m.gguf");
}
