use auto_claude::config::loader::{
    agent_env_overrides, first_non_empty_env, parse_unsigned_exec, service_env_overrides,
    split_csv, NumberFault,
};
use auto_claude::config::model::{LoggingConfig, McpConfig, ServerConfig};

fn env_map(items: &[(&str, &str)]) -> Vec<(String, String)> {
    items
        .iter()
        .map(|(key, value)| ((*key).to_string(), (*value).to_string()))
        .collect()
}

#[test]
fn env_overrides_support_aliases_and_ignore_blank_values() {
    let env = env_map(&[
        ("MODEL_ID", "legacy-model"),
        ("AGENT_MODEL_ID", "modern-model"),
        ("ANTHROPIC_BASE_URL", "   "),
        ("AGENT_BASE_URL", " http://llm.example/v1 "),
        ("AGENT_API_KEY", " secret "),
        ("AGENT_MAX_TOKENS", "9000"),
        ("AGENT_TEMPERATURE", "0.3"),
        ("AGENT_TOP_P", "0.9"),
        ("SERVER_HOST", "127.0.0.1"),
        ("SERVER_PORT", "19000"),
        ("CORS_ALLOW_ORIGINS", "http://a.example, http://b.example"),
        ("CORS_ALLOW_CREDENTIALS", "true"),
        ("CORS_ALLOW_METHODS", "GET, POST"),
        ("CORS_ALLOW_HEADERS", "Authorization, Content-Type"),
        ("MCP_BASE_URL", "http://mcp.example/mcp"),
        ("MCP_TIMEOUT", "120"),
        ("MCP_CONNECT_TIMEOUT", "5"),
        ("LOG_DIR", "runtime-logs"),
    ]);

    let (agent, error) = agent_env_overrides(&env);
    assert!(error.is_none());
    assert_eq!(agent.model_id.as_deref(), Some("modern-model"));
    assert_eq!(agent.base_url.as_deref(), Some("http://llm.example/v1"));
    assert_eq!(agent.api_key.as_deref(), Some("secret"));
    assert_eq!(agent.max_tokens, Some(9000));

    let (server, mcp, logging, refused) = service_env_overrides(
        &env,
        &ServerConfig::default(),
        &McpConfig::default(),
        &LoggingConfig::default(),
    );
    assert!(refused.is_none());
    assert_eq!(server.host, "127.0.0.1");
    assert_eq!(server.port, 19000);
    assert_eq!(
        server.cors.allow_origins,
        vec!["http://a.example", "http://b.example"]
    );
    assert!(server.cors.allow_credentials);
    assert_eq!(server.cors.allow_methods, vec!["GET", "POST"]);
    assert_eq!(
        server.cors.allow_headers,
        vec!["Authorization", "Content-Type"]
    );
    assert_eq!(mcp.base_url, "http://mcp.example/mcp");
    assert_eq!(mcp.timeout, 120);
    assert_eq!(mcp.connect_timeout, 5);
    assert_eq!(logging.dir, "runtime-logs");
}

#[test]
fn legacy_env_names_still_work() {
    let env = env_map(&[
        ("MODEL_ID", "legacy-model"),
        ("ANTHROPIC_BASE_URL", "http://legacy.example/v1"),
        ("MCP_BASE_URL", "http://legacy.example/mcp"),
    ]);
    let (agent, error) = agent_env_overrides(&env);
    assert!(error.is_none());
    assert_eq!(agent.model_id.as_deref(), Some("legacy-model"));
    assert_eq!(agent.base_url.as_deref(), Some("http://legacy.example/v1"));
    let (server, mcp, _, refused) = service_env_overrides(
        &env,
        &ServerConfig::default(),
        &McpConfig::default(),
        &LoggingConfig::default(),
    );
    assert!(refused.is_none());
    assert_eq!(mcp.base_url, "http://legacy.example/mcp");
    assert_eq!(server.port, 8080);
    assert_eq!(server.host, "0.0.0.0");
}

#[test]
fn invalid_numeric_or_sampling_overrides_fail_fast() {
    let env = env_map(&[
        ("AGENT_MAX_TOKENS", "0"),
        ("AGENT_TEMPERATURE", "2.5"),
        ("AGENT_TOP_P", "1.2"),
    ]);
    let (_, error) = agent_env_overrides(&env);
    let err = error.expect("invalid env overrides should fail");
    let message = err.message();
    assert!(message.contains("AGENT_MAX_TOKENS"));
    assert_eq!(message, "AGENT_MAX_TOKENS must be greater than 0");
}

#[test]
fn numbers_parse_like_str_parse() {
    assert_eq!(parse_unsigned_exec("+42", 65535), Ok(42));
    assert_eq!(parse_unsigned_exec("", 65535), Err(NumberFault::Empty));
    assert_eq!(parse_unsigned_exec("+", 65535), Err(NumberFault::InvalidDigit));
    assert_eq!(parse_unsigned_exec("-1", 65535), Err(NumberFault::InvalidDigit));
    assert_eq!(parse_unsigned_exec("65536", 65535), Err(NumberFault::Overflow));
    assert_eq!(parse_unsigned_exec("99999x", 65535), Err(NumberFault::Overflow));
    assert_eq!(parse_unsigned_exec("12x", 65535), Err(NumberFault::InvalidDigit));
    for raw in ["", "+", "-1", "65536", "99999x", "12x", "+7", "0"] {
        let ours = parse_unsigned_exec(raw, 65535).ok();
        let std_parse = raw.parse::<u16>().ok().map(|v| v as u64);
        assert_eq!(ours, std_parse, "{raw}");
    }
}

#[test]
fn bad_port_is_reported_with_std_wording() {
    let env = env_map(&[("SERVER_PORT", "70000"), ("MCP_TIMEOUT", "0")]);
    let (_, _, _, refused) = service_env_overrides(
        &env,
        &ServerConfig::default(),
        &McpConfig::default(),
        &LoggingConfig::default(),
    );
    let err = refused.unwrap();
    let expected = format!(
        "invalid SERVER_PORT value: 70000 ({})",
        "70000".parse::<u16>().unwrap_err()
    );
    assert_eq!(err.message(), expected);
}

#[test]
fn csv_lists_are_trimmed_and_skip_blanks() {
    assert_eq!(split_csv(" a, ,b ,"), vec!["a", "b"]);
    assert!(split_csv(" , ").is_empty());
    let env = env_map(&[("A", "  "), ("B", " x ")]);
    assert_eq!(
        first_non_empty_env(&env, &vec!["A", "B"]).as_deref(),
        Some("x")
    );
    assert_eq!(first_non_empty_env(&env, &vec!["C"]), None);
}

#[test]
fn overrides_read_before_a_refused_limit_are_kept() {
    let env = env_map(&[
        ("AGENT_MODEL_ID", "kept-model"),
        ("AGENT_API_KEY", " key "),
        ("AGENT_MAX_TOKENS", "many"),
    ]);
    let (agent, error) = agent_env_overrides(&env);
    assert_eq!(agent.model_id.as_deref(), Some("kept-model"));
    assert_eq!(agent.api_key.as_deref(), Some("key"));
    assert_eq!(agent.max_tokens, None);
    assert!(error.unwrap().message().contains("AGENT_MAX_TOKENS"));
}

#[test]
fn overrides_read_before_a_refused_service_number_are_kept() {
    let env = env_map(&[
        ("SERVER_HOST", "10.0.0.1"),
        ("SERVER_PORT", "9001"),
        ("MCP_BASE_URL", "http://mcp.example"),
        ("MCP_TIMEOUT", "0"),
        ("MCP_CONNECT_TIMEOUT", "7"),
        ("LOG_DIR", "elsewhere"),
    ]);
    let defaults = McpConfig::default();
    let (server, mcp, logging, refused) = service_env_overrides(
        &env,
        &ServerConfig::default(),
        &defaults,
        &LoggingConfig::default(),
    );
    assert_eq!(refused.unwrap().message(), "MCP_TIMEOUT must be greater than 0");
    assert_eq!(server.host, "10.0.0.1");
    assert_eq!(server.port, 9001);
    assert_eq!(mcp.base_url, "http://mcp.example");
    assert_eq!(mcp.timeout, defaults.timeout);
    assert_eq!(mcp.connect_timeout, defaults.connect_timeout);
    assert_eq!(logging.dir, LoggingConfig::default().dir);

    let env = env_map(&[("SERVER_HOST", "10.0.0.2"), ("SERVER_PORT", "x"), ("MCP_BASE_URL", "http://m")]);
    let (server, mcp, _, refused) = service_env_overrides(
        &env,
        &ServerConfig::default(),
        &McpConfig::default(),
        &LoggingConfig::default(),
    );
    assert!(refused.is_some());
    assert_eq!(server.host, "10.0.0.2");
    assert_eq!(server.port, ServerConfig::default().port);
    assert_eq!(mcp.base_url, McpConfig::default().base_url);
}
