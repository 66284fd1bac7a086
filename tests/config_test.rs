use exoclaw::config::{validate, BindingConfig, ConfigError, ExoclawConfig, MemoryConfig};

#[test]
fn default_config_has_sensible_values() {
    let config = ExoclawConfig::default();
    assert_eq!(config.gateway.port, 7200);
    assert_eq!(config.gateway.bind, "127.0.0.1");
    assert_eq!(config.agent.provider, "anthropic");
    assert_eq!(config.agent.model, "sonnet-4-5-20250929");
    assert_eq!(config.agent.max_tokens, 4096);
    assert!(config.agent.api_key.is_none());
    assert!(config.plugins.is_empty());
    assert!(config.bindings.is_empty());
}

#[test]
fn config_test_memory_config_defaults() {
    let config = MemoryConfig::default();
    assert_eq!(config.episodic_window, 5);
    assert!(config.semantic_enabled);
}

#[test]
fn default_config_validates() {
    assert!(validate(&ExoclawConfig::default()).is_ok());
}

#[test]
fn invalid_provider_rejected_by_validate() {
    let mut config = ExoclawConfig::default();
    config.agent.provider = "deepmind".to_string();
    let err = validate(&config).unwrap_err();
    assert_eq!(err, ConfigError::InvalidProvider("deepmind".to_string()));
    assert!(err.to_string().contains("invalid provider 'deepmind'"));
}

#[test]
fn zero_max_tokens_rejected() {
    let mut config = ExoclawConfig::default();
    config.agent.max_tokens = 0;
    assert_eq!(validate(&config).unwrap_err(), ConfigError::ZeroMaxTokens);
}

#[test]
fn binding_without_discriminator_rejected() {
    let mut config = ExoclawConfig::default();
    config.bindings.push(BindingConfig {
        agent_id: "a".into(),
        channel: Some("ws".into()),
        account_id: None,
        peer_id: None,
        guild_id: None,
        team_id: None,
    });
    config.bindings.push(BindingConfig {
        agent_id: "b".into(),
        channel: None,
        account_id: None,
        peer_id: None,
        guild_id: None,
        team_id: None,
    });
    assert_eq!(validate(&config).unwrap_err(), ConfigError::EmptyBinding(1));
}

#[test]
fn empty_binding_message_names_its_index() {
    assert_eq!(
        ConfigError::EmptyBinding(2).to_string(),
        "binding[2] must have at least one of: channel, account_id, peer_id, guild_id, team_id"
    );
}
