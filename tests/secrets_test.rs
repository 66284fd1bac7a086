use exoclaw::secrets::{
    credentials_dir_for, default_model_for_provider, default_provider_choice, key_file_path_for,
    key_from_contents, key_to_store, normalize_provider, provider_display_name, resolve_provider, SecretsError,
};

#[test]
fn provider_names_are_normalized() {
    assert_eq!(normalize_provider("  OpenAI ").unwrap(), "openai");
    assert_eq!(normalize_provider("anthropic").unwrap(), "anthropic");
    let err = normalize_provider("deepmind").unwrap_err();
    assert_eq!(err, SecretsError::UnsupportedProvider("deepmind".into()));
    assert!(err.to_string().contains("unsupported provider"));
    assert!(resolve_provider("Gemini").is_err());
}

#[test]
fn key_paths() {
    assert_eq!(credentials_dir_for("/home/u/.exoclaw"), "/home/u/.exoclaw/credentials");
    assert_eq!(key_file_path_for("/s/", "OpenAI").unwrap(), "/s/credentials/openai.key");
    assert!(key_file_path_for("/s", "x").is_err());
}

#[test]
fn key_contents_are_trimmed() {
    assert_eq!(key_from_contents("  sk-123\n"), Some("sk-123".to_string()));
    assert_eq!(key_from_contents(""), None);
    assert_eq!(key_from_contents("  \n\t "), None);
    assert_eq!(key_to_store(" k "), Ok("k".to_string()));
    assert_eq!(key_to_store("   "), Err(SecretsError::EmptyKey));
}

#[test]
fn onboarding_defaults() {
    assert_eq!(default_provider_choice("openai"), "openai");
    assert_eq!(default_provider_choice("weird"), "anthropic");
    assert_eq!(provider_display_name("openai"), "OpenAI");
    assert_eq!(provider_display_name("anthropic"), "Anthropic");
    assert_eq!(default_model_for_provider("openai"), "gpt-4o");
}
