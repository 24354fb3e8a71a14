use orion_agent_core::config::{AllowedUser, OrionConfig, ProviderConfig, TelegramConfig};

fn telegram_with(users: Vec<AllowedUser>) -> TelegramConfig {
    let mut t = TelegramConfig::default();
    t.allowed_users = users;
    t
}

#[test]
fn test_allowed_users_ids_only() {
    let t = telegram_with(vec![AllowedUser::Id(111), AllowedUser::Id(222)]);
    assert_eq!(t.allowed_user_ids(), vec![111, 222]);
    assert!(t.allowed_usernames().is_empty());
}

#[test]
fn test_allowed_users_usernames_only() {
    let t = telegram_with(vec![AllowedUser::Username("alice".into()), AllowedUser::Username("Bob".into())]);
    assert!(t.allowed_user_ids().is_empty());
    assert_eq!(t.allowed_usernames(), vec!["alice", "bob"]);
}

#[test]
fn test_allowed_users_mixed() {
    let t = telegram_with(vec![
        AllowedUser::Id(123456789),
        AllowedUser::Username("alice".into()),
        AllowedUser::Id(987654321),
        AllowedUser::Username("Bob".into()),
    ]);
    assert_eq!(t.allowed_user_ids(), vec![123456789, 987654321]);
    assert_eq!(t.allowed_usernames(), vec!["alice", "bob"]);
}

#[test]
fn test_allowed_users_empty() {
    let t = telegram_with(vec![]);
    assert!(t.allowed_user_ids().is_empty());
    assert!(t.allowed_usernames().is_empty());
}

#[test]
fn test_allowed_users_default() {
    let config = OrionConfig::with_defaults("m".to_string());
    assert!(config.telegram.allowed_users.is_empty());
    assert_eq!(TelegramConfig::default().stream_mode, "final_only");
}

#[test]
fn resolved_api_key_prefers_config_then_environment() {
    let mut config = OrionConfig::with_defaults("m".to_string());
    assert_eq!(config.resolved_api_key(Some("env".into())), Some("env".to_string()));
    assert_eq!(config.resolved_api_key(None), None);
    config.providers.anthropic = Some(ProviderConfig {
        enabled: true,
        api_key: Some("cfg".into()),
        base_url: None,
        models: vec![],
    });
    assert_eq!(config.resolved_api_key(Some("env".into())), Some("cfg".to_string()));
}
