use agentsdk::error::AgentSdkError;
use agentsdk::openai::{ModelConfig, OpenAI};

fn config() -> ModelConfig {
    ModelConfig { base_url: "http://localhost".into(), api_key: "sk-test".into(), model: "gpt-4o".into() }
}

#[test]
fn test_openai_builder_with_config() {
    let client = OpenAI::builder().config(config()).build().unwrap();
    assert_eq!(client.config.model, "gpt-4o");
}

#[test]
fn test_openai_builder_missing_config() {
    let err = OpenAI::builder().build();
    assert!(err.is_err());
    match err {
        Err(AgentSdkError::ConfigError(m)) => assert_eq!(m, "config required"),
        _ => panic!("expected a configuration error"),
    }
}

#[test]
fn configuration_comes_from_the_variables() {
    let c = ModelConfig::from_vars(None, Some("k".into()), Some("m".into())).unwrap();
    assert_eq!(c.base_url, "https://api.openai.com/v1");
    match ModelConfig::from_vars(None, None, Some("m".into())) {
        Err(AgentSdkError::ConfigError(m)) => assert_eq!(m, "OPENAI_API_KEY not set"),
        _ => panic!("expected a missing key"),
    }
    match ModelConfig::from_vars(Some("u".into()), Some("k".into()), None) {
        Err(e) => {
            assert_eq!(e.message().as_deref(), Some("Configuration error: OPENAI_MODEL not set"));
            assert_eq!(e.status_code(), None);
            assert!(!e.is_transport());
        }
        _ => panic!("expected a missing model"),
    }
}
