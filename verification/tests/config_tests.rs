use gql_api_tester::config::{Config, Environment};

fn create_test_config() -> Config {
    Config {
        environments: vec![
            Environment::new("test", None),
            Environment::new("development", None),
            Environment::new("production", Some("https://example.com/graphql".to_string())),
        ],
        default_environment: Some("development".to_string()),
        default_graphql_endpoint: Some("localhost:3000/graphql".to_string()),
    }
}

#[test]
fn test_to_yaml() {
    assert_eq!(
        create_test_config(),
        Config::parse_yaml(&create_test_config().to_yaml()).unwrap()
    );
}

#[test]
fn test_get_environment() {
    let config = create_test_config();

    let env = config.environment("test").unwrap();
    assert_eq!("test".to_string(), env.name);
}

#[test]
fn test_graphql_endpoint_should_default_when_no_env() {
    assert_eq!(
        "localhost:3000/graphql".to_string(),
        create_test_config().graphql_endpoint(None)
    );
}

#[test]
fn test_graphql_endpoint_should_default_when_no_default_in_env() {
    assert_eq!(
        "localhost:3000/graphql".to_string(),
        create_test_config().graphql_endpoint(Some(&"test"))
    );
}

#[test]
fn test_graphql_endpoint_should_be_from_env() {
    assert_eq!(
        "https://example.com/graphql".to_string(),
        create_test_config().graphql_endpoint(Some(&"production"))
    );
}

#[test]
fn test_graphql_endpoint_should_get_from_default_env() {
    let config = Config {
        environments: vec![Environment::new("dev", Some("blah".to_string()))],
        default_environment: Some("dev".to_string()),
        default_graphql_endpoint: None,
    };

    assert_eq!("blah".to_string(), config.graphql_endpoint(None));
}

#[test]
fn test_graphql_endpoint_should_get_from_default_env_when_given() {
    let config = Config {
        environments: vec![Environment::new("dev", Some("blah".to_string()))],
        default_environment: Some("dev".to_string()),
        default_graphql_endpoint: Some("foobar".to_string()),
    };

    assert_eq!("blah".to_string(), config.graphql_endpoint(None));
}

#[test]
fn test_graphql_endpoint_should_not_get_from_default_env_when_given_but_no_url() {
    let config = Config {
        environments: vec![Environment::new("dev", None)],
        default_environment: Some("dev".to_string()),
        default_graphql_endpoint: Some("foobar".to_string()),
    };

    assert_eq!("foobar".to_string(), config.graphql_endpoint(None));
}

#[test]
fn test_default_config_shape() {
    let config = Config::default();

    assert_eq!(3, config.environments.len());
    assert_eq!("test".to_string(), config.environments[0].name);
    assert_eq!("development".to_string(), config.environments[1].name);
    assert_eq!("production".to_string(), config.environments[2].name);
    assert!(config.environments.iter().all(|e| e.graphql_endpoint.is_none()));
    assert_eq!(Some("development".to_string()), config.default_environment);
    assert_eq!(
        Some("localhost:3000/graphql".to_string()),
        config.default_graphql_endpoint
    );
}

#[test]
fn test_environment_first_match_on_duplicate_names() {
    let config = Config {
        environments: vec![
            Environment::new("dev", Some("first".to_string())),
            Environment::new("dev", Some("second".to_string())),
        ],
        default_environment: None,
        default_graphql_endpoint: None,
    };

    let env = config.environment("dev").unwrap();
    assert_eq!(Some("first".to_string()), env.graphql_endpoint);
    assert_eq!("first".to_string(), config.graphql_endpoint(Some("dev")));
}

#[test]
fn test_environment_absent_name_yields_none() {
    let config = create_test_config();

    assert!(config.environment("staging").is_none());
}

#[test]
fn test_requested_env_wins_over_defaults() {
    let config = Config {
        environments: vec![
            Environment::new("a", Some("endpoint-a".to_string())),
            Environment::new("b", Some("endpoint-b".to_string())),
        ],
        default_environment: Some("b".to_string()),
        default_graphql_endpoint: Some("fallback".to_string()),
    };

    assert_eq!("endpoint-a".to_string(), config.graphql_endpoint(Some("a")));
}

#[test]
fn test_builtin_constant_when_nothing_configured() {
    let config = Config {
        environments: vec![],
        default_environment: None,
        default_graphql_endpoint: None,
    };

    assert_eq!(
        "localhost:3000/graphql".to_string(),
        config.graphql_endpoint(None)
    );
    assert_eq!(
        "localhost:3000/graphql".to_string(),
        config.graphql_endpoint(Some("missing"))
    );
}

#[test]
fn test_to_yaml_exact_document() {
    let config = Config {
        environments: vec![
            Environment::new("dev", None),
            Environment::new("production", Some("https://example.com/graphql".to_string())),
        ],
        default_environment: Some("dev".to_string()),
        default_graphql_endpoint: None,
    };

    let expected = "environments:\n\
        - name: dev\n\
        \x20 graphql_endpoint: null\n\
        - name: production\n\
        \x20 graphql_endpoint: https://example.com/graphql\n\
        default_environment: dev\n\
        default_graphql_endpoint: null\n";
    assert_eq!(expected.to_string(), config.to_yaml());
}

#[test]
fn test_round_trip_empty_environments() {
    let config = Config {
        environments: vec![],
        default_environment: None,
        default_graphql_endpoint: Some("foobar".to_string()),
    };

    assert_eq!(config, Config::parse_yaml(&config.to_yaml()).unwrap());
}

#[test]
fn test_parse_yaml_rejects_malformed_document() {
    assert!(Config::parse_yaml("").is_none());
    assert!(Config::parse_yaml("nonsense\n").is_none());
    assert!(Config::parse_yaml("environments:\n- name: dev\n").is_none());
}

#[test]
fn test_parse_yaml_accepts_handwritten_document() {
    let doc = "environments:\n\
        - name: staging\n\
        \x20 graphql_endpoint: https://staging.example.com/graphql\n\
        default_environment: staging\n\
        default_graphql_endpoint: null\n";
    let config = Config::parse_yaml(doc).unwrap();

    assert_eq!(1, config.environments.len());
    assert_eq!("staging".to_string(), config.environments[0].name);
    assert_eq!(
        "https://staging.example.com/graphql".to_string(),
        config.graphql_endpoint(None)
    );
    assert_eq!(None, config.default_graphql_endpoint);
}
