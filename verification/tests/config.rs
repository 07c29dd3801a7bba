use agent_harness::config::{
    clear_config_cache, expand_env_vars, expand_unbraced, parse_error, read_error, try_expand_env_vars, AppConfig,
    ConfigCache, ModelCapabilities, ModelConfig, SettingValue, Settings,
};
use agent_harness::error::{ConfigError, HarnessError};
use agent_harness::strmap::StrMap;

fn env(vars: &[(&str, &str)]) -> StrMap<String> {
    let mut m = StrMap::new();
    for (k, v) in vars {
        m.insert(k.to_string(), v.to_string());
    }
    m
}

#[test]
fn test_app_config_default() {
    let config = AppConfig::default();
    assert!(config.models.is_empty());
    assert!(config.tools.is_empty());
    assert_eq!(config.sandbox.provider, "local");
    assert!(!config.memory.enabled);
}

#[test]
fn test_model_config() {
    let config = ModelConfig {
        name: "model-opus-4-6".to_string(),
        provider: "langchain_anthropic:ChatAnthropic".to_string(),
        supports_thinking: true,
        supports_vision: true,
        config: None,
    };
    assert_eq!(config.name, "model-opus-4-6");
    assert!(config.supports_thinking);
}

#[test]
fn test_expand_env_vars_simple() {
    let var_name = "HARNESS_TEST_SIMPLE";
    let e = env(&[(var_name, "hello")]);
    let input = format!("prefix_{}{}_suffix", "$", var_name);
    let result = expand_env_vars(&input, &e).unwrap();
    assert_eq!(result, "prefix_hello_suffix");
}

#[test]
fn test_expand_env_vars_braced() {
    let var_name = "HARNESS_TEST_BRACED";
    let e = env(&[(var_name, "world")]);
    let mut input = String::from("prefix_${");
    input.push_str(var_name);
    input.push_str("}_suffix");
    let result = expand_env_vars(&input, &e).unwrap();
    assert_eq!(result, "prefix_world_suffix");
}

#[test]
fn test_expand_env_vars_missing() {
    let input = "prefix_$HARNESS_MISSING_VAR_suffix";
    let result = expand_env_vars(input, &StrMap::new()).unwrap();
    assert_eq!(result, "prefix_$HARNESS_MISSING_VAR_suffix");
}

#[test]
fn test_expand_env_vars_multiple() {
    let var1 = "HARNESS_TEST_VAR1";
    let var2 = "HARNESS_TEST_VAR2";
    let e = env(&[(var1, "a"), (var2, "b")]);
    let mut input = String::new();
    input.push_str("${");
    input.push_str(var1);
    input.push_str("}-${");
    input.push_str(var2);
    input.push_str("}-${");
    input.push_str(var1);
    input.push('}');
    let result = expand_env_vars(&input, &e).unwrap();
    assert_eq!(result, "a-b-a");
}

#[test]
fn test_clear_cache() {
    let mut cache = ConfigCache::new();
    cache.store(std::sync::Arc::new(AppConfig::default()));
    assert_eq!(cache.get().unwrap().sandbox.provider, "local");
    assert!(cache.get().is_some());
    clear_config_cache(&mut cache);
    assert!(cache.get().is_none());
}

#[test]
fn test_capabilities_default() {
    let caps = ModelCapabilities::default();
    assert!(!caps.thinking);
    assert!(!caps.vision);
    assert!(caps.function_calling);
    assert!(caps.streaming);
}

#[test]
fn test_capabilities_builder() {
    let caps = ModelCapabilities::new().with_thinking().with_vision();
    assert!(caps.thinking);
    assert!(caps.vision);
    assert!(caps.supports_thinking());
    assert!(caps.supports_vision());
}

#[test]
fn unbraced_names_shrink_to_a_set_variable() {
    let e = env(&[("HOME", "/root")]);
    assert_eq!(expand_unbraced("$HOMEDIR/x", &e), "/rootDIR/x");
    assert_eq!(expand_unbraced("cost: $5 and $", &e), "cost: $5 and $");
    assert_eq!(expand_unbraced("no dollars", &e), "no dollars");
}

#[test]
fn unset_braced_references_stay() {
    let result = expand_env_vars("${NOPE} and ${HOME}", &env(&[("HOME", "/h")])).unwrap();
    assert_eq!(result, "${NOPE} and /h");
}

#[test]
fn model_lookup_finds_the_first_of_a_name() {
    let mut config = AppConfig::default();
    for (name, provider) in [("a", "p1"), ("b", "p2"), ("a", "p3")] {
        config.models.push(ModelConfig {
            name: name.to_string(),
            provider: provider.to_string(),
            supports_thinking: false,
            supports_vision: false,
            config: None,
        });
    }
    assert_eq!(config.get_model_config("a").unwrap().provider, "p1");
    assert!(config.get_model_config("c").is_none());
}

#[test]
fn settings_are_read_by_type() {
    let s = Settings {
        entries: vec![
            ("api_key".to_string(), SettingValue::Str("k".to_string())),
            ("flag".to_string(), SettingValue::Bool(true)),
            ("n".to_string(), SettingValue::Other),
        ],
    };
    assert_eq!(s.get_str("api_key"), Some("k"));
    assert_eq!(s.get_str("flag"), None);
    assert_eq!(s.get_bool("flag"), Some(true));
    assert_eq!(s.get_bool("missing"), None);
}

#[test]
fn load_errors_name_the_path() {
    match read_error("c.yaml", true, "x") {
        HarnessError::Config(ConfigError::FileNotFound(p)) => assert_eq!(p, "c.yaml"),
        other => panic!("unexpected {:?}", other),
    }
    match read_error("c.yaml", false, "denied") {
        HarnessError::Config(ConfigError::LoadError(p, m)) => {
            assert_eq!(p, "c.yaml");
            assert_eq!(m, "Read error: denied");
        }
        other => panic!("unexpected {:?}", other),
    }
    match parse_error("c.yaml", "bad") {
        HarnessError::Config(ConfigError::LoadError(_, m)) => assert_eq!(m, "Parse error: bad"),
        other => panic!("unexpected {:?}", other),
    }
}

#[test]
fn braced_references_need_a_valid_name() {
    let e = env(&[("A", "x"), ("_B1", "y")]);
    assert_eq!(try_expand_env_vars("${A}${_B1}", &e).unwrap().unwrap(), "xy");
    assert_eq!(try_expand_env_vars("${1A} ${} ${A", &e).unwrap().unwrap(), "${1A} ${} ${A");
}
