use amqp_trigger::config::{
    resolve_bindings, resolve_connection, AmqpTriggerConfig, ConfigError,
    ConfigField, ConfigProblem, HandlerConfiguration, Setting, TriggerMetadata,
};
use amqp_trigger::trigger::AmqpTrigger;

fn text(s: &str) -> Setting {
    Setting::Text(s.to_string())
}

fn metadata() -> TriggerMetadata {
    TriggerMetadata {
        kind: text("amqp"),
        address: text("amqp://localhost:5672"),
        username: text("user"),
        password: text("secret"),
        keep_alive_interval: Setting::Absent,
    }
}

fn handler(component: &str, topic: &str) -> AmqpTriggerConfig {
    AmqpTriggerConfig { component: text(component), topic: text(topic), qos: Setting::Absent, declared: None }
}

fn declared(component: &str, channels: &[&str]) -> AmqpTriggerConfig {
    AmqpTriggerConfig {
        component: text(component),
        topic: Setting::Absent,
        qos: Setting::Absent,
        declared: Some(HandlerConfiguration {
            channels: channels.iter().map(|c| c.to_string()).collect(),
            extensions: vec![("team".to_string(), "orders".to_string())],
        }),
    }
}

fn trigger_of(configs: Vec<AmqpTriggerConfig>) -> Result<AmqpTrigger, ConfigError> {
    AmqpTrigger::new(&metadata(), &configs)
}

#[test]
fn connection_settings_resolve() {
    let mut m = metadata();
    m.keep_alive_interval = text("30");
    let s = resolve_connection(&m).unwrap();
    assert_eq!(s.address, "amqp://localhost:5672");
    assert_eq!(s.username, "user");
    assert_eq!(s.password, "secret");
    assert_eq!(s.keep_alive, Some(30));
}

#[test]
fn missing_address_is_a_config_error() {
    let mut m = metadata();
    m.address = Setting::Absent;
    m.password = Setting::Unresolved("{{ pass }}".to_string());
    assert_eq!(
        resolve_connection(&m).unwrap_err(),
        ConfigError::Setting { handler: None, field: ConfigField::Address, problem: ConfigProblem::Missing }
    );
}

#[test]
fn unparseable_keep_alive_is_a_config_error() {
    let mut m = metadata();
    m.keep_alive_interval = text("soon");
    assert_eq!(
        resolve_connection(&m).unwrap_err(),
        ConfigError::Setting {
            handler: None,
            field: ConfigField::KeepAliveInterval,
            problem: ConfigProblem::NotAnInteger
        }
    );
}

#[test]
fn bindings_resolve_in_order() {
    let mut second = handler("billing", "invoices");
    second.qos = text("10");
    let b = resolve_bindings(&vec![handler("shop", "orders"), second]).unwrap();
    assert_eq!(b.len(), 2);
    assert_eq!((b[0].component.as_str(), b[0].topic.as_str(), b[0].qos), ("shop", "orders", None));
    assert_eq!((b[1].component.as_str(), b[1].topic.as_str(), b[1].qos), ("billing", "invoices", Some(10)));
}

#[test]
fn first_bad_handler_is_reported() {
    let mut bad = handler("billing", "invoices");
    bad.topic = Setting::Unresolved("{{ topic }}".to_string());
    let mut worse = handler("audit", "log");
    worse.component = Setting::Absent;
    assert_eq!(
        resolve_bindings(&vec![handler("shop", "orders"), bad, worse]).unwrap_err(),
        ConfigError::Setting { handler: Some(1), field: ConfigField::Topic, problem: ConfigProblem::Unresolved }
    );
}

#[test]
fn qos_out_of_range_is_a_config_error() {
    let mut h = handler("shop", "orders");
    h.qos = text("70000");
    assert_eq!(
        resolve_bindings(&vec![h]).unwrap_err(),
        ConfigError::Setting { handler: Some(0), field: ConfigField::Qos, problem: ConfigProblem::NotAnInteger }
    );
}

#[test]
fn trigger_reports_trigger_fields_first() {
    let mut m = metadata();
    m.kind = Setting::Absent;
    let mut h = handler("shop", "orders");
    h.topic = Setting::Absent;
    match AmqpTrigger::new(&m, &vec![h]) {
        Err(e) => assert_eq!(
            e,
            ConfigError::Setting { handler: None, field: ConfigField::Type, problem: ConfigProblem::Missing }
        ),
        Ok(_) => panic!("expected a configuration error"),
    }
}

#[test]
fn one_declared_channel_per_handler() {
    let t = trigger_of(vec![declared("shop", &["orders"]), declared("billing", &["invoices"])]).unwrap();
    let b = &t.component_configs;
    assert_eq!(b[0].topic, "orders");
    assert_eq!(b[1].component, "billing");
    assert_eq!(b[1].topic, "invoices");
}

#[test]
fn two_declared_channels_fail_resolution() {
    match trigger_of(vec![declared("shop", &["orders"]), declared("billing", &["a", "b"])]) {
        Err(e) => assert_eq!(e, ConfigError::ChannelCount { declaration: 1, count: 2 }),
        Ok(_) => panic!("no listener may start"),
    }
}

#[test]
fn no_declared_channel_fails_resolution() {
    match trigger_of(vec![declared("shop", &[])]) {
        Err(e) => assert_eq!(e, ConfigError::ChannelCount { declaration: 0, count: 0 }),
        Ok(_) => panic!("expected a configuration error"),
    }
}

#[test]
fn declared_extensions_are_kept() {
    let t = trigger_of(vec![handler("audit", "log"), declared("shop", &["orders"])]).unwrap();
    assert!(t.extensions[0].is_empty());
    assert_eq!(t.extensions[1], vec![("team".to_string(), "orders".to_string())]);
    assert_eq!(t.component_configs[1].topic, "orders");
    assert_eq!(t.component_configs[0].topic, "log");
}
