//! Settings.

use ccr::config::{
    default_connect_timeout_secs, default_host, default_max_body_size, default_port,
    default_request_timeout_secs, Config, LogConfig, ServerConfig, StreamingConfig, StringMap,
    UpstreamConfig,
};
use ccr::log::{plan_log, LogSink};

fn config(mapping: StringMap) -> Config {
    Config {
        server: ServerConfig {
            host: default_host(),
            port: default_port(),
            connect_timeout_secs: default_connect_timeout_secs(),
            request_timeout_secs: default_request_timeout_secs(),
            max_body_size: default_max_body_size(),
        },
        upstream: UpstreamConfig {
            url: "http://localhost/v1/chat/completions".to_string(),
            api_key: "key".to_string(),
            extra_headers: vec![],
            model_mapping: mapping,
        },
        logging: LogConfig::default(),
        streaming: StreamingConfig::default(),
    }
}

#[test]
fn documented_defaults() {
    let c = config(StringMap::new());
    assert_eq!(c.server.host, "0.0.0.0");
    assert_eq!(c.server.port, 8180);
    assert_eq!(c.server.connect_timeout_secs, 30);
    assert_eq!(c.server.request_timeout_secs, 1800);
    assert_eq!(c.server.max_body_size, 10485760);
    assert_eq!(c.streaming.keepalive_interval_secs, 15);
    assert!(c.streaming.enable_usage_injection);
    assert_eq!(c.streaming.preflight_timeout_secs, 120);
    assert_eq!(c.streaming.total_timeout_secs, 3600);
    assert!(c.streaming.enable_preflight);
    assert_eq!(c.logging.level, "info");
    assert!(!c.logging.json);
    assert_eq!(c.logging.dir, "logs");
    assert_eq!(c.logging.file_prefix, "ccr");
    assert!(c.logging.rotation);
    assert_eq!(c.logging.retention_days, 3);
}

#[test]
fn models_are_mapped_by_name() {
    let mut m = StringMap::new();
    m.insert("gpt-5.4".to_string(), "deepseek-chat".to_string());
    m.insert("gpt-5.5".to_string(), "deepseek-v4".to_string());
    m.insert("gpt-5.4".to_string(), "deepseek-v4-pro".to_string());
    let c = config(m);
    assert_eq!(c.map_model("gpt-5.4"), "deepseek-v4-pro");
    assert_eq!(c.map_model("gpt-5.5"), "deepseek-v4");
    assert_eq!(c.map_model("gpt-5"), "gpt-5");
    assert_eq!(c.map_model(""), "");
}

#[test]
fn log_goes_to_files_where_a_directory_is_set() {
    let mut l = LogConfig::default();
    let p = plan_log(&l);
    assert_eq!(p.filter, "ccr=info");
    assert_eq!(p.sink, LogSink::DailyFile);
    assert!(!p.json);
    l.rotation = false;
    l.json = true;
    l.level = "debug".to_string();
    let p = plan_log(&l);
    assert_eq!(p.filter, "ccr=debug");
    assert_eq!(p.sink, LogSink::SingleFile);
    assert!(p.json);
    l.dir = String::new();
    assert_eq!(plan_log(&l).sink, LogSink::Terminal);
    l.rotation = true;
    assert_eq!(plan_log(&l).sink, LogSink::Terminal);
}
