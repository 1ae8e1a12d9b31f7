use sauron::config::{
    CaptureConfig, Config, DatabaseConfig, EmailConfig, OllamaConfig, SummaryConfig,
    default_active_end, default_active_start, default_daily_time, default_db_path,
    default_interval, default_ollama_url, default_output_dir, default_screenshot_dir,
    default_text_model, default_vision_model,
};

#[test]
fn defaults_are_the_documented_ones() {
    assert_eq!(default_interval(), 3);
    assert_eq!(default_screenshot_dir(), "~/sauron/screenshots");
    assert_eq!(default_active_start(), "09:00");
    assert_eq!(default_active_end(), "18:00");
    assert_eq!(default_ollama_url(), "http://localhost:11434");
    assert_eq!(default_vision_model(), "llava");
    assert_eq!(default_text_model(), "llama3.2");
    assert_eq!(default_daily_time(), "23:59");
    assert_eq!(default_output_dir(), "~/sauron/daily-logs");
    assert_eq!(default_db_path(), "~/sauron/sauron.db");
    let c = Config::default();
    assert_eq!(c.capture.interval_minutes, 3);
    assert!(c.capture.monitors.is_none());
    assert_eq!(c.ollama.text_model, "llama3.2");
    assert_eq!(c.summary.daily_time, "23:59");
    assert!(c.email.resend_api_key.is_empty() && c.email.from.is_empty() && c.email.to.is_empty());
    assert_eq!(c.database.path, "~/sauron/sauron.db");
    let _ = (CaptureConfig::default(), OllamaConfig::default(), SummaryConfig::default(), EmailConfig::default(), DatabaseConfig::default());
}

#[test]
fn parse_time_minutes_reads_hours_and_minutes() {
    assert_eq!(Config::parse_time_minutes("09:00"), Some(540));
    assert_eq!(Config::parse_time_minutes("18:30"), Some(1110));
    assert_eq!(Config::parse_time_minutes("7:5"), Some(425));
    assert_eq!(Config::parse_time_minutes("09:00:30"), Some(540));
    assert_eq!(Config::parse_time_minutes("9"), None);
    assert_eq!(Config::parse_time_minutes("ab:10"), None);
    assert_eq!(Config::parse_time_minutes("10:xx"), None);
    assert_eq!(Config::parse_time_minutes(""), None);
    // hours * 60 + minutes wraps around in u32 arithmetic
    assert_eq!(Config::parse_time_minutes("71582789:0"), Some(44));
    assert_eq!(Config::parse_time_minutes("4294967295:1"), Some(4294967237));
}

fn capture_with(start: &str, end: &str) -> Config {
    let mut c = Config::default();
    c.capture.active_hours_start = start.to_string();
    c.capture.active_hours_end = end.to_string();
    c
}

#[test]
fn active_hours_include_start_and_exclude_end() {
    let c = Config::default();
    assert!(!c.is_within_active_hours_at(539));
    assert!(c.is_within_active_hours_at(540));
    assert!(c.is_within_active_hours_at(1079));
    assert!(!c.is_within_active_hours_at(1080));
    // unreadable bounds fall back to the whole day
    let open = capture_with("garbage", "");
    assert!(open.is_within_active_hours_at(0));
    assert!(open.is_within_active_hours_at(1439));
    assert!(capture_with("22:00", "06:00").is_within_active_hours_at(23 * 60) == false);
    let _ = c.is_within_active_hours();
}

#[test]
fn masked_key_shows_only_the_last_four_bytes() {
    let mut e = EmailConfig::default();
    assert_eq!(e.masked_api_key(), "not set");
    e.resend_api_key = "re_abcdef1234".to_string();
    assert_eq!(e.masked_api_key(), "***1234");
    e.resend_api_key = "abc".to_string();
    assert_eq!(e.masked_api_key(), "***");
    e.resend_api_key = "abcd".to_string();
    assert_eq!(e.masked_api_key(), "***abcd");
    e.resend_api_key = "xxé12".to_string();
    assert_eq!(e.masked_api_key(), "***é12");
}

#[test]
fn config_paths_live_in_the_config_dir() {
    let dir = Config::config_dir_from(Some("/Users/al".to_string()));
    assert_eq!(dir, "/Users/al/.config/sauron");
    assert_eq!(Config::config_dir_from(None), "~/.config/sauron");
    let real = Config::config_dir();
    assert!(real.ends_with("/.config/sauron"));
    assert_eq!(Config::state_file("x.txt"), format!("{}/x.txt", real));
    assert_eq!(Config::config_path(), format!("{}/config.toml", real));
    assert_eq!(Config::pause_file(), format!("{}/sauron.paused", real));
    let _ = Config::is_paused();
}

#[test]
fn configured_dirs_expand_home() {
    let mut c = Config::default();
    c.capture.screenshot_dir = "/data/shots".to_string();
    assert_eq!(c.screenshot_dir(), "/data/shots");
    let out = c.output_dir();
    assert!(out.ends_with("/sauron/daily-logs"));
    assert!(!out.starts_with("~/") || out == "~/sauron/daily-logs");
    assert!(c.db_path().ends_with("sauron/sauron.db"));
}
