use clock_rs::config::TemperatureUnit;
use clock_rs::weather::{
    fetch_due, format_display_error, no_proxy_entry_matches, proxy_env_vars,
    proxy_url_from_values, refresh_interval_secs, should_bypass_proxy, weather_display,
    weather_enabled, weather_line,
};

#[test]
fn weather_codes() {
    assert_eq!(weather_display(0), ("☀", "Clear sky"));
    assert_eq!(weather_display(1), ("☀", "Mainly clear"));
    assert_eq!(weather_display(2), ("☁", "Partly cloudy"));
    assert_eq!(weather_display(3), ("☁", "Overcast"));
    assert_eq!(weather_display(48), ("≋", "Fog"));
    assert_eq!(weather_display(55), ("☂", "Drizzle"));
    assert_eq!(weather_display(57), ("☂", "Freezing drizzle"));
    assert_eq!(weather_display(63), ("☂", "Rain"));
    assert_eq!(weather_display(66), ("☂", "Freezing rain"));
    assert_eq!(weather_display(75), ("*", "Snow"));
    assert_eq!(weather_display(77), ("*", "Snow grains"));
    assert_eq!(weather_display(81), ("☂", "Rain showers"));
    assert_eq!(weather_display(86), ("*", "Snow showers"));
    assert_eq!(weather_display(95), ("⚡", "Thunderstorm"));
    assert_eq!(weather_display(99), ("⚡*", "Thunderstorm + hail"));
    assert_eq!(weather_display(4), ("?", "Unknown"));
    assert_eq!(weather_display(65535), ("?", "Unknown"));
}

#[test]
fn weather_lines() {
    assert_eq!(weather_line("21.5", TemperatureUnit::Celsius, 2), "21.5°C | ☁  Partly cloudy");
    assert_eq!(weather_line("-3.0", TemperatureUnit::Fahrenheit, 71), "-3.0°F | *  Snow");
    assert_eq!(format_display_error("no  network"), "Weather error: no network");
}

#[test]
fn refresh_intervals() {
    assert_eq!(refresh_interval_secs(0), 60);
    assert_eq!(refresh_interval_secs(10), 600);
    assert_eq!(refresh_interval_secs(u64::MAX), u64::MAX);
    assert!(fetch_due(None, 600));
    assert!(!fetch_due(Some(599_999_999_999), 600));
    assert!(fetch_due(Some(600_000_000_000), 600));
}

#[test]
fn enabled_when_located() {
    assert!(weather_enabled(true, true, false));
    assert!(!weather_enabled(true, false, false));
    assert!(weather_enabled(false, false, true));
    assert!(!weather_enabled(false, false, false));
}

#[test]
fn proxy_variables() {
    assert_eq!(
        proxy_env_vars(true),
        vec!["HTTPS_PROXY", "https_proxy", "ALL_PROXY", "all_proxy", "HTTP_PROXY", "http_proxy"]
    );
    assert_eq!(proxy_env_vars(false), vec!["HTTP_PROXY", "http_proxy", "ALL_PROXY", "all_proxy"]);
}

#[test]
fn proxy_url_choice() {
    assert_eq!(proxy_url_from_values(&vec![None, None]), None);
    assert_eq!(
        proxy_url_from_values(&vec![None, Some(" http://p:8080 ".to_string()), Some("x".to_string())]),
        Some("http://p:8080".to_string())
    );
    // The first variable that is set wins, even when it is blank.
    assert_eq!(proxy_url_from_values(&vec![Some("  ".to_string()), Some("x".to_string())]), None);
}

#[test]
fn no_proxy_entries() {
    assert!(no_proxy_entry_matches("*", "api.open-meteo.com", 443));
    assert!(no_proxy_entry_matches("api.open-meteo.com", "API.Open-Meteo.com", 443));
    assert!(no_proxy_entry_matches("open-meteo.com", "api.open-meteo.com", 443));
    assert!(!no_proxy_entry_matches("meteo.com", "api.open-meteo.com", 443));
    assert!(no_proxy_entry_matches(".open-meteo.com", "open-meteo.com", 443));
    assert!(no_proxy_entry_matches(".open-meteo.com", "api.open-meteo.com", 443));
    assert!(no_proxy_entry_matches("https://ipapi.co/", "ipapi.co", 443));
    assert!(no_proxy_entry_matches("http://ipapi.co//", "ipapi.co", 443));
    assert!(no_proxy_entry_matches("ipapi.co:443", "ipapi.co", 443));
    assert!(!no_proxy_entry_matches("ipapi.co:80", "ipapi.co", 443));
    assert!(no_proxy_entry_matches("ipapi.co:", "ipapi.co", 443));
    assert!(!no_proxy_entry_matches("ipapi.co:99999", "ipapi.co", 443) == false);
    assert!(!no_proxy_entry_matches(":443", "ipapi.co", 443));
    assert!(!no_proxy_entry_matches(".", "ipapi.co", 443));
    assert!(no_proxy_entry_matches("IPAPI.CO", "ipapi.co", 443));
}

#[test]
fn no_proxy_lists() {
    assert!(!should_bypass_proxy(None, "ipapi.co", 443));
    assert!(should_bypass_proxy(Some("localhost, ipapi.co"), "ipapi.co", 443));
    assert!(!should_bypass_proxy(Some("localhost,,  "), "ipapi.co", 443));
    assert!(should_bypass_proxy(Some(" * "), "anything", 1));
    assert!(!should_bypass_proxy(Some(""), "ipapi.co", 443));
}
