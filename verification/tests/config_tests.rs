use clock_rs::config::{
    GeneralConfig, AlarmDay, AlarmTime, DateConfig, LayoutConfig, LayoutMode, NowPlayingConfig, TemperatureUnit,
    Weekday,
};

#[test]
fn defaults() {
    assert_eq!(LayoutMode::default(), LayoutMode::Stacked);
    assert_eq!(LayoutConfig::default().mode, LayoutMode::Stacked);
    let date = DateConfig::default();
    assert_eq!(date.fmt, "%d-%m-%Y");
    assert!(!date.use_12h && !date.utc && !date.hide_seconds);
    let np = NowPlayingConfig::default();
    assert!(!np.enabled);
    assert_eq!(np.refresh_interval_seconds, 5);
    assert_eq!(TemperatureUnit::default(), TemperatureUnit::Celsius);
    let general = GeneralConfig::default();
    assert_eq!(general.interval, 200);
    assert!(!general.blink && !general.bold);
}

#[test]
fn temperature_unit_texts() {
    assert_eq!(TemperatureUnit::Celsius.as_api_value(), "celsius");
    assert_eq!(TemperatureUnit::Fahrenheit.as_api_value(), "fahrenheit");
    assert_eq!(TemperatureUnit::Celsius.symbol(), "°C");
    assert_eq!(TemperatureUnit::Fahrenheit.symbol(), "°F");
}

#[test]
fn alarm_day_names() {
    let cases = [
        ("mon", AlarmDay::Monday),
        ("Monday", AlarmDay::Monday),
        ("TUE", AlarmDay::Tuesday),
        ("tues", AlarmDay::Tuesday),
        ("tuesday", AlarmDay::Tuesday),
        ("wed", AlarmDay::Wednesday),
        ("Wednesday", AlarmDay::Wednesday),
        ("thu", AlarmDay::Thursday),
        ("thur", AlarmDay::Thursday),
        ("THURS", AlarmDay::Thursday),
        ("thursday", AlarmDay::Thursday),
        ("fri", AlarmDay::Friday),
        ("friday", AlarmDay::Friday),
        ("sat", AlarmDay::Saturday),
        ("saturday", AlarmDay::Saturday),
        ("sun", AlarmDay::Sunday),
        ("SunDay", AlarmDay::Sunday),
    ];
    for (name, day) in cases {
        assert_eq!(AlarmDay::parse(name), Ok(day), "{name}");
        assert_eq!(name.parse::<AlarmDay>(), Ok(day));
    }
}

#[test]
fn alarm_day_invalid() {
    assert_eq!(AlarmDay::parse("funday"), Err("invalid weekday `funday`".to_string()));
    assert_eq!(AlarmDay::parse(""), Err("invalid weekday ``".to_string()));
    assert_eq!(AlarmDay::parse(" mon"), Err("invalid weekday ` mon`".to_string()));
    assert_eq!(AlarmDay::parse("MÖN"), Err("invalid weekday `MÖN`".to_string()));
}

#[test]
fn alarm_day_matches_its_weekday() {
    let days = [
        (AlarmDay::Monday, Weekday::Mon),
        (AlarmDay::Tuesday, Weekday::Tue),
        (AlarmDay::Wednesday, Weekday::Wed),
        (AlarmDay::Thursday, Weekday::Thu),
        (AlarmDay::Friday, Weekday::Fri),
        (AlarmDay::Saturday, Weekday::Sat),
        (AlarmDay::Sunday, Weekday::Sun),
    ];
    for (i, (day, weekday)) in days.iter().enumerate() {
        for (j, (_, other)) in days.iter().enumerate() {
            assert_eq!(day.matches(*other), i == j);
        }
        assert!(day.matches(*weekday));
        assert_eq!(Weekday::from_days_from_monday(i as u32), *weekday);
    }
}

fn time(hour: u32, minute: u32, second: u32) -> AlarmTime {
    AlarmTime { hour, minute, second }
}

#[test]
fn alarm_time_valid() {
    assert_eq!(AlarmTime::parse("07:30"), Ok(time(7, 30, 0)));
    assert_eq!(AlarmTime::parse("7:05:09"), Ok(time(7, 5, 9)));
    assert_eq!(AlarmTime::parse("23:59:59"), Ok(time(23, 59, 59)));
    assert_eq!(AlarmTime::parse("00:00"), Ok(time(0, 0, 0)));
    assert_eq!(AlarmTime::parse("+7:+5"), Ok(time(7, 5, 0)));
    assert_eq!(AlarmTime::parse("007:0030:000"), Ok(time(7, 30, 0)));
    assert_eq!("06:45".parse::<AlarmTime>(), Ok(time(6, 45, 0)));
}

#[test]
fn alarm_time_wrong_shape() {
    assert_eq!(
        AlarmTime::parse("0730"),
        Err("invalid alarm time `0730`: expected `HH:MM` or `HH:MM:SS`".to_string())
    );
    assert_eq!(
        AlarmTime::parse("1:2:3:4"),
        Err("invalid alarm time `1:2:3:4`: expected `HH:MM` or `HH:MM:SS`".to_string())
    );
    assert_eq!(
        AlarmTime::parse(""),
        Err("invalid alarm time ``: expected `HH:MM` or `HH:MM:SS`".to_string())
    );
}

#[test]
fn alarm_time_bad_fields() {
    assert_eq!(AlarmTime::parse("x:30"), Err("invalid alarm hour in `x:30`".to_string()));
    assert_eq!(AlarmTime::parse(":30"), Err("invalid alarm hour in `:30`".to_string()));
    assert_eq!(AlarmTime::parse("-1:30"), Err("invalid alarm hour in `-1:30`".to_string()));
    assert_eq!(AlarmTime::parse("+:30"), Err("invalid alarm hour in `+:30`".to_string()));
    assert_eq!(AlarmTime::parse("7:3a"), Err("invalid alarm minute in `7:3a`".to_string()));
    assert_eq!(AlarmTime::parse("7: 30"), Err("invalid alarm minute in `7: 30`".to_string()));
    assert_eq!(AlarmTime::parse("7:30:"), Err("invalid alarm second in `7:30:`".to_string()));
    assert_eq!(
        AlarmTime::parse("4294967296:00"),
        Err("invalid alarm hour in `4294967296:00`".to_string())
    );
}

#[test]
fn alarm_time_out_of_range() {
    let msg = |v: &str| Err(format!("invalid alarm time `{v}`: out-of-range values"));
    assert_eq!(AlarmTime::parse("24:00"), msg("24:00"));
    assert_eq!(AlarmTime::parse("12:60"), msg("12:60"));
    assert_eq!(AlarmTime::parse("12:00:60"), msg("12:00:60"));
    assert_eq!(AlarmTime::parse("4294967295:00"), msg("4294967295:00"));
}

#[test]
fn units_have_distinct_api_values() {
    assert_ne!(TemperatureUnit::Celsius.as_api_value(), TemperatureUnit::Fahrenheit.as_api_value());
}
