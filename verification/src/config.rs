//! The configuration values of the clock, their defaults, and the parsers for the alarm fields
//! that a configuration file writes as strings (`"mon"`, `"07:30"`).
use vstd::prelude::*;
use vstd::string::StringExecFns;

use crate::text::{
    chars_eq, lowercase_chars, parse_unsigned, parse_unsigned_exec, split_chars, split_on,
    to_ascii_lowercase, to_chars, views,
};

verus! {

broadcast use vstd::string::group_string_axioms;

/// How the clock face and its information lines are arranged.
#[derive(Clone, Copy, Debug, PartialEq, Eq, Structural)]
pub enum LayoutMode {
    /// The information lines under the digits.
    Stacked,
    /// The information lines in a column beside the digits.
    Split,
}

impl Default for LayoutMode {
    fn default() -> (r: Self)
        ensures
            r == LayoutMode::Stacked,
    {
        LayoutMode::Stacked
    }
}

/// The `[layout]` section.
#[derive(Clone, Copy, Debug, PartialEq, Eq, Structural)]
pub struct LayoutConfig {
    pub mode: LayoutMode,
}

impl Default for LayoutConfig {
    fn default() -> (r: Self)
        ensures
            r.mode == LayoutMode::Stacked,
    {
        LayoutConfig { mode: LayoutMode::default() }
    }
}

/// The plain settings of the `[general]` section: the redraw interval in milliseconds, whether
/// the colon blinks, and whether the text is bold.
#[derive(Clone, Copy, Debug, PartialEq, Eq, Structural)]
pub struct GeneralConfig {
    pub interval: u64,
    pub blink: bool,
    pub bold: bool,
}

impl Default for GeneralConfig {
    fn default() -> (r: Self)
        ensures
            r.interval == 200,
            !r.blink,
            !r.bold,
    {
        GeneralConfig { interval: 200, blink: false, bold: false }
    }
}

/// The `[date]` section.
pub struct DateConfig {
    pub fmt: String,
    pub use_12h: bool,
    pub utc: bool,
    pub hide_seconds: bool,
}

impl Default for DateConfig {
    fn default() -> (r: Self)
        ensures
            r.fmt@ == "%d-%m-%Y"@,
            !r.use_12h,
            !r.utc,
            !r.hide_seconds,
    {
        DateConfig {
            fmt: String::from_str("%d-%m-%Y"),
            use_12h: false,
            utc: false,
            hide_seconds: false,
        }
    }
}

/// The `[now_playing]` section.
#[derive(Clone, Copy, Debug, PartialEq, Eq, Structural)]
pub struct NowPlayingConfig {
    pub enabled: bool,
    pub refresh_interval_seconds: u64,
}

impl Default for NowPlayingConfig {
    fn default() -> (r: Self)
        ensures
            !r.enabled,
            r.refresh_interval_seconds == 5,
    {
        NowPlayingConfig { enabled: false, refresh_interval_seconds: 5 }
    }
}

/// The unit in which the weather line shows the temperature.
#[derive(Clone, Copy, Debug, PartialEq, Eq, Structural)]
pub enum TemperatureUnit {
    Celsius,
    Fahrenheit,
}

impl Default for TemperatureUnit {
    fn default() -> (r: Self)
        ensures
            r == TemperatureUnit::Celsius,
    {
        TemperatureUnit::Celsius
    }
}

impl TemperatureUnit {
    /// The value of the weather service's `temperature_unit` query parameter for this unit, which
    /// is also the unit's name in the configuration file.
    pub open spec fn api_value(self) -> Seq<char> {
        match self {
            TemperatureUnit::Celsius => "celsius"@,
            TemperatureUnit::Fahrenheit => "fahrenheit"@,
        }
    }

    /// The value of the weather service's `temperature_unit` query parameter.
    pub fn as_api_value(self) -> (r: &'static str)
        ensures
            r@ == self.api_value(),
    {
        match self {
            TemperatureUnit::Celsius => "celsius",
            TemperatureUnit::Fahrenheit => "fahrenheit",
        }
    }

    /// The symbol written after a temperature.
    pub fn symbol(self) -> (r: &'static str)
        ensures
            r@ == (match self {
                TemperatureUnit::Celsius => "°C"@,
                TemperatureUnit::Fahrenheit => "°F"@,
            }),
    {
        match self {
            TemperatureUnit::Celsius => "°C",
            TemperatureUnit::Fahrenheit => "°F",
        }
    }
}

/// Each unit has a value of its own: two units with the same value are the same unit, so the
/// value names the unit.
pub proof fn law_api_values_distinct(a: TemperatureUnit, b: TemperatureUnit)
    ensures
        a.api_value() == b.api_value() ==> a == b,
{
    reveal_strlit("celsius");
    reveal_strlit("fahrenheit");
    assert("celsius"@.len() != "fahrenheit"@.len());
}

/// A day of the week, Monday first.
#[derive(Clone, Copy, Debug, PartialEq, Eq, Structural)]
pub enum Weekday {
    Mon,
    Tue,
    Wed,
    Thu,
    Fri,
    Sat,
    Sun,
}

impl Weekday {
    /// The number of days from Monday to this day (Monday is 0, Sunday is 6).
    pub open spec fn days_from_monday(self) -> int {
        match self {
            Weekday::Mon => 0,
            Weekday::Tue => 1,
            Weekday::Wed => 2,
            Weekday::Thu => 3,
            Weekday::Fri => 4,
            Weekday::Sat => 5,
            Weekday::Sun => 6,
        }
    }

    /// The day that lies `n` days after Monday, for `n` from 0 to 6.
    pub open spec fn numbered(n: int) -> Weekday {
        if n == 0 {
            Weekday::Mon
        } else if n == 1 {
            Weekday::Tue
        } else if n == 2 {
            Weekday::Wed
        } else if n == 3 {
            Weekday::Thu
        } else if n == 4 {
            Weekday::Fri
        } else if n == 5 {
            Weekday::Sat
        } else {
            Weekday::Sun
        }
    }

    /// The day that lies `n` days after Monday.
    pub fn from_days_from_monday(n: u32) -> (r: Weekday)
        requires
            n < 7,
        ensures
            r == Weekday::numbered(n as int),
            r.days_from_monday() == n,
    {
        match n {
            0 => Weekday::Mon,
            1 => Weekday::Tue,
            2 => Weekday::Wed,
            3 => Weekday::Thu,
            4 => Weekday::Fri,
            5 => Weekday::Sat,
            _ => Weekday::Sun,
        }
    }
}

/// A day on which an alarm rings.
#[derive(Clone, Copy, Debug, PartialEq, Eq, Structural)]
pub enum AlarmDay {
    Monday,
    Tuesday,
    Wednesday,
    Thursday,
    Friday,
    Saturday,
    Sunday,
}

/// The alarm day that a lower-cased name stands for: the full English name or its usual
/// abbreviations (`mon`, `tue`/`tues`, `wed`, `thu`/`thur`/`thurs`, `fri`, `sat`, `sun`).
pub open spec fn alarm_day_named(name: Seq<char>) -> Option<AlarmDay> {
    if name == "mon"@ || name == "monday"@ {
        Some(AlarmDay::Monday)
    } else if name == "tue"@ || name == "tues"@ || name == "tuesday"@ {
        Some(AlarmDay::Tuesday)
    } else if name == "wed"@ || name == "wednesday"@ {
        Some(AlarmDay::Wednesday)
    } else if name == "thu"@ || name == "thur"@ || name == "thurs"@ || name == "thursday"@ {
        Some(AlarmDay::Thursday)
    } else if name == "fri"@ || name == "friday"@ {
        Some(AlarmDay::Friday)
    } else if name == "sat"@ || name == "saturday"@ {
        Some(AlarmDay::Saturday)
    } else if name == "sun"@ || name == "sunday"@ {
        Some(AlarmDay::Sunday)
    } else {
        None
    }
}

/// What parsing `value` as an alarm day gives: the day its name stands for, whatever the case of
/// its ASCII letters, or the message ``invalid weekday `value` ``.
pub open spec fn alarm_day_result(value: Seq<char>) -> Result<AlarmDay, Seq<char>> {
    match alarm_day_named(to_ascii_lowercase(value)) {
        Some(day) => Ok(day),
        None => Err("invalid weekday `"@ + value + "`"@),
    }
}

/// Whether `chars` spells the string literal `lit`.
fn is_name(chars: &[char], lit: &str) -> (r: bool)
    ensures
        r == (chars@ == lit@),
{
    let lit_chars = to_chars(lit);
    chars_eq(chars, lit_chars.as_slice())
}

impl AlarmDay {
    /// The day of the week that this alarm day is.
    pub open spec fn weekday(self) -> Weekday {
        match self {
            AlarmDay::Monday => Weekday::Mon,
            AlarmDay::Tuesday => Weekday::Tue,
            AlarmDay::Wednesday => Weekday::Wed,
            AlarmDay::Thursday => Weekday::Thu,
            AlarmDay::Friday => Weekday::Fri,
            AlarmDay::Saturday => Weekday::Sat,
            AlarmDay::Sunday => Weekday::Sun,
        }
    }

    /// Whether the alarm day is the given day of the week.
    pub fn matches(self, weekday: Weekday) -> (r: bool)
        ensures
            r == (self.weekday() == weekday),
    {
        match (self, weekday) {
            (AlarmDay::Monday, Weekday::Mon) => true,
            (AlarmDay::Tuesday, Weekday::Tue) => true,
            (AlarmDay::Wednesday, Weekday::Wed) => true,
            (AlarmDay::Thursday, Weekday::Thu) => true,
            (AlarmDay::Friday, Weekday::Fri) => true,
            (AlarmDay::Saturday, Weekday::Sat) => true,
            (AlarmDay::Sunday, Weekday::Sun) => true,
            _ => false,
        }
    }

    /// Parses an alarm day from its name, in any ASCII case.
    pub fn parse(value: &str) -> (r: Result<AlarmDay, String>)
        ensures
            match r {
                Ok(day) => alarm_day_result(value@) == Ok::<AlarmDay, Seq<char>>(day),
                Err(msg) => alarm_day_result(value@) == Err::<AlarmDay, Seq<char>>(msg@),
            },
    {
        let chars = to_chars(value);
        let lower = lowercase_chars(chars.as_slice());
        let name = lower.as_slice();
        if is_name(name, "mon") || is_name(name, "monday") {
            Ok(AlarmDay::Monday)
        } else if is_name(name, "tue") || is_name(name, "tues") || is_name(name, "tuesday") {
            Ok(AlarmDay::Tuesday)
        } else if is_name(name, "wed") || is_name(name, "wednesday") {
            Ok(AlarmDay::Wednesday)
        } else if is_name(name, "thu") || is_name(name, "thur") || is_name(name, "thurs")
            || is_name(name, "thursday") {
            Ok(AlarmDay::Thursday)
        } else if is_name(name, "fri") || is_name(name, "friday") {
            Ok(AlarmDay::Friday)
        } else if is_name(name, "sat") || is_name(name, "saturday") {
            Ok(AlarmDay::Saturday)
        } else if is_name(name, "sun") || is_name(name, "sunday") {
            Ok(AlarmDay::Sunday)
        } else {
            let mut msg = String::from_str("invalid weekday `");
            msg.append(value);
            msg.append("`");
            Err(msg)
        }
    }
}

impl core::str::FromStr for AlarmDay {
    type Err = String;

    fn from_str(value: &str) -> (r: Result<AlarmDay, String>)
        ensures
            match r {
                Ok(day) => alarm_day_result(value@) == Ok::<AlarmDay, Seq<char>>(day),
                Err(msg) => alarm_day_result(value@) == Err::<AlarmDay, Seq<char>>(msg@),
            },
    {
        AlarmDay::parse(value)
    }
}

/// The time of day at which an alarm rings.
#[derive(Clone, Copy, Debug, PartialEq, Eq, Structural)]
pub struct AlarmTime {
    pub hour: u32,
    pub minute: u32,
    pub second: u32,
}

/// A message made of `before`, the text that was parsed, and `after`.
pub open spec fn quoted(before: Seq<char>, value: Seq<char>, after: Seq<char>) -> Seq<char> {
    before + value + after
}

/// What parsing `value` as an alarm time gives. The text is split at `':'` into two parts
/// (`HH:MM`) or three (`HH:MM:SS`); each part is an unsigned 32-bit number as std's `parse`
/// reads it; the seconds are 0 when there are two parts; the hour must be at most 23 and the
/// minute and second at most 59. The first of these checks that fails gives its message.
pub open spec fn alarm_time_result(value: Seq<char>) -> Result<AlarmTime, Seq<char>> {
    let parts = split_on(value, ':');
    if parts.len() != 2 && parts.len() != 3 {
        Err(quoted("invalid alarm time `"@, value, "`: expected `HH:MM` or `HH:MM:SS`"@))
    } else {
        match parse_unsigned(parts[0], u32::MAX as nat) {
            None => Err(quoted("invalid alarm hour in `"@, value, "`"@)),
            Some(hour) => match parse_unsigned(parts[1], u32::MAX as nat) {
                None => Err(quoted("invalid alarm minute in `"@, value, "`"@)),
                Some(minute) => {
                    let second = if parts.len() == 3 {
                        parse_unsigned(parts[2], u32::MAX as nat)
                    } else {
                        Some(0nat)
                    };
                    match second {
                        None => Err(quoted("invalid alarm second in `"@, value, "`"@)),
                        Some(second) => if hour > 23 || minute > 59 || second > 59 {
                            Err(quoted("invalid alarm time `"@, value, "`: out-of-range values"@))
                        } else {
                            Ok(
                                AlarmTime {
                                    hour: hour as u32,
                                    minute: minute as u32,
                                    second: second as u32,
                                },
                            )
                        },
                    }
                },
            },
        }
    }
}

/// The message `before`, then `value`, then `after`.
fn message(before: &str, value: &str, after: &str) -> (r: String)
    ensures
        r@ == quoted(before@, value@, after@),
{
    let mut msg = String::from_str(before);
    msg.append(value);
    msg.append(after);
    msg
}

impl AlarmTime {
    /// Parses an alarm time written `HH:MM` or `HH:MM:SS`.
    pub fn parse(value: &str) -> (r: Result<AlarmTime, String>)
        ensures
            match r {
                Ok(t) => alarm_time_result(value@) == Ok::<AlarmTime, Seq<char>>(t),
                Err(msg) => alarm_time_result(value@) == Err::<AlarmTime, Seq<char>>(msg@),
            },
    {
        let chars = to_chars(value);
        let parts = split_chars(chars.as_slice(), ':');
        proof {
            assert(views(parts@).len() == parts@.len());
        }
        if parts.len() != 2 && parts.len() != 3 {
            return Err(message("invalid alarm time `", value, "`: expected `HH:MM` or `HH:MM:SS`"));
        }
        proof {
            assert(views(parts@)[0] == parts@[0]@);
            assert(views(parts@)[1] == parts@[1]@);
        }
        let hour = match parse_unsigned_exec(parts[0].as_slice(), u32::MAX) {
            Some(h) => h,
            None => return Err(message("invalid alarm hour in `", value, "`")),
        };
        let minute = match parse_unsigned_exec(parts[1].as_slice(), u32::MAX) {
            Some(m) => m,
            None => return Err(message("invalid alarm minute in `", value, "`")),
        };
        let second = if parts.len() == 3 {
            proof {
                assert(views(parts@)[2] == parts@[2]@);
            }
            match parse_unsigned_exec(parts[2].as_slice(), u32::MAX) {
                Some(s) => s,
                None => return Err(message("invalid alarm second in `", value, "`")),
            }
        } else {
            0
        };
        if hour > 23 || minute > 59 || second > 59 {
            return Err(message("invalid alarm time `", value, "`: out-of-range values"));
        }
        Ok(AlarmTime { hour, minute, second })
    }
}

impl core::str::FromStr for AlarmTime {
    type Err = String;

    fn from_str(value: &str) -> (r: Result<AlarmTime, String>)
        ensures
            match r {
                Ok(t) => alarm_time_result(value@) == Ok::<AlarmTime, Seq<char>>(t),
                Err(msg) => alarm_time_result(value@) == Err::<AlarmTime, Seq<char>>(msg@),
            },
    {
        AlarmTime::parse(value)
    }
}

/// One alarm: the days on which it rings and the time at which it rings.
#[derive(Clone, Debug)]
pub struct AlarmConfig {
    pub days: Vec<AlarmDay>,
    pub time: AlarmTime,
}

/// Alarm day names are read without regard to ASCII case: two names that differ only in the
/// case of their letters name the same day, or neither names a day.
pub proof fn law_day_names_ignore_case(a: Seq<char>, b: Seq<char>)
    requires
        to_ascii_lowercase(a) == to_ascii_lowercase(b),
    ensures
        alarm_day_result(a) is Ok <==> alarm_day_result(b) is Ok,
        alarm_day_result(a) is Ok ==> alarm_day_result(a) == alarm_day_result(b),
{
}

/// A parsed alarm time is a real time of day: hour at most 23, minute and second at most 59;
/// written `HH:MM`, its second is 0.
pub proof fn law_alarm_time_in_range(value: Seq<char>)
    ensures
        alarm_time_result(value) matches Ok(t) ==> t.hour <= 23 && t.minute <= 59 && t.second
            <= 59,
        split_on(value, ':').len() == 2 ==> (alarm_time_result(value) matches Ok(t) ==> t.second
            == 0),
{
}

} // verus!
