//! The weather information line: how a weather code reads, how the line is put together, its
//! refresh schedule, and the proxy rules (`HTTPS_PROXY`, `NO_PROXY`, ...) that the weather
//! requests follow.
//!
//! The requests themselves, and the coordinates and temperatures (floating-point numbers), stay
//! with the caller; this module holds the decisions and the text.
use vstd::prelude::*;
use vstd::string::StringExecFns;

use crate::config::TemperatureUnit;
use crate::report::{display_error, display_error_text};
use crate::text::{
    occurs_at, all_digits, chars_eq, copy_range, ends_with, ends_with_exec, last_occurrence,
    last_occurrence_exec, lowercase_chars, parse_unsigned, parse_unsigned_exec, split_chars,
    split_on, starts_with, starts_with_exec, string_from_chars, to_ascii_lowercase, to_chars, trim,
    trim_chars, views,
};

verus! {

broadcast use vstd::string::group_string_axioms;

/// The icon and the wording for a WMO weather code, as the weather service reports it.
pub open spec fn weather_text(code: u16) -> (Seq<char>, Seq<char>) {
    if code == 0 {
        ("☀"@, "Clear sky"@)
    } else if code == 1 {
        ("☀"@, "Mainly clear"@)
    } else if code == 2 {
        ("☁"@, "Partly cloudy"@)
    } else if code == 3 {
        ("☁"@, "Overcast"@)
    } else if code == 45 || code == 48 {
        ("≋"@, "Fog"@)
    } else if code == 51 || code == 53 || code == 55 {
        ("☂"@, "Drizzle"@)
    } else if code == 56 || code == 57 {
        ("☂"@, "Freezing drizzle"@)
    } else if code == 61 || code == 63 || code == 65 {
        ("☂"@, "Rain"@)
    } else if code == 66 || code == 67 {
        ("☂"@, "Freezing rain"@)
    } else if code == 71 || code == 73 || code == 75 {
        ("*"@, "Snow"@)
    } else if code == 77 {
        ("*"@, "Snow grains"@)
    } else if code == 80 || code == 81 || code == 82 {
        ("☂"@, "Rain showers"@)
    } else if code == 85 || code == 86 {
        ("*"@, "Snow showers"@)
    } else if code == 95 {
        ("⚡"@, "Thunderstorm"@)
    } else if code == 96 || code == 99 {
        ("⚡*"@, "Thunderstorm + hail"@)
    } else {
        ("?"@, "Unknown"@)
    }
}

/// The icon and the wording for a WMO weather code.
pub fn weather_display(code: u16) -> (r: (&'static str, &'static str))
    ensures
        (r.0@, r.1@) == weather_text(code),
{
    match code {
        0 => ("☀", "Clear sky"),
        1 => ("☀", "Mainly clear"),
        2 => ("☁", "Partly cloudy"),
        3 => ("☁", "Overcast"),
        45 | 48 => ("≋", "Fog"),
        51 | 53 | 55 => ("☂", "Drizzle"),
        56 | 57 => ("☂", "Freezing drizzle"),
        61 | 63 | 65 => ("☂", "Rain"),
        66 | 67 => ("☂", "Freezing rain"),
        71 | 73 | 75 => ("*", "Snow"),
        77 => ("*", "Snow grains"),
        80 | 81 | 82 => ("☂", "Rain showers"),
        85 | 86 => ("*", "Snow showers"),
        95 => ("⚡", "Thunderstorm"),
        96 | 99 => ("⚡*", "Thunderstorm + hail"),
        _ => ("?", "Unknown"),
    }
}

/// The WMO weather codes that the weather service reports read as follows, and every other
/// code reads as unknown:
/// 0 clear sky, 1 mainly clear, 2 partly cloudy, 3 overcast, 45 and 48 fog, 51, 53 and 55
/// drizzle, 56 and 57 freezing drizzle, 61, 63 and 65 rain, 66 and 67 freezing rain, 71, 73 and
/// 75 snow, 77 snow grains, 80, 81 and 82 rain showers, 85 and 86 snow showers, 95 thunderstorm,
/// 96 and 99 thunderstorm with hail.
pub proof fn law_weather_codes(code: u16)
    ensures
        code == 0 ==> weather_text(code) == ("☀"@, "Clear sky"@),
        code == 1 ==> weather_text(code) == ("☀"@, "Mainly clear"@),
        code == 2 ==> weather_text(code) == ("☁"@, "Partly cloudy"@),
        code == 3 ==> weather_text(code) == ("☁"@, "Overcast"@),
        code == 45 || code == 48 ==> weather_text(code) == ("≋"@, "Fog"@),
        code == 51 || code == 53 || code == 55 ==> weather_text(code) == ("☂"@, "Drizzle"@),
        code == 56 || code == 57 ==> weather_text(code) == ("☂"@, "Freezing drizzle"@),
        code == 61 || code == 63 || code == 65 ==> weather_text(code) == ("☂"@, "Rain"@),
        code == 66 || code == 67 ==> weather_text(code) == ("☂"@, "Freezing rain"@),
        code == 71 || code == 73 || code == 75 ==> weather_text(code) == ("*"@, "Snow"@),
        code == 77 ==> weather_text(code) == ("*"@, "Snow grains"@),
        code == 80 || code == 81 || code == 82 ==> weather_text(code) == ("☂"@, "Rain showers"@),
        code == 85 || code == 86 ==> weather_text(code) == ("*"@, "Snow showers"@),
        code == 95 ==> weather_text(code) == ("⚡"@, "Thunderstorm"@),
        code == 96 || code == 99 ==> weather_text(code) == ("⚡*"@, "Thunderstorm + hail"@),
        !(code <= 3 || code == 45 || code == 48 || code == 51 || code == 53 || code == 55
            || code == 56 || code == 57 || code == 61 || code == 63 || code == 65 || code == 66
            || code == 67 || code == 71 || code == 73 || code == 75 || code == 77 || code == 80
            || code == 81 || code == 82 || code == 85 || code == 86 || code == 95 || code == 96
            || code == 99) ==> weather_text(code) == ("?"@, "Unknown"@),
{
}

/// The weather line shows the wording of its weather code at its end, after the icon and two
/// spaces, and begins with the temperature as written.
pub proof fn law_weather_line_ends_with_wording(
    temperature: Seq<char>,
    unit: TemperatureUnit,
    code: u16,
)
    ensures
        ({
            let line = weather_line_text(temperature, unit, code);
            let (icon, wording) = weather_text(code);
            &&& line.take(temperature.len() as int) == temperature
            &&& line.skip(line.len() - wording.len()) == wording
            &&& line.subrange(
                line.len() - wording.len() - 2 - icon.len(),
                line.len() - wording.len() - 2,
            ) == icon
        }),
{
    let line = weather_line_text(temperature, unit, code);
    let (icon, wording) = weather_text(code);
    assert(line.take(temperature.len() as int) =~= temperature);
    assert(line.skip(line.len() - wording.len()) =~= wording);
    assert(line.subrange(line.len() - wording.len() - 2 - icon.len(), line.len() - wording.len() - 2)
        =~= icon) by {
        reveal_strlit("  ");
    }
}

/// The symbol of a temperature unit.
pub open spec fn unit_symbol(unit: TemperatureUnit) -> Seq<char> {
    match unit {
        TemperatureUnit::Celsius => "°C"@,
        TemperatureUnit::Fahrenheit => "°F"@,
    }
}

/// The weather line: the temperature (as the caller wrote it) and its unit's symbol, then
/// ` | `, the icon, two spaces and the wording of the weather code.
pub open spec fn weather_line_text(temperature: Seq<char>, unit: TemperatureUnit, code: u16) -> Seq<
    char,
> {
    temperature + unit_symbol(unit) + " | "@ + weather_text(code).0 + "  "@ + weather_text(code).1
}

/// Builds the weather line (see [`weather_line_text`]); `temperature` is the temperature
/// already written with one decimal.
pub fn weather_line(temperature: &str, unit: TemperatureUnit, code: u16) -> (r: String)
    ensures
        r@ == weather_line_text(temperature@, unit, code),
{
    let (icon, wording) = weather_display(code);
    let mut line = String::from_str(temperature);
    line.append(unit.symbol());
    line.append(" | ");
    line.append(icon);
    line.append("  ");
    line.append(wording);
    line
}

/// The prefix of the weather line's error reports.
pub open spec fn error_prefix() -> Seq<char> {
    "Weather error: "@
}

/// Formats an error for the weather line.
pub fn format_display_error(err: &str) -> (r: String)
    ensures
        r@ == display_error_text(error_prefix(), err@),
{
    display_error("Weather error: ", err)
}

/// The weather refresh interval, in seconds, for a configured number of minutes: at least one
/// minute, and the largest `u64` when the seconds would not fit.
pub open spec fn refresh_interval_text(minutes: u64) -> nat {
    let m = if minutes == 0 {
        1
    } else {
        minutes as nat
    };
    if m * 60 > u64::MAX {
        u64::MAX as nat
    } else {
        m * 60
    }
}

/// The weather refresh interval, in seconds, for a configured number of minutes.
pub fn refresh_interval_secs(minutes: u64) -> (r: u64)
    ensures
        r == refresh_interval_text(minutes),
{
    let m = if minutes < 1 {
        1
    } else {
        minutes
    };
    if m > u64::MAX / 60 {
        u64::MAX
    } else {
        m * 60
    }
}

/// Whether the weather line is shown: when both coordinates are configured or the location is
/// to be found from the IP address.
pub fn weather_enabled(has_latitude: bool, has_longitude: bool, auto_location: bool) -> (r: bool)
    ensures
        r == ((has_latitude && has_longitude) || auto_location),
{
    let has_coordinates = has_latitude && has_longitude;
    has_coordinates || auto_location
}

/// Whether a weather fetch is due: none happened yet, or the last one started at least
/// `interval_secs` seconds ago (`since_last_fetch_nanos` is that time in nanoseconds).
pub fn fetch_due(since_last_fetch_nanos: Option<u128>, interval_secs: u64) -> (r: bool)
    ensures
        r == match since_last_fetch_nanos {
            Some(elapsed) => elapsed >= interval_secs * 1_000_000_000,
            None => true,
        },
{
    match since_last_fetch_nanos {
        Some(elapsed) => elapsed >= (interval_secs as u128) * 1_000_000_000,
        None => true,
    }
}

/// The environment variables that may name the proxy of a request, in the order they are
/// looked at.
pub open spec fn proxy_vars_text(is_https: bool) -> Seq<Seq<char>> {
    if is_https {
        seq![
            "HTTPS_PROXY"@,
            "https_proxy"@,
            "ALL_PROXY"@,
            "all_proxy"@,
            "HTTP_PROXY"@,
            "http_proxy"@,
        ]
    } else {
        seq!["HTTP_PROXY"@, "http_proxy"@, "ALL_PROXY"@, "all_proxy"@]
    }
}

/// The environment variables that may name the proxy of a request, in the order they are
/// looked at.
pub fn proxy_env_vars(is_https: bool) -> (r: Vec<&'static str>)
    ensures
        r@.len() == proxy_vars_text(is_https).len(),
        forall|i: int| 0 <= i < r@.len() ==> (#[trigger] r@[i])@ == proxy_vars_text(is_https)[i],
{
    if is_https {
        vec!["HTTPS_PROXY", "https_proxy", "ALL_PROXY", "all_proxy", "HTTP_PROXY", "http_proxy"]
    } else {
        vec!["HTTP_PROXY", "http_proxy", "ALL_PROXY", "all_proxy"]
    }
}

/// The first value that is set, among the values of the proxy variables in their order.
pub open spec fn first_set(values: Seq<Option<String>>) -> Option<Seq<char>>
    decreases values.len(),
{
    if values.len() == 0 {
        None
    } else {
        match values[0] {
            Some(v) => Some(v@),
            None => first_set(values.drop_first()),
        }
    }
}

/// The proxy URL that the proxy variables name: the first that is set, trimmed, and none when
/// that is empty.
pub open spec fn proxy_url_text(values: Seq<Option<String>>) -> Option<Seq<char>> {
    match first_set(values) {
        Some(v) => if trim(v).len() == 0 {
            None
        } else {
            Some(trim(v))
        },
        None => None,
    }
}

/// Picks the proxy URL from the values of the proxy variables (`values[i]` is the value of the
/// `i`-th variable of [`proxy_env_vars`], `None` when it is not set).
pub fn proxy_url_from_values(values: &Vec<Option<String>>) -> (r: Option<String>)
    ensures
        match r {
            Some(url) => proxy_url_text(values@) == Some(url@),
            None => proxy_url_text(values@) is None,
        },
{
    let mut i: usize = 0;
    assert(values@.skip(0) =~= values@);
    while i < values.len()
        invariant
            i <= values.len(),
            first_set(values@) == first_set(values@.skip(i as int)),
        decreases values.len() - i,
    {
        assert(values@.skip(i as int).drop_first() =~= values@.skip(i + 1));
        match &values[i] {
            Some(v) => {
                let chars = to_chars(v.as_str());
                let t = trim_chars(chars.as_slice());
                if t.len() == 0 {
                    return None;
                }
                return Some(string_from_chars(t.as_slice()));
            },
            None => {},
        }
        i = i + 1;
    }
    assert(values@.skip(i as int).len() == 0);
    None
}

/// An entry without a leading `http://` or `https://`.
pub open spec fn strip_scheme(entry: Seq<char>) -> Seq<char> {
    if starts_with(entry, "http://"@) {
        entry.skip(7)
    } else if starts_with(entry, "https://"@) {
        entry.skip(8)
    } else {
        entry
    }
}

/// An entry without its trailing `'/'`s.
pub open spec fn trim_end_slashes(entry: Seq<char>) -> Seq<char>
    decreases entry.len(),
{
    if entry.len() > 0 && entry.last() == '/' {
        trim_end_slashes(entry.drop_last())
    } else {
        entry
    }
}

/// The host part and the port of an entry: when the text after its last `':'` is all ASCII
/// digits, the text before it and that number (none when it is empty or does not fit in 16
/// bits); else the entire entry and no port.
pub open spec fn split_port(entry: Seq<char>) -> (Seq<char>, Option<nat>) {
    match last_occurrence(entry, seq![':']) {
        Some(i) => if all_digits(entry.skip(i + 1)) {
            (entry.take(i), parse_unsigned(entry.skip(i + 1), 65535))
        } else {
            (entry, None)
        },
        None => (entry, None),
    }
}

/// Whether one `NO_PROXY` entry covers a request to `host` on `port`. The entry `*` covers
/// every request. Otherwise the entry, without a leading `http://` or `https://` and without
/// trailing `'/'`s, may end in `:port`, which must then be the request's port; its host part,
/// trimmed and lower-cased, must not be empty, and covers the (lower-cased) host when it equals
/// it or is a domain suffix of it: written `.example.com`, it covers `example.com` and every
/// host that ends in `.example.com`; written `example.com`, it covers `example.com` and every
/// host that ends in `.example.com`.
pub open spec fn no_proxy_entry_covers(entry: Seq<char>, host: Seq<char>, port: u16) -> bool {
    let host = to_ascii_lowercase(host);
    if entry == "*"@ {
        true
    } else {
        let e = trim_end_slashes(strip_scheme(entry));
        let (h, p) = split_port(e);
        if p is Some && p->0 != port {
            false
        } else {
            let eh = to_ascii_lowercase(trim(h));
            if eh.len() == 0 {
                false
            } else if eh[0] == '.' {
                host == eh.skip(1) || ends_with(host, eh)
            } else {
                host == eh || ends_with(host, seq!['.'] + eh)
            }
        }
    }
}

/// Whether every char of `v` is an ASCII digit.
fn all_digits_exec(v: &[char]) -> (r: bool)
    ensures
        r == all_digits(v@),
{
    let mut i: usize = 0;
    while i < v.len()
        invariant
            i <= v.len(),
            forall|j: int| 0 <= j < i ==> crate::text::is_ascii_digit(#[trigger] v@[j]),
        decreases v.len() - i,
    {
        if v[i] < '0' || v[i] > '9' {
            return false;
        }
        i = i + 1;
    }
    true
}

/// The chars of `v` without its trailing `'/'`s.
fn trim_end_slashes_exec(v: &[char]) -> (r: Vec<char>)
    ensures
        r@ == trim_end_slashes(v@),
{
    let mut b: usize = v.len();
    assert(v@.subrange(0, v@.len() as int) =~= v@);
    while b > 0 && v[b - 1] == '/'
        invariant
            b <= v.len(),
            trim_end_slashes(v@) == trim_end_slashes(v@.subrange(0, b as int)),
        decreases b,
    {
        assert(v@.subrange(0, b as int).drop_last() =~= v@.subrange(0, b - 1));
        b = b - 1;
    }
    copy_range(v, 0, b)
}

/// Whether one `NO_PROXY` entry covers a request to `host` on `port` (see
/// [`no_proxy_entry_covers`]).
pub fn no_proxy_entry_matches(entry: &str, host: &str, port: u16) -> (r: bool)
    ensures
        r == no_proxy_entry_covers(entry@, host@, port),
{
    let host_chars = to_chars(host);
    let host_lower = lowercase_chars(host_chars.as_slice());
    let entry_chars = to_chars(entry);
    let star = to_chars("*");
    if chars_eq(entry_chars.as_slice(), star.as_slice()) {
        return true;
    }
    proof {
        reveal_strlit("http://");
        reveal_strlit("https://");
    }
    let http = to_chars("http://");
    let https = to_chars("https://");
    let stripped = if starts_with_exec(entry_chars.as_slice(), http.as_slice()) {
        copy_range(entry_chars.as_slice(), 7, entry_chars.len())
    } else if starts_with_exec(entry_chars.as_slice(), https.as_slice()) {
        copy_range(entry_chars.as_slice(), 8, entry_chars.len())
    } else {
        copy_range(entry_chars.as_slice(), 0, entry_chars.len())
    };
    assert(stripped@ =~= strip_scheme(entry@));
    let e = trim_end_slashes_exec(stripped.as_slice());
    let mut colon: Vec<char> = Vec::new();
    colon.push(':');
    assert(colon@ =~= seq![':']);
    let (h, p) = match last_occurrence_exec(e.as_slice(), colon.as_slice()) {
        Some(i) => {
            assert(occurs_at(e@, i as int, colon@));
            assert(i < e.len());
            let after = copy_range(e.as_slice(), i + 1, e.len());
            assert(after@ =~= e@.skip(i + 1));
            if all_digits_exec(after.as_slice()) {
                let before = copy_range(e.as_slice(), 0, i);
                assert(before@ =~= e@.take(i as int));
                (before, parse_unsigned_exec(after.as_slice(), 65535))
            } else {
                (e, None)
            }
        },
        None => (e, None),
    };
    assert(h@ == split_port(trim_end_slashes(strip_scheme(entry@))).0);
    match p {
        Some(entry_port) => {
            if entry_port != port as u32 {
                return false;
            }
        },
        None => {},
    }
    let trimmed = trim_chars(h.as_slice());
    let entry_host = lowercase_chars(trimmed.as_slice());
    if entry_host.len() == 0 {
        return false;
    }
    if entry_host[0] == '.' {
        let rest = copy_range(entry_host.as_slice(), 1, entry_host.len());
        assert(rest@ =~= entry_host@.skip(1));
        return chars_eq(host_lower.as_slice(), rest.as_slice()) || ends_with_exec(
            host_lower.as_slice(),
            entry_host.as_slice(),
        );
    }
    let mut dotted: Vec<char> = vec!['.'];
    let mut k: usize = 0;
    while k < entry_host.len()
        invariant
            k <= entry_host.len(),
            dotted@ == seq!['.'] + entry_host@.take(k as int),
        decreases entry_host.len() - k,
    {
        dotted.push(entry_host[k]);
        k = k + 1;
        assert(dotted@ =~= seq!['.'] + entry_host@.take(k as int));
    }
    assert(entry_host@.take(entry_host.len() as int) =~= entry_host@);
    chars_eq(host_lower.as_slice(), entry_host.as_slice()) || ends_with_exec(
        host_lower.as_slice(),
        dotted.as_slice(),
    )
}

/// Whether a `NO_PROXY` value covers a request to `host` on `port`: one of its comma-separated
/// entries, trimmed and not empty, covers it (see [`no_proxy_entry_covers`]).
pub open spec fn no_proxy_covers(no_proxy: Seq<char>, host: Seq<char>, port: u16) -> bool {
    let entries = split_on(no_proxy, ',');
    exists|k: int|
        0 <= k < entries.len() && trim(#[trigger] entries[k]).len() > 0 && no_proxy_entry_covers(
            trim(entries[k]),
            host,
            port,
        )
}

/// Whether requests to `host` on `port` go around the proxy, given the value of `NO_PROXY` (or
/// of `no_proxy` when that is not set); `None` when neither is set.
pub fn should_bypass_proxy(no_proxy: Option<&str>, host: &str, port: u16) -> (r: bool)
    ensures
        r == match no_proxy {
            Some(v) => no_proxy_covers(v@, host@, port),
            None => false,
        },
{
    let value = match no_proxy {
        Some(v) => v,
        None => return false,
    };
    let chars = to_chars(value);
    let entries = split_chars(chars.as_slice(), ',');
    let ghost es = split_on(value@, ',');
    let mut k: usize = 0;
    while k < entries.len()
        invariant
            k <= entries.len(),
            es == split_on(value@, ','),
            no_proxy == Some(value),
            views(entries@) == es,
            forall|j: int|
                0 <= j < k ==> !(trim(#[trigger] es[j]).len() > 0 && no_proxy_entry_covers(
                    trim(es[j]),
                    host@,
                    port,
                )),
        decreases entries.len() - k,
    {
        assert(es[k as int] == entries@[k as int]@);
        let t = trim_chars(entries[k].as_slice());
        if t.len() > 0 {
            let entry = string_from_chars(t.as_slice());
            if no_proxy_entry_matches(entry.as_str(), host, port) {
                assert(0 <= k < es.len());
                assert(trim(es[k as int]).len() > 0 && no_proxy_entry_covers(
                    trim(es[k as int]),
                    host@,
                    port,
                ));
                return true;
            }
        }
        k = k + 1;
    }
    false
}

} // verus!
