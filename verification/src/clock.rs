//! The geometry of the clock face: its size, where the information lines go, and the 12-hour
//! reading of the hour.
use vstd::prelude::*;
use vstd::string::{StrSliceExecFns, StringExecFns};

use crate::config::LayoutMode;
use crate::text::{copy_range, first_occurrence, first_occurrence_exec, push_char, string_from_chars, to_chars};

verus! {

broadcast use vstd::string::group_string_axioms;

/// The width of the face with seconds.
pub const WIDTH: u16 = 51;

/// The width of the face without seconds.
pub const WIDTH_NO_SECONDS: u16 = 32;

/// The height of the stacked face without information lines beyond the date.
pub const HEIGHT: u16 = 7;

/// The rows of a digit.
pub const DIGIT_ROWS: usize = 5;

/// Where the face is drawn in the terminal.
pub struct Padding {
    /// Rows above the face.
    pub top: u16,
    /// The spaces in front of each row of the face.
    clock: String,
    /// The width of the terminal.
    terminal_width: u16,
}

/// The abstract state of a [`Padding`].
pub struct PaddingView {
    pub top: u16,
    pub clock: Seq<char>,
    pub terminal_width: u16,
}

impl View for Padding {
    type V = PaddingView;

    closed spec fn view(&self) -> PaddingView {
        PaddingView { top: self.top, clock: self.clock@, terminal_width: self.terminal_width }
    }
}

impl Default for Padding {
    fn default() -> (r: Self)
        ensures
            r@.top == 0,
            r@.clock.len() == 0,
            r@.terminal_width == 0,
    {
        Padding { top: 0, clock: String::new(), terminal_width: 0 }
    }
}

/// `n` spaces.
pub open spec fn spaces(n: nat) -> Seq<char> {
    Seq::new(n, |i: int| ' ')
}

impl Padding {
    /// Places the face `column` columns from the left and `top` rows from the top of a terminal
    /// `terminal_width` columns wide.
    pub fn place(&mut self, top: u16, column: u16, terminal_width: u16)
        ensures
            final(self)@.top == top,
            final(self)@.clock == spaces(column as nat),
            final(self)@.terminal_width == terminal_width,
    {
        let mut clock = String::new();
        let mut i: u16 = 0;
        while i < column
            invariant
                i <= column,
                clock@ == spaces(i as nat),
            decreases column - i,
        {
            push_char(&mut clock, ' ');
            i = i + 1;
            assert(clock@ =~= spaces(i as nat));
        }
        self.top = top;
        self.clock = clock;
        self.terminal_width = terminal_width;
    }

    /// The number of spaces in front of each row of the face.
    pub fn clock_len(&self) -> (r: usize)
        ensures
            r == self@.clock.len(),
    {
        self.clock.as_str().unicode_len()
    }

    /// The spaces in front of each row of the face.
    pub fn clock_str(&self) -> (r: &str)
        ensures
            r@ == self@.clock,
    {
        self.clock.as_str()
    }

    /// The width of the terminal.
    pub fn terminal_width(&self) -> (r: u16)
        ensures
            r == self@.terminal_width,
    {
        self.terminal_width
    }
}

/// The width of the face.
pub fn width(hide_seconds: bool) -> (r: u16)
    ensures
        r == if hide_seconds {
            WIDTH_NO_SECONDS
        } else {
            WIDTH
        },
{
    if hide_seconds {
        return WIDTH_NO_SECONDS;
    }
    WIDTH
}

/// The height of the face: the digits alone in the split layout; else the digits, the date line
/// and one row for each information line shown.
pub fn height(
    layout_mode: LayoutMode,
    show_weather: bool,
    show_now_playing: bool,
    show_process_usage: bool,
) -> (r: u16)
    ensures
        r == if layout_mode == LayoutMode::Split {
            DIGIT_ROWS as int
        } else {
            HEIGHT + (if show_weather {
                1int
            } else {
                0
            }) + (if show_now_playing {
                1int
            } else {
                0
            }) + (if show_process_usage {
                1int
            } else {
                0
            })
        },
{
    if layout_mode == LayoutMode::Split {
        return 5;
    }
    HEIGHT + if show_weather {
        1
    } else {
        0
    } + if show_now_playing {
        1
    } else {
        0
    } + if show_process_usage {
        1
    } else {
        0
    }
}

/// Whether a face of the given size does not fit a terminal of the given size, with one column
/// and one row to spare.
pub fn is_too_large(face_width: u16, face_height: u16, width: u16, height: u16) -> (r: bool)
    ensures
        r == (face_width + 1 >= width || face_height + 1 >= height),
{
    face_width as u32 + 1 >= width as u32 || face_height as u32 + 1 >= height as u32
}

/// Whether an information source (the weather, the track that plays, the process usage) is in
/// use: its line is shown and it is refreshed only while the clock shows the time (not a counter
/// or a timer), and only when the source is configured.
pub fn source_in_use(time_mode: bool, configured: bool) -> (r: bool)
    ensures
        r == (time_mode && configured),
{
    time_mode && configured
}

/// Whether one of the information sources is still waiting for its first answer: each source
/// is given as `None` when it is not configured, else as whether it is loading.
pub fn is_info_loading(
    weather: Option<bool>,
    now_playing: Option<bool>,
    process_usage: Option<bool>,
) -> (r: bool)
    ensures
        r == (weather == Some(true) || now_playing == Some(true) || process_usage == Some(true)),
{
    let w = match weather {
        Some(loading) => loading,
        None => false,
    };
    let n = match now_playing {
        Some(loading) => loading,
        None => false,
    };
    let p = match process_usage {
        Some(loading) => loading,
        None => false,
    };
    w || n || p
}

/// Where the column of information lines starts in the split layout, and how wide it is: four
/// columns after the face, up to one column before the terminal's edge.
pub fn split_column(clock_start: u16, face_width: u16, terminal_width: u16) -> (r: (u16, u16))
    requires
        clock_start + face_width + 4 <= u16::MAX,
    ensures
        r.0 == clock_start + face_width + 4,
        r.1 == if terminal_width > r.0 + 1 {
            terminal_width - (r.0 + 1)
        } else {
            0
        },
{
    let clock_end = clock_start + face_width;
    let column_start = clock_end + 4;
    let column_width = if terminal_width as u32 > column_start as u32 + 1 {
        terminal_width - (column_start + 1)
    } else {
        0
    };
    (column_start, column_width)
}

/// The face's own padding, then the spaces that center a line of `line_len` chars under a face
/// `face_width` columns wide.
pub open spec fn line_padding_spec(pad: Seq<char>, face_width: u16, line_len: u16) -> Seq<char> {
    pad + spaces(
        if face_width / 2 > line_len / 2 {
            (face_width / 2 - line_len / 2) as nat
        } else {
            0
        },
    )
}

/// The spaces before an information line of `line_len` chars in the stacked layout: the face's
/// own padding, then enough to center the line under the face.
pub fn line_padding(padding: &Padding, face_width: u16, line_len: u16) -> (r: String)
    ensures
        r@ == line_padding_spec(padding@.clock, face_width, line_len),
{
    let half_width = face_width / 2;
    let n: u16 = if half_width > line_len / 2 {
        half_width - line_len / 2
    } else {
        0
    };
    let mut out = String::new();
    out.append(padding.clock.as_str());
    let mut i: u16 = 0;
    while i < n
        invariant
            i <= n,
            out@ == padding@.clock + spaces(i as nat),
        decreases n - i,
    {
        push_char(&mut out, ' ');
        i = i + 1;
        assert(out@ =~= padding@.clock + spaces(i as nat));
    }
    out
}

/// The hour shown on a 12-hour face, and whether the time is after noon: hours 13 to 23 become
/// 1 to 11, hour 0 becomes 12, the others stay.
pub open spec fn twelve_hour_text(hour: u32) -> (u32, bool) {
    let shown = if hour > 12 {
        (hour - 12) as u32
    } else if hour == 0 {
        12u32
    } else {
        hour
    };
    (shown, hour >= 12)
}

/// The hour shown on a 12-hour face, and whether the suffix is `[PM]` (else `[AM]`).
pub fn twelve_hour(hour: u32) -> (r: (u32, bool))
    ensures
        r == twelve_hour_text(hour),
{
    let pm = !(hour < 12);
    let shown = if hour > 12 {
        hour - 12
    } else if hour == 0 {
        12
    } else {
        hour
    };
    (shown, pm)
}

/// The suffix written after the date on a 12-hour face.
pub fn meridiem_suffix(pm: bool) -> (r: &'static str)
    ensures
        r@ == if pm {
            " [PM]"@
        } else {
            " [AM]"@
        },
{
    if pm {
        " [PM]"
    } else {
        " [AM]"
    }
}

/// The first digit row beside which `line_count` information lines are written in the split
/// layout: half the free rows, rounded up.
pub open spec fn start_row_spec(line_count: nat) -> nat {
    ((if line_count < DIGIT_ROWS {
        DIGIT_ROWS - line_count
    } else {
        0
    }) + 1) as nat / 2
}

/// The spaces between the face's end and an information line of `line_len` chars in the split
/// layout: the line is centered in the column, or starts at its left edge when it is at least
/// as wide.
pub open spec fn gap_spec(column_start: u16, column_width: u16, clock_end: u16, line_len: u16) -> nat {
    let offset = if line_len >= column_width {
        0
    } else {
        (column_width - line_len) / 2
    };
    let target = column_start + offset;
    if target > clock_end {
        (target - clock_end) as nat
    } else {
        0
    }
}

/// The first digit row beside which information lines are written in the split layout, so that
/// `line_count` lines sit centered beside the digits.
pub fn split_info_start_row(line_count: usize) -> (r: usize)
    ensures
        r == start_row_spec(line_count as nat),
{
    let free = if line_count < DIGIT_ROWS {
        DIGIT_ROWS - line_count
    } else {
        0
    };
    (free + 1) / 2
}

/// The spaces between the face and an information line of `line_len` chars in the split
/// layout: the line is centered in the column (or starts at its left edge when it is at least
/// as wide), and the gap runs from the face's end to the line's start.
pub fn split_info_gap(column_start: u16, column_width: u16, clock_end: u16, line_len: u16) -> (r:
    u16)
    requires
        column_start + column_width / 2 <= u16::MAX,
    ensures
        r == gap_spec(column_start, column_width, clock_end, line_len),
{
    let offset = if line_len >= column_width {
        0
    } else {
        (column_width - line_len) / 2
    };
    let target = column_start + offset;
    if target > clock_end {
        target - clock_end
    } else {
        0
    }
}

/// Whether the colon between the digits is drawn: always, unless it blinks and the second is
/// odd.
pub fn colon_shown(blink: bool, second: u32) -> (r: bool)
    ensures
        r == !(blink && second % 2 == 1),
{
    !(blink && second % 2 == 1)
}

/// Whether the digits are drawn in the alarm color: while an alarm rings, on even seconds.
pub fn alarm_color_shown(alarm_active: bool, second: u32) -> (r: bool)
    ensures
        r == (alarm_active && second % 2 == 0),
{
    alarm_active && second % 2 == 0
}

/// On a 12-hour face every hour of the day shows as 1 to 12, and it is after noon exactly from
/// hour 12 on.
pub proof fn law_twelve_hour_range(hour: u32)
    requires
        hour < 24,
    ensures
        1 <= twelve_hour_text(hour).0 <= 12,
        twelve_hour_text(hour).1 == (hour >= 12),
        twelve_hour_text(hour).0 % 12 == hour % 12,
{
}

/// An information line of the face. `N` is the type in which the caller keeps the weather's
/// temperature and the process usage (numbers that pick the color of their figure).
pub enum InfoLine<N> {
    /// A line written as it is.
    Plain(String),
    /// The weather line; the temperature picks the color of the part before ` | `.
    Weather { line: String, temperature_celsius: N },
    /// The process-usage line; the usage picks the color of the usage figure.
    ProcessUsage { usage_prefix: String, usage_text: String, usage_percent: N },
}

/// What an information line holds, with its text as char sequences.
pub enum InfoLineView<N> {
    Plain(Seq<char>),
    Weather { line: Seq<char>, temperature_celsius: N },
    ProcessUsage { usage_prefix: Seq<char>, usage_text: Seq<char>, usage_percent: N },
}

impl<N: Copy> View for InfoLine<N> {
    type V = InfoLineView<N>;

    open spec fn view(&self) -> InfoLineView<N> {
        match self {
            InfoLine::Plain(l) => InfoLineView::Plain(l@),
            InfoLine::Weather { line, temperature_celsius } => InfoLineView::Weather {
                line: line@,
                temperature_celsius: *temperature_celsius,
            },
            InfoLine::ProcessUsage { usage_prefix, usage_text, usage_percent } => {
                InfoLineView::ProcessUsage {
                    usage_prefix: usage_prefix@,
                    usage_text: usage_text@,
                    usage_percent: *usage_percent,
                }
            },
        }
    }
}

/// The views of a sequence of information lines.
pub open spec fn info_views<N: Copy>(lines: Seq<InfoLine<N>>) -> Seq<InfoLineView<N>> {
    lines.map_values(|l: InfoLine<N>| l@)
}

/// The information lines of the face, in order: the date line; the weather line when the
/// weather is shown and has a line (with its temperature when one is known, else as a plain
/// line); the now-playing line when it is shown and has a line; and, when the process usage is
/// shown, its line, or an empty line while it has no data.
pub open spec fn info_lines_spec<N>(
    date_line: Seq<char>,
    show_weather: bool,
    weather_line: Option<Seq<char>>,
    weather_temperature: Option<N>,
    show_now_playing: bool,
    now_playing_line: Option<Seq<char>>,
    show_process_usage: bool,
    process_usage: Option<(Seq<char>, Seq<char>, N)>,
) -> Seq<InfoLineView<N>> {
    let with_date = seq![InfoLineView::Plain(date_line)];
    let with_weather = if show_weather && weather_line is Some {
        match weather_temperature {
            Some(t) => with_date.push(
                InfoLineView::Weather { line: weather_line->0, temperature_celsius: t },
            ),
            None => with_date.push(InfoLineView::Plain(weather_line->0)),
        }
    } else {
        with_date
    };
    let with_now_playing = if show_now_playing && now_playing_line is Some {
        with_weather.push(InfoLineView::Plain(now_playing_line->0))
    } else {
        with_weather
    };
    if show_process_usage {
        match process_usage {
            Some((prefix, text, percent)) => with_now_playing.push(
                InfoLineView::ProcessUsage {
                    usage_prefix: prefix,
                    usage_text: text,
                    usage_percent: percent,
                },
            ),
            None => with_now_playing.push(InfoLineView::Plain(Seq::empty())),
        }
    } else {
        with_now_playing
    }
}

/// The view of an optional string.
pub open spec fn opt_text(o: Option<String>) -> Option<Seq<char>> {
    match o {
        Some(s) => Some(s@),
        None => None,
    }
}

/// The view of the process-usage data.
pub open spec fn usage_text_view<N>(o: Option<(String, String, N)>) -> Option<(Seq<char>, Seq<char>, N)> {
    match o {
        Some((a, b, n)) => Some((a@, b@, n)),
        None => None,
    }
}

/// Chooses and orders the information lines of the face (see [`info_lines_spec`]).
pub fn info_lines<N: Copy>(
    date_line: String,
    show_weather: bool,
    weather_line: Option<String>,
    weather_temperature: Option<N>,
    show_now_playing: bool,
    now_playing_line: Option<String>,
    show_process_usage: bool,
    process_usage: Option<(String, String, N)>,
) -> (r: Vec<InfoLine<N>>)
    ensures
        info_views(r@) == info_lines_spec(
            date_line@,
            show_weather,
            opt_text(weather_line),
            weather_temperature,
            show_now_playing,
            opt_text(now_playing_line),
            show_process_usage,
            usage_text_view(process_usage),
        ),
{
    let ghost dl = date_line@;
    let mut lines: Vec<InfoLine<N>> = Vec::new();
    lines.push(InfoLine::Plain(date_line));
    let ghost s1 = info_views(lines@);
    assert(s1 =~= seq![InfoLineView::Plain(dl)]);
    if show_weather {
        match weather_line {
            Some(line) => {
                match weather_temperature {
                    Some(t) => lines.push(InfoLine::Weather { line, temperature_celsius: t }),
                    None => lines.push(InfoLine::Plain(line)),
                }
                assert(info_views(lines@) =~= s1.push(lines@[1]@));
            },
            None => {},
        }
    }
    let ghost s2 = info_views(lines@);
    if show_now_playing {
        match now_playing_line {
            Some(line) => {
                lines.push(InfoLine::Plain(line));
                assert(info_views(lines@) =~= s2.push(lines@[lines@.len() - 1]@));
            },
            None => {},
        }
    }
    let ghost s3 = info_views(lines@);
    if show_process_usage {
        match process_usage {
            Some((prefix, text, percent)) => {
                lines.push(
                    InfoLine::ProcessUsage {
                        usage_prefix: prefix,
                        usage_text: text,
                        usage_percent: percent,
                    },
                );
            },
            None => {
                lines.push(InfoLine::Plain(String::new()));
            },
        }
        assert(info_views(lines@) =~= s3.push(lines@[lines@.len() - 1]@));
    }
    lines
}

/// The number of chars that an information line shows.
pub open spec fn info_line_len<N>(line: InfoLineView<N>) -> nat {
    match line {
        InfoLineView::Plain(l) => l.len(),
        InfoLineView::Weather { line, .. } => line.len(),
        InfoLineView::ProcessUsage { usage_prefix, usage_text, .. } => usage_prefix.len()
            + usage_text.len(),
    }
}

impl<N: Copy> InfoLine<N> {
    /// The number of chars that the line shows.
    pub fn len_chars(&self) -> (r: usize)
        requires
            info_line_len(self@) <= usize::MAX,
        ensures
            r == info_line_len(self@),
    {
        match self {
            InfoLine::Plain(line) => line.as_str().unicode_len(),
            InfoLine::Weather { line, .. } => line.as_str().unicode_len(),
            InfoLine::ProcessUsage { usage_prefix, usage_text, .. } => {
                usage_prefix.as_str().unicode_len() + usage_text.as_str().unicode_len()
            },
        }
    }
}

/// The text written for an information line. A plain line is written as it is. The weather
/// line's part before its first ` | ` is written in the temperature's color (`value_escape`),
/// followed by the reset, the bold escape and the foreground escape, then ` | ` and the rest
/// (without ` | ` the line is written as it is). The process-usage line is its prefix, then the
/// usage figure in the usage's color, the reset, the bold escape and the foreground escape.
pub open spec fn info_line_text_spec<N>(
    line: InfoLineView<N>,
    value_escape: Seq<char>,
    reset: Seq<char>,
    bold: Seq<char>,
    foreground: Seq<char>,
) -> Seq<char> {
    match line {
        InfoLineView::Plain(l) => l,
        InfoLineView::Weather { line, .. } => match first_occurrence(line, " | "@) {
            Some(i) => value_escape + line.take(i) + reset + bold + foreground + " | "@ + line.skip(
                i + 3,
            ),
            None => line,
        },
        InfoLineView::ProcessUsage { usage_prefix, usage_text, .. } => usage_prefix + value_escape
            + usage_text + reset + bold + foreground,
    }
}

/// Writes an information line (see [`info_line_text_spec`]); `value_escape` is the color
/// escape for the line's number (its temperature or usage), `reset` the escape that ends a
/// color, `bold` the bold escape or nothing, and `foreground` the escape of the face's color.
pub fn info_line_text<N: Copy>(
    line: &InfoLine<N>,
    value_escape: &str,
    reset: &str,
    bold: &str,
    foreground: &str,
) -> (r: String)
    ensures
        r@ == info_line_text_spec(line@, value_escape@, reset@, bold@, foreground@),
{
    match line {
        InfoLine::Plain(l) => l.clone(),
        InfoLine::Weather { line: text, .. } => {
            proof {
                reveal_strlit(" | ");
            }
            let chars = to_chars(text.as_str());
            let sep = to_chars(" | ");
            match first_occurrence_exec(chars.as_slice(), sep.as_slice()) {
                Some(i) => {
                    assert(sep@.len() == 3);
                    assert(crate::text::occurs_at(chars@, i as int, sep@));
                    assert(i + 3 <= chars.len());
                    let before = copy_range(chars.as_slice(), 0, i);
                    let after = copy_range(chars.as_slice(), i + 3, chars.len());
                    assert(before@ =~= text@.take(i as int));
                    assert(after@ =~= text@.skip(i + 3));
                    let mut out = String::from_str(value_escape);
                    out.append(string_from_chars(before.as_slice()).as_str());
                    out.append(reset);
                    out.append(bold);
                    out.append(foreground);
                    out.append(" | ");
                    out.append(string_from_chars(after.as_slice()).as_str());
                    out
                },
                None => text.clone(),
            }
        },
        InfoLine::ProcessUsage { usage_prefix, usage_text, .. } => {
            let mut out = usage_prefix.clone();
            out.append(value_escape);
            out.append(usage_text.as_str());
            out.append(reset);
            out.append(bold);
            out.append(foreground);
            out
        },
    }
}

/// The date line and the hour shown: on a 12-hour face showing the time, the date line gets the
/// ` [AM]` or ` [PM]` suffix and the hour its 12-hour reading; otherwise both stay.
pub open spec fn clock_time_spec(date_text: Seq<char>, time_mode: bool, use_12h: bool, hour: u32) -> (
    Seq<char>,
    u32,
) {
    if time_mode && use_12h {
        let (shown, pm) = twelve_hour_text(hour);
        (date_text + if pm {
            " [PM]"@
        } else {
            " [AM]"@
        }, shown)
    } else {
        (date_text, hour)
    }
}

/// Builds the date line and the hour shown (see [`clock_time_spec`]).
pub fn clock_time(date_text: String, time_mode: bool, use_12h: bool, hour: u32) -> (r: (String, u32))
    ensures
        (r.0@, r.1) == clock_time_spec(date_text@, time_mode, use_12h, hour),
{
    let mut text = date_text;
    if time_mode && use_12h {
        let (shown, pm) = twelve_hour(hour);
        text.append(meridiem_suffix(pm));
        (text, shown)
    } else {
        (text, hour)
    }
}

/// The cells of one row of the digits: the two hour digits, the colon, the two minute digits
/// and the two second digits, each as that row of its drawing.
pub open spec fn row_cells(rows: Seq<Vec<String>>, r: int, c: int) -> Seq<char> {
    rows[r]@[c]@
}

/// The digits part of row `r`: clear the line, the face's padding, the hours, the colon, the
/// minutes, and, unless the seconds are hidden, the colon again and the seconds.
pub open spec fn digits_row_text(pad: Seq<char>, hide_seconds: bool, rows: Seq<Vec<String>>, r: int) -> Seq<
    char,
> {
    "\r\x1B[2K"@ + pad + row_cells(rows, r, 0) + row_cells(rows, r, 1) + row_cells(rows, r, 2)
        + row_cells(rows, r, 3) + row_cells(rows, r, 4) + if hide_seconds {
        Seq::<char>::empty()
    } else {
        row_cells(rows, r, 2) + row_cells(rows, r, 5) + row_cells(rows, r, 6)
    }
}

/// Where the face sits, what it shows, and the escapes it is written with.
pub struct FaceText<N> {
    pub pad: Seq<char>,
    pub terminal_width: u16,
    pub face_width: u16,
    pub hide_seconds: bool,
    pub split: bool,
    pub rows: Seq<Vec<String>>,
    pub lines: Seq<InfoLineView<N>>,
    pub escapes: Seq<Seq<char>>,
    pub reset: Seq<char>,
    pub bold: Seq<char>,
    pub foreground: Seq<char>,
}

/// The column of the face's end.
pub open spec fn face_end<N>(f: FaceText<N>) -> u16 {
    (f.pad.len() + f.face_width) as u16
}

/// The start of the split layout's column of information lines.
pub open spec fn column_start<N>(f: FaceText<N>) -> u16 {
    (f.pad.len() + f.face_width + 4) as u16
}

/// The width of the split layout's column of information lines.
pub open spec fn column_width<N>(f: FaceText<N>) -> u16 {
    if f.terminal_width > column_start(f) + 1 {
        (f.terminal_width - (column_start(f) + 1)) as u16
    } else {
        0
    }
}

/// What follows the digits of row `r` in the split layout: when an information line sits beside
/// this row, the gap that centers it in the column, the face's color, and the line written
/// without bold.
pub open spec fn split_part<N>(f: FaceText<N>, r: int) -> Seq<char> {
    let start = start_row_spec(f.lines.len()) as int;
    if f.split && r >= start && r - start < f.lines.len() {
        let line = f.lines[r - start];
        let gap = gap_spec(
            column_start(f),
            column_width(f),
            face_end(f),
            info_line_len(line) as u16,
        );
        spaces(gap) + f.foreground + info_line_text_spec(
            line,
            f.escapes[r - start],
            f.reset,
            Seq::empty(),
            f.foreground,
        )
    } else {
        Seq::empty()
    }
}

/// The first `n` rows of the digits, each ending the line.
pub open spec fn rows_text<N>(f: FaceText<N>, n: int) -> Seq<char>
    decreases n,
{
    if n <= 0 {
        Seq::empty()
    } else {
        rows_text(f, n - 1) + digits_row_text(f.pad, f.hide_seconds, f.rows, n - 1) + split_part(
            f,
            n - 1,
        ) + "\r\n"@
    }
}

/// The `k`-th information line in the stacked layout: a blank line before the first, then clear
/// the line, the bold escape, the padding that centers the line under the face, the face's
/// color, and the line written with the bold escape.
pub open spec fn stacked_line<N>(f: FaceText<N>, k: int) -> Seq<char> {
    let line = f.lines[k];
    (if k == 0 {
        "\n"@
    } else {
        Seq::<char>::empty()
    }) + "\r\x1B[2K"@ + f.bold + line_padding_spec(
        f.pad,
        f.face_width,
        info_line_len(line) as u16,
    ) + f.foreground + info_line_text_spec(line, f.escapes[k], f.reset, f.bold, f.foreground)
        + "\n"@
}

/// The first `n` information lines in the stacked layout.
pub open spec fn stacked_text<N>(f: FaceText<N>, n: int) -> Seq<char>
    decreases n,
{
    if n <= 0 {
        Seq::empty()
    } else {
        stacked_text(f, n - 1) + stacked_line(f, n - 1)
    }
}

/// The whole face: the rows of the digits (with the information lines beside them in the split
/// layout), then, in the stacked layout, the information lines under them.
pub open spec fn frame_text<N>(f: FaceText<N>) -> Seq<char> {
    rows_text(f, DIGIT_ROWS as int) + if f.split {
        Seq::<char>::empty()
    } else {
        stacked_text(f, f.lines.len() as int)
    }
}

/// Writes the face (see [`frame_text`]). `digit_rows` holds, for each of the
/// [`DIGIT_ROWS`] rows, the drawings of the seven cells (two hour digits, colon, two minute
/// digits, two second digits); `value_escapes` holds, for each information line, the color
/// escape of its number; `bold_escape` is written when `bold`.
pub fn face_frame<N: Copy>(
    padding: &Padding,
    hide_seconds: bool,
    layout_mode: LayoutMode,
    digit_rows: &Vec<Vec<String>>,
    info_lines: &Vec<InfoLine<N>>,
    value_escapes: &Vec<String>,
    reset: &str,
    bold: bool,
    bold_escape: &str,
    foreground: &str,
) -> (r: String)
    requires
        digit_rows@.len() == DIGIT_ROWS,
        forall|k: int| 0 <= k < DIGIT_ROWS ==> (#[trigger] digit_rows@[k])@.len() == 7,
        value_escapes@.len() == info_lines@.len(),
        forall|k: int| 0 <= k < info_lines@.len() ==> info_line_len(
            (#[trigger] info_lines@[k])@,
        ) <= usize::MAX,
        padding@.clock.len() + (if hide_seconds {
            WIDTH_NO_SECONDS
        } else {
            WIDTH
        }) + 4 <= u16::MAX,
    ensures
        r@ == frame_text(
            FaceText {
                pad: padding@.clock,
                terminal_width: padding@.terminal_width,
                face_width: if hide_seconds {
                    WIDTH_NO_SECONDS
                } else {
                    WIDTH
                },
                hide_seconds,
                split: layout_mode == LayoutMode::Split,
                rows: digit_rows@,
                lines: info_views(info_lines@),
                escapes: value_escapes@.map_values(|e: String| e@),
                reset: reset@,
                bold: if bold {
                    bold_escape@
                } else {
                    Seq::empty()
                },
                foreground: foreground@,
            },
        ),
{
    let ghost f = FaceText {
        pad: padding@.clock,
        terminal_width: padding@.terminal_width,
        face_width: if hide_seconds {
            WIDTH_NO_SECONDS
        } else {
            WIDTH
        },
        hide_seconds,
        split: layout_mode == LayoutMode::Split,
        rows: digit_rows@,
        lines: info_views(info_lines@),
        escapes: value_escapes@.map_values(|e: String| e@),
        reset: reset@,
        bold: if bold {
            bold_escape@
        } else {
            Seq::empty()
        },
        foreground: foreground@,
    };
    let face_width = width(hide_seconds);
    let clock_start = padding.clock_len() as u16;
    let clock_end = clock_start + face_width;
    let (split_column_start, split_column_width) = split_column(
        clock_start,
        face_width,
        padding.terminal_width(),
    );
    let split = layout_mode == LayoutMode::Split;
    let start_row = split_info_start_row(info_lines.len());
    let mut out = String::new();
    let mut row: usize = 0;
    while row < DIGIT_ROWS
        invariant
            row <= DIGIT_ROWS,
            out@ == rows_text(f, row as int),
            f.rows == digit_rows@,
            f.lines == info_views(info_lines@),
            f.escapes == value_escapes@.map_values(|e: String| e@),
            f.pad == padding@.clock,
            f.hide_seconds == hide_seconds,
            f.split == split,
            f.reset == reset@,
            f.foreground == foreground@,
            digit_rows@.len() == DIGIT_ROWS,
            forall|k: int| 0 <= k < DIGIT_ROWS ==> (#[trigger] digit_rows@[k])@.len() == 7,
            value_escapes@.len() == info_lines@.len(),
            forall|k: int| 0 <= k < info_lines@.len() ==> info_line_len(
                (#[trigger] info_lines@[k])@,
            ) <= usize::MAX,
            start_row == start_row_spec(f.lines.len()),
            clock_end == face_end(f),
            split_column_start == column_start(f),
            split_column_width == column_width(f),
            split_column_start + split_column_width / 2 <= u16::MAX,
        decreases DIGIT_ROWS - row,
    {
        let cells = &digit_rows[row];
        let ghost before = out@;
        out.append("\r\x1B[2K");
        out.append(padding.clock_str());
        out.append(cells[0].as_str());
        out.append(cells[1].as_str());
        out.append(cells[2].as_str());
        out.append(cells[3].as_str());
        out.append(cells[4].as_str());
        if !hide_seconds {
            out.append(cells[2].as_str());
            out.append(cells[5].as_str());
            out.append(cells[6].as_str());
        }
        assert(out@ =~= before + digits_row_text(f.pad, f.hide_seconds, f.rows, row as int));
        let ghost with_digits = out@;
        if split && row >= start_row && row - start_row < info_lines.len() {
            let k = row - start_row;
            let line = &info_lines[k];
            let line_len = line.len_chars() as u16;
            let gap = split_info_gap(split_column_start, split_column_width, clock_end, line_len);
            let mut i: u16 = 0;
            while i < gap
                invariant
                    i <= gap,
                    out@ == with_digits + spaces(i as nat),
                decreases gap - i,
            {
                push_char(&mut out, ' ');
                i = i + 1;
                assert(out@ =~= with_digits + spaces(i as nat));
            }
            out.append(foreground);
            let text = info_line_text(line, value_escapes[k].as_str(), reset, "", foreground);
            out.append(text.as_str());
            proof {
                assert(f.lines[k as int] == info_lines@[k as int]@);
                assert(f.escapes[k as int] == value_escapes@[k as int]@);
                reveal_strlit("");
                assert(""@ =~= Seq::<char>::empty());
            }
            assert(out@ =~= with_digits + split_part(f, row as int));
        } else {
            assert(split_part(f, row as int) =~= Seq::<char>::empty());
            assert(out@ =~= with_digits + split_part(f, row as int));
        }
        out.append("\r\n");
        row = row + 1;
        assert(out@ =~= rows_text(f, row as int));
    }
    if split {
        return out;
    }
    let bold_str: &str = if bold {
        bold_escape
    } else {
        ""
    };
    proof {
        reveal_strlit("");
    }
    assert(bold_str@ == f.bold);
    let ghost digits_part = out@;
    let mut k: usize = 0;
    while k < info_lines.len()
        invariant
            k <= info_lines@.len(),
            out@ == digits_part + stacked_text(f, k as int),
            f.lines == info_views(info_lines@),
            f.escapes == value_escapes@.map_values(|e: String| e@),
            f.pad == padding@.clock,
            f.face_width == face_width,
            f.reset == reset@,
            f.foreground == foreground@,
            f.bold == bold_str@,
            value_escapes@.len() == info_lines@.len(),
            forall|j: int| 0 <= j < info_lines@.len() ==> info_line_len(
                (#[trigger] info_lines@[j])@,
            ) <= usize::MAX,
        decreases info_lines.len() - k,
    {
        let line = &info_lines[k];
        let pad = line_padding(padding, face_width, line.len_chars() as u16);
        let ghost before = out@;
        if k == 0 {
            out.append("\n");
        }
        out.append("\r\x1B[2K");
        out.append(bold_str);
        out.append(pad.as_str());
        out.append(foreground);
        let text = info_line_text(line, value_escapes[k].as_str(), reset, bold_str, foreground);
        out.append(text.as_str());
        out.append("\n");
        proof {
            assert(f.lines[k as int] == info_lines@[k as int]@);
            assert(f.escapes[k as int] == value_escapes@[k as int]@);
        }
        assert(out@ =~= before + stacked_line(f, k as int));
        k = k + 1;
        assert(out@ =~= digits_part + stacked_text(f, k as int));
    }
    out
}

proof fn lemma_rows_text_prefix<N>(f: FaceText<N>, m: int, n: int)
    requires
        0 <= m <= n,
    ensures
        rows_text(f, m).len() <= rows_text(f, n).len(),
        rows_text(f, n).take(rows_text(f, m).len() as int) == rows_text(f, m),
    decreases n,
{
    if m < n {
        lemma_rows_text_prefix(f, m, n - 1);
        let a = rows_text(f, m);
        let b = rows_text(f, n - 1);
        let c = rows_text(f, n);
        assert(c.take(b.len() as int) =~= b);
        assert(c.take(a.len() as int) =~= b.take(a.len() as int));
    } else {
        assert(rows_text(f, n).take(rows_text(f, m).len() as int) =~= rows_text(f, m));
    }
}

/// In the split layout every information line is written whole beside the digits: with `start`
/// the first row that centers the lines beside the digits, line `k` stands right after the
/// digits of row `start + k`, after the gap that centers it in the column and the face's color,
/// and it ends that row.
pub proof fn law_split_layout_shows_every_line<N>(f: FaceText<N>, k: int)
    requires
        f.split,
        0 <= k < f.lines.len(),
        start_row_spec(f.lines.len()) + k < DIGIT_ROWS,
    ensures
        ({
            let r = start_row_spec(f.lines.len()) + k;
            let before = rows_text(f, r) + digits_row_text(f.pad, f.hide_seconds, f.rows, r);
            let line = f.lines[k];
            let gap = gap_spec(
                column_start(f),
                column_width(f),
                face_end(f),
                info_line_len(line) as u16,
            );
            let shown = spaces(gap) + f.foreground + info_line_text_spec(
                line,
                f.escapes[k],
                f.reset,
                Seq::empty(),
                f.foreground,
            ) + "\r\n"@;
            frame_text(f).subrange(before.len() as int, (before.len() + shown.len()) as int) == shown
        }),
{
    let r = start_row_spec(f.lines.len()) + k;
    let before = rows_text(f, r) + digits_row_text(f.pad, f.hide_seconds, f.rows, r);
    let line = f.lines[k];
    let gap = gap_spec(column_start(f), column_width(f), face_end(f), info_line_len(line) as u16);
    let shown = spaces(gap) + f.foreground + info_line_text_spec(
        line,
        f.escapes[k],
        f.reset,
        Seq::empty(),
        f.foreground,
    ) + "\r\n"@;
    let upto = rows_text(f, r + 1);
    assert(upto =~= before + shown);
    lemma_rows_text_prefix(f, r + 1, DIGIT_ROWS as int);
    let frame = frame_text(f);
    assert(frame =~= rows_text(f, DIGIT_ROWS as int));
    assert(frame.take(upto.len() as int) == upto);
    assert(frame.subrange(before.len() as int, (before.len() + shown.len()) as int) =~= upto.subrange(
        before.len() as int,
        upto.len() as int,
    ));
}

} // verus!
