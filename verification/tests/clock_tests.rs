use clock_rs::ansi::{bg_escape, fg_escape};
use clock_rs::clock::{
    alarm_color_shown, colon_shown, height, is_info_loading, is_too_large, line_padding,
    meridiem_suffix, source_in_use,
    split_column, split_info_gap, split_info_start_row, twelve_hour, width, Padding,
};
use clock_rs::config::LayoutMode;

#[test]
fn face_size() {
    assert_eq!(width(false), 51);
    assert_eq!(width(true), 32);
    assert_eq!(height(LayoutMode::Split, true, true, true), 5);
    assert_eq!(height(LayoutMode::Stacked, false, false, false), 7);
    assert_eq!(height(LayoutMode::Stacked, true, false, true), 9);
    assert_eq!(height(LayoutMode::Stacked, true, true, true), 10);
}

#[test]
fn too_large() {
    assert!(is_too_large(51, 7, 52, 20));
    assert!(!is_too_large(51, 7, 53, 9));
    assert!(is_too_large(51, 7, 80, 8));
    assert!(is_too_large(u16::MAX, 7, u16::MAX, 20));
}

#[test]
fn split_columns() {
    assert_eq!(split_column(10, 51, 120), (65, 54));
    assert_eq!(split_column(10, 51, 66), (65, 0));
    assert_eq!(split_column(10, 51, 67), (65, 1));
    assert_eq!(split_info_start_row(1), 2);
    assert_eq!(split_info_start_row(3), 1);
    assert_eq!(split_info_start_row(4), 1);
    assert_eq!(split_info_start_row(5), 0);
    assert_eq!(split_info_start_row(9), 0);
    assert_eq!(split_info_gap(65, 30, 61, 10), 14);
    assert_eq!(split_info_gap(65, 30, 61, 40), 4);
    assert_eq!(split_info_gap(10, 0, 61, 0), 0);
}

#[test]
fn padding() {
    let mut p = Padding::default();
    assert_eq!(p.top, 0);
    assert_eq!(p.clock_len(), 0);
    p.place(3, 4, 100);
    assert_eq!(p.top, 3);
    assert_eq!(p.clock_len(), 4);
    assert_eq!(p.terminal_width(), 100);
    assert_eq!(line_padding(&p, 51, 10), " ".repeat(4 + 20));
    assert_eq!(line_padding(&p, 32, 60), " ".repeat(4));
}

#[test]
fn twelve_hour_clock() {
    assert_eq!(twelve_hour(0), (12, false));
    assert_eq!(twelve_hour(9), (9, false));
    assert_eq!(twelve_hour(12), (12, true));
    assert_eq!(twelve_hour(13), (1, true));
    assert_eq!(twelve_hour(23), (11, true));
    assert_eq!(meridiem_suffix(false), " [AM]");
    assert_eq!(meridiem_suffix(true), " [PM]");
}

#[test]
fn blinking() {
    assert!(colon_shown(false, 1));
    assert!(colon_shown(true, 2));
    assert!(!colon_shown(true, 3));
    assert!(alarm_color_shown(true, 4));
    assert!(!alarm_color_shown(true, 5));
    assert!(!alarm_color_shown(false, 4));
}

#[test]
fn escapes() {
    assert_eq!(fg_escape((8, 25, 180)), "\x1B[38;2;8;25;180m");
    assert_eq!(bg_escape((0, 255, 100)), "\x1B[48;2;0;255;100m");
}

use clock_rs::clock::{clock_time, face_frame, info_line_text, info_lines, InfoLine};

fn plain_texts(lines: &[InfoLine<f64>]) -> Vec<String> {
    lines
        .iter()
        .map(|l| match l {
            InfoLine::Plain(t) => format!("P:{t}"),
            InfoLine::Weather { line, temperature_celsius } => format!("W:{line}:{temperature_celsius}"),
            InfoLine::ProcessUsage { usage_prefix, usage_text, usage_percent } => {
                format!("U:{usage_prefix}:{usage_text}:{usage_percent}")
            }
        })
        .collect()
}

#[test]
fn information_lines_in_order() {
    let all = info_lines(
        "01-02-2024".to_string(),
        true,
        Some("21.5°C | ☁  Partly cloudy".to_string()),
        Some(21.5),
        true,
        Some("♪ Song".to_string()),
        true,
        Some(("⚠ cargo CPU ".to_string(), "93.0%".to_string(), 93.0)),
    );
    assert_eq!(
        plain_texts(&all),
        vec![
            "P:01-02-2024",
            "W:21.5°C | ☁  Partly cloudy:21.5",
            "P:♪ Song",
            "U:⚠ cargo CPU :93.0%:93",
        ]
    );
    let few = info_lines("d".to_string(), true, None, Some(1.0), false, Some("x".to_string()), true, None);
    assert_eq!(plain_texts(&few), vec!["P:d", "P:"]);
    let no_temp = info_lines("d".to_string(), true, Some("w".to_string()), None, true, None, false, None);
    assert_eq!(plain_texts(&no_temp), vec!["P:d", "P:w"]);
    assert_eq!(all[1].len_chars(), 25);
    assert_eq!(all[3].len_chars(), 17);
}

#[test]
fn information_line_texts() {
    let weather: InfoLine<f64> =
        InfoLine::Weather { line: "21.5°C | ☁  Partly | cloudy".to_string(), temperature_celsius: 21.5 };
    assert_eq!(
        info_line_text(&weather, "<T>", "<R>", "<B>", "<F>"),
        "<T>21.5°C<R><B><F> | ☁  Partly | cloudy"
    );
    let odd: InfoLine<f64> = InfoLine::Weather { line: "no separator".to_string(), temperature_celsius: 0.0 };
    assert_eq!(info_line_text(&odd, "<T>", "<R>", "<B>", "<F>"), "no separator");
    let usage: InfoLine<f64> = InfoLine::ProcessUsage {
        usage_prefix: "⚠ a CPU ".to_string(),
        usage_text: "60.0%".to_string(),
        usage_percent: 60.0,
    };
    assert_eq!(info_line_text(&usage, "<U>", "<R>", "", "<F>"), "⚠ a CPU <U>60.0%<R><F>");
    let plain: InfoLine<f64> = InfoLine::Plain("date".to_string());
    assert_eq!(info_line_text(&plain, "<X>", "<R>", "<B>", "<F>"), "date");
}

#[test]
fn twelve_hour_date_line() {
    assert_eq!(clock_time("d".to_string(), true, true, 0), ("d [AM]".to_string(), 12));
    assert_eq!(clock_time("d".to_string(), true, true, 15), ("d [PM]".to_string(), 3));
    assert_eq!(clock_time("d".to_string(), true, false, 15), ("d".to_string(), 15));
    assert_eq!(clock_time("d".to_string(), false, true, 15), ("d".to_string(), 15));
}

fn rows() -> Vec<Vec<String>> {
    (0..5)
        .map(|r| ["a", "b", ":", "c", "d", "e", "f"].iter().map(|c| format!("{c}{r}")).collect())
        .collect()
}

#[test]
fn stacked_frame() {
    let mut p = Padding::default();
    p.place(0, 2, 80);
    let lines: Vec<InfoLine<f64>> = vec![InfoLine::Plain("date".to_string()), InfoLine::Plain("xy".to_string())];
    let escapes = vec![String::new(), String::new()];
    let frame = face_frame(&p, true, LayoutMode::Stacked, &rows(), &lines, &escapes, "<R>", true, "<B>", "<F>");
    let mut expected = String::new();
    for r in 0..5 {
        expected += &format!("\r\x1B[2K  a{r}b{r}:{r}c{r}d{r}\r\n");
    }
    expected += &format!("\n\r\x1B[2K<B>  {}<F>date\n", " ".repeat(14));
    expected += &format!("\r\x1B[2K<B>  {}<F>xy\n", " ".repeat(15));
    assert_eq!(frame, expected);
}

#[test]
fn split_frame() {
    let mut p = Padding::default();
    p.place(0, 0, 100);
    let lines: Vec<InfoLine<f64>> = vec![InfoLine::Plain("date".to_string())];
    let escapes = vec![String::new()];
    let frame = face_frame(&p, false, LayoutMode::Split, &rows(), &lines, &escapes, "<R>", true, "<B>", "<F>");
    // Column starts at 55 and is 44 wide; a 4-char line is centered 20 columns in, so it
    // starts 24 columns after the face's end (51).
    let mut expected = String::new();
    for r in 0..5 {
        expected += &format!("\r\x1B[2Ka{r}b{r}:{r}c{r}d{r}:{r}e{r}f{r}");
        if r == 2 {
            expected += &format!("{}<F>date", " ".repeat(24));
        }
        expected += "\r\n";
    }
    assert_eq!(frame, expected);
}

#[test]
fn sources_are_used_only_in_time_mode() {
    assert!(source_in_use(true, true));
    assert!(!source_in_use(true, false));
    assert!(!source_in_use(false, true));
    assert!(!source_in_use(false, false));
}

#[test]
fn info_loading_when_any_source_loads() {
    assert!(!is_info_loading(None, None, None));
    assert!(!is_info_loading(Some(false), Some(false), Some(false)));
    assert!(is_info_loading(Some(true), None, None));
    assert!(is_info_loading(None, Some(true), Some(false)));
    assert!(is_info_loading(None, None, Some(true)));
}
