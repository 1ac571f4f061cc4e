# clock_rs

A terminal clock with alarms and information lines (weather, the track that plays, the process
that uses the most CPU or RAM) and an audio visualizer.

- `src/` is the library, verified with Verus: the alarm scheduler and its laws (an alarm rings
  until dismissed, never rings again for the second it was dismissed in), the parsers of alarm
  days and times, the update steps of the information lines (one fetch at a time, the refresh
  interval kept), the text of the lines and of their error reports, the proxy rules of the
  weather requests, the device choice of the visualizer, and the geometry of the clock face.
  Its string helpers are specified over `Seq<char>` after std's documented behaviour
  (`trim`, `split`, `lines`, `split_whitespace`, `parse::<u32>`).
  The clock face is composed in `src/clock.rs` (which information lines show and in which order,
  the text of each, the stacked and split layouts); the drawings of the digits and the colors
  are handed to it, and no digit font is part of this crate.
- `app/` holds what talks to the outside world (configuration file, background threads running
  `ps`, `osascript` and `ffmpeg`, the weather service) and the floating-point computations.
- `tests/` runs the library on concrete values.
