# gigabytectl

Control panel for laptops with the `gigabyte-laptop-wmi` kernel module: fan modes
and fan curves, charging limits, GPU boost, saved profiles, temperature alerts,
and two-way sync with `power-profiles-daemon`, from a TUI or from the command
line.

The rules live in a library that is verified with [Verus]; the program around it
does the reading, writing and drawing.

## Layout

- `src/` — the verified library. Each function states in `requires` / `ensures`
  what it takes and gives. Functions named `law_..` prove what holds across them.
  - `sysfs`, `sensors`, `history`: the driver's nodes, fan and temperature
    readings, the history graph.
  - `config`, `profile`: settings and saved profiles, and where they are kept.
  - `app`, `tui`, `ui`: the state of the TUI, its clock, and what it shows.
  - `cli`, `doctor`, `selfcmd`: the one-shot commands.
  - `notify`, `ppd`, `system`: alerts, the power profiles daemon, privileges and
    the output of commands.
  - `text`, `path`, `order`, `degrees`, `error`: what the others are built on.
- `app/` — the program: arguments, files, commands, the terminal.
- `tests/` — tests of the library on concrete values.

## What is trusted

Four functions call code that is not verified; their contracts say what is
claimed of it:

- `ui::areas`, `ui::inner` and `ui::width` call `ratatui`'s `Layout::areas`,
  `Rect::inner` and `Span::width`;
- `text::quote` calls the standard library's `Debug` formatting of a string.

`String::push` of the standard library has a specification in `text`.

Temperatures are carried as the bits of an `f32`, since the library holds no
floating point; converting and printing them is up to the program.

[Verus]: https://github.com/verus-lang/verus
