# Window switcher

A switcher for windows and applications on Windows, driven by the keyboard. The decisions of the
program stand in a library whose behaviour is stated in contracts and proved with Verus; what it
takes from the system stands in a thin program around it.

- `src/` is the library.
  - `config/` reads, checks, completes and saves the INI file: `document`, `merge`, `encoding`,
    `schema`, `storage` and `settings`; `defaults` writes the file where there is none, and
    `retention` proves that a completed file keeps its lines, `stability` and `template` that it
    is complete; `transaction` and
    `metadata` replace the file without losing it; `watch_state`, `watch` and `reload` take over a
    changed file; `messages` and `reasons` hold the texts of errors; `logging/` keeps the log and its archives
    within their bounds.
  - `config_file`, `config_diagnostics`, `config_schema` and `config_watcher` report on a file
    that users edit: what is out of date, what is unknown and what is invalid, line by line.
  - `keyboard/` decides which keys are swallowed and which events they cause, and hands the events
    to the interface.
  - `foreground`, `window_identity`, `mru`, `monitor_scope` and `order` know windows and their
    order.
  - `layout` and `painter` place the icons of the panel; `font_resources/`, `icon_loader/` and
    `icon_cache` decide on fonts and icons.
  - `localization`, `diagnostics` and `metrics` hold texts and measurements.
- `tests/` runs the library on examples.
- `app/` holds the program: files, threads, hooks and windows of the system.

Public proof functions state what holds of the library as a whole, such as that a save never loses
the original file, that a finished session causes no further event, or that the memory of icons
stays within its budget.
