# lindows_panel

The logic of a small Linux control panel, verified with Verus.

- `src/text.rs`: white space, trimming and placeholder replacement over characters.
- `src/commands.rs`: which shell command a settings button or a custom button runs.
- `src/translations.rs`: language tables read from JSON files, the language in use, lookups.
- `src/config.rs`: custom buttons and the saved settings.
- `src/panel.rs`: the panel's state and every change the settings window makes to it, with
  the laws that relate them.
- `app/`: the egui window, file and process I/O, and the sizes, which are floating point.
