# Kaze

A GTK4 + Libadwaita web browser on WebKitGTK, split in two:

- `src/` is the verified core, in Verus: the tab store and its events,
  the settings schema, search engines and the settings document's
  parse and migration, theme resolution, address-bar
  input handling, the new-tab page, the content-blocker ruleset, and the
  window's reactions to tab events. Each public function carries a
  contract; the laws of the tab store, the address bar, the query encoding, the
  accent colour, tab suspension and the ruleset are
  proof functions beside the code.
- `app/` is the program around it: `main`, the platform directories, the
  settings file and its serde schema, the WebKitGTK engine and the GTK
  widgets.
- `tests/` exercises the library.
