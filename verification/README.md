# hearthdeck

The decision logic of Hearthdeck, a controller-first TV library and launcher
for Linux, written in Verus: every function of the library states what it
does in `requires`/`ensures`, and Verus proves it.

## Layout

- `src/` — the verified library.
  - Catalog and discovery: `providers` (records, merging, sorting),
    `catalog` (the frontend's catalog as batches arrive, duplicates),
    `discovery`, `heroic` (turning what other launchers store into records),
    `json` and `launcher_files` (reading the other launchers' JSON files),
    `daemon` (the daemon's records, routes and pairing), `icon_cache`.
  - Library tabs: `app_group` (sections, tabs, filters, favorites, console
    tabs, scan results), `category_tabs`, `facets`, `tab_order`, `group_tabs` (tab keys
    and drag-and-drop reorders).
  - `frontend`: the frontend's state without its widgets, and what each
    message does to it, composed from the parts below.
  - Screens and navigation: `pages` (what Back, Escape and Confirm do),
    `dashboard`, `library_nav`, `details`, `details_screen` (the details
    screen's messages), `menu`, `keys`, `navigation`, `transitions`,
    `romm_paging`, `romm_consoles`, `rom_versions`, `health` (daemon health alerts),
    `settings`, `app`.
  - Input and launches: `input_ownership`, `launch_state`, `virtual_keyboard`,
    `toplevel` (recognising a launched app's window), `mapping`, `axis`,
    `gamepad_codes`, `broker` (the desktop input compatibility broker).
  - `text`, `style`, `system_status`, `controller_key`, `observability`:
    helpers.
- `tests/` — tests of the library on concrete values.
- `app/` — the input compatibility broker program (evdev devices, the
  control socket, the event loop), the file reading of the launcher
  libraries and the logging setup, around the library's decisions.
