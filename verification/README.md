# buffr-core

Core of the buffr browser host, verified with Verus.

The library under `src/` decides; the code under `app/` performs. Every
operation of the tab strip, of hint mode and of the page actions updates plain
state and queues requests for the browsers, so what the host does is stated and
proved without a browser. Parsers, script escaping, label generation, counters,
crash listings and update checks work on plain values and bytes that `app/`
reads and writes.

| Module | Contents |
| --- | --- |
| `host`, `strip` | tab strip, page actions, hint and edit calls; its model and laws |
| `hint`, `label` | hint sessions, alphabets, label numeration |
| `js`, `json`, `scripts` | string literals for scripts, the injected scripts |
| `edit`, `find`, `favicon`, `cursor`, `popup` | events on their way to the UI |
| `handlers`, `download_notice` | decisions behind the browser callbacks |
| `cmdline` | the `:` command line |
| `osr`, `new_tab` | off-screen frames, the built-in page |
| `telemetry`, `crash`, `updates`, `version` | counters, crash reports, update checks |
| `platform`, `path`, `open_finder` | platform differences, file names, the launcher |
| `clock`, `text`, `url` | points in time, text routines, names for pages |

Functions whose name starts with `law_` state what holds of the library as a
whole.
