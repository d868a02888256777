# monitor

The plugin host of a monitoring hub: events, their deduplication, the plugins
they go to, and the tables behind all of it. The library is written in Verus,
and every function states in its contract what it returns and changes.

| Module | What it holds |
|---|---|
| `db` | the tables (plugins, settings, plugin records, notification log) and their laws |
| `notification_bus` | events, their JSON, and the rule that one alert goes out once |
| `hub` | the database and the registry together |
| `plugin::manifest` | reading and checking `plugin.toml` |
| `plugin::loader` | from a stored row to a plugin that can be called |
| `plugin::registry` | loaded plugins, routing, limits, the dispatch log |
| `plugin::host` | the host functions that a plugin imports |
| `plugin::memory`, `plugin::call` | reading and writing a plugin's memory |
| `plugin::http` | which addresses a plugin may reach, and a bounded download |
| `plugin::log` | the lines that a plugin logs during one call |
| `table`, `text`, `json` | ordered tables, text and JSON |
| `outside` | what is taken from other crates, with the claims made of it |

`app/` runs the library: the SQLite file, the wasm instances, the network and
the tasks that dispatches run in. A dispatch waits in the registry until `app/`
takes it (`Registry::next_dispatch`), runs each call and hands the outcomes back
(`App::finish_dispatch`). A plugin's request is a state machine (`Fetch`) that
says what has to happen next; `app/` does it and reports what came of it.
