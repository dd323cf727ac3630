# oracledb_pyshim

The decisions behind a Python extension module for Oracle Database, written and proved in Verus.

- `src/` is the library. It works on plain values: what a parameter looks like, what the server
  answered, what a cursor holds. Each function says in its contract what is bound, fetched,
  converted, refused or sent next; the `law_` proof functions state what holds across calls.
- `app/` is the extension module. It reads Python values, calls the library and the database
  driver, and raises what the library decided. The driver is an implementation of the traits in
  `app/driver.rs` and is installed with `install_driver`.
- `extras/python/` holds the Python module that the extension imports beside itself.
- `tests/` runs the library on concrete values.

Where to look:

| Module | What it decides |
| --- | --- |
| `binds`, `batch`, `slots`, `objsql` | which parameter goes to which placeholder |
| `pyvalue`, `lobbinds`, `value` | how a Python value is bound |
| `prepare`, `cursor`, `buffer`, `columns`, `execute`, `iterate` | the life of a cursor |
| `fetch`, `arrow` | how fetched values and Arrow tables become Python values |
| `dbobject`, `objtype`, `indexed`, `catalog`, `dictionary` | object types and objects |
| `lob`, `aq`, `soda`, `subscr`, `pool`, `session`, `pipeline`, `task`, `hooks` | the other parts of a connection |
| `errors`, `catalogue`, `typehandler`, `sqltext` | errors, type handlers and statement texts |
| `text`, `textmap`, `decimal` | texts and numbers in decimal |
