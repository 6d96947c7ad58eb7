# logia-rs

A terminal browser for log files, local or on servers reached over SSH, with
a focus on Laravel logs. It finds `.log` files, lets you walk directories,
search file names and log lines, scroll, refresh and export what you see,
and cycles through three colour schemes.

The project is written in Verus.

- `src/` is the verified library: the browser's state machine (`app`), what
  the screen shows (`view`), how logs are found, listed, ordered and read
  (`log_source`, `log_reader`, `order`, `path`), tab completion of paths
  (`complete`), the settings' decisions (`config`), snapshots and time
  stamps (`export`), Laravel line styling (`laravel`, through the `regex`
  crate), text inputs (`input`, through `tui-input`), colour schemes
  (`theme`) and text utilities (`text`). Every function carries a contract
  and the laws of the browser are stated as proof functions.
- `app/` is the terminal front end: the event loop, drawing with `ratatui`,
  the file system, SSH sessions (`ssh2`) and the settings file (`serde`,
  `toml`, `directories`). It runs the work the library names and hands the
  results back.
- `tests/` exercises the library on concrete inputs.

Settings live in `config.toml` under the platform's configuration
directory, for example:

```toml
local_paths = ["/var/log", "/var/www/html/storage/logs"]

[[servers]]
name = "prod-1"
host = "1.2.3.4"
port = 22
username = "deploy"
key_path = "~/.ssh/id_rsa"
```
