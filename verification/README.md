# ratgreet

A terminal greeter for [greetd](https://git.sr.ht/~kennylevinsen/greetd), written as a
Verus library with a thin program around it.

## Layout

- `src/` — the verified library. Every function carries a `requires`/`ensures` contract
  over `Seq`/`Option` views of its data, and the laws of the greeter stand as public
  proof functions (`lemma_*`) next to the functions they speak of.
  - `config`, `theme`, `settings`, `paths`, `cli` — where `config.toml` and `theme.toml`
    live, how their layers merge over the built-in defaults, validation, and the command
    line overrides.
  - `greeter`, `keyboard`, `masked`, `menu`, `sessions`, `power` — the greeter's state and
    what each key does to it.
  - `ipc` — what is handed to greetd to start a session, and what greetd's replies do.
  - `info` — the issue banner, the session directories, session files and their order.
  - `color`, `text`, `strings`, `messages` — theme colors, string helpers, UI texts.
- `app/` — the program: command line parsing (clap), reading files (serde/toml), the
  greetd socket, the terminal and drawing (crossterm/ratatui), logging.
- `tests/` — tests of the library on concrete values.

Outside calls the library makes (ratatui's color names, chrono's format check, the `ini`
parser, `Path::file_stem`, `zeroize`, `String::push`) go through small trusted wrappers whose
contracts are documented where they are declared.
