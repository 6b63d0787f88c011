# hengjing

The logic of a desktop application that puts questions to a user, in popup windows and in a
Telegram chat, and hands the answers back to the program that asked. It is written in Verus: every
function of the library states what it returns or changes, and Verus proves it.

## The library (`src/`)

- `telegram_core`: the bot of a chat, the messages and keyboards that it sends, and what presses and
  texts in the chat stand for.
- `dispatcher`: several requests that wait in one chat, and the routing of each update to the
  request that it belongs to.
- `integration`: a chat that serves one request at a time.
- `commands`: what the user interface asks of Telegram.
- `mcp_handler`: requests that are answered in Telegram alone.
- `popup_windows`: which window shows which request, and who may finish it.
- `keyboard`, `selection`, `update`, `error`, `text`: what the modules above are made of.
- `outside`: what is taken from other crates. The contracts of these items are believed, not proved.
- `laws`: what holds of the library as a whole, each law as a proof function. `runs`: the laws that
  speak of rows of steps.

The library does no input or output. A function that would send something returns the message to
send; a second function takes in what became of it.

## Around the library

`app/` holds the Telegram client, the polling tasks and the Tauri commands and windows. What the
surrounding program provides (configuration files, Markdown conversion, the wording of responses,
sounds, the server for MCP requests) comes in through two traits, `Host` and `DesktopHost`. The
Telegram client is listed without a TLS backend: switch one on with a feature of `teloxide`.
Building `app/` takes the `wry` feature of Tauri and the
system libraries that Tauri needs.

`tests/` runs the library on concrete values.

`Cargo.toml` names `takecell`, which nothing here calls: it is a dependency of `teloxide`, held at
the last version that builds with Rust 1.95.
