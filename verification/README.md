# osskins

A skin manager for League of Legends: it watches the game client, applies the
skins chosen for each champion, and shares them with paired friends in party
mode. The decisions it takes are written in Verus and proved against their
contracts; the program around them is ordinary Rust.

## Layout

- `src/` — the verified library.
  - `text`, `json`, `sorting`: decimal notation, a JSON model of the client's
    documents, lexicographic sorting and its laws.
  - `config`, `settings`, `misc`: the saved configuration, the configuration
    document, and the uploaded map/font/HUD items.
  - `champ_select`, `lobby`: which champions a session or lobby holds for the
    local player.
  - `watcher`, `flow`, `signature`, `injection_plan`: the watcher's state,
    its decision on each poll, the signatures that keep an injection from
    repeating, and the skins each injection carries.
  - `party`, `chat`, `friends`: skins shared by friends, the chat messages
    that carry them, and the friends list.
  - `lockfile`, `league_dir`, `downloads`, `logbuf`: client credentials, the
    game folder, skin downloads and data updates, the in-memory log.
  - `laws`: properties that span several operations.
- `tests/` — tests of the library on concrete values.
- `app/` — the command-line program: file and network I/O, the polling loop
  that drives the watcher's decisions, and serializable copies of the
  library's types.
