# cosmic-wmctl

Manage windows and workspaces of a COSMIC session: list, move and activate
windows, launch commands on a workspace, and place new windows by rules.

The library in `src/` decides everything that can be decided without talking
to the compositor, and is verified with Verus:

- `query`, `records`, `model`: window queries, and the choice of windows,
  workspaces and outputs;
- `compositor`: what the compositor has told, and the snapshot made of it;
- `wayland`: what is to be sent for a move or an activation;
- `globs`, `rules`, `document`: placement rules and the rules file;
- `tracker`, `watcher`, `daemon`: which windows rules may still move, and the
  daemon that moves them;
- `launch`: launching a command and finding its window;
- `cli`: commands and the lines that they print;
- `editor`, `panel`: the editor of the rules file and what it shows;
- `text`, `order`, `decimal`, `list`, `error`: texts, lists and problems.

Glob matching and TOML writing are left to the `globset` and `toml` crates, and
the lower case of characters beyond ASCII to the standard library; the contracts
of `globs::parse_glob`, `globs::compile_glob`, `globs::match_glob`,
`document::write_toml` and `text::to_lower_case` say what is believed of them.

`app/` holds the programs around the library: `main.rs` is `cosmic-wmctl`,
`config_gui.rs` is the rules editor `cosmic-wmctl-config`.
