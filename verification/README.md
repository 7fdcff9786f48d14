# localgpt

The verified core of LocalGPT's world generation tools and command-line front
ends, written in Verus. Every function in `src/` carries a contract that Verus
proves; the laws of the library (undo/redo, loader overrides, hook
management, the GLB layout, ...) are public proof functions beside the code
they speak of.

Layout:

- `src/` — the library: world data model (`entity`, `world`, `light`), edit
  history (`history`) and what edits do to the scene registry (`scene`), the
  GLB container (`glb`), behaviors and avatar camera state (`behaviors`,
  `avatar`), document loaders (`document`), hook management (`hooks`), the
  Gen REPL and TUI command logic (`gen_repl`, `gen_cli`, `tui`,
  `tui_render`), the MCP server routing (`mcp`), the multiplayer server
  rules (`server`), search snippets (`snippet`), and string helpers (`text`,
  `strings`, `whitespace`).
- `tests/` — tests of the library on concrete values.
- `app/` — the command-line program: argument parsing, file and process I/O,
  configuration files and serialization around the library.

What is not here, and why:

- The Bevy-based systems (command dispatch, scene and entity inspection,
  snapshots of live entities, world saving, glTF document building, fly
  camera and avatar motion) read and write Bevy's ECS, which is not a
  dependency, and most of them compute with floating point. Their decisions
  that do not need Bevy stand in `scene`, `glb`, `world` and `world_load`.
- Behavior animation (`apply_behavior`, `behavior_tick`) is floating-point
  motion.
- The terminal UI loop, the Gen REPL loop and the multiplayer server's table
  access need ratatui/crossterm, the agent crate and SpacetimeDB; their
  decisions stand in `tui`, `gen_repl` and `server`.
- Parametric shapes and their triangle estimates, avatars, tours, creations
  and audio sources are defined in modules that are not part of this
  source; entities carry a triangle count, and sounds their kind, volume and
  radius.
