# pill_engine

The decision-making core of the Pill game engine, verified with Verus.

`src/` is the verified library:

- `config` — engine settings read from INI text, keys compared without regard to case.
- `log` — log contexts, their names, and per-context log levels read from a setting.
- `networking` — the wire format (tag byte and payload) and the message traffic over `renet`.
- `net_state` — the client's connection state machine with its reconnect back-off, and the
  server's and client's replication decisions.
- `input` — keyboard, mouse and gamepad button state, and one frame of input handling.
- `systems` — the registry of systems per update phase.
- `render_queue` — the per-frame decisions of the rendering system and the sorted render queue.
- `batching` — the draw commands of the static PBR pass: visible meshes sorted and grouped by
  material, batched by mesh, and placed in the per-draw uniform ring.
- `graphics` — renderer handles, pass descriptions and material uniform layout.
- `assets` — the cooked texture and mesh formats, and the asset rules, including what the
  GLB rule decides (the missing-part errors and the side textures it writes). Reading GLB files
  needs the `gltf` crate, which this build does not have.
- `components`, `utils` — textures as resources, haptics bookkeeping, and text utilities.
- `table`, `text`, `num` — a string-keyed table, character helpers and decimal text.

`app/` holds what stays outside the proofs: sockets and transports, the logger,
terminal styling, reading and writing asset files, floating-point geometry, and the
configuration of the passes whose parameters are floating-point values.
