# universe

A small game engine: a window thread renders with wgpu, a game thread runs
the simulation. The crate's library (`src/`) is verified with Verus; `app/`
holds the parts that talk to the window system, the GPU, threads and files.

- `src/game/` — the game thread's world (`GameSimulation`): object
  registration, killing, the mesh registry, the per-object start and update
  steps the game loop is made of, message handling, and laws about them.
  `src/game/camera.rs` holds the camera, whose aspect ratio is kept as the
  window's width and height; its lens (field of view, clipping distances)
  is a float value defined in `app/` and carried unread.
- `src/program.rs` — what the window thread does on each window event.
- `src/render.rs` — frame data handed to the renderer; which mesh files load.
- `src/state.rs` — the renderer's surface-format and per-frame decisions,
  and its pool of per-mesh resources.
- `src/mansel.rs` — readiness of background work.
- `app/` — the winit event loop, wgpu state, the game loop with user
  behaviours, threads and glTF loading.

The mesh registry (`src/game/meshes.rs`) is a vector of (path, loaded)
pairs under the invariant that no path occurs twice, not a `HashMap` keyed by
the path: Verus gives `Arc<str>` no view, and for a `HashMap` with `String`
keys it proves nothing about lookups, so the registry states its contents as
a map from path to loaded flag and proves its operations against that map.
The renderer's pool (`src/state.rs`) is a vector in pooling order, as it is
in the engine's renderer.
