# enigma_3d

A small 3D engine whose decision-making core is a library verified with
Verus, with the window, GPU, audio and file handling around it.

- `src/` — the verified library: logging (levels, log-file text, merging
  logs), shaders, named state data, input dispatch (which injected functions
  an event fires, what a frame runs, which keys are held), selection, audio clip bookkeeping, the lights that light an
  object, shadow-atlas layout, keyframe lookup, skeleton import and repair,
  OBJ text reading, decoding image bytes to pixels, resource lookup, message
  formatting, terrain hashing.
- `tests/` — tests of the library.
- `app/` — the engine runtime and a demo scene (glium, winit, egui,
  egui_glium, rodio, gltf, image, nalgebra, serde).
