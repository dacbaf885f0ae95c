# framework

The CPU-side core of a bindless deferred renderer built on wgpu, verified with
Verus.

- `src/` is the verified library: the handle store (`store`), the pooled GPU
  buffers and bind-group layout rules (`resources`), the mesh and instance
  registries (`mesh`, `instance`, `vertex`), the texture array (`texture_array`),
  keyboard and mouse-button state (`input`), the fixed-timestep frame planner
  (`framework`) and the preparation of glTF image data for upload (`model`).
  GPU records keep each float component as its IEEE-754 bit pattern.
- `app/` is the renderer program around it: window and event loop, device and
  surface set-up, resource creation and uploads, pipelines and passes, camera
  and light math, and model loading. Shaders are read from `./shaders/` and
  models from `./assets/` at run time.
- `tests/` exercises the library, using wgpu's no-op device where a GPU handle
  is needed.
