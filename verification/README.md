# rust_raytracer

A physically based path tracer with an interactive viewer.

- `src/` is the verified core, checked with Verus: how the picture is cut
  into render buckets and which pixels each bucket writes, pixel addressing
  in a bucket and in the film, the order in which buckets go to the render
  threads, the BSDF lobe flags and lobe slots, the sampler's dimension
  bookkeeping, grouping a mesh's indices into triangles, the RGBA frame
  shown in the window, the viewer's progress state machine, and what is
  read from `scene.yaml` and `render_settings.yaml` (parsed with yaml-rust).
- `app/` is the program around it: reading the files from disk,
  the render threads, the floating-point light transport (cameras, shapes,
  lights, materials, filters, colour conversion), denoising and the window.
- `tests/` exercises the verified core.
