# siege_render

The planning core of a deferred Vulkan renderer, verified with Verus.

- `src/` holds the decisions the renderer makes, on plain values, each with a
  contract proved by Verus: the device-memory sub-allocator (chunks, blocks,
  alignment, flush passes), the choice of memory types, queue families and
  physical device, device requirements and their merging, the surface format,
  present mode and swapchain image count, pipeline blend and depth state, image
  creation parameters, frame pacing and command-buffer upkeep, and the
  configuration defaults.
- `tests/` runs the library on concrete values.
- `app/` holds the driver-facing pieces around the library: it reads the
  configuration with serde, asks Vulkan (through dacite) what a device and surface
  offer and hands those answers to the library, creates the instance, device,
  swapchain and images the library chooses, allocates, maps, writes and flushes
  device memory as the library's memory manager directs, routes validation
  messages to the log, and keeps the floating-point frame timings. Its render loop
  runs the library's frame state machine over a `FrameDriver` trait; the renderer
  that would implement that trait (render passes, shaders, command recording,
  texture and mesh loading, plugins) is not part of this crate.
