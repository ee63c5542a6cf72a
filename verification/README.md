# learn_opengl

OpenGL rendering examples (triangles, textures, cameras, lighting, model
loading, framebuffers, instancing, HDR) split into a verified library and
the application that drives the GPU.

- `src/` is the library, verified with Verus. It holds the decisions the
  examples make on plain values: texture formats by pixel layout and color
  type, interleaved vertex attribute layouts, assembling OBJ meshes into
  vertices, the texture cache of a loaded model (each file is uploaded
  once), the instancing grid, the integer draws of the asteroid field, GLSL
  uniform names, window event handling, held movement keys and the life
  cycle of each example's GPU state (set up, render, reset).
- `tests/` runs the library on concrete values.
- `app/` is ordinary Rust: the window and its input, shaders, GPU buffers
  and textures, image and OBJ file reading, the camera and every example's
  setup and frame, all of which use floating point or talk to the driver.
  It hands the library plain values and carries out what the library
  decides.
