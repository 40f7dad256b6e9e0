# asteroids_3d

A small 3D asteroids game built on wgpu and winit.

- `src/` is the verified library:
  - `model`: the instance storage shared by all models. Each model owns a
    contiguous bucket of slots; adding, removing and changing instances keep
    the buckets laid out without gaps, and the laws in this module state what
    each operation does to the instances of every model.
  - `camera`: the keyboard state of the camera (free or locked, held movement keys).
  - `game`: the keyboard state of the ship (roll and speed-change factors) and
    the routing of key events between the ship, the camera and the window.
  - `keyboard`: the keys the game reacts to.
- `app/` is the program around it: window and event loop, GPU device, buffers
  and render pass, and the floating-point motion of the camera, the ship and
  the asteroids.
- `tests/` exercises the library on concrete values.
