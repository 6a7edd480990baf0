# physics_simulation

A sphere physics sandbox drawn by a ray-tracing fragment shader. The verified
library in `src/` holds its decisions and data layout:

- `controls`: the state the window loop keeps (pause, hard shadows, mouse
  lock, focus, frame-rate limit, frame count, keys held) and, for each frame,
  the ordered list of things the frame does, with laws such as "a held key
  acts once" and "a running world advances exactly once per frame".
- `mesh`: triangles of an OBJ mesh and the fixed arrays handed to the shaders.
- `uniforms`: the order and names of the shader uniforms, with a proof that no
  two uniforms share a name.
- `matrix`: a 4x4 matrix rearranged from columns to rows.

`app/` is the program: window, rendering, keyboard and mouse, the OBJ reader
and the floating-point physics.
