# maze_runner

A small ray-casting maze game ("Laberinto: la casa abandonada"), with its
game logic written as a Verus library.

* `src/` is the verified library: the frame buffer and every drawing
  primitive (rectangles, points, discs, maze blocks, 8x8 bitmap text), the
  menu screens, level selection, the screen-to-screen game flow, the frame
  counter, reading maze files into cells, the cell tests the player's
  movement relies on, gamepad button edges, decoding wall textures (through
  the image crate) and the music switch. Each function states exactly what it draws or returns.
* `app/` is the program around it: the window (minifb), the gamepad
  (gilrs), music (rodio), reading files, and the parts computed in
  floating point — the player's movement, the 2D and 3D ray casting and the
  minimap.
* `tests/` runs the library on concrete inputs.
