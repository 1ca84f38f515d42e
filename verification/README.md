# delta_pico

The operating system of the Delta Pico, a graphing calculator built around a Raspberry Pi Pico,
as a library verified with Verus, and a headless simulator around it.

`src/` holds the verified library:

- `storage`, `raw_storage`, `chunk_table`, `calculation_history`, `settings`, `fat`: the storage
  device interface, areas of storage, the chunk allocator, the stored calculation history, the
  settings flags and the USB mass storage drive image.
- `display`, `graphics`, `bitmap`, `font`, `text`, `wrap`, `saturating`: colours, the sprite
  that is drawn onto (pixels, lines, rectangles, sprites, run-length bitmaps, text and word
  wrapping).
- `input`, `multi_tap`, `hal`: keys, phone-style text entry and the button matrix's debouncing.
- `os`, `menu`, `selector`, `context_menu`, `catalog`, `real_time`, `timer`: the operating
  system's state machine, its menus and the event model of real-time applications.
- `numbers_game`, `tetris`, `apps`, `settings_app`, `calculator`, `graph`, `sprite_cache`, `rbop_impl`,
  `decimal`, `random`: the applications' rules.

`app/` is the simulator: it reads key names from standard input, runs the operating system and
the launcher, 2048, Tetris, the T9 test, the storage viewer, the about screen and the settings
(with the graphics benchmark) from the library, and writes each frame to `frame.ppm`. The
calculator and the graph plotter need the expression engine, which the simulator does not have.
It also draws lines at angles other than horizontal and vertical, whose anti-aliasing needs
floating point.
