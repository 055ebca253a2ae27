# EV Prototype Control Center

Control software for the EV prototype of Texas A&M FLiNT (Team Autopilot):
an operator panel with camera feed, map and driving controls, and a
terminal controller, both driving the vehicle's ESP32 board over a serial
line with newline-terminated JSON commands such as `{"t":25,"s":-30,"b":false}`.

## Layout

- `src/` — the verified library (Verus):
  - `controls` — the driving control law (throttle, steering, brake per tick);
  - `keys` — which driving keys count as held;
  - `vehicle` — the vehicle state, its reset and the command sent;
  - `session` — the panel's decisions per frame (input, emergency stop, reset,
    reconnect, camera switch, driving tick, command pacing);
  - `logbook` — the time-stamped operator log;
  - `camera`, `camera_view` — the shared camera state, BGRA to RGB conversion,
    the shaded character view of a frame;
  - `map_canvas`, `map_tiles` — composing the map picture from tiles, tile
    names and addresses, the tile cache;
  - `ports` — choosing the board's serial port, port descriptions;
  - `console` — the terminal controller's keys, pacing and screen text;
  - `text` — decimal and hexadecimal text, substring search.
- `tests/` — tests of the library.
- `app/` — the programs around it: the window (eframe/egui), the terminal
  (crossterm), the serial port, the camera thread, tile download and disk
  cache, and the floating-point parts (map projection, simulated motion).
  Run without arguments for the panel, with `--tui [PORT|--list]` for the
  terminal controller.
