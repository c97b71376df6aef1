# hyprrgn

A recursive grid navigator for Wayland: a fullscreen overlay draws a grid over the screen, keys
narrow the selection cell by cell, and the center of the last cell is printed on confirm.

The logic is a Verus library under `src/`, verified against its contracts:

- `geometry`: rectangles, splitting a length, the cells of a grid
- `grid`: the navigation state
- `session`: what input events do to the navigation state
- `events`, `input`: the event queue, and what a key press means
- `keys`, `labels`: key names, key codes and keysyms; cell labels and the keys that select cells
- `config`: settings and the environment variables that override them
- `backend`: outputs, buffers, surface size and keyboard of the display
- `overlay`: what is drawn where
- `text`: trimming, ASCII case, decimal numbers

`app/` is the program around it: the Wayland connection, drawing, files and environment. The
library never asks for a keysym itself; it says which names to look up and takes the numbers.

## Settings

The configuration file is `~/.config/hyprrgn/config.toml`, or what `HYPRRGN_CONFIG` names.

```toml
grid_size = { rows = 2, cols = 2 }
grid_color = { r = 1.0, g = 1.0, b = 1.0 }

[keybindings]
cells = [
  ["u", "i"],
  ["j", "k"],
]
backspace = "backspace"
esc = "escape"
enter = "return"
```

`HYPRRGN_GRID=3x3` and `HYPRRGN_KEYS=asdfqwer...` (row by row) override it. The grid has at most
ten rows and ten columns.
