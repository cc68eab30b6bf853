# Onyx Launcher

A taskbar-pinned app drawer for Windows: a pin opens a drawer that slides
up from the taskbar with a grid of pinned apps, a search box, and an
"Add app" tile. Categories are separate drawers, each with its own app
list and its own executable.

## Layout

- `src/` is the verified library, checked by Verus:
  - `config` — the pinned app list and where each drawer keeps it;
  - `drawer` — the drawer's state machine, search box, app filter and
    what each click or key press asks of the window;
  - `geometry` — where the drawer sits on the monitor's work area;
  - `icon` — turning a device-independent bitmap into straight BGRA;
  - `resource_icon` — reading `.ico` files, writing the `RT_GROUP_ICON`
    resource, and building an `.ico` from any picture with the `ico` and
    `image` crates;
  - `instance` — the names and messages through which launches of the
    same drawer find each other;
  - `category` — naming and checking a new category;
  - `text` — the string operations the rest relies on.
- `tests/` exercises the library on concrete values.
- `app/` is the Windows program around it: the window and event loop
  (winit), drawing (GDI+), shell icon extraction, the resident-drawer
  TCP hub, the config file on disk, and the category maker (egui).
