# aetheria

The game logic of Aetheria, a small multiplayer crafting game, and of its server, `arbiter`,
written in Verus: the functions in `src/` carry contracts that Verus proves, except a few small
wrappers, whose contracts are trusted: around `String::push`, `String::from_utf8`,
`char::to_uppercase` and `str::to_uppercase`, and around the image decoding of `image` and the
QOI encoding of `qoi`.

## Layout

- `src/item.rs`, `src/inventory.rs`, `src/data.rs`: items and stacks, the inventory (at most
  one stack per item; the stacks it changes are kept for report to the server), recipes and
  crafting.
- `src/entities.rs`: what trees, ores, fireflies, the furnace and the crafting bench do when
  the player interacts with them.
- `src/indexed_map.rs`, `src/server.rs`: the server's table of connected players, heartbeats
  and time-outs, and the decisions of its packet handlers (login, signup, moves, inventory
  writes, disconnections).
- `src/net/`: the packets exchanged by the client and the server; `src/session.rs`: what the
  client does with the packets it receives.
- `src/ui.rs`, `src/panels.rs`: widget layout and painting, and the windows of the interface.
- `src/render.rs`, `src/vulkan.rs`, `src/shader.rs`: how meshes are packed into the renderer's
  buffers, the choices made when setting up a Vulkan swapchain, and how shader files are named
  and the code generated for them; `src/assets.rs`, `src/paths.rs`: how the asset build sorts
  the files it finds, where it writes what it makes of them, textures, and the index module of
  the generated shader modules.
- `src/input.rs`, `src/observable.rs`: keyboard and mouse state, and observed values.
- `tests/`: tests of the library on concrete values.
- `app/`: the server program, which receives packets over UDP, keeps its data in SQLite and
  leaves every decision to the library.
