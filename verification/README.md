# ragnarok_rebuild_bevy

Game-file logic for a Bevy client of Ragnarok Online worlds, with its
behaviour stated in contracts and proved by Verus.

- `src/` is the verified library: the world quad tree and its pre-order
  walk, the tile grid of altitude files, the face plan of ground meshes,
  the grouping of model faces into primitives and the sharing of smooth
  mesh corners (over bevy's hash map, behind stated wrappers), palette and
  sprite pixel data, actor frame events and animation stepping, asset
  paths, archive lookup errors, water plane frames and the debug switches.
- `app/` is the Bevy glue around it: plugins, asset loaders, systems,
  observers, gizmo drawing and the float geometry, each calling the library
  for the decisions it takes.
- `tests/` runs the library on concrete values.
