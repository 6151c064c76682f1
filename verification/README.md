# prefab_editor

The logic of a prefab editor, verified with Verus.

- `src/format`: the nested prefab document (prefab, entities, components, prefab references
  and their overrides), the walk that turns it into a stream of storage events, the
  serializer that writes a prefab into a document, and the laws that tie the two together.
- `src/prefab`: the prefab value with its entities, components and references, how it is read
  from and written to a document, and the reader that collects the prefabs a document refers to.
- `src/editor`: editor state (modes, tools, undo and redo of diff steps), selection, the
  simulation pause flags, transactions over entities, gizmo decisions, keyboard and menu
  commands, and the update schedule.
- `src/keymap.rs`: a small map with unique keys used by the editor state.
- `src/uuids.rs`: identifiers and the calls into the `uuid` crate.
- `app/`: a command-line program that reads and writes prefab files in RON through serde.
