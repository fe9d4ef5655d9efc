# survey_cad_truck_gui

The editing model of a survey CAD workspace: every function of the
library carries a contract, proved to hold.

## Layout

`src/` is the verified library.

- `mesh`, `geometry` — triangulated surfaces (vertices, triangles,
  breaklines, boundary loop) and the store of everything the 3D view shows;
  each edit keeps a valid surface valid.
- `engine` — tables of engine objects under stable ids.
- `backend` — the 3D view model: engine ids kept aligned with the geometry,
  editing handles, hover and pick highlighting, alignment handle edits.
- `commands`, `command_line` — undoable edits with their inverses, the undo
  and redo stacks, the command-line grammar, quick-script slots.
- `drawing` — the 2D drawing tools as a state machine fed by presses,
  clicks and keys.
- `selection` — deleting a selection, with the commands that undo it.
- `snap` — the snap candidates of the 3D view, in the order they are tried.
- `field_book` — columns, rows and line work of a field-book CSV.
- `tin_edit` — reading typed indices and index lists, and the surfaces an
  edit applies to.
- `inspector`, `render`, `ui_state` — attribute tables, outline edges, view
  settings.

The library is generic over the point type: measuring with floating-point
coordinates is left to its users.

`app/` is a terminal front end: it reads commands and workspace events from
standard input, keeps the settings file, reads drawings and macros from
disk, and does the floating-point geometry (arcs, snapping distances).

`tests/` runs the library on concrete drawings.
