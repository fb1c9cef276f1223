# egui_rad_builder

A RAD GUI builder for `egui`: widgets are dragged from a palette onto a canvas or into
side panels, arranged, edited in an inspector, and turned into the Rust source of an
`eframe` application.

The crate is split in two:

- `src/` is the library, verified with Verus: the widget model, the editing operations
  (selection, z-order, nudging, copy/paste/duplicate, alignment, distribution, sizing,
  dragging, resizing, snapping), the dock-area geometry, the outline parser of tree
  widgets, the date the date picker shows, the code generator and the syntax highlighting
  of its output (through syntect). Geometry is held in
  tenths of a point and slider values in thousandths, so every computation is exact and
  the generated code prints them as decimals.
- `app/` is the `eframe` program around it: window, menus, palette, inspector, canvas
  drawing, keyboard shortcuts, file dialogs, JSON files (serde) and the egui layout of
  the highlighted code.

Module map of the library:

| module     | contents                                                        |
|------------|-----------------------------------------------------------------|
| `widget`   | widget kinds, categories, default sizes and properties, escaping |
| `project`  | the project (widgets, canvas, panels)                           |
| `editor`   | the editing state and its operations                            |
| `arrange`  | align, distribute and match-size                                |
| `sorting`  | stable sorting of widgets                                       |
| `geometry` | rectangles, dock areas under the pointer, grid lines            |
| `text`     | lines, trimming, searching                                      |
| `tree`     | outline parsing and the generated tree literal                  |
| `fmt`      | decimal and fixed-point formatting                              |
| `emit`     | generated code of each widget                                   |
| `codegen`  | the generated files                                             |
| `date`     | the date shown by a date picker                                 |
| `highlight`| syntax highlighting of generated code into coloured spans        |
