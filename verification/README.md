# gv (ぐらびゅ)

An image viewer for Windows whose logic is verified with Verus.

`src/` is the library `gv`. It holds no state of the system: a document and a
window are state machines that take plain values (listings of folders, bytes,
decoded images, messages) and give back effects and commands.

- `archive`, `bookmark`, `extension_registry`, `file_info`, `paths`, `text`:
  containers, bookmarks and names.
- `file_list`: the list of images, its order, marks and moves.
- `document`: opening, loading, decoding ahead, expanding containers, editing.
- `filter`, `persistent_filter`, `editing`, `selection`, `export`, `image`,
  `pdf_renderer`: pictures.
- `window`: actions, messages, dialogs, the title and the menu.
- `config`, `file_ops`, `ordering`: settings, file dialogs, sorting.

The modules named `laws` state what holds across functions.

`app/` is the program around the library: the window, the disk, threads, the
shell and everything reckoned in floating point. `tests/` runs the library on
values.
