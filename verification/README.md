# helix_picker

The logic behind an editor's pickers, verified with Verus: a list of items that
is narrowed down by typing, a preview of the selected one (text, directory
listings, images and PDF pages in terminals that can draw them), and a file
explorer with the operations that go with it.

- `src/` is the library. Its functions state what they return or change, and
  Verus proves it. Functions whose names start with `law_` state what holds of
  several functions together. What is believed of the standard library and of
  other crates stands in `text`, `matcher` and `media`, in functions marked
  `external_body` and in declared types.
- `app/` is what surrounds it: files, processes, threads, the terminal, and the
  floating-point arithmetic that fits an image into cells. The editor itself
  comes in through the traits in `app/host.rs`.
- `tests/` runs the library with the real matcher.

| module | what it holds |
| --- | --- |
| `text`, `path`, `geometry` | text, paths as bytes, rectangles of cells |
| `key` | keys, and what a picker does on them |
| `matcher`, `column`, `query`, `highlight` | matching, columns, queries, picking out matches |
| `layout`, `picker` | the picker: its panes, its state and its events |
| `preview`, `pane`, `draw`, `placeholder` | what a preview shows, and how it is drawn |
| `graphics`, `media`, `raster` | terminal graphics, images and PDFs, the tools that render them |
| `explorer`, `fileops` | the file explorer and its operations, step by step |

Matching is done by the `nucleo` crate, whose worker runs on threads of its own:
that items are handed to it is stated, what it has found by when is not. Paths are separated by
`/`.
