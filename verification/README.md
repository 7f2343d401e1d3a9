# iced_digraph

The verified core of an interactive **digraph heatmap** viewer for raw binary data, and the desktop
program around it.

- `src/` is the library, written in Verus: the rules of the viewer, each with a contract that is
  proved. One contract is believed without proof: that of the standard library's
  `Vec::try_reserve_exact`, behind the function of that name in `app`.
  - `coord`: screen and range coordinates as binary32 bit patterns, and their order.
  - `color`: the false colors of byte values, as exact fractions.
  - `strip`: how a file is cut into bands and color segments on the byte rail.
  - `minimap`: the byte rail, its handles, and what dragging them does.
  - `loader`: reading a file in chunks, as a state machine.
  - `app`: the viewer's state and what each message does to it.
- `tests/` exercises the library.
- `app/` is the desktop program: windows and widgets (Iced), the file dialog, file reads, and the
  floating-point arithmetic. Where the ends of the selection fall among the bytes, and how far a
  drag shifts the selection, is computed there: the library takes these numbers and decides what
  becomes of them. It needs the sibling `digraph` library, which counts the byte pairs and renders
  the heatmap.

While a file is loading, the rail shows a placeholder until all bytes are there, and the heatmap
stands still until the load has ended.
