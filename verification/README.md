# wyck_chart

The chart logic of a terminal trading panel, written in Verus: every function in `src/` carries
a contract that Verus proves, and the properties that span several functions are stated and
proved as laws (public proof functions named `law_...`).

## Layout

| Path | What it holds |
|---|---|
| `src/flow.rs` | Order flow: classifying quotes as buys and sells, tallies per bar and price, what history to ask for |
| `src/footprint.rs` | Footprint analysis: rows, point of control, value area, imbalances and their stacks |
| `src/double.rs` | The rounding of a binary64 number, for results that the panel computes in floating point |
| `src/axis.rs` | Steps and labels of the time axis, the crosshair date |
| `src/load.rs` | The walks that fetch history forward, backward and in tick windows |
| `src/live.rs` | What each chart wants streamed, and the plan that brings the server there |
| `src/custom.rs` | Slots of script indicators, scheduling runs and reporting them |
| `src/book.rs`, `src/creating.rs`, `src/pointer.rs` | Drawings: ids, stacking, undo and redo, making a drawing point by point, what the pointer is over |
| `src/tools.rs`, `src/marks.rs` | The drawing tools and what each offers; durations, table cells, icons |
| `src/presets.rs` | Themes and candle colors |
| `src/export.rs`, `src/text.rs`, `src/sorted.rs` | Small helpers: sizes of files, writing numbers, sorted sets |
| `tests/` | Tests of the library on concrete values |
| `app/` | Plain Rust around the library: file formats, floating-point layout, the asynchronous drivers |

The library calls the `time` crate to read a Unix second as a UTC date; `app/` uses `serde` and
`serde_json` for the saved documents.
